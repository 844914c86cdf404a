//! Built-in embedding model profiles: input templates per semantic task.
use vstd::prelude::*;
use crate::model::types::SemanticTask;
use crate::text::{chars_of, matches_at, owned, rfind, rfind_chars, starts_with, lemma_rfind_some};
use vstd::slice::slice_subrange;

verus! {

/// A built-in embedding model profile.
#[derive(Debug, Clone, PartialEq, Eq)]
pub struct EmbeddingModelProfile {
    /// Prefix of the model name (the part after the last `/` of the model id).
    pub id_prefix: String,
    /// Input template per semantic task; `{0}` stands for the input text.
    pub task_templates: Vec<(SemanticTask, String)>,
}

/// The model name: the part of `model_id` after its last `/` (all of it when there is none).
pub open spec fn model_name(model_id: Seq<char>) -> Seq<char> {
    match rfind(model_id, seq!['/']) {
        Some(p) => model_id.subrange(p + 1, model_id.len() as int),
        None => model_id,
    }
}

/// Prefix of the first profile (qwen3-embedding).
pub open spec fn qwen3_prefix() -> Seq<char> {
    "qwen3-embedding"@
}

/// Prefix of the second profile (gemma-embedding).
pub open spec fn gemma_prefix() -> Seq<char> {
    "gemma-embedding"@
}

/// Index of the first profile whose prefix starts the model name.
pub open spec fn profile_index(model_id: Seq<char>) -> Option<int> {
    let name = model_name(model_id);
    if starts_with(name, qwen3_prefix()) {
        Some(0)
    } else if starts_with(name, gemma_prefix()) {
        Some(1)
    } else {
        None
    }
}

/// Template of profile `p` for `task`.
pub open spec fn profile_template(p: int, task: SemanticTask) -> Seq<char> {
    if p == 0 {
        match task {
            SemanticTask::RetrievalDocument => "{0}"@,
            SemanticTask::RetrievalQuery => "Instruct: Given a web search query, retrieve relevant passages that answer the query\nQuery:{0}"@,
            SemanticTask::SemanticSimilarity => "Instruct: Given two sentences, determine how similar they are to each other\nQuery:{0}"@,
            SemanticTask::Classification => "Instruct: Given a text, classify it into the appropriate category\nQuery:{0}"@,
            SemanticTask::Clustering => "Instruct: Given a text, determine the cluster it belongs to\nQuery:{0}"@,
            SemanticTask::PlainText => "{0}"@,
        }
    } else {
        match task {
            SemanticTask::RetrievalDocument => "title: {title:none} | text: {0}"@,
            SemanticTask::RetrievalQuery => "task: search result | query: {0}"@,
            SemanticTask::SemanticSimilarity => "task: sentence similarity | query: {0}"@,
            SemanticTask::Classification => "task: classification | query: {0}"@,
            SemanticTask::Clustering => "task: clustering | query: {0}"@,
            SemanticTask::PlainText => "{0}"@,
        }
    }
}

/// Template for `task` when the model has a profile; `None` (input passed
/// through) otherwise.
pub open spec fn template_spec(task: SemanticTask, model_id: Seq<char>) -> Option<Seq<char>> {
    match profile_index(model_id) {
        Some(p) => Some(profile_template(p, task)),
        None => None,
    }
}

fn all_tasks() -> (v: Vec<SemanticTask>)
    ensures
        v@ == seq![
            SemanticTask::RetrievalDocument,
            SemanticTask::RetrievalQuery,
            SemanticTask::SemanticSimilarity,
            SemanticTask::Classification,
            SemanticTask::Clustering,
            SemanticTask::PlainText,
        ],
{
    let mut v = Vec::new();
    v.push(SemanticTask::RetrievalDocument);
    v.push(SemanticTask::RetrievalQuery);
    v.push(SemanticTask::SemanticSimilarity);
    v.push(SemanticTask::Classification);
    v.push(SemanticTask::Clustering);
    v.push(SemanticTask::PlainText);
    v
}

fn template_text(p: usize, task: SemanticTask) -> (r: &'static str)
    requires
        p < 2,
    ensures
        r@ == profile_template(p as int, task),
{
    if p == 0 {
        match task {
            SemanticTask::RetrievalDocument => "{0}",
            SemanticTask::RetrievalQuery => "Instruct: Given a web search query, retrieve relevant passages that answer the query\nQuery:{0}",
            SemanticTask::SemanticSimilarity => "Instruct: Given two sentences, determine how similar they are to each other\nQuery:{0}",
            SemanticTask::Classification => "Instruct: Given a text, classify it into the appropriate category\nQuery:{0}",
            SemanticTask::Clustering => "Instruct: Given a text, determine the cluster it belongs to\nQuery:{0}",
            SemanticTask::PlainText => "{0}",
        }
    } else {
        match task {
            SemanticTask::RetrievalDocument => "title: {title:none} | text: {0}",
            SemanticTask::RetrievalQuery => "task: search result | query: {0}",
            SemanticTask::SemanticSimilarity => "task: sentence similarity | query: {0}",
            SemanticTask::Classification => "task: classification | query: {0}",
            SemanticTask::Clustering => "task: clustering | query: {0}",
            SemanticTask::PlainText => "{0}",
        }
    }
}

/// The model name of `model_id`, as characters.
fn name_chars(model_id: &str) -> (r: Vec<char>)
    ensures
        r@ == model_name(model_id@),
{
    let cs = chars_of(model_id);
    let mut slash: Vec<char> = Vec::new();
    slash.push('/');
    assert(slash@ == seq!['/']);
    let n = cs.len();
    match rfind_chars(cs.as_slice(), slash.as_slice()) {
        Some(p) => {
            assert(p + 1 <= n);
            vstd::slice::slice_to_vec(slice_subrange(cs.as_slice(), p + 1, n))
        },
        None => cs,
    }
}

fn profile_index_of(model_id: &str) -> (r: Option<usize>)
    ensures
        match r {
            Some(p) => profile_index(model_id@) == Some(p as int) && p < 2,
            None => profile_index(model_id@) is None,
        },
{
    let name = name_chars(model_id);
    let q = chars_of("qwen3-embedding");
    if matches_at(name.as_slice(), q.as_slice(), 0) {
        return Some(0);
    }
    let g = chars_of("gemma-embedding");
    if matches_at(name.as_slice(), g.as_slice(), 0) {
        return Some(1);
    }
    None
}

/// The profile that matches `model_id`: the first whose prefix starts the
/// model name (the part after the last `/`).
pub fn profile_for(model_id: &str) -> (r: Option<EmbeddingModelProfile>)
    ensures
        match r {
            Some(prof) => profile_index(model_id@) matches Some(p) && {
                &&& prof.id_prefix@ == (if p == 0 { qwen3_prefix() } else { gemma_prefix() })
                &&& prof.task_templates@.len() == 6
                &&& forall|i: int|
                    0 <= i < 6 ==> (#[trigger] prof.task_templates@[i]).1@ == profile_template(
                        p,
                        prof.task_templates@[i].0,
                    )
                &&& prof.task_templates@[0].0 == SemanticTask::RetrievalDocument
                &&& prof.task_templates@[1].0 == SemanticTask::RetrievalQuery
                &&& prof.task_templates@[2].0 == SemanticTask::SemanticSimilarity
                &&& prof.task_templates@[3].0 == SemanticTask::Classification
                &&& prof.task_templates@[4].0 == SemanticTask::Clustering
                &&& prof.task_templates@[5].0 == SemanticTask::PlainText
            },
            None => profile_index(model_id@) is None,
        },
{
    match profile_index_of(model_id) {
        None => None,
        Some(p) => {
            let prefix = if p == 0 {
                owned("qwen3-embedding")
            } else {
                owned("gemma-embedding")
            };
            let tasks = all_tasks();
            let mut templates: Vec<(SemanticTask, String)> = Vec::new();
            let mut i: usize = 0;
            while i < tasks.len()
                invariant
                    p < 2,
                    i <= tasks@.len(),
                    tasks@.len() == 6,
                    templates@.len() == i,
                    forall|j: int| 0 <= j < i ==> (#[trigger] templates@[j]).0 == tasks@[j],
                    forall|j: int| 0 <= j < i ==> (#[trigger] templates@[j]).1@ == profile_template(p as int, tasks@[j]),
                decreases tasks.len() - i,
            {
                let t = tasks[i];
                templates.push((t, owned(template_text(p, t))));
                i += 1;
            }
            Some(EmbeddingModelProfile { id_prefix: prefix, task_templates: templates })
        },
    }
}

/// Template for `task` of the profile that matches `model_id`; `None` when no profile matches.
pub fn template_for(task: SemanticTask, model_id: &str) -> (r: Option<&'static str>)
    ensures
        match r {
            Some(t) => template_spec(task, model_id@) == Some(t@),
            None => template_spec(task, model_id@) is None,
        },
{
    match profile_index_of(model_id) {
        None => None,
        Some(p) => Some(template_text(p, task)),
    }
}

} // verus!
