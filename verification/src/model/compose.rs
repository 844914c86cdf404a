//! Assembling embedding inputs: rendering the task template of a model.
use vstd::prelude::*;
use vstd::slice::slice_subrange;
use crate::model::profiles::{template_for, template_spec};
use crate::model::types::{EmbeddingCapability, EmbeddingTemplateArgs, ModelError, SemanticTask};
use crate::text::{chars_of, find, find_chars, lemma_find_from_some, owned, push_chars, push_str, starts_with_char, str_eq, string_of};

verus! {

/// `s` with every occurrence of `from` (taken left to right, without overlap)
/// replaced by `to`, as `str::replace` for a non-empty pattern.
pub open spec fn replace_all(s: Seq<char>, from: Seq<char>, to: Seq<char>) -> Seq<char>
    decreases s.len(),
{
    match find(s, from) {
        None => s,
        Some(p) => {
            proof {
                lemma_find_from_some(s, from, 0);
            }
            if from.len() == 0 {
                s
            } else {
                s.subrange(0, p) + to + replace_all(s.subrange(p + from.len(), s.len() as int), from, to)
            }
        },
    }
}

/// Replaces every occurrence of `from` in `s` by `to`.
pub fn replace_str(s: &str, from: &str, to: &str) -> (out: String)
    requires
        from@.len() > 0,
    ensures
        out@ == replace_all(s@, from@, to@),
{
    let pat = chars_of(from);
    let rep = chars_of(to);
    let all = chars_of(s);
    let mut out = String::new();
    let mut rest: &[char] = all.as_slice();
    loop
        invariant
            pat@ == from@,
            rep@ == to@,
            pat@.len() > 0,
            out@ + replace_all(rest@, from@, to@) == replace_all(s@, from@, to@),
        decreases rest@.len(),
    {
        match find_chars(rest, pat.as_slice()) {
            None => {
                push_chars(&mut out, rest);
                return out;
            },
            Some(p) => {
                let n = rest.len();
                assert(p + pat@.len() <= n);
                push_chars(&mut out, slice_subrange(rest, 0, p));
                push_chars(&mut out, rep.as_slice());
                rest = slice_subrange(rest, p + pat.len(), n);
            },
        }
    }
}

/// The value of a placeholder, or its fallback.
pub open spec fn value_or(value: Option<Seq<char>>, fallback: Seq<char>) -> Seq<char> {
    match value {
        Some(v) => v,
        None => fallback,
    }
}

/// `rest` with the named placeholder `pat` (`{` and the name) replaced:
/// `{name}` by the value (empty when absent), `{name:default}` by the value
/// or else `default`; an unclosed `{name:` and everything after it stays,
/// and `{name` followed by anything else stays as it is.
pub open spec fn replace_named_spec(rest: Seq<char>, pat: Seq<char>, value: Option<Seq<char>>) -> Seq<char>
    decreases rest.len(),
{
    match find(rest, pat) {
        None => rest,
        Some(pos) => {
            proof {
                lemma_find_from_some(rest, pat, 0);
            }
            if pat.len() == 0 {
                rest
            } else {
                let after = rest.subrange(pos + pat.len(), rest.len() as int);
                if after.len() > 0 && after[0] == '}' {
                    rest.subrange(0, pos) + value_or(value, Seq::empty()) + replace_named_spec(
                        after.subrange(1, after.len() as int),
                        pat,
                        value,
                    )
                } else if after.len() > 0 && after[0] == ':' {
                    let cr = after.subrange(1, after.len() as int);
                    match find(cr, seq!['}']) {
                        Some(close) => {
                            proof {
                                lemma_find_from_some(cr, seq!['}'], 0);
                            }
                            rest.subrange(0, pos) + value_or(value, cr.subrange(0, close))
                                + replace_named_spec(cr.subrange(close + 1, cr.len() as int), pat, value)
                        },
                        None => rest,
                    }
                } else {
                    rest.subrange(0, pos) + pat + replace_named_spec(after, pat, value)
                }
            }
        },
    }
}

/// Replaces the named placeholder `{name}` / `{name:default}` in `template`.
pub fn replace_named(template: &str, name: &str, value: Option<&str>) -> (out: String)
    ensures
        out@ == replace_named_spec(template@, seq!['{'] + name@, match value {
            Some(v) => Some(v@),
            None => None,
        }),
{
    let ghost val = match value {
        Some(v) => Some(v@),
        None => None::<Seq<char>>,
    };
    let mut pat: Vec<char> = Vec::new();
    pat.push('{');
    let nm = chars_of(name);
    let mut k: usize = 0;
    while k < nm.len()
        invariant
            k <= nm@.len(),
            pat@ == seq!['{'] + nm@.subrange(0, k as int),
        decreases nm.len() - k,
    {
        pat.push(nm[k]);
        assert(nm@.subrange(0, k + 1) == nm@.subrange(0, k as int).push(nm@[k as int]));
        k += 1;
    }
    assert(nm@.subrange(0, nm@.len() as int) == nm@);
    let all = chars_of(template);
    let mut close: Vec<char> = Vec::new();
    close.push('}');
    let mut out = String::new();
    let mut rest: &[char] = all.as_slice();
    loop
        invariant
            pat@ == seq!['{'] + name@,
            close@ == seq!['}'],
            val == (match value {
                Some(v) => Some(v@),
                None => None::<Seq<char>>,
            }),
            out@ + replace_named_spec(rest@, pat@, val) == replace_named_spec(template@, pat@, val),
        decreases rest@.len(),
    {
        match find_chars(rest, pat.as_slice()) {
            None => {
                push_chars(&mut out, rest);
                return out;
            },
            Some(pos) => {
                let n = rest.len();
                assert(pos + pat@.len() <= n);
                let after = slice_subrange(rest, pos + pat.len(), n);
                if after.len() > 0 && after[0] == '}' {
                    push_chars(&mut out, slice_subrange(rest, 0, pos));
                    match value {
                        Some(v) => push_str(&mut out, v),
                        None => {},
                    }
                    assert(out@ + replace_named_spec(after@.subrange(1, after@.len() as int), pat@, val)
                        == replace_named_spec(template@, pat@, val));
                    rest = slice_subrange(after, 1, after.len());
                } else if after.len() > 0 && after[0] == ':' {
                    let cr = slice_subrange(after, 1, after.len());
                    match find_chars(cr, close.as_slice()) {
                        Some(c) => {
                            let m = cr.len();
                            assert(c + 1 <= m);
                            push_chars(&mut out, slice_subrange(rest, 0, pos));
                            match value {
                                Some(v) => push_str(&mut out, v),
                                None => push_chars(&mut out, slice_subrange(cr, 0, c)),
                            }
                            rest = slice_subrange(cr, c + 1, m);
                        },
                        None => {
                            push_chars(&mut out, rest);
                            return out;
                        },
                    }
                } else {
                    push_chars(&mut out, slice_subrange(rest, 0, pos));
                    push_chars(&mut out, pat.as_slice());
                    rest = after;
                }
            },
        }
    }
}

/// The rendered input: `{0}` replaced by the text, then `{title}` /
/// `{title:default}` replaced by the title.
pub open spec fn rendered(template: Seq<char>, text: Seq<char>, title: Option<Seq<char>>) -> Seq<char> {
    replace_named_spec(replace_all(template, "{0}"@, text), seq!['{'] + "title"@, title)
}

/// Renders a template for one input.
pub fn render_template(template: &str, text: &str, title: Option<&str>) -> (out: String)
    ensures
        out@ == rendered(template@, text@, match title {
            Some(t) => Some(t@),
            None => None,
        }),
{
    let zero = "{0}";
    let zc = chars_of(zero);
    proof {
        reveal_strlit("{0}");
    }
    assert(zc@.len() == 3);
    let first = replace_str(template, zero, text);
    replace_named(first.as_str(), "title", title)
}

/// The title the template arguments give for input `idx`.
pub open spec fn arg_title(args: Option<Seq<EmbeddingTemplateArgs>>, idx: int) -> Option<Seq<char>> {
    match args {
        Some(a) => if 0 <= idx < a.len() {
            match a[idx].title {
                Some(t) => Some(t@),
                None => None,
            }
        } else {
            None
        },
        None => None,
    }
}

/// The texts sent to an embedding model: each input rendered with the
/// model's template for `task` (titles from the template arguments, a
/// missing argument counting as none); the inputs themselves when the model
/// has no profile.
pub open spec fn composed(
    input: Seq<String>,
    task: SemanticTask,
    model_id: Seq<char>,
    args: Option<Seq<EmbeddingTemplateArgs>>,
    out: Seq<String>,
) -> bool {
    &&& out.len() == input.len()
    &&& forall|i: int|
        0 <= i < input.len() ==> (#[trigger] out[i])@ == match template_spec(task, model_id) {
            Some(t) => rendered(t, input[i]@, arg_title(args, i)),
            None => input[i]@,
        }
}

/// The title of the template argument at the same place, taken as text.
pub open spec fn title_text(arg: EmbeddingTemplateArgs) -> Option<Seq<char>> {
    match arg.title {
        Some(t) => Some(t@),
        None => None,
    }
}

/// The template arguments correspond one to one with the inputs: with a
/// template, input `i` is rendered with its own text and the title of
/// argument `i`, and without a title where there is no argument `i`;
/// without a template each input is sent as it is.
pub proof fn lemma_each_input_gets_its_own_title(
    input: Seq<String>,
    task: SemanticTask,
    model_id: Seq<char>,
    a: Seq<EmbeddingTemplateArgs>,
    out: Seq<String>,
)
    requires
        composed(input, task, model_id, Some(a), out),
    ensures
        out.len() == input.len(),
        forall|i: int|
            0 <= i < input.len() ==> (#[trigger] out[i])@ == match template_spec(task, model_id) {
                Some(t) => if i < a.len() {
                    rendered(t, input[i]@, title_text(a[i]))
                } else {
                    rendered(t, input[i]@, None)
                },
                None => input[i]@,
            },
{
    assert forall|i: int| 0 <= i < input.len() implies (#[trigger] out[i])@ == match template_spec(task, model_id) {
        Some(t) => if i < a.len() {
            rendered(t, input[i]@, title_text(a[i]))
        } else {
            rendered(t, input[i]@, None)
        },
        None => input[i]@,
    } by {
        assert(out[i]@ == match template_spec(task, model_id) {
            Some(t) => rendered(t, input[i]@, arg_title(Some(a), i)),
            None => input[i]@,
        });
    }
}

/// Renders the inputs of an embedding request for the model.
pub fn compose_embedding_texts(
    input: &[String],
    task: SemanticTask,
    model_id: &str,
    template_args: Option<&[EmbeddingTemplateArgs]>,
) -> (r: Result<Vec<String>, ModelError>)
    ensures
        r matches Ok(out) && composed(input@, task, model_id@, match template_args {
            Some(a) => Some(a@),
            None => None,
        }, out@),
        r matches Ok(out) && forall|i: int|
            0 <= i < input@.len() ==> match (template_spec(task, model_id@), template_args) {
                (Some(t), Some(a)) => i < a@.len() ==> (#[trigger] out@[i])@ == rendered(
                    t,
                    input@[i]@,
                    title_text(a@[i]),
                ),
                _ => true,
            },
{
    let ghost args = match template_args {
        Some(a) => Some(a@),
        None => None::<Seq<EmbeddingTemplateArgs>>,
    };
    let template = template_for(task, model_id);
    let mut out: Vec<String> = Vec::new();
    let mut i: usize = 0;
    while i < input.len()
        invariant
            i <= input@.len(),
            out@.len() == i,
            args == (match template_args {
                Some(a) => Some(a@),
                None => None::<Seq<EmbeddingTemplateArgs>>,
            }),
            match template {
                Some(t) => template_spec(task, model_id@) == Some(t@),
                None => template_spec(task, model_id@) is None,
            },
            forall|j: int|
                0 <= j < i ==> (#[trigger] out@[j])@ == match template_spec(task, model_id@) {
                    Some(t) => rendered(t, input@[j]@, arg_title(args, j)),
                    None => input@[j]@,
                },
        decreases input.len() - i,
    {
        match template {
            Some(t) => {
                let title: Option<&str> = match template_args {
                    Some(a) => if i < a.len() {
                        match &a[i].title {
                            Some(s) => Some(s.as_str()),
                            None => None,
                        }
                    } else {
                        None
                    },
                    None => None,
                };
                out.push(render_template(t, input[i].as_str(), title));
            },
            None => out.push(owned(input[i].as_str())),
        }
        i += 1;
    }
    Ok(out)
}

/// The error for an undeclared ability.
pub open spec fn undeclared_message(label: Seq<char>) -> Seq<char> {
    "模型未声明支持 "@ + label + " 能力"@
}

/// Checks that `capability` is declared: `InvalidRequest` naming `label` otherwise.
pub fn require_embedding_capability(
    capabilities: &[EmbeddingCapability],
    capability: EmbeddingCapability,
    label: &str,
) -> (r: Result<(), ModelError>)
    ensures
        capabilities@.contains(capability) ==> r is Ok,
        !capabilities@.contains(capability) ==> (r matches Err(ModelError::InvalidRequest(m)) && m@
            == undeclared_message(label@)),
{
    let mut i: usize = 0;
    while i < capabilities.len()
        invariant
            i <= capabilities@.len(),
            forall|j: int| 0 <= j < i ==> capabilities@[j] != capability,
        decreases capabilities.len() - i,
    {
        if capabilities[i] == capability {
            return Ok(());
        }
        i += 1;
    }
    let mut m = String::new();
    push_str(&mut m, "模型未声明支持 ");
    push_str(&mut m, label);
    push_str(&mut m, " 能力");
    Err(ModelError::InvalidRequest(m))
}

/// The serialized name of a task.
pub open spec fn task_name(t: SemanticTask) -> Seq<char> {
    match t {
        SemanticTask::RetrievalDocument => "retrieval_document"@,
        SemanticTask::RetrievalQuery => "retrieval_query"@,
        SemanticTask::SemanticSimilarity => "semantic_similarity"@,
        SemanticTask::Classification => "classification"@,
        SemanticTask::Clustering => "clustering"@,
        SemanticTask::PlainText => "plain_text"@,
    }
}

/// Every task is read back from its serialized name.
pub proof fn lemma_task_names_parse(t: SemanticTask)
    ensures
        task_of(Some(task_name(t))) == Ok::<SemanticTask, Seq<char>>(t),
{
    reveal_strlit("retrieval_document");
    reveal_strlit("retrieval_query");
    reveal_strlit("semantic_similarity");
    reveal_strlit("classification");
    reveal_strlit("clustering");
    reveal_strlit("plain_text");
    assert("retrieval_document"@.len() == 18);
    assert("retrieval_query"@.len() == 15);
    assert("semantic_similarity"@.len() == 19);
    assert("classification"@.len() == 14);
    assert("clustering"@.len() == 10);
    assert("plain_text"@.len() == 10);
    assert("clustering"@[0] != "plain_text"@[0]);
}

/// The error for a request without a task.
pub open spec fn missing_task_message() -> Seq<char> {
    "embedding 调用必须指明 task_type（retrieval_document / retrieval_query / semantic_similarity / classification / clustering / plain_text）"@
}

/// The task an embedding request names: it must name one of the six tasks
/// by its serialized name; a missing or empty one, or an unknown one, is an
/// invalid request.
pub open spec fn task_of(task_type: Option<Seq<char>>) -> Result<SemanticTask, Seq<char>> {
    match task_type {
        None => Err(missing_task_message()),
        Some(t) => if t.len() == 0 {
            Err(missing_task_message())
        } else if t == "retrieval_document"@ {
            Ok(SemanticTask::RetrievalDocument)
        } else if t == "retrieval_query"@ {
            Ok(SemanticTask::RetrievalQuery)
        } else if t == "semantic_similarity"@ {
            Ok(SemanticTask::SemanticSimilarity)
        } else if t == "classification"@ {
            Ok(SemanticTask::Classification)
        } else if t == "clustering"@ {
            Ok(SemanticTask::Clustering)
        } else if t == "plain_text"@ {
            Ok(SemanticTask::PlainText)
        } else {
            Err("未知的 task_type: "@ + t)
        },
    }
}

/// Reads the task of an embedding request.
pub fn validate_task_type(task_type: Option<&str>) -> (r: Result<SemanticTask, ModelError>)
    ensures
        match task_of(match task_type {
            Some(t) => Some(t@),
            None => None,
        }) {
            Ok(t) => r == Ok::<SemanticTask, ModelError>(t),
            Err(m) => (r matches Err(ModelError::InvalidRequest(x)) && x@ == m),
        },
{
    let t = match task_type {
        None => return Err(ModelError::InvalidRequest(owned(
            "embedding 调用必须指明 task_type（retrieval_document / retrieval_query / semantic_similarity / classification / clustering / plain_text）",
        ))),
        Some(t) => t,
    };
    if t.is_empty() {
        return Err(ModelError::InvalidRequest(owned(
            "embedding 调用必须指明 task_type（retrieval_document / retrieval_query / semantic_similarity / classification / clustering / plain_text）",
        )));
    }
    if str_eq(t, "retrieval_document") {
        Ok(SemanticTask::RetrievalDocument)
    } else if str_eq(t, "retrieval_query") {
        Ok(SemanticTask::RetrievalQuery)
    } else if str_eq(t, "semantic_similarity") {
        Ok(SemanticTask::SemanticSimilarity)
    } else if str_eq(t, "classification") {
        Ok(SemanticTask::Classification)
    } else if str_eq(t, "clustering") {
        Ok(SemanticTask::Clustering)
    } else if str_eq(t, "plain_text") {
        Ok(SemanticTask::PlainText)
    } else {
        let mut m = owned("未知的 task_type: ");
        push_str(&mut m, t);
        Err(ModelError::InvalidRequest(m))
    }
}

/// The template arguments that a request's titles give: one per title.
pub fn template_args_of(titles: Option<&[String]>) -> (r: Option<Vec<EmbeddingTemplateArgs>>)
    ensures
        match titles {
            None => r is None,
            Some(t) => (r matches Some(a) && a@.len() == t@.len() && forall|i: int|
                0 <= i < t@.len() ==> ((#[trigger] a@[i]).title matches Some(x) && x@ == t@[i]@)),
        },
{
    match titles {
        None => None,
        Some(t) => {
            let mut out: Vec<EmbeddingTemplateArgs> = Vec::new();
            let mut i: usize = 0;
            while i < t.len()
                invariant
                    i <= t@.len(),
                    out@.len() == i,
                    forall|j: int| 0 <= j < i ==> ((#[trigger] out@[j]).title matches Some(x) && x@ == t@[j]@),
                decreases t.len() - i,
            {
                out.push(EmbeddingTemplateArgs { title: Some(t[i].clone()) });
                i += 1;
            }
            Some(out)
        },
    }
}

} // verus!
