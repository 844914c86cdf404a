//! The plugin SDK's translation keys: `plugin.<plugin id>.<key>`.
//!
//! The plugin id is handed over by the host during the `plugin/initialize`
//! handshake and set once; later attempts to set it leave it unchanged.
use vstd::prelude::*;
use crate::text::push_str;

verus! {

/// The current plugin's id, set at most once.
#[derive(Debug)]
pub struct PluginIdSlot {
    id: Option<String>,
}

impl PluginIdSlot {
    /// A slot with no id yet.
    pub fn new() -> (r: Self)
        ensures
            r.id() is None,
    {
        PluginIdSlot { id: None }
    }

    /// The id, once set.
    pub closed spec fn id(&self) -> Option<Seq<char>> {
        match self.id {
            Some(s) => Some(s@),
            None => None,
        }
    }

    /// Whether the id has been set.
    pub fn is_set(&self) -> (b: bool)
        ensures
            b == self.id() is Some,
    {
        self.id.is_some()
    }
}

/// Records the plugin id handed over by the host; only the first call takes
/// effect.
pub fn set_plugin_id(slot: &mut PluginIdSlot, plugin_id: &str)
    ensures
        old(slot).id() is None ==> final(slot).id() == Some(plugin_id@),
        old(slot).id() is Some ==> final(slot).id() == old(slot).id(),
{
    if slot.id.is_none() {
        let mut s = String::new();
        push_str(&mut s, plugin_id);
        slot.id = Some(s);
    }
}

/// The translation key of the current plugin.
pub open spec fn namespaced_key(plugin_id: Seq<char>, key: Seq<char>) -> Seq<char> {
    "plugin."@ + plugin_id + "."@ + key
}

/// The translation key `plugin.<current plugin id>.<key>`; the plugin id
/// must have been set.
pub fn t_key(slot: &PluginIdSlot, key: &str) -> (r: String)
    requires
        slot.id() is Some,
    ensures
        r@ == namespaced_key(slot.id()->0, key@),
{
    let mut out = String::new();
    push_str(&mut out, "plugin.");
    match &slot.id {
        Some(id) => push_str(&mut out, id.as_str()),
        None => {},
    }
    push_str(&mut out, ".");
    push_str(&mut out, key);
    out
}

} // verus!
