//! Installing the embedded plugin: whether the installed copy is current,
//! and the permissions entry that pre-grants it in Zellij.

use vstd::prelude::*;

use crate::text::{chars_contain, chars_of, contains, push_str, string_of};

verus! {

/// The quoted plugin path that identifies its entry in `permissions.kdl`.
pub open spec fn permissions_key(path: Seq<char>) -> Seq<char> {
    "\""@ + path + "\""@
}

/// The KDL block that grants the plugin at `path` its permissions.
pub open spec fn permissions_entry(path: Seq<char>) -> Seq<char> {
    "\n\""@ + path
        + "\" {\n    ReadCliPipes\n    ReadApplicationState\n    ChangeApplicationState\n}\n"@
}

/// Builds the KDL permissions entry for the plugin at `plugin_path`:
/// `(quoted_key, entry)`, where `quoted_key` is what to look for to detect
/// an existing entry and `entry` is the block to append.
pub fn build_permissions_entry(plugin_path: &str) -> (r: (String, String))
    ensures
        r.0@ == permissions_key(plugin_path@),
        r.1@ == permissions_entry(plugin_path@),
{
    let mut key = string_of("\"");
    push_str(&mut key, plugin_path);
    push_str(&mut key, "\"");
    let mut entry = string_of("\n\"");
    push_str(&mut entry, plugin_path);
    push_str(
        &mut entry,
        "\" {\n    ReadCliPipes\n    ReadApplicationState\n    ChangeApplicationState\n}\n",
    );
    assert(key@ =~= permissions_key(plugin_path@));
    assert(entry@ =~= permissions_entry(plugin_path@));
    (key, entry)
}

/// What to append to the permissions cache, given what could be read of it:
/// nothing where it already names the plugin, the plugin's entry otherwise
/// (also where it could not be read).
pub fn permissions_to_append(contents: Option<&str>, plugin_path: &str) -> (r: Option<String>)
    ensures
        match contents {
            Some(c) if contains(c@, permissions_key(plugin_path@)) => r is None,
            _ => r is Some && r.unwrap()@ == permissions_entry(plugin_path@),
        },
{
    let (key, entry) = build_permissions_entry(plugin_path);
    if let Some(c) = contents {
        let cs = chars_of(c);
        let ks = chars_of(key.as_str());
        if chars_contain(cs.as_slice(), ks.as_slice()) {
            return None;
        }
    }
    Some(entry)
}

/// Whether the installed plugin is current: the file exists and its stored
/// hash attribute equals the embedded plugin's hash.
pub fn plugin_up_to_date(exists: bool, stored: Option<&[u8]>, hash: &[u8]) -> (r: bool)
    ensures
        r == (exists && match stored {
            Some(s) => s@ == hash@,
            None => false,
        }),
{
    if !exists {
        return false;
    }
    match stored {
        Some(s) => bytes_equal(s, hash),
        None => false,
    }
}

fn bytes_equal(a: &[u8], b: &[u8]) -> (r: bool)
    ensures
        r == (a@ == b@),
{
    if a.len() != b.len() {
        return false;
    }
    let mut i: usize = 0;
    while i < a.len()
        invariant
            i <= a.len() == b.len(),
            forall|j: int| 0 <= j < i ==> a@[j] == b@[j],
        decreases a.len() - i,
    {
        if a[i] != b[i] {
            return false;
        }
        i = i + 1;
    }
    assert(a@ =~= b@);
    true
}

/// What to do with an entry met while clearing Zellij's cache of compiled
/// plugins.
#[derive(Debug, Clone, Copy, PartialEq, Eq, Structural)]
pub enum CacheStep {
    /// The depth budget is spent: look no further.
    Stop,
    /// Not a directory: leave it.
    Skip,
    /// A directory named like the plugin file: remove it with its contents.
    Remove,
    /// Another directory: look inside it with this depth budget.
    Descend(usize),
}

/// The step for an entry in a directory searched with depth budget
/// `remaining`: stop once the budget is spent, skip files, remove the
/// directories named like the plugin, and descend into the others with one
/// level less.
pub fn cache_walk_step(remaining: usize, is_dir: bool, is_plugin_name: bool) -> (r: CacheStep)
    ensures
        r == if remaining == 0 {
            CacheStep::Stop
        } else if !is_dir {
            CacheStep::Skip
        } else if is_plugin_name {
            CacheStep::Remove
        } else {
            CacheStep::Descend((remaining - 1) as usize)
        },
{
    if remaining == 0 {
        CacheStep::Stop
    } else if !is_dir {
        CacheStep::Skip
    } else if is_plugin_name {
        CacheStep::Remove
    } else {
        CacheStep::Descend(remaining - 1)
    }
}

/// How deep to search the cache for a plugin whose path has `components`
/// components: the path's depth plus two, for the `file:` prefix and a
/// session directory.
pub fn cache_search_depth(components: usize) -> (r: usize)
    requires
        components + 2 <= usize::MAX,
    ensures
        r == components + 2,
{
    components + 2
}

} // verus!
