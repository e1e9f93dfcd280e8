//! The watcher's decisions: which changed paths matter, when a debounced batch
//! raises a notification, and the Idle / Watching state of a watch session.
use vstd::prelude::*;
use crate::text::{chars_contain, chars_occur_at, chars_of, contains_seq, ends_with};

verus! {

/// Whether a change to this path may change the scan: it mentions `.env` or
/// has a YAML, JSON or TOML ending.
pub open spec fn relevant(p: Seq<char>) -> bool {
    ||| contains_seq(p, ".env"@)
    ||| ends_with(p, ".yaml"@)
    ||| ends_with(p, ".yml"@)
    ||| ends_with(p, ".json"@)
    ||| ends_with(p, ".toml"@)
}

/// Some path of a batch is relevant.
pub open spec fn any_relevant(paths: Seq<String>) -> bool {
    exists|i: int| 0 <= i < paths.len() && relevant((#[trigger] paths[i])@)
}

/// The number of notifications raised for one debounced batch of changed paths.
pub open spec fn batch_notifications(paths: Seq<String>) -> nat {
    if any_relevant(paths) {
        1
    } else {
        0
    }
}

/// Whether `p` ends with `suffix`.
fn chars_end_with(p: &Vec<char>, suffix: &Vec<char>) -> (r: bool)
    ensures
        r == ends_with(p@, suffix@),
{
    if suffix.len() > p.len() {
        return false;
    }
    chars_occur_at(p, suffix, p.len() - suffix.len())
}

/// Whether a change to this path may change the scan.
pub fn is_relevant_path(path: &str) -> (r: bool)
    ensures
        r == relevant(path@),
{
    let p = chars_of(path);
    chars_contain(&p, &chars_of(".env")) || chars_end_with(&p, &chars_of(".yaml"))
        || chars_end_with(&p, &chars_of(".yml")) || chars_end_with(&p, &chars_of(".json"))
        || chars_end_with(&p, &chars_of(".toml"))
}

/// Whether a debounced batch of changed paths raises a notification: it does
/// when any one of them is relevant.
pub fn should_notify(paths: &Vec<String>) -> (r: bool)
    ensures
        r == any_relevant(paths@),
{
    let mut i: usize = 0;
    while i < paths.len()
        invariant
            i <= paths@.len(),
            forall|j: int| 0 <= j < i ==> !relevant((#[trigger] paths@[j])@),
        decreases paths@.len() - i,
    {
        if is_relevant_path(paths[i].as_str()) {
            return true;
        }
        i = i + 1;
    }
    false
}

/// A debounced batch raises at most one notification, however many events it
/// merged: exactly one when some changed path is relevant, none otherwise.
pub proof fn one_notification_per_batch(paths: Seq<String>)
    ensures
        batch_notifications(paths) <= 1,
        batch_notifications(paths) == 1 <==> any_relevant(paths),
        (forall|i: int| 0 <= i < paths.len() ==> !relevant((#[trigger] paths[i])@))
            ==> batch_notifications(paths) == 0,
{
}

/// A change to a path that ends with `readme.md` and holds no `.env` is not
/// relevant, so a batch of only such changes raises no notification.
pub proof fn readme_changes_are_not_relevant(paths: Seq<String>)
    requires
        forall|i: int|
            0 <= i < paths.len() ==> ends_with((#[trigger] paths[i])@, "readme.md"@) && !contains_seq(
                paths[i]@,
                ".env"@,
            ),
    ensures
        batch_notifications(paths) == 0,
{
    reveal_strlit("readme.md");
    reveal_strlit(".yaml");
    reveal_strlit(".yml");
    reveal_strlit(".json");
    reveal_strlit(".toml");
    assert forall|i: int| 0 <= i < paths.len() implies !relevant((#[trigger] paths[i])@) by {
        let p = paths[i]@;
        let n = p.len() as int;
        assert(p.subrange(n - 9, n)[8] == p[n - 1]);
        assert(p[n - 1] == 'd');
        if ends_with(p, ".yaml"@) {
            assert(p.subrange(n - 5, n)[4] == p[n - 1]);
        }
        if ends_with(p, ".yml"@) {
            assert(p.subrange(n - 4, n)[3] == p[n - 1]);
        }
        if ends_with(p, ".json"@) {
            assert(p.subrange(n - 5, n)[4] == p[n - 1]);
        }
        if ends_with(p, ".toml"@) {
            assert(p.subrange(n - 5, n)[4] == p[n - 1]);
        }
    };
}

/// Whether a watch is active, and on which path.
pub struct WatchSession {
    pub watching_path: Option<String>,
}

impl WatchSession {
    /// A session with no active watch.
    pub fn new() -> (r: WatchSession)
        ensures
            r.watching_path is None,
    {
        WatchSession { watching_path: None }
    }

    /// Records a new watch on `path`. The result says whether a previous
    /// watch was active and must be torn down first, so that two never coexist.
    pub fn start(&mut self, path: String) -> (r: bool)
        ensures
            r == old(self).watching_path is Some,
            final(self).watching_path == Some(path),
    {
        let was = self.watching_path.is_some();
        self.watching_path = Some(path);
        was
    }

    /// Ends the active watch, if any. Stopping an idle session is no error and
    /// leaves it idle. The result says whether a watch was active.
    pub fn stop(&mut self) -> (r: bool)
        ensures
            r == old(self).watching_path is Some,
            final(self).watching_path is None,
    {
        let was = self.watching_path.is_some();
        self.watching_path = None;
        was
    }

    /// Whether a watch is active, and on which path.
    pub fn status(&self) -> (r: (bool, Option<String>))
        ensures
            r.0 == self.watching_path is Some,
            r.1 == self.watching_path,
    {
        match &self.watching_path {
            Some(p) => (true, Some(p.clone())),
            None => (false, None),
        }
    }
}

} // verus!
