//! Which filesystem events in a debounce window call for a refresh.
use ignore::gitignore::Gitignore;

use vstd::prelude::*;

use crate::text::{chars_of, has_prefix_at, starts_with, string_of};

verus! {

/// The ignore-rule matcher built from the repository's ignore file.
#[verifier::external_type_specification]
#[verifier::external_body]
pub struct ExGitignore(Gitignore);

/// Relies on `ignore::gitignore::Gitignore::matched`: whether the highest-precedence
/// glob of the matcher that applies to the path ignores it. The globs come from the
/// ignore file read at startup, so nothing is stated of the answer.
#[verifier::external_body]
fn ignored_by(gitignore: &Gitignore, relative: &str, is_dir: bool) -> bool {
    gitignore.matched(relative, is_dir).is_ignore()
}

/// Where a changed path lies, relative to the repository.
pub enum EventPath {
    /// Inside the version-control metadata directory; the path below it.
    Metadata(String),
    /// In the working tree; whether the ignore rules exclude it.
    WorkTree { ignored: bool },
    /// Outside the repository.
    Outside,
}

/// One raw event of a debounce window.
pub struct WatchEvent {
    /// The debouncer saw the path settle (not a continuous stream of writes).
    pub settled: bool,
    pub path: EventPath,
}

/// The metadata paths whose change alters what the dashboard shows: the index,
/// `HEAD`, anything under `refs/`, and the merge/rebase markers.
pub open spec fn interesting_spec(rel: Seq<char>) -> bool {
    rel == "index"@ || rel == "HEAD"@ || starts_with(rel, "refs/"@) || rel == "MERGE_HEAD"@ || rel
        == "REBASE_HEAD"@
}

/// Within `.git/`, only a few paths signal meaningful state changes.
pub fn is_interesting_git_path(rel: &str) -> (r: bool)
    ensures
        r == interesting_spec(rel@),
{
    let v = chars_of(rel);
    let s = string_of(&v, 0, v.len());
    assert(v@.subrange(0, v@.len() as int) =~= v@);
    let refs = chars_of("refs/");
    let n = v.len();
    s == "index".to_owned() || s == "HEAD".to_owned() || has_prefix_at(&v, 0, n, &refs) || s
        == "MERGE_HEAD".to_owned() || s == "REBASE_HEAD".to_owned()
}

/// Whether a located path calls for a refresh.
pub open spec fn path_counts(p: EventPath) -> bool {
    match p {
        EventPath::Metadata(rel) => interesting_spec(rel@),
        EventPath::WorkTree { ignored } => !ignored,
        EventPath::Outside => false,
    }
}

/// Decide whether a filesystem event path should trigger a refresh.
pub fn should_notify(path: &EventPath) -> (r: bool)
    ensures
        r == path_counts(*path),
{
    match path {
        EventPath::Metadata(rel) => is_interesting_git_path(rel.as_str()),
        EventPath::WorkTree { ignored } => !*ignored,
        EventPath::Outside => false,
    }
}

/// Whether an event of a window counts toward a refresh.
pub open spec fn event_counts(e: WatchEvent) -> bool {
    e.settled && path_counts(e.path)
}

/// The number of refresh signals a window of events gives: one if any event counts, else none.
pub open spec fn window_signal_count(events: Seq<WatchEvent>) -> nat {
    if exists|i: int| 0 <= i < events.len() && event_counts(#[trigger] events[i]) {
        1
    } else {
        0
    }
}

/// The refresh signals one debounce window emits: at most one per window.
pub fn window_signals(events: &Vec<WatchEvent>) -> (n: usize)
    ensures
        n == window_signal_count(events@),
{
    let mut i: usize = 0;
    while i < events.len()
        invariant
            i <= events@.len(),
            forall|k: int| 0 <= k < i ==> !event_counts(#[trigger] events@[k]),
        decreases events@.len() - i,
    {
        let e = &events[i];
        if e.settled && should_notify(&e.path) {
            assert(event_counts(events@[i as int]));
            return 1;
        }
        i = i + 1;
    }
    0
}

/// Where `relative` (a path below the repository root, `/`-separated, or `None` when
/// the path lies outside it) stands: below `.git` as a metadata path, else in the work
/// tree, checked against the ignore rules.
pub fn locate(relative: Option<&str>, is_dir: bool, gitignore: &Gitignore) -> (r: EventPath)
    ensures
        relative is None ==> r is Outside,
        relative is Some && relative->0@ == ".git"@ ==> r is Metadata && r->Metadata_0@.len()
            == 0,
        relative is Some && starts_with(relative->0@, ".git/"@) ==> r is Metadata
            && r->Metadata_0@ == relative->0@.subrange(".git/"@.len() as int, relative->0@.len() as int),
        relative is Some && relative->0@ != ".git"@ && !starts_with(relative->0@, ".git/"@)
            ==> r is WorkTree,
{
    match relative {
        None => EventPath::Outside,
        Some(rel) => {
            let v = chars_of(rel);
            let n = v.len();
            let git = chars_of(".git");
            let git_dir = chars_of(".git/");
            assert(v@.subrange(0, n as int) =~= v@);
            if string_of(&v, 0, n) == string_of(&git, 0, git.len()) {
                assert(git@.subrange(0, git@.len() as int) =~= git@);
                proof {
                    reveal_strlit(".git");
                    reveal_strlit(".git/");
                }
                EventPath::Metadata(String::new())
            } else if has_prefix_at(&v, 0, n, &git_dir) {
                assert(git@.subrange(0, git@.len() as int) =~= git@);
                EventPath::Metadata(string_of(&v, git_dir.len(), n))
            } else {
                assert(git@.subrange(0, git@.len() as int) =~= git@);
                EventPath::WorkTree { ignored: ignored_by(gitignore, rel, is_dir) }
            }
        },
    }
}

/// A window whose every event lies on an ignored or uninteresting path, or outside
/// the repository, emits no refresh signal.
pub proof fn lemma_ignored_window_is_silent(events: Seq<WatchEvent>)
    requires
        forall|i: int| 0 <= i < events.len() ==> !path_counts(#[trigger] events[i].path),
    ensures
        window_signal_count(events) == 0,
{
    assert forall|i: int| 0 <= i < events.len() implies !event_counts(#[trigger] events[i]) by {
        assert(!path_counts(events[i].path));
    }
}

/// A window holding at least one settled event on an allow-listed metadata path or
/// on a work-tree path that is not ignored emits exactly one refresh signal, however
/// many events it holds.
pub proof fn lemma_relevant_window_signals_once(events: Seq<WatchEvent>, i: int)
    requires
        0 <= i < events.len(),
        events[i].settled,
        match events[i].path {
            EventPath::Metadata(rel) => interesting_spec(rel@),
            EventPath::WorkTree { ignored } => !ignored,
            EventPath::Outside => false,
        },
    ensures
        window_signal_count(events) == 1,
{
    assert(event_counts(events[i]));
}

} // verus!
