//! Local FreeToken checkout status.
//!
//! Reads the git state of the `vendor-freetoken/` directory and compares the local
//! commit against `upstream/main` and `origin/main`. Used to tell the operator whether
//! the build they have is current.

use vstd::prelude::*;
use crate::text::{parse_upto, pieces, split, texts, trim, trimmed, unsigned_of};

verus! {

/// The result of a `git` check on the FreeToken vendor checkout.
#[derive(Debug, Clone)]
pub struct FtCheckout {
    /// The upstream remote URL, e.g. `https://github.com/FlashML-org/FreeToken.git`.
    pub upstream: String,
    /// The origin remote URL, e.g. `git@github.com:jlbyh2o/FreeToken.git`.
    pub origin: String,
    /// The commit paddock sees as its working tree HEAD (short form).
    pub local_sha: String,
    /// The `upstream/main` commit SHA (short form), or empty when fetch is not possible.
    pub upstream_sha: String,
    /// The `origin/main` commit SHA (short form), or empty when fetch is not possible.
    pub origin_sha: String,
    /// How many commits the local branch is ahead of `origin/main`.
    pub origin_ahead: usize,
    /// How many commits the local branch is behind `origin/main`.
    pub origin_behind: usize,
    /// How many commits the local branch is behind `upstream/main`.
    /// Zero means either the branch is up to date with upstream or the counts disagree
    /// and we cannot reliably report a number.
    pub upstream_behind: usize,
    /// Whether the working tree has uncommitted changes.
    pub dirty: bool,
}

/// What git printed when asked, in this order. `None` stands for a command that failed or
/// printed something other than text.
#[derive(Debug)]
pub struct Answers {
    /// `config remote.upstream.url`
    pub upstream: Option<String>,
    /// `config remote.origin.url`
    pub origin: Option<String>,
    /// `rev-parse --short HEAD`
    pub local_sha: Option<String>,
    /// `rev-parse --short upstream/main`, after a fetch
    pub upstream_sha: Option<String>,
    /// `rev-parse --short origin/main`, after a fetch
    pub origin_sha: Option<String>,
    /// `rev-list --count --left-right HEAD...origin/main`
    pub distance: Option<String>,
    /// `rev-list --count <local>..<upstream>`, asked only when both are known
    pub missing: Option<String>,
    /// `status --porcelain`
    pub status: Option<String>,
}

/// A count as git prints it, with the space around it left out.
pub open spec fn count_of(s: Seq<char>) -> Option<usize> {
    match unsigned_of(trimmed(s)) {
        Some(n) if n <= usize::MAX => Some(n as usize),
        _ => None,
    }
}

fn parse_count(s: &str) -> (r: Option<usize>)
    ensures
        r == count_of(s@),
{
    match parse_upto(trim(s).as_str(), usize::MAX as u64) {
        Some(n) => Some(n as usize),
        None => None,
    }
}

/// The counts among `parts`, in order.
pub open spec fn counts_of(parts: Seq<Seq<char>>) -> Seq<usize>
    decreases parts.len(),
{
    if parts.len() == 0 {
        Seq::empty()
    } else {
        let head = counts_of(parts.drop_last());
        match count_of(parts.last()) {
            Some(n) => head.push(n),
            None => head,
        }
    }
}

/// The counts on `lines`, each line split at its tabs.
pub open spec fn counts_on(lines: Seq<Seq<char>>) -> Seq<usize>
    decreases lines.len(),
{
    if lines.len() == 0 {
        Seq::empty()
    } else {
        counts_on(lines.drop_last()) + counts_of(pieces(lines.last(), '\t'))
    }
}

/// How far two branches are apart, of what `rev-list --left-right --count` printed: two
/// counts, or one when only one side printed.
pub open spec fn distance_of(text: Seq<char>) -> (usize, usize) {
    let c = counts_on(pieces(trimmed(text), '\n'));
    if c.len() >= 2 {
        (c[0], c[1])
    } else if c.len() == 1 {
        (c[0], 0)
    } else {
        (0, 0)
    }
}

fn push_counts(out: &mut Vec<usize>, line: &str)
    ensures
        final(out)@ == old(out)@ + counts_of(pieces(line@, '\t')),
{
    let parts = split(line, '\t');
    let ghost all = texts(parts@);
    let ghost before = out@;
    let mut i: usize = 0;
    assert(all.take(0) =~= Seq::<Seq<char>>::empty());
    assert(before + Seq::<usize>::empty() =~= before);
    while i < parts.len()
        invariant
            i <= parts.len(),
            all == texts(parts@),
            out@ == before + counts_of(all.take(i as int)),
        decreases parts.len() - i,
    {
        assert(all.take(i + 1).drop_last() =~= all.take(i as int));
        assert(all.take(i + 1).last() == parts@[i as int]@);
        match parse_count(parts[i].as_str()) {
            Some(n) => {
                out.push(n);
                assert(out@ =~= before + counts_of(all.take(i as int)).push(n));
            },
            None => {},
        }
        i = i + 1;
    }
    assert(all.take(i as int) =~= all);
}

/// How many commits the two sides of a `rev-list --left-right --count` are ahead of each
/// other: (ahead, behind).
pub fn commit_distance(text: &str) -> (r: (usize, usize))
    ensures
        r == distance_of(text@),
{
    let t = trim(text);
    let l = split(t.as_str(), '\n');
    let ghost all = texts(l@);
    let mut c: Vec<usize> = Vec::new();
    let mut i: usize = 0;
    assert(all.take(0) =~= Seq::<Seq<char>>::empty());
    while i < l.len()
        invariant
            i <= l.len(),
            all == texts(l@),
            c@ == counts_on(all.take(i as int)),
        decreases l.len() - i,
    {
        assert(all.take(i + 1).drop_last() =~= all.take(i as int));
        assert(all.take(i + 1).last() == l@[i as int]@);
        push_counts(&mut c, l[i].as_str());
        i = i + 1;
    }
    assert(all.take(i as int) =~= all);
    if c.len() >= 2 {
        (c[0], c[1])
    } else if c.len() == 1 {
        // Only one side printed (ahead or behind).
        (c[0], 0)
    } else {
        (0, 0)
    }
}

pub open spec fn text_or_empty(o: Option<String>) -> Seq<char> {
    match o {
        Some(s) => trimmed(s@),
        None => ""@,
    }
}

fn trimmed_or_empty(o: &Option<String>) -> (r: String)
    ensures
        r@ == text_or_empty(*o),
{
    match o {
        Some(s) => trim(s.as_str()),
        None => "".to_owned(),
    }
}

/// What git's answers say of the checkout. `None` when the vendor directory does not look
/// like a git repo: one of the two remotes or the local commit is unknown.
pub fn check(a: &Answers) -> (r: Option<FtCheckout>)
    ensures
        r is Some <==> a.upstream is Some && a.origin is Some && a.local_sha is Some,
        r matches Some(c) ==> {
            &&& c.upstream@ == trimmed(a.upstream->0@)
            &&& c.origin@ == trimmed(a.origin->0@)
            &&& c.local_sha@ == trimmed(a.local_sha->0@)
            &&& c.upstream_sha@ == text_or_empty(a.upstream_sha)
            &&& c.origin_sha@ == text_or_empty(a.origin_sha)
            &&& (c.origin_ahead, c.origin_behind) == (match a.distance {
                Some(d) => distance_of(d@),
                None => (0, 0),
            })
            &&& c.upstream_behind == (match (a.upstream_sha, a.missing) {
                (Some(_), Some(m)) => match count_of(m@) {
                    Some(n) => n,
                    None => 0,
                },
                _ => 0,
            })
            &&& c.dirty == (a.status is Some && trimmed(a.status->0@).len() > 0)
        },
{
    let upstream = match &a.upstream {
        Some(s) => trim(s.as_str()),
        None => {
            return None;
        },
    };
    let origin = match &a.origin {
        Some(s) => trim(s.as_str()),
        None => {
            return None;
        },
    };
    let local_sha = match &a.local_sha {
        Some(s) => trim(s.as_str()),
        None => {
            return None;
        },
    };
    let (origin_ahead, origin_behind) = match &a.distance {
        Some(d) => commit_distance(d.as_str()),
        None => (0, 0),
    };
    let upstream_behind: usize = match (&a.upstream_sha, &a.missing) {
        (Some(_), Some(m)) => match parse_count(m.as_str()) {
            Some(n) => n,
            None => 0,
        },
        _ => 0,
    };
    let dirty = match &a.status {
        Some(s) => !trim(s.as_str()).as_str().is_empty(),
        None => false,
    };
    Some(
        FtCheckout {
            upstream,
            origin,
            local_sha,
            upstream_sha: trimmed_or_empty(&a.upstream_sha),
            origin_sha: trimmed_or_empty(&a.origin_sha),
            origin_ahead,
            origin_behind,
            upstream_behind,
            dirty,
        },
    )
}

} // verus!
