//! Repository status snapshots and the status worker's protocol.

use vstd::prelude::*;
use vstd::string::*;
use crate::text::{find_whitespace, find_ws, skip_whitespace, skip_ws};

verus! {

/// A snapshot of a repository's state.
#[derive(Debug, Clone)]
pub struct GitStatus {
    /// Branch name, or short commit hash when the head is detached.
    pub branch: String,
    pub is_detached: bool,
    /// Whether the working tree has local modifications.
    pub is_dirty: bool,
    /// Commits ahead of the upstream branch.
    pub ahead: u32,
    /// Commits behind the upstream branch.
    pub behind: u32,
}

/// Why a status query failed.
#[derive(Debug)]
pub enum GitError {
    CommandFailed(String),
    NotARepository,
    Timeout,
}

/// Messages between the session and the status worker.
#[derive(Debug, Clone)]
pub enum GitMessage {
    /// Compute the status of `dir`, synchronizing with the remote first
    /// when `with_fetch` is set.
    UpdateStatus { dir: String, with_fetch: bool },
    /// A computed snapshot; `None` outside a repository.
    StatusUpdate(Option<GitStatus>),
    /// End the worker.
    Shutdown,
}

/// What the worker does with a received message.
#[derive(Debug)]
pub enum WorkerAction {
    /// Optionally synchronize, then compute and send the status of `dir`.
    Refresh { dir: String, with_fetch: bool },
    /// Leave the loop.
    Stop,
    /// Wait for the next message.
    Ignore,
}

/// The worker's decision for a message; `None` means the channel is closed.
pub fn worker_step(msg: Option<GitMessage>) -> (r: WorkerAction)
    ensures
        match msg {
            Some(GitMessage::UpdateStatus { dir, with_fetch }) => r == (WorkerAction::Refresh {
                dir,
                with_fetch,
            }),
            Some(GitMessage::StatusUpdate(_)) => r is Ignore,
            Some(GitMessage::Shutdown) => r is Stop,
            None => r is Stop,
        },
{
    match msg {
        Some(GitMessage::UpdateStatus { dir, with_fetch }) => WorkerAction::Refresh { dir, with_fetch },
        Some(GitMessage::StatusUpdate(_)) => WorkerAction::Ignore,
        Some(GitMessage::Shutdown) => WorkerAction::Stop,
        None => WorkerAction::Stop,
    }
}

/// The snapshot assembled from the answers of the repository queries: the
/// branch name, or the short hash with the detached flag when the branch
/// query answers `HEAD`.
pub fn get_git_status(
    is_repo: bool,
    branch: Result<String, GitError>,
    short_hash: Result<String, GitError>,
    is_dirty: Result<bool, GitError>,
    ahead_behind: Result<(u32, u32), GitError>,
) -> (r: Result<GitStatus, GitError>)
    ensures
        !is_repo ==> r matches Err(GitError::NotARepository),
        is_repo && branch is Err ==> r == Err::<GitStatus, GitError>(branch->Err_0),
        is_repo && branch is Ok && branch->Ok_0@ == "HEAD"@ && short_hash is Err ==> r == Err::<
            GitStatus,
            GitError,
        >(short_hash->Err_0),
        is_repo && branch is Ok && !(branch->Ok_0@ == "HEAD"@ && short_hash is Err) && is_dirty is Err
            ==> r == Err::<GitStatus, GitError>(is_dirty->Err_0),
        is_repo && branch is Ok && !(branch->Ok_0@ == "HEAD"@ && short_hash is Err) && is_dirty is Ok
            && ahead_behind is Err ==> r == Err::<GitStatus, GitError>(ahead_behind->Err_0),
        is_repo && branch is Ok && !(branch->Ok_0@ == "HEAD"@ && short_hash is Err) && is_dirty is Ok
            && ahead_behind is Ok ==> match r {
            Ok(s) => {
                &&& is_dirty == Ok::<bool, GitError>(s.is_dirty)
                &&& ahead_behind->Ok_0 == (s.ahead, s.behind)
                &&& s.is_detached == (branch->Ok_0@ == "HEAD"@)
                &&& if s.is_detached {
                    s.branch@ == short_hash->Ok_0@
                } else {
                    s.branch@ == branch->Ok_0@
                }
            },
            Err(_) => false,
        },
{
    if !is_repo {
        return Err(GitError::NotARepository);
    }
    let b = match branch {
        Ok(b) => b,
        Err(e) => return Err(e),
    };
    let detached = crate::browser::slice_eq(b.as_str(), "HEAD");
    let label = if detached {
        match short_hash {
            Ok(h) => h,
            Err(e) => return Err(e),
        }
    } else {
        b
    };
    let dirty = match is_dirty {
        Ok(d) => d,
        Err(e) => return Err(e),
    };
    let (ahead, behind) = match ahead_behind {
        Ok(ab) => ab,
        Err(e) => return Err(e),
    };
    Ok(GitStatus { branch: label, is_detached: detached, is_dirty: dirty, ahead, behind })
}

/// A repository query.
#[derive(Debug, Clone, Copy, PartialEq, Eq, Structural)]
pub enum GitQuery {
    /// Whether the directory is in a repository.
    IsRepo,
    /// The branch name.
    Branch,
    /// The short commit hash.
    ShortHash,
    /// Whether the working tree has local modifications.
    Dirty,
    /// The ahead and behind counts.
    AheadBehind,
}

/// The answers to the repository queries so far.
#[derive(Debug)]
pub struct StatusAnswers {
    pub is_repo: Option<bool>,
    pub branch: Option<Result<String, GitError>>,
    pub short_hash: Option<Result<String, GitError>>,
    pub is_dirty: Option<Result<bool, GitError>>,
    pub ahead_behind: Option<Result<(u32, u32), GitError>>,
}

/// The query to run next: the queries go in order, the short hash only for
/// a detached head, and none after a query failed or outside a repository.
pub open spec fn next_query_of(a: StatusAnswers) -> Option<GitQuery> {
    match a.is_repo {
        None => Some(GitQuery::IsRepo),
        Some(false) => None,
        Some(true) => match a.branch {
            None => Some(GitQuery::Branch),
            Some(Err(_)) => None,
            Some(Ok(b)) => if b@ == "HEAD"@ && a.short_hash is None {
                Some(GitQuery::ShortHash)
            } else if b@ == "HEAD"@ && a.short_hash matches Some(Err(_)) {
                None
            } else {
                match a.is_dirty {
                    None => Some(GitQuery::Dirty),
                    Some(Err(_)) => None,
                    Some(Ok(_)) => if a.ahead_behind is None {
                        Some(GitQuery::AheadBehind)
                    } else {
                        None
                    },
                }
            },
        },
    }
}

impl StatusAnswers {
    /// No answers yet.
    pub fn new() -> (r: StatusAnswers)
        ensures
            r.is_repo is None,
            r.branch is None,
            r.short_hash is None,
            r.is_dirty is None,
            r.ahead_behind is None,
    {
        StatusAnswers {
            is_repo: None,
            branch: None,
            short_hash: None,
            is_dirty: None,
            ahead_behind: None,
        }
    }

    /// The query to run next, if any.
    pub fn next_query(&self) -> (r: Option<GitQuery>)
        ensures
            r == next_query_of(*self),
    {
        match self.is_repo {
            None => Some(GitQuery::IsRepo),
            Some(false) => None,
            Some(true) => match &self.branch {
                None => Some(GitQuery::Branch),
                Some(Err(_)) => None,
                Some(Ok(b)) => {
                    let head = crate::browser::slice_eq(b.as_str(), "HEAD");
                    if head && self.short_hash.is_none() {
                        Some(GitQuery::ShortHash)
                    } else if head && matches!(self.short_hash, Some(Err(_))) {
                        None
                    } else {
                        match &self.is_dirty {
                            None => Some(GitQuery::Dirty),
                            Some(Err(_)) => None,
                            Some(Ok(_)) => if self.ahead_behind.is_none() {
                                Some(GitQuery::AheadBehind)
                            } else {
                                None
                            },
                        }
                    }
                },
            },
        }
    }
}

/// The dirty flag read from a porcelain status query: set when it printed
/// anything; the query's diagnostics when it failed.
pub fn porcelain_dirty(succeeded: bool, out: &str, err: String) -> (r: Result<bool, GitError>)
    ensures
        succeeded ==> r == Ok::<bool, GitError>(out@.len() > 0),
        !succeeded ==> r == Err::<bool, GitError>(GitError::CommandFailed(err)),
{
    if succeeded {
        Ok(out.unicode_len() > 0)
    } else {
        Err(GitError::CommandFailed(err))
    }
}

pub open spec fn is_digit(c: char) -> bool {
    '0' <= c && c <= '9'
}

/// The value of a run of decimal digits.
pub open spec fn digits_value(d: Seq<char>) -> int
    decreases d.len(),
{
    if d.len() == 0 {
        0
    } else {
        digits_value(d.drop_last()) * 10 + (d.last() as int - '0' as int)
    }
}

/// A number's text without its leading `+`, if any.
pub open spec fn unsigned_part(w: Seq<char>) -> Seq<char> {
    if w.len() > 0 && w[0] == '+' {
        w.drop_first()
    } else {
        w
    }
}

pub open spec fn all_digits(d: Seq<char>) -> bool {
    forall|k: int| 0 <= k < d.len() ==> is_digit(#[trigger] d[k])
}

/// What `str::parse::<u32>` accepts: an optional `+`, then one or more
/// digits whose value fits in a `u32`.
pub open spec fn parsed_u32(w: Seq<char>) -> Option<u32> {
    let d = unsigned_part(w);
    if d.len() > 0 && all_digits(d) && digits_value(d) <= u32::MAX {
        Some(digits_value(d) as u32)
    } else {
        None
    }
}

proof fn lemma_digits_value_nonneg(d: Seq<char>)
    requires
        forall|k: int| 0 <= k < d.len() ==> is_digit(#[trigger] d[k]),
    ensures
        digits_value(d) >= 0,
    decreases d.len(),
{
    if d.len() > 0 {
        lemma_digits_value_nonneg(d.drop_last());
    }
}

/// Parses the characters `lo..hi` of `s` as `str::parse::<u32>` does.
pub fn parse_u32(s: &str, lo: usize, hi: usize) -> (r: Option<u32>)
    requires
        lo <= hi <= s@.len(),
    ensures
        r == parsed_u32(s@.subrange(lo as int, hi as int)),
{
    let ghost w = s@.subrange(lo as int, hi as int);
    let mut start = lo;
    if lo < hi && s.get_char(lo) == '+' {
        start = lo + 1;
    }
    let ghost d = s@.subrange(start as int, hi as int);
    assert(d =~= unsigned_part(w));
    if start == hi {
        return None;
    }
    let cap: u64 = 4294967296;
    let mut acc: u64 = 0;
    let mut k = start;
    while k < hi
        invariant
            lo <= start <= k <= hi <= s@.len(),
            d == s@.subrange(start as int, hi as int),
            d == unsigned_part(w),
            w == s@.subrange(lo as int, hi as int),
            forall|m: int| start <= m < k ==> is_digit(#[trigger] s@[m]),
            acc as int == (if digits_value(s@.subrange(start as int, k as int)) < cap {
                digits_value(s@.subrange(start as int, k as int))
            } else {
                cap as int
            }),
            cap == 4294967296,
        decreases hi - k,
    {
        let c = s.get_char(k);
        if !('0' <= c && c <= '9') {
            assert(d[k - start] == s@[k as int]);
            assert(!is_digit(d[k - start]));
            assert(!all_digits(d));
            assert(w == s@.subrange(lo as int, hi as int));
            assert(parsed_u32(w) == None::<u32>);
            return None;
        }
        let ghost pre = s@.subrange(start as int, k as int);
        let ghost next = s@.subrange(start as int, k + 1);
        proof {
            assert(next.drop_last() =~= pre);
            assert forall|m: int| 0 <= m < pre.len() implies is_digit(#[trigger] pre[m]) by {
                assert(pre[m] == s@[start + m]);
            }
            lemma_digits_value_nonneg(pre);
        }
        let dv = (c as u32 - '0' as u32) as u64;
        let v = acc * 10 + dv;
        acc = if v < cap {
            v
        } else {
            cap
        };
        proof {
            let pv = digits_value(pre);
            assert(digits_value(next) == pv * 10 + dv);
            if pv >= cap {
                assert(pv * 10 + dv >= cap) by (nonlinear_arith)
                    requires
                        pv >= cap,
                        dv >= 0,
                ;
            }
        }
        k = k + 1;
    }
    assert(s@.subrange(start as int, hi as int) == d);
    if acc < cap {
        Some(acc as u32)
    } else {
        None
    }
}

/// Where the words of `s` begin and end: the first, the second, and where a
/// third would begin.
pub open spec fn two_words(s: Seq<char>) -> (int, int, int, int, int) {
    let n = s.len() as int;
    let a0 = skip_ws(s, 0, n);
    let e0 = find_ws(s, a0, n);
    let a1 = skip_ws(s, e0, n);
    let e1 = find_ws(s, a1, n);
    (a0, e0, a1, e1, skip_ws(s, e1, n))
}

/// Ahead and behind counts from the output of a left-right count of
/// commits: (0, 0) when the query failed or the output is not two words;
/// a word that is not a count reads as 0.
pub open spec fn ahead_behind_of(succeeded: bool, out: Seq<char>) -> (u32, u32) {
    let (a0, e0, a1, e1, a2) = two_words(out);
    if !succeeded || !(a0 < out.len() && a1 < out.len() && a2 == out.len()) {
        (0, 0)
    } else {
        (
            match parsed_u32(out.subrange(a0, e0)) {
                Some(v) => v,
                None => 0,
            },
            match parsed_u32(out.subrange(a1, e1)) {
                Some(v) => v,
                None => 0,
            },
        )
    }
}

/// Reads ahead and behind counts from a left-right count query.
pub fn parse_ahead_behind(succeeded: bool, out: &str) -> (r: (u32, u32))
    ensures
        r == ahead_behind_of(succeeded, out@),
{
    if !succeeded {
        return (0, 0);
    }
    let n = out.unicode_len();
    let a0 = skip_whitespace(out, 0, n);
    let e0 = find_whitespace(out, a0, n);
    let a1 = skip_whitespace(out, e0, n);
    let e1 = find_whitespace(out, a1, n);
    let a2 = skip_whitespace(out, e1, n);
    if !(a0 < n && a1 < n && a2 == n) {
        return (0, 0);
    }
    let ahead = match parse_u32(out, a0, e0) {
        Some(v) => v,
        None => 0,
    };
    let behind = match parse_u32(out, a1, e1) {
        Some(v) => v,
        None => 0,
    };
    (ahead, behind)
}

} // verus!
