//! Results of shell commands and the expansion of change-directory targets.

use vstd::prelude::*;
use vstd::string::*;
use crate::text::append_str;

verus! {

/// The path that `std::path::Path::join` gives for a base and a tail.
pub uninterp spec fn path_joined(base: Seq<char>, rest: Seq<char>) -> Seq<char>;

/// Relies on `std::path::Path::join`: the tail replaces the base when it is
/// absolute and is appended after a separator otherwise; the result depends
/// on the two texts alone.
#[verifier::external_body]
pub(crate) fn join_path(base: &str, rest: &str) -> (r: String)
    ensures
        r@ == path_joined(base@, rest@),
{
    std::path::Path::new(base).join(rest).to_string_lossy().to_string()
}

/// Why a command or a change of directory failed.
#[derive(Debug)]
pub enum ExecutorError {
    /// The shell could not be started.
    ExecutionFailed(String),
    /// The target does not exist.
    DirectoryNotFound(String),
    /// The target is not a directory.
    NotADirectory(String),
    /// The target cannot be expanded.
    InvalidPath(String),
}

/// The text shown for an error.
pub open spec fn error_text(e: ExecutorError) -> Seq<char> {
    match e {
        ExecutorError::ExecutionFailed(m) => "Failed to execute command: "@ + m@,
        ExecutorError::DirectoryNotFound(m) => "Directory not found: "@ + m@,
        ExecutorError::NotADirectory(m) => "Not a directory: "@ + m@,
        ExecutorError::InvalidPath(m) => "Invalid path: "@ + m@,
    }
}

impl ExecutorError {
    /// The text shown for the error.
    pub fn message(&self) -> (r: String)
        ensures
            r@ == error_text(*self),
    {
        let (mut r, m) = match self {
            ExecutorError::ExecutionFailed(m) => (String::from_str("Failed to execute command: "), m),
            ExecutorError::DirectoryNotFound(m) => (String::from_str("Directory not found: "), m),
            ExecutorError::NotADirectory(m) => (String::from_str("Not a directory: "), m),
            ExecutorError::InvalidPath(m) => (String::from_str("Invalid path: "), m),
        };
        append_str(&mut r, m.as_str());
        r
    }
}

/// Output of a shell command.
#[derive(Debug)]
pub struct CommandResult {
    /// Lines of standard output.
    pub stdout: Vec<String>,
    /// Lines of diagnostic output.
    pub stderr: Vec<String>,
    /// Exit code; 0 is success.
    pub exit_code: i32,
}

impl CommandResult {
    /// Whether the command succeeded.
    pub fn success(&self) -> (r: bool)
        ensures
            r == (self.exit_code == 0),
    {
        self.exit_code == 0
    }

    /// Standard output lines followed by diagnostic lines.
    pub fn all_lines(&self) -> (r: Vec<String>)
        ensures
            r@ == self.stdout@ + self.stderr@,
    {
        let mut lines: Vec<String> = Vec::new();
        let mut i: usize = 0;
        while i < self.stdout.len()
            invariant
                i <= self.stdout@.len(),
                lines@ == self.stdout@.subrange(0, i as int),
            decreases self.stdout@.len() - i,
        {
            lines.push(self.stdout[i].clone());
            proof {
                assert(lines@ =~= self.stdout@.subrange(0, i + 1));
            }
            i = i + 1;
        }
        let mut j: usize = 0;
        while j < self.stderr.len()
            invariant
                j <= self.stderr@.len(),
                lines@ == self.stdout@ + self.stderr@.subrange(0, j as int),
            decreases self.stderr@.len() - j,
        {
            lines.push(self.stderr[j].clone());
            proof {
                assert(lines@ =~= self.stdout@ + self.stderr@.subrange(0, j + 1));
            }
            j = j + 1;
        }
        proof {
            assert(self.stderr@.subrange(0, self.stderr@.len() as int) =~= self.stderr@);
        }
        lines
    }
}

/// The directory that a change-directory target names, before it is
/// canonicalized: a leading `~` stands for `home`, a leading `/` makes it
/// absolute, anything else is relative to `cur`. `None` when `~` cannot be
/// expanded or the target is `-`.
pub open spec fn expanded(path: Seq<char>, cur: Seq<char>, home: Option<Seq<char>>) -> Option<
    Seq<char>,
> {
    if path.len() > 0 && path[0] == '~' {
        match home {
            None => None,
            Some(h) => if path.len() == 1 {
                Some(h)
            } else {
                Some(path_joined(h, path.subrange(2, path.len() as int)))
            },
        }
    } else if path.len() > 0 && path[0] == '/' {
        Some(path)
    } else if path == "-"@ {
        None
    } else {
        Some(path_joined(cur, path))
    }
}

/// Expands a change-directory target against the directory `current_dir`
/// and the home directory `home`.
pub fn expand_cd_path(path: &str, current_dir: &str, home: &Option<String>) -> (r: Result<
    String,
    ExecutorError,
>)
    ensures
        match r {
            Ok(p) => expanded(path@, current_dir@, match home {
                Some(h) => Some(h@),
                None => None,
            }) == Some(p@),
            Err(e) => expanded(path@, current_dir@, match home {
                Some(h) => Some(h@),
                None => None,
            }) == None::<Seq<char>> && e is InvalidPath,
        },
{
    let n = path.unicode_len();
    if n > 0 && path.get_char(0) == '~' {
        match home {
            None => Err(ExecutorError::InvalidPath(String::from_str("Cannot expand ~"))),
            Some(h) => {
                if n == 1 {
                    Ok(h.clone())
                } else {
                    Ok(join_path(h.as_str(), path.substring_char(2, n)))
                }
            },
        }
    } else if n > 0 && path.get_char(0) == '/' {
        Ok(String::from_str(path))
    } else if crate::browser::slice_eq(path, "-") {
        Err(ExecutorError::InvalidPath(String::from_str("cd - is not supported")))
    } else {
        Ok(join_path(current_dir, path))
    }
}

/// Index of the first newline of `s` at or after `i`, or its length.
pub open spec fn find_nl(s: Seq<char>, i: int) -> int
    decreases s.len() - i,
{
    if 0 <= i < s.len() && s[i] != '\n' {
        find_nl(s, i + 1)
    } else {
        i
    }
}

/// A line without the carriage return that ended it, if any.
pub open spec fn without_cr(l: Seq<char>) -> Seq<char> {
    if l.len() > 0 && l.last() == '\r' {
        l.drop_last()
    } else {
        l
    }
}

/// The lines of `s` from `i` on: split at `\n`, each ended line without
/// its `\r`; a final line ending adds no empty line.
pub open spec fn lines_from(s: Seq<char>, i: int) -> Seq<Seq<char>>
    decreases s.len() - i,
{
    if i < 0 || i >= s.len() {
        Seq::empty()
    } else {
        let k = find_nl(s, i);
        if k >= s.len() {
            seq![s.subrange(i, s.len() as int)]
        } else if k < i {
            Seq::empty()
        } else {
            seq![without_cr(s.subrange(i, k))] + lines_from(s, k + 1)
        }
    }
}

/// Splits captured output into lines.
pub fn split_lines(text: &str) -> (r: Vec<String>)
    ensures
        crate::layout::views(r@) == lines_from(text@, 0),
{
    let n = text.unicode_len();
    let mut out: Vec<String> = Vec::new();
    let mut i: usize = 0;
    while i < n
        invariant
            n == text@.len(),
            i <= n,
            crate::layout::views(out@) + lines_from(text@, i as int) == lines_from(text@, 0),
        decreases n - i,
    {
        let mut k = i;
        while k < n && text.get_char(k) != '\n'
            invariant
                n == text@.len(),
                i <= k <= n,
                find_nl(text@, k as int) == find_nl(text@, i as int),
            decreases n - k,
        {
            k = k + 1;
        }
        let ghost before = out@;
        let line;
        if k < n && k > i && text.get_char(k - 1) == '\r' {
            line = String::from_str(text.substring_char(i, k - 1));
            assert(line@ =~= without_cr(text@.subrange(i as int, k as int)));
        } else {
            line = String::from_str(text.substring_char(i, k));
            assert(k < n ==> line@ =~= without_cr(text@.subrange(i as int, k as int)));
        }
        out.push(line);
        proof {
            assert(crate::layout::views(out@) =~= crate::layout::views(before).push(line@));
            if k >= n {
                assert(lines_from(text@, n as int) =~= Seq::empty());
            }
        }
        i = if k < n {
            k + 1
        } else {
            k
        };
        proof {
            assert(crate::layout::views(out@) + lines_from(text@, i as int) =~= crate::layout::views(before)
                + lines_from(text@, i as int).insert(0, line@));
        }
    }
    assert(lines_from(text@, n as int) =~= Seq::empty());
    assert(crate::layout::views(out@) + Seq::empty() =~= crate::layout::views(out@));
    out
}

} // verus!
