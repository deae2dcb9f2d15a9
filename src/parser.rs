//! Classification of an entered command line into the session's intents.

use vstd::prelude::*;
use vstd::string::*;
use crate::text::{find_whitespace, find_ws, is_ws, lemma_skip_ws_back_bounds, lemma_skip_ws_bounds, skip_whitespace, skip_whitespace_back, skip_ws, skip_ws_back, slice_is, substring};

verus! {

/// What an entered line asks the session to do.
#[derive(Debug, Clone, PartialEq, Eq)]
pub enum ParsedCommand {
    /// Nothing but whitespace.
    Empty,
    /// Change directory; `None` means the home directory.
    Cd(Option<String>),
    /// Open the directory navigator.
    CdList,
    /// Clear the scrollback.
    Clear,
    /// End the session.
    Exit,
    /// Save the working directory as a bookmark.
    JermSave,
    /// Open the bookmark picker.
    JermGoto,
    /// Hand the line to the system shell.
    Shell(String),
}

/// The abstract value of a `ParsedCommand`.
pub enum CommandView {
    Empty,
    Cd(Option<Seq<char>>),
    CdList,
    Clear,
    Exit,
    JermSave,
    JermGoto,
    Shell(Seq<char>),
}

impl View for ParsedCommand {
    type V = CommandView;

    open spec fn view(&self) -> CommandView {
        match self {
            ParsedCommand::Empty => CommandView::Empty,
            ParsedCommand::Cd(None) => CommandView::Cd(None),
            ParsedCommand::Cd(Some(p)) => CommandView::Cd(Some(p@)),
            ParsedCommand::CdList => CommandView::CdList,
            ParsedCommand::Clear => CommandView::Clear,
            ParsedCommand::Exit => CommandView::Exit,
            ParsedCommand::JermSave => CommandView::JermSave,
            ParsedCommand::JermGoto => CommandView::JermGoto,
            ParsedCommand::Shell(s) => CommandView::Shell(s@),
        }
    }
}

/// Start of the trimmed line.
pub open spec fn trim_lo(s: Seq<char>) -> int {
    skip_ws(s, 0, s.len() as int)
}

/// End of the trimmed line.
pub open spec fn trim_hi(s: Seq<char>) -> int {
    skip_ws_back(s, trim_lo(s), s.len() as int)
}

/// The line without leading and trailing whitespace.
pub open spec fn trimmed(s: Seq<char>) -> Seq<char> {
    s.subrange(trim_lo(s), trim_hi(s))
}

/// End of the first word of the trimmed line.
pub open spec fn head_end(s: Seq<char>) -> int {
    find_ws(s, trim_lo(s), trim_hi(s))
}

/// The first word of the trimmed line.
pub open spec fn head(s: Seq<char>) -> Seq<char> {
    s.subrange(trim_lo(s), head_end(s))
}

/// What follows the first whitespace run of the trimmed line, if anything.
pub open spec fn rest(s: Seq<char>) -> Option<Seq<char>> {
    if head_end(s) < trim_hi(s) {
        Some(s.subrange(skip_ws(s, head_end(s) + 1, trim_hi(s)), trim_hi(s)))
    } else {
        None
    }
}

/// The intent of an entered line.
pub open spec fn classify(s: Seq<char>) -> CommandView {
    let t = trimmed(s);
    if t.len() == 0 {
        CommandView::Empty
    } else if head(s) == "cd"@ {
        match rest(s) {
            Some(r) => if r == "-list"@ || r == "--list"@ {
                CommandView::CdList
            } else {
                CommandView::Cd(Some(r))
            },
            None => CommandView::Cd(None),
        }
    } else if head(s) == "clear"@ {
        CommandView::Clear
    } else if head(s) == "exit"@ || head(s) == "quit"@ {
        CommandView::Exit
    } else if head(s) == "jerm"@ && rest(s) == Some("save"@) {
        CommandView::JermSave
    } else if head(s) == "jerm"@ && rest(s) == Some("goto"@) {
        CommandView::JermGoto
    } else {
        CommandView::Shell(t)
    }
}

/// Classifies an entered line: every line gives exactly one intent.
pub fn parse_command(input: &str) -> (r: ParsedCommand)
    ensures
        r@ == classify(input@),
{
    let n = input.unicode_len();
    let lo = skip_whitespace(input, 0, n);
    let hi = skip_whitespace_back(input, lo, n);
    if lo == hi {
        return ParsedCommand::Empty;
    }
    let k = find_whitespace(input, lo, hi);
    let mut rest_lo: usize = hi;
    if k < hi {
        rest_lo = skip_whitespace(input, k + 1, hi);
    }
    let has_rest = k < hi;
    if slice_is(input, lo, k, "cd") {
        if has_rest {
            if slice_is(input, rest_lo, hi, "-list") || slice_is(input, rest_lo, hi, "--list") {
                ParsedCommand::CdList
            } else {
                ParsedCommand::Cd(Some(substring(input, rest_lo, hi)))
            }
        } else {
            ParsedCommand::Cd(None)
        }
    } else if slice_is(input, lo, k, "clear") {
        ParsedCommand::Clear
    } else if slice_is(input, lo, k, "exit") || slice_is(input, lo, k, "quit") {
        ParsedCommand::Exit
    } else if slice_is(input, lo, k, "jerm") && has_rest && slice_is(input, rest_lo, hi, "save") {
        ParsedCommand::JermSave
    } else if slice_is(input, lo, k, "jerm") && has_rest && slice_is(input, rest_lo, hi, "goto") {
        ParsedCommand::JermGoto
    } else {
        ParsedCommand::Shell(substring(input, lo, hi))
    }
}


/// The line without leading and trailing whitespace.
pub fn trim_str(input: &str) -> (r: String)
    ensures
        r@ == trimmed(input@),
{
    let n = input.unicode_len();
    let lo = skip_whitespace(input, 0, n);
    let hi = skip_whitespace_back(input, lo, n);
    substring(input, lo, hi)
}

proof fn lemma_skip_ws_shift(s: Seq<char>, lo: int, hi: int, i: int)
    requires
        0 <= lo <= i <= hi <= s.len(),
    ensures
        skip_ws(s.subrange(lo, hi), i - lo, hi - lo) == skip_ws(s, i, hi) - lo,
    decreases hi - i,
{
    if i < hi {
        assert(s.subrange(lo, hi)[i - lo] == s[i]);
        lemma_skip_ws_shift(s, lo, hi, i + 1);
    }
}

proof fn lemma_find_ws_shift(s: Seq<char>, lo: int, hi: int, i: int)
    requires
        0 <= lo <= i <= hi <= s.len(),
    ensures
        find_ws(s.subrange(lo, hi), i - lo, hi - lo) == find_ws(s, i, hi) - lo,
    decreases hi - i,
{
    if i < hi {
        assert(s.subrange(lo, hi)[i - lo] == s[i]);
        lemma_find_ws_shift(s, lo, hi, i + 1);
    }
}

/// The intent of a line depends on its trimmed text alone.
pub proof fn lemma_classify_trimmed(s: Seq<char>)
    ensures
        classify(s) == classify(trimmed(s)),
{
    let n = s.len() as int;
    let lo = trim_lo(s);
    let hi = trim_hi(s);
    lemma_skip_ws_bounds(s, 0, n);
    lemma_skip_ws_back_bounds(s, lo, n);
    let t = trimmed(s);
    let m = t.len() as int;
    assert(m == hi - lo);
    if m == 0 {
        assert(t =~= Seq::<char>::empty());
        assert(trimmed(t) =~= t);
    } else {
        assert(!is_ws(t[0]));
        assert(!is_ws(t[m - 1]));
        assert(trim_lo(t) == 0);
        assert(trim_hi(t) == m);
        assert(trimmed(t) =~= t);
        lemma_find_ws_shift(s, lo, hi, lo);
        let k = head_end(s);
        crate::text::lemma_find_ws_bounds(s, lo, hi);
        assert(head_end(t) == k - lo);
        assert(head(t) =~= head(s));
        if k < hi {
            lemma_skip_ws_shift(s, lo, hi, k + 1);
            assert(rest(t) == Some(t.subrange(skip_ws(s, k + 1, hi) - lo, m)));
            crate::text::lemma_skip_ws_bounds(s, k + 1, hi);
            assert(t.subrange(skip_ws(s, k + 1, hi) - lo, m) =~= s.subrange(skip_ws(s, k + 1, hi), hi));
            assert(rest(t) == rest(s));
        } else {
            assert(rest(t) == rest(s));
        }
    }
}

/// `cd -list` opens the navigator.
pub proof fn lemma_cd_list_opens_navigator()
    ensures
        classify("cd -list"@) == CommandView::CdList,
{
    let s = "cd -list"@;
    reveal_strlit("cd -list");
    reveal_strlit("cd");
    reveal_strlit("-list");
    assert(s.len() == 8);
    assert(!is_ws(s[0]) && !is_ws(s[7]) && is_ws(s[2]) && !is_ws(s[3]));
    assert(trim_lo(s) == 0);
    assert(trim_hi(s) == 8);
    assert(!is_ws(s[1]));
    assert(find_ws(s, 2, 8) == 2);
    assert(find_ws(s, 1, 8) == 2);
    assert(find_ws(s, 0, 8) == 2);
    assert(head_end(s) == 2);
    assert(head(s) =~= "cd"@);
    assert(skip_ws(s, 3, 8) == 3);
    assert(rest(s) == Some(s.subrange(3, 8)));
    assert(s.subrange(3, 8) =~= "-list"@);
}

} // verus!
