//! Lexing of an input line into typed spans for highlighting.

use vstd::prelude::*;
use vstd::string::*;
use crate::text::{is_whitespace, is_ws, skip_whitespace, skip_ws, substring};

verus! {

/// Kind of a highlighted span.
#[derive(Debug, Clone, Copy, PartialEq, Eq, Structural)]
pub enum TokenType {
    /// Command name: the first word, or a word after `|`, `&&`, `||`, `&` or `;`.
    Command,
    /// A flag such as `--help` or `-v`.
    Flag,
    /// A file path.
    Path,
    /// A quoted string.
    String,
    /// A numeric value.
    Number,
    /// One of `|`, `||`, `&`, `&&`, `>`, `>>`, `<`, `;`.
    Operator,
    /// A run of whitespace.
    Whitespace,
    /// Any other word.
    Text,
}

/// A span of the input line with its kind.
#[derive(Debug, Clone, PartialEq, Eq)]
pub struct Token {
    pub text: String,
    pub token_type: TokenType,
}

impl View for Token {
    type V = (Seq<char>, TokenType);

    open spec fn view(&self) -> (Seq<char>, TokenType) {
        (self.text@, self.token_type)
    }
}

impl Token {
    /// Makes a token of the given text and kind.
    pub fn new(text: String, token_type: TokenType) -> (r: Token)
        ensures
            r.text@ == text@,
            r.token_type == token_type,
    {
        Token { text, token_type }
    }
}

/// Characters that start an operator.
pub open spec fn is_op_char(c: char) -> bool {
    c == '|' || c == '&' || c == '>' || c == '<' || c == ';'
}

/// Characters that end a word.
pub open spec fn is_word_stop(c: char) -> bool {
    is_ws(c) || is_op_char(c) || c == '"' || c == '\''
}

pub open spec fn is_num_char(c: char) -> bool {
    ('0' <= c && c <= '9') || c == '.'
}

pub open spec fn all_num(w: Seq<char>) -> bool {
    forall|k: int| 0 <= k < w.len() ==> is_num_char(#[trigger] w[k])
}

pub open spec fn has_slash(w: Seq<char>) -> bool {
    exists|k: int| 0 <= k < w.len() && #[trigger] w[k] == '/'
}

/// The kind of a word, given whether a command is expected at its place.
pub open spec fn word_type(w: Seq<char>, expect_command: bool) -> TokenType {
    if w.len() >= 2 && w[0] == '-' && w[1] == '-' {
        TokenType::Flag
    } else if w.len() > 1 && w[0] == '-' {
        if all_num(w.subrange(1, w.len() as int)) {
            TokenType::Number
        } else {
            TokenType::Flag
        }
    } else if has_slash(w) || (w.len() >= 2 && w[0] == '.' && w[1] == '/') || (w.len() >= 2
        && w[0] == '~' && w[1] == '/') {
        TokenType::Path
    } else if w.len() > 0 && all_num(w) {
        TokenType::Number
    } else if expect_command {
        TokenType::Command
    } else {
        TokenType::Text
    }
}

/// Length of the operator that starts at `i`.
pub open spec fn op_len(s: Seq<char>, i: int) -> int {
    if (s[i] == '|' || s[i] == '&' || s[i] == '>') && i + 1 < s.len() && s[i + 1] == s[i] {
        2
    } else {
        1
    }
}

/// End of the word that starts at `i`.
pub open spec fn word_end(s: Seq<char>, i: int) -> int
    decreases s.len() - i,
{
    if i < s.len() && !is_word_stop(s[i]) {
        word_end(s, i + 1)
    } else {
        i
    }
}

/// End of a quoted run whose body starts at `i`, closed by `q`.
pub open spec fn quote_end(s: Seq<char>, q: char, i: int) -> int
    decreases s.len() - i,
{
    if i < s.len() {
        if s[i] == q {
            i + 1
        } else {
            quote_end(s, q, i + 1)
        }
    } else {
        i
    }
}

/// One scan step at `i < s.len()`: where the token ends, its kind, and
/// whether a command is expected after it.
pub open spec fn step(s: Seq<char>, i: int, expect_command: bool) -> (int, TokenType, bool) {
    let c = s[i];
    if is_ws(c) {
        (skip_ws(s, i, s.len() as int), TokenType::Whitespace, expect_command)
    } else if is_op_char(c) {
        (i + op_len(s, i), TokenType::Operator, !(c == '>' || c == '<'))
    } else if c == '"' || c == '\'' {
        (quote_end(s, c, i + 1), TokenType::String, false)
    } else {
        let e = word_end(s, i);
        (e, word_type(s.subrange(i, e), expect_command), false)
    }
}

/// The tokens of `s` from position `i` on.
pub open spec fn lex(s: Seq<char>, i: int, expect_command: bool) -> Seq<(Seq<char>, TokenType)>
    decreases s.len() - i,
{
    if 0 <= i < s.len() {
        let (e, t, x) = step(s, i, expect_command);
        if i < e <= s.len() {
            seq![(s.subrange(i, e), t)] + lex(s, e, x)
        } else {
            Seq::empty()
        }
    } else {
        Seq::empty()
    }
}

/// The tokens of a whole line.
pub open spec fn tokens_of(s: Seq<char>) -> Seq<(Seq<char>, TokenType)> {
    lex(s, 0, true)
}

/// The texts of a token sequence, joined.
pub open spec fn joined(ts: Seq<(Seq<char>, TokenType)>) -> Seq<char>
    decreases ts.len(),
{
    if ts.len() == 0 {
        Seq::empty()
    } else {
        ts[0].0 + joined(ts.drop_first())
    }
}

pub open spec fn token_views(ts: Seq<Token>) -> Seq<(Seq<char>, TokenType)> {
    ts.map_values(|t: Token| t@)
}

proof fn lemma_word_end_bounds(s: Seq<char>, i: int)
    requires
        0 <= i <= s.len(),
    ensures
        i <= word_end(s, i) <= s.len(),
        i < s.len() && !is_word_stop(s[i]) ==> i < word_end(s, i),
    decreases s.len() - i,
{
    if i < s.len() && !is_word_stop(s[i]) {
        lemma_word_end_bounds(s, i + 1);
    }
}

proof fn lemma_quote_end_bounds(s: Seq<char>, q: char, i: int)
    requires
        0 <= i <= s.len(),
    ensures
        i <= quote_end(s, q, i) <= s.len(),
    decreases s.len() - i,
{
    if i < s.len() && s[i] != q {
        lemma_quote_end_bounds(s, q, i + 1);
    }
}

proof fn lemma_skip_ws_grows(s: Seq<char>, i: int, hi: int)
    requires
        0 <= i < hi,
        is_ws(s[i]),
    ensures
        i < skip_ws(s, i, hi) <= hi,
{
    crate::text::lemma_skip_ws_bounds(s, i + 1, hi);
}

/// Each scan step consumes at least one character and stays in the line.
pub proof fn lemma_step_bounds(s: Seq<char>, i: int, expect_command: bool)
    requires
        0 <= i < s.len(),
    ensures
        i < step(s, i, expect_command).0 <= s.len(),
{
    let c = s[i];
    if is_ws(c) {
        lemma_skip_ws_grows(s, i, s.len() as int);
    } else if is_op_char(c) {
    } else if c == '"' || c == '\'' {
        lemma_quote_end_bounds(s, c, i + 1);
    } else {
        lemma_word_end_bounds(s, i);
    }
}

proof fn lemma_lex_joined(s: Seq<char>, i: int, expect_command: bool)
    requires
        0 <= i <= s.len(),
    ensures
        joined(lex(s, i, expect_command)) == s.subrange(i, s.len() as int),
    decreases s.len() - i,
{
    if i < s.len() {
        lemma_step_bounds(s, i, expect_command);
        let (e, t, x) = step(s, i, expect_command);
        lemma_lex_joined(s, e, x);
        let ts = lex(s, i, expect_command);
        assert(ts.drop_first() =~= lex(s, e, x));
        assert(s.subrange(i, e) + s.subrange(e, s.len() as int) =~= s.subrange(i, s.len() as int));
    } else {
        assert(s.subrange(i, s.len() as int) =~= Seq::<char>::empty());
    }
}

/// Joining the texts of the tokens of a line gives back the line.
pub proof fn lemma_tokens_round_trip(s: Seq<char>)
    ensures
        joined(tokens_of(s)) == s,
{
    lemma_lex_joined(s, 0, true);
    assert(s.subrange(0, s.len() as int) =~= s);
}

/// Scanner for command lines.
pub struct Tokenizer;

impl Tokenizer {
    /// Splits a line into tokens; their texts joined give back the line.
    pub fn tokenize(input: &str) -> (r: Vec<Token>)
        ensures
            token_views(r@) == tokens_of(input@),
            joined(token_views(r@)) == input@,
    {
        let n = input.unicode_len();
        let mut tokens: Vec<Token> = Vec::new();
        let mut i: usize = 0;
        let mut expect_command = true;
        while i < n
            invariant
                n == input@.len(),
                i <= n,
                token_views(tokens@) + lex(input@, i as int, expect_command) == tokens_of(input@),
            decreases n - i,
        {
            let s = Ghost(input@);
            proof {
                lemma_step_bounds(s@, i as int, expect_command);
            }
            let c = input.get_char(i);
            let end: usize;
            let ty: TokenType;
            let next_expect: bool;
            if is_whitespace(c) {
                end = skip_whitespace(input, i, n);
                ty = TokenType::Whitespace;
                next_expect = expect_command;
            } else if let Some(len) = Self::try_parse_operator(input, i) {
                end = i + len;
                ty = TokenType::Operator;
                next_expect = !(c == '>' || c == '<');
            } else if c == '"' || c == '\'' {
                end = Self::scan_quoted(input, c, i + 1);
                ty = TokenType::String;
                next_expect = false;
            } else {
                end = Self::parse_word(input, i);
                let w = substring(input, i, end);
                ty = Self::classify_word(w.as_str(), expect_command);
                next_expect = false;
            }
            assert(step(s@, i as int, expect_command) == (end as int, ty, next_expect));
            let text = substring(input, i, end);
            let tok = Token::new(text, ty);
            let ghost old_tokens = tokens@;
            tokens.push(tok);
            proof {
                let rest = lex(s@, end as int, next_expect);
                assert(lex(s@, i as int, expect_command) == seq![tok@] + rest);
                assert(token_views(tokens@) =~= token_views(old_tokens).push(tok@));
                assert(token_views(old_tokens) + (seq![tok@] + rest) =~= token_views(tokens@)
                    + rest);
            }
            i = end;
            expect_command = next_expect;
        }
        proof {
            assert(lex(input@, i as int, expect_command) =~= Seq::empty());
            assert(token_views(tokens@) + Seq::empty() =~= token_views(tokens@));
            lemma_tokens_round_trip(input@);
        }
        tokens
    }

    /// Length of the operator at `i`, if one starts there.
    fn try_parse_operator(input: &str, i: usize) -> (r: Option<usize>)
        requires
            i < input@.len(),
        ensures
            r == (if is_op_char(input@[i as int]) {
                Some(op_len(input@, i as int) as usize)
            } else {
                None::<usize>
            }),
    {
        let c = input.get_char(i);
        if c == '|' || c == '&' || c == '>' {
            let n = input.unicode_len();
            if i + 1 < n && input.get_char(i + 1) == c {
                Some(2)
            } else {
                Some(1)
            }
        } else if c == '<' || c == ';' {
            Some(1)
        } else {
            None
        }
    }

    /// End of a quoted run whose body starts at `i`.
    fn scan_quoted(input: &str, q: char, i: usize) -> (r: usize)
        requires
            i <= input@.len(),
        ensures
            r as int == quote_end(input@, q, i as int),
    {
        let n = input.unicode_len();
        let mut k = i;
        while k < n && input.get_char(k) != q
            invariant
                n == input@.len(),
                i <= k <= n,
                quote_end(input@, q, k as int) == quote_end(input@, q, i as int),
            decreases n - k,
        {
            k = k + 1;
        }
        if k < n {
            k + 1
        } else {
            k
        }
    }

    /// End of the word that starts at `i`.
    fn parse_word(input: &str, i: usize) -> (r: usize)
        requires
            i <= input@.len(),
        ensures
            r as int == word_end(input@, i as int),
    {
        let n = input.unicode_len();
        let mut k = i;
        while k < n && !Self::is_word_stop_char(input.get_char(k))
            invariant
                n == input@.len(),
                i <= k <= n,
                word_end(input@, k as int) == word_end(input@, i as int),
            decreases n - k,
        {
            k = k + 1;
        }
        k
    }

    fn is_word_stop_char(c: char) -> (r: bool)
        ensures
            r == is_word_stop(c),
    {
        is_whitespace(c) || c == '|' || c == '&' || c == '>' || c == '<' || c == ';' || c == '"'
            || c == '\''
    }

    /// Whether every character of `w` from `from` on is a digit or a dot.
    fn all_numeric(w: &str, from: usize) -> (r: bool)
        requires
            from <= w@.len(),
        ensures
            r == all_num(w@.subrange(from as int, w@.len() as int)),
    {
        let n = w.unicode_len();
        let mut k = from;
        while k < n
            invariant
                n == w@.len(),
                from <= k <= n,
                forall|m: int| from <= m < k ==> is_num_char(#[trigger] w@[m]),
            decreases n - k,
        {
            let c = w.get_char(k);
            if !(('0' <= c && c <= '9') || c == '.') {
                assert(!is_num_char(w@.subrange(from as int, n as int)[k - from]));
                return false;
            }
            k = k + 1;
        }
        assert forall|m: int| 0 <= m < n - from implies is_num_char(
            #[trigger] w@.subrange(from as int, n as int)[m],
        ) by {
            assert(w@.subrange(from as int, n as int)[m] == w@[from + m]);
        }
        true
    }

    /// Whether `w` holds a `/`.
    fn contains_slash(w: &str) -> (r: bool)
        ensures
            r == has_slash(w@),
    {
        let n = w.unicode_len();
        let mut k: usize = 0;
        while k < n
            invariant
                n == w@.len(),
                k <= n,
                forall|m: int| 0 <= m < k ==> w@[m] != '/',
            decreases n - k,
        {
            if w.get_char(k) == '/' {
                return true;
            }
            k = k + 1;
        }
        false
    }

    /// Kind of a word, given whether a command is expected at its place.
    fn classify_word(word: &str, expect_command: bool) -> (r: TokenType)
        ensures
            r == word_type(word@, expect_command),
    {
        let n = word.unicode_len();
        if n >= 2 && word.get_char(0) == '-' && word.get_char(1) == '-' {
            TokenType::Flag
        } else if n > 1 && word.get_char(0) == '-' {
            if Self::all_numeric(word, 1) {
                TokenType::Number
            } else {
                TokenType::Flag
            }
        } else if Self::contains_slash(word) || (n >= 2 && word.get_char(0) == '.'
            && word.get_char(1) == '/') || (n >= 2 && word.get_char(0) == '~' && word.get_char(1)
            == '/') {
            TokenType::Path
        } else if n > 0 && Self::all_numeric(word, 0) {
            proof {
                assert(word@.subrange(0, n as int) =~= word@);
            }
            TokenType::Number
        } else if expect_command {
            proof {
                assert(word@.subrange(0, n as int) =~= word@);
            }
            TokenType::Command
        } else {
            proof {
                assert(word@.subrange(0, n as int) =~= word@);
            }
            TokenType::Text
        }
    }
}

} // verus!
