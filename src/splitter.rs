use vstd::prelude::*;

use crate::text::{chars_of, is_white_space, string_from_chars, white_space};

verus! {

/// Where the scanner stands: inside a quoted literal or a comment, or in plain text.
pub struct ScanState {
    pub single: bool,
    pub double: bool,
    pub line: bool,
    pub block: bool,
}

pub open spec fn plain_state() -> ScanState {
    ScanState { single: false, double: false, line: false, block: false }
}

/// A character that may follow `--` for it to open a line comment: whitespace.
pub open spec fn is_comment_gap(c: char) -> bool {
    is_white_space(c)
}

/// A line comment opens at `i`: two dashes outside quotes and block comments,
/// followed by a gap character or by the end of the input.
pub open spec fn opens_line_comment(s: Seq<char>, i: int, st: ScanState) -> bool {
    &&& !st.single && !st.double && !st.block
    &&& s[i] == '-' && i + 1 < s.len() && s[i + 1] == '-'
    &&& (i + 2 >= s.len() || is_comment_gap(s[i + 2]))
}

/// A block comment closes at `i`.
pub open spec fn closes_block_comment(s: Seq<char>, i: int) -> bool {
    s[i] == '*' && i + 1 < s.len() && s[i + 1] == '/'
}

/// A block comment opens at `i`: `/*` outside quotes.
pub open spec fn opens_block_comment(s: Seq<char>, i: int, st: ScanState) -> bool {
    !st.single && !st.double && s[i] == '/' && i + 1 < s.len() && s[i + 1] == '*'
}

/// The character at `i` is not escaped by a preceding backslash.
pub open spec fn unescaped(s: Seq<char>, i: int) -> bool {
    i == 0 || s[i - 1] != '\\'
}

/// The state after the quote characters at `i` have been taken into account.
pub open spec fn after_quote(s: Seq<char>, i: int, st: ScanState) -> ScanState {
    if s[i] == '\'' && unescaped(s, i) {
        ScanState { single: !st.single, ..st }
    } else if s[i] == '"' && unescaped(s, i) {
        ScanState { double: !st.double, ..st }
    } else {
        st
    }
}

/// The statements of `s` from position `i` on, given the scanner state `st`, the
/// text `cur` of the statement being read and the statements `acc` already read.
pub open spec fn split_from(
    s: Seq<char>,
    i: int,
    st: ScanState,
    cur: Seq<char>,
    acc: Seq<Seq<char>>,
) -> Seq<Seq<char>>
    decreases s.len() - i,
{
    if i < 0 || i >= s.len() {
        if cur.len() > 0 {
            acc.push(cur)
        } else {
            acc
        }
    } else if st.line {
        if s[i] == '\n' {
            split_from(s, i + 1, ScanState { line: false, ..st }, cur.push(s[i]), acc)
        } else {
            split_from(s, i + 1, st, cur, acc)
        }
    } else if opens_line_comment(s, i, st) {
        split_from(s, i + 2, ScanState { line: true, ..st }, cur, acc)
    } else if st.block {
        if closes_block_comment(s, i) {
            split_from(s, i + 2, ScanState { block: false, ..st }, cur, acc)
        } else {
            split_from(s, i + 1, st, cur, acc)
        }
    } else if opens_block_comment(s, i, st) {
        split_from(s, i + 2, ScanState { block: true, ..st }, cur, acc)
    } else {
        let st2 = after_quote(s, i, st);
        if s[i] == ';' && !st2.single && !st2.double {
            split_from(s, i + 1, st2, Seq::empty(), acc.push(cur))
        } else {
            split_from(s, i + 1, st2, cur.push(s[i]), acc)
        }
    }
}

/// The statements of a script: the pieces between semicolons that stand outside
/// quoted literals and comments. Comment text is dropped, except the newline that
/// ends a line comment; a last non-empty piece counts as a statement.
pub open spec fn split_statements_spec(s: Seq<char>) -> Seq<Seq<char>> {
    split_from(s, 0, plain_state(), Seq::empty(), Seq::empty())
}

pub open spec fn views_of(v: Seq<String>) -> Seq<Seq<char>> {
    v.map_values(|t: String| t@)
}

/// Splits `input` into statements on the semicolons that stand outside single-
/// and double-quoted literals, line comments (`--` then whitespace or the end) and
/// block comments (`/* ... */`). A quote preceded by a backslash does not open
/// or close a literal.
pub fn split_sql_statements(input: &str) -> (r: Vec<String>)
    ensures
        views_of(r@) == split_statements_spec(input@),
{
    let chars = chars_of(input);
    let n = chars.len();
    let ghost s = chars@;
    let mut statements: Vec<String> = Vec::new();
    let mut current: Vec<char> = Vec::new();
    let mut single = false;
    let mut double = false;
    let mut line = false;
    let mut block = false;
    let mut i: usize = 0;
    assert(views_of(statements@) =~= Seq::<Seq<char>>::empty());
    assert(current@ =~= Seq::<char>::empty());
    while i < n
        invariant
            s == chars@,
            s == input@,
            n == s.len(),
            i <= n + 1,
            split_from(
                s,
                i as int,
                (ScanState { single, double, line, block }),
                current@,
                views_of(statements@),
            ) == split_statements_spec(s),
        decreases n + 1 - i,
    {
        let ghost st = ScanState { single, double, line, block };
        let c = chars[i];
        if line {
            if c == '\n' {
                line = false;
                current.push(c);
            }
            i = i + 1;
            continue;
        }
        if !single && !double && !block && c == '-' && i + 1 < n && chars[i + 1] == '-' {
            let gap = i + 2 >= n || white_space(chars[i + 2]);
            if gap {
                line = true;
                i = i + 2;
                continue;
            }
        }
        assert(!opens_line_comment(s, i as int, st));
        if block {
            if c == '*' && i + 1 < n && chars[i + 1] == '/' {
                block = false;
                i = i + 2;
                continue;
            }
            i = i + 1;
            continue;
        }
        if !single && !double && c == '/' && i + 1 < n && chars[i + 1] == '*' {
            block = true;
            i = i + 2;
            continue;
        }
        if c == '\'' && (i == 0 || chars[i - 1] != '\\') {
            single = !single;
        } else if c == '"' && (i == 0 || chars[i - 1] != '\\') {
            double = !double;
        }
        assert(after_quote(s, i as int, st) == (ScanState { single, double, line, block }));
        if c == ';' && !single && !double {
            let piece = string_from_chars(&current);
            proof {
                assert(views_of(statements@.push(piece)) =~= views_of(statements@).push(current@));
            }
            statements.push(piece);
            current = Vec::new();
        } else {
            current.push(c);
        }
        i = i + 1;
    }
    if current.len() > 0 {
        let piece = string_from_chars(&current);
        proof {
            assert(views_of(statements@.push(piece)) =~= views_of(statements@).push(current@));
        }
        statements.push(piece);
    }
    statements
}

} // verus!
