use vstd::prelude::*;

pub mod lines;
pub mod positions;
pub mod spellings;
pub mod tokens;

pub use tokens::{carries_text, raw_view, token_views, Token, TokenKey, TokenV};

use crate::text::{
    chars_of, is_ascii_text, is_number_text, is_quoted_text, is_space, is_word_char,
    pattern_matches, push_char, same_text,
};

verus! {

// ---------------------------------------------------------------------------
// Specification
// ---------------------------------------------------------------------------

/// How many operator and punctuation spellings the tokenizer knows.
pub open spec fn combo_count() -> int {
    30
}

/// The position of the comment marker `//` among the spellings.
pub open spec fn comment_combo() -> int {
    10
}

/// The operator and punctuation spellings, in the order in which they are
/// tried: a longer spelling comes before any spelling that is its prefix.
pub open spec fn combo(k: int) -> Seq<char> {
    if k == 0 {
        "==="@
    } else if k == 1 {
        "!=="@
    } else if k == 2 {
        "+="@
    } else if k == 3 {
        "-="@
    } else if k == 4 {
        "=="@
    } else if k == 5 {
        "!="@
    } else if k == 6 {
        ">="@
    } else if k == 7 {
        "::"@
    } else if k == 8 {
        "<="@
    } else if k == 9 {
        "&&"@
    } else if k == 10 {
        "//"@
    } else if k == 11 {
        "**"@
    } else if k == 12 {
        "||"@
    } else if k == 13 {
        "("@
    } else if k == 14 {
        ")"@
    } else if k == 15 {
        "["@
    } else if k == 16 {
        "]"@
    } else if k == 17 {
        "{"@
    } else if k == 18 {
        "}"@
    } else if k == 19 {
        ";"@
    } else if k == 20 {
        ":"@
    } else if k == 21 {
        ","@
    } else if k == 22 {
        "+"@
    } else if k == 23 {
        "-"@
    } else if k == 24 {
        "*"@
    } else if k == 25 {
        "/"@
    } else if k == 26 {
        "="@
    } else if k == 27 {
        ">"@
    } else if k == 28 {
        "<"@
    } else {
        "!"@
    }
}

/// Every spelling in the combo table is ASCII and not empty.
pub proof fn lemma_combo_len(k: int)
    requires
        0 <= k < combo_count(),
    ensures
        combo(k).len() >= 1,
        is_ascii_text(combo(k)),
{
    reveal_strlit("===");
    reveal_strlit("!==");
    reveal_strlit("+=");
    reveal_strlit("-=");
    reveal_strlit("==");
    reveal_strlit("!=");
    reveal_strlit(">=");
    reveal_strlit("::");
    reveal_strlit("<=");
    reveal_strlit("&&");
    reveal_strlit("//");
    reveal_strlit("**");
    reveal_strlit("||");
    reveal_strlit("(");
    reveal_strlit(")");
    reveal_strlit("[");
    reveal_strlit("]");
    reveal_strlit("{");
    reveal_strlit("}");
    reveal_strlit(";");
    reveal_strlit(":");
    reveal_strlit(",");
    reveal_strlit("+");
    reveal_strlit("-");
    reveal_strlit("*");
    reveal_strlit("/");
    reveal_strlit("=");
    reveal_strlit(">");
    reveal_strlit("<");
    reveal_strlit("!");
    let c = combo(k);
    assert forall|i: int| 0 <= i < c.len() implies (#[trigger] c[i] as u32) < 128 by {
        assert(c.len() <= 3);
    }
}

/// How many spellings have a fixed token kind.
pub open spec fn keyword_count() -> int {
    42
}

/// The spellings with a fixed token kind, in the order in which they are
/// tried.
pub open spec fn keyword_entry(k: int) -> (Seq<char>, TokenKey) {
    if k == 0 {
        ("{"@, TokenKey::CurlyBraceLeft)
    } else if k == 1 {
        ("}"@, TokenKey::CurlyBraceRight)
    } else if k == 2 {
        ("("@, TokenKey::ParentheseLeft)
    } else if k == 3 {
        (")"@, TokenKey::ParentheseRight)
    } else if k == 4 {
        ("["@, TokenKey::BracketLeft)
    } else if k == 5 {
        ("]"@, TokenKey::BracketRight)
    } else if k == 6 {
        (";"@, TokenKey::SemiColon)
    } else if k == 7 {
        (":"@, TokenKey::Colon)
    } else if k == 8 {
        (","@, TokenKey::Comma)
    } else if k == 9 {
        ("+"@, TokenKey::Addition)
    } else if k == 10 {
        ("**"@, TokenKey::Power)
    } else if k == 11 {
        ("-"@, TokenKey::Subtraction)
    } else if k == 12 {
        ("/"@, TokenKey::Division)
    } else if k == 13 {
        ("*"@, TokenKey::Multiplication)
    } else if k == 14 {
        ("="@, TokenKey::Assign)
    } else if k == 15 {
        ("+="@, TokenKey::AdditionAssign)
    } else if k == 16 {
        ("-="@, TokenKey::SubtractAssign)
    } else if k == 17 {
        ("=="@, TokenKey::Equals)
    } else if k == 18 {
        ("==="@, TokenKey::Equals)
    } else if k == 19 {
        ("!="@, TokenKey::NotEquals)
    } else if k == 20 {
        ("!=="@, TokenKey::NotEquals)
    } else if k == 21 {
        ("::"@, TokenKey::DoubleColon)
    } else if k == 22 {
        (">"@, TokenKey::GreaterThan)
    } else if k == 23 {
        (">="@, TokenKey::GreaterThanOrEquals)
    } else if k == 24 {
        ("<"@, TokenKey::LessThan)
    } else if k == 25 {
        ("<="@, TokenKey::LessThanOrEquals)
    } else if k == 26 {
        ("&&"@, TokenKey::And)
    } else if k == 27 {
        ("||"@, TokenKey::Or)
    } else if k == 28 {
        ("!"@, TokenKey::Not)
    } else if k == 29 {
        ("fnc"@, TokenKey::Function)
    } else if k == 30 {
        ("mxn"@, TokenKey::Mixin)
    } else if k == 31 {
        ("var"@, TokenKey::Variable)
    } else if k == 32 {
        ("cst"@, TokenKey::Constant)
    } else if k == 33 {
        ("while"@, TokenKey::While)
    } else if k == 34 {
        ("imp"@, TokenKey::Import)
    } else if k == 35 {
        ("frm"@, TokenKey::From)
    } else if k == 36 {
        ("exp"@, TokenKey::Export)
    } else if k == 37 {
        ("if"@, TokenKey::If)
    } else if k == 38 {
        ("ret"@, TokenKey::Return)
    } else if k == 39 {
        ("true"@, TokenKey::True)
    } else if k == 40 {
        ("false"@, TokenKey::False)
    } else {
        ("func"@, TokenKey::Function)
    }
}

/// The kind of the first keyword-table entry, from position `k` on, whose
/// spelling is `raw`.
pub open spec fn keyword_from(raw: Seq<char>, k: int) -> Option<TokenKey>
    decreases keyword_count() - k,
{
    if k < 0 || k >= keyword_count() {
        None
    } else if raw == keyword_entry(k).0 {
        Some(keyword_entry(k).1)
    } else {
        keyword_from(raw, k + 1)
    }
}

/// The token that the text `raw`, found at 0-based line `ln` and column
/// `col`, stands for; its position is given 1-based.
pub open spec fn spec_token(raw: Seq<char>, ln: int, col: int) -> TokenV {
    let l = (ln + 1) as usize;
    let c = (col + 1) as usize;
    match keyword_from(raw, 0) {
        Some(key) => TokenV { key, ln: l, col: c, raw: None },
        None => TokenV {
            key: if is_number_text(raw) {
                TokenKey::PrimitiveNumber
            } else if is_quoted_text(raw) {
                TokenKey::PrimitiveString
            } else {
                TokenKey::Keyword
            },
            ln: l,
            col: c,
            raw: Some(raw),
        },
    }
}

/// `line` holds the spelling `c` at `col`.
pub open spec fn matches_at(line: Seq<char>, col: int, c: Seq<char>) -> bool {
    0 <= col && col + c.len() <= line.len() && line.subrange(col, col + c.len()) == c
}

/// The first spelling, from position `k` of the combo table on, that `line`
/// holds at `col`.
pub open spec fn first_combo(line: Seq<char>, col: int, k: int) -> Option<int>
    decreases combo_count() - k,
{
    if k < 0 || k >= combo_count() {
        None
    } else if matches_at(line, col, combo(k)) {
        Some(k)
    } else {
        first_combo(line, col, k + 1)
    }
}

/// The spelling found is in the table and stands in `line` at `col`.
pub proof fn lemma_first_combo(line: Seq<char>, col: int, k: int)
    ensures
        first_combo(line, col, k) matches Some(m) ==> k <= m < combo_count() && matches_at(
            line,
            col,
            combo(m),
        ),
    decreases combo_count() - k,
{
    if 0 <= k < combo_count() && !matches_at(line, col, combo(k)) {
        lemma_first_combo(line, col, k + 1);
    }
}

/// Where the run of word characters that starts at `j` ends.
pub open spec fn word_end(line: Seq<char>, j: int) -> int
    decreases line.len() - j,
{
    if 0 <= j < line.len() && is_word_char(line[j]) {
        word_end(line, j + 1)
    } else {
        j
    }
}

/// A word runs from `j` up to its end over word characters only.
pub proof fn lemma_word_end(line: Seq<char>, j: int)
    ensures
        j <= word_end(line, j),
        0 <= j <= line.len() ==> word_end(line, j) <= line.len(),
        forall|i: int| j <= i < word_end(line, j) ==> is_word_char(#[trigger] line[i]),
        0 <= j ==> (word_end(line, j) == j || 0 <= j < line.len()),
    decreases line.len() - j,
{
    if 0 <= j < line.len() && is_word_char(line[j]) {
        lemma_word_end(line, j + 1);
    }
}

/// Where the tokenizer stands inside a line: inside a string literal or not,
/// right after an escaping backslash or not, and the literal read so far.
pub struct LineState {
    pub in_str: bool,
    pub escaped: bool,
    pub text: Seq<char>,
}

/// The state at the start of a line: outside any string literal.
pub open spec fn line_start() -> LineState {
    LineState { in_str: false, escaped: false, text: Seq::empty() }
}

/// The tokens `ts`, followed by the tokens of the rest where it can be
/// read.
pub open spec fn prepend(ts: Seq<TokenV>, rest: Option<Seq<TokenV>>) -> Option<Seq<TokenV>> {
    match rest {
        Some(r) => Some(ts + r),
        None => None,
    }
}

/// The tokens of `line` (0-based line `ln`) from column `col` on, in state
/// `st`; `None` where the tokenizer gives up (a character it cannot place,
/// or a string literal left open at the end of the line).
pub open spec fn line_tokens(line: Seq<char>, ln: int, col: int, st: LineState) -> Option<
    Seq<TokenV>,
>
    decreases line.len() - col,
{
    if col < 0 || col >= line.len() {
        if st.in_str {
            None
        } else {
            Some(Seq::empty())
        }
    } else {
        let c = line[col];
        if c == '"' {
            let text = st.text.push('"');
            if st.in_str && !st.escaped {
                prepend(
                    seq![spec_token(text, ln, col)],
                    line_tokens(
                        line,
                        ln,
                        col + 1,
                        LineState { in_str: false, escaped: false, text: Seq::empty() },
                    ),
                )
            } else if st.in_str {
                line_tokens(line, ln, col + 1, LineState { text, ..st })
            } else {
                line_tokens(line, ln, col + 1, LineState { in_str: true, text, ..st })
            }
        } else if st.in_str {
            if c == '\\' && !st.escaped {
                line_tokens(line, ln, col + 1, LineState { escaped: true, ..st })
            } else {
                line_tokens(
                    line,
                    ln,
                    col + 1,
                    LineState { text: st.text.push(c), escaped: false, ..st },
                )
            }
        } else if is_space(c) {
            line_tokens(line, ln, col + 1, st)
        } else {
            match first_combo(line, col, 0) {
                Some(k) => {
                    if k == comment_combo() {
                        Some(Seq::empty())
                    } else {
                        proof {
                            lemma_first_combo(line, col, 0);
                            lemma_combo_len(k);
                        }
                        prepend(
                            seq![spec_token(combo(k), ln, col)],
                            line_tokens(line, ln, col + combo(k).len(), st),
                        )
                    }
                },
                None => {
                    let e = word_end(line, col);
                    proof {
                        lemma_word_end(line, col);
                    }
                    if e <= col {
                        None
                    } else {
                        prepend(
                            seq![spec_token(line.subrange(col, e), ln, col)],
                            line_tokens(line, ln, e, st),
                        )
                    }
                },
            }
        }
    }
}

/// The end of the line that starts at `start`: the position of the next line
/// break, or the end of `code`.
pub open spec fn line_end(code: Seq<char>, start: int) -> int
    decreases code.len() - start,
{
    if start < 0 || start >= code.len() || code[start] == '\n' {
        start
    } else {
        line_end(code, start + 1)
    }
}

/// A line ends at a line break or at the end of the text, and holds no
/// line break.
pub proof fn lemma_line_end(code: Seq<char>, start: int)
    requires
        0 <= start <= code.len(),
    ensures
        start <= line_end(code, start) <= code.len(),
        line_end(code, start) < code.len() ==> code[line_end(code, start)] == '\n',
        forall|i: int| start <= i < line_end(code, start) ==> #[trigger] code[i] != '\n',
    decreases code.len() - start,
{
    if start < code.len() && code[start] != '\n' {
        lemma_line_end(code, start + 1);
    }
}

/// The tokens of `code` from the line that starts at `start` (0-based line
/// `ln`) on.
pub open spec fn tokens_from(code: Seq<char>, start: int, ln: int) -> Option<Seq<TokenV>>
    decreases code.len() - start,
{
    if start < 0 || start > code.len() {
        None
    } else {
        let e = line_end(code, start);
        proof {
            lemma_line_end(code, start);
        }
        let here = line_tokens(code.subrange(start, e), ln, 0, line_start());
        if e >= code.len() {
            here
        } else {
            match here {
                Some(ts) => prepend(ts, tokens_from(code, e + 1, ln + 1)),
                None => None,
            }
        }
    }
}

/// The tokens of a source text, line by line; `None` where the tokenizer
/// gives up.
pub open spec fn spec_tokenize(code: Seq<char>) -> Option<Seq<TokenV>> {
    tokens_from(code, 0, 0)
}

/// Why a text cannot be split into tokens. Lines and columns are counted
/// from 0 here.
#[derive(Debug, PartialEq, Eq, Clone, Copy, Structural)]
pub enum TokenizeError {
    /// A character that starts no token, at the given line and column.
    UnrecognizedCharacter { line: usize, column: usize },
    /// A string literal still open at the end of the given line.
    UnclosedString { line: usize },
}

/// Why the rest of `line` (0-based line `ln`), read from column `col` on in
/// state `st`, cannot be split; `None` where it can (see `line_tokens`).
pub open spec fn line_failure(line: Seq<char>, ln: int, col: int, st: LineState) -> Option<
    TokenizeError,
>
    decreases line.len() - col,
{
    if col < 0 || col >= line.len() {
        if st.in_str {
            Some(TokenizeError::UnclosedString { line: ln as usize })
        } else {
            None
        }
    } else {
        let c = line[col];
        if c == '"' {
            let text = st.text.push('"');
            if st.in_str && !st.escaped {
                line_failure(
                    line,
                    ln,
                    col + 1,
                    LineState { in_str: false, escaped: false, text: Seq::empty() },
                )
            } else if st.in_str {
                line_failure(line, ln, col + 1, LineState { text, ..st })
            } else {
                line_failure(line, ln, col + 1, LineState { in_str: true, text, ..st })
            }
        } else if st.in_str {
            if c == '\\' && !st.escaped {
                line_failure(line, ln, col + 1, LineState { escaped: true, ..st })
            } else {
                line_failure(
                    line,
                    ln,
                    col + 1,
                    LineState { text: st.text.push(c), escaped: false, ..st },
                )
            }
        } else if is_space(c) {
            line_failure(line, ln, col + 1, st)
        } else {
            match first_combo(line, col, 0) {
                Some(k) => {
                    if k == comment_combo() {
                        None
                    } else {
                        proof {
                            lemma_first_combo(line, col, 0);
                            lemma_combo_len(k);
                        }
                        line_failure(line, ln, col + combo(k).len(), st)
                    }
                },
                None => {
                    let e = word_end(line, col);
                    proof {
                        lemma_word_end(line, col);
                    }
                    if e <= col {
                        Some(
                            TokenizeError::UnrecognizedCharacter {
                                line: ln as usize,
                                column: col as usize,
                            },
                        )
                    } else {
                        line_failure(line, ln, e, st)
                    }
                },
            }
        }
    }
}

/// Why the text from the line that starts at `start` (0-based line `ln`) on
/// cannot be split: the failure of the first line that cannot be.
pub open spec fn tokens_failure(code: Seq<char>, start: int, ln: int) -> Option<TokenizeError>
    decreases code.len() - start,
{
    if start < 0 || start > code.len() {
        None
    } else {
        let e = line_end(code, start);
        proof {
            lemma_line_end(code, start);
        }
        match line_failure(code.subrange(start, e), ln, 0, line_start()) {
            Some(f) => Some(f),
            None => {
                if e >= code.len() {
                    None
                } else {
                    tokens_failure(code, e + 1, ln + 1)
                }
            },
        }
    }
}

/// Why a source text cannot be split into tokens, if it cannot.
pub open spec fn spec_tokenize_failure(code: Seq<char>) -> Option<TokenizeError> {
    tokens_failure(code, 0, 0)
}

// ---------------------------------------------------------------------------
// Implementation
// ---------------------------------------------------------------------------

/// The spelling at position `k` of the combo table.
fn combo_text(k: usize) -> (r: &'static str)
    requires
        k < combo_count(),
    ensures
        r@ == combo(k as int),
{
    if k == 0 {
        "==="
    } else if k == 1 {
        "!=="
    } else if k == 2 {
        "+="
    } else if k == 3 {
        "-="
    } else if k == 4 {
        "=="
    } else if k == 5 {
        "!="
    } else if k == 6 {
        ">="
    } else if k == 7 {
        "::"
    } else if k == 8 {
        "<="
    } else if k == 9 {
        "&&"
    } else if k == 10 {
        "//"
    } else if k == 11 {
        "**"
    } else if k == 12 {
        "||"
    } else if k == 13 {
        "("
    } else if k == 14 {
        ")"
    } else if k == 15 {
        "["
    } else if k == 16 {
        "]"
    } else if k == 17 {
        "{"
    } else if k == 18 {
        "}"
    } else if k == 19 {
        ";"
    } else if k == 20 {
        ":"
    } else if k == 21 {
        ","
    } else if k == 22 {
        "+"
    } else if k == 23 {
        "-"
    } else if k == 24 {
        "*"
    } else if k == 25 {
        "/"
    } else if k == 26 {
        "="
    } else if k == 27 {
        ">"
    } else if k == 28 {
        "<"
    } else {
        "!"
    }
}

/// The entry at position `k` of the keyword table.
fn keyword_at(k: usize) -> (r: (&'static str, TokenKey))
    requires
        k < keyword_count(),
    ensures
        r.0@ == keyword_entry(k as int).0,
        r.1 == keyword_entry(k as int).1,
{
    if k == 0 {
        ("{", TokenKey::CurlyBraceLeft)
    } else if k == 1 {
        ("}", TokenKey::CurlyBraceRight)
    } else if k == 2 {
        ("(", TokenKey::ParentheseLeft)
    } else if k == 3 {
        (")", TokenKey::ParentheseRight)
    } else if k == 4 {
        ("[", TokenKey::BracketLeft)
    } else if k == 5 {
        ("]", TokenKey::BracketRight)
    } else if k == 6 {
        (";", TokenKey::SemiColon)
    } else if k == 7 {
        (":", TokenKey::Colon)
    } else if k == 8 {
        (",", TokenKey::Comma)
    } else if k == 9 {
        ("+", TokenKey::Addition)
    } else if k == 10 {
        ("**", TokenKey::Power)
    } else if k == 11 {
        ("-", TokenKey::Subtraction)
    } else if k == 12 {
        ("/", TokenKey::Division)
    } else if k == 13 {
        ("*", TokenKey::Multiplication)
    } else if k == 14 {
        ("=", TokenKey::Assign)
    } else if k == 15 {
        ("+=", TokenKey::AdditionAssign)
    } else if k == 16 {
        ("-=", TokenKey::SubtractAssign)
    } else if k == 17 {
        ("==", TokenKey::Equals)
    } else if k == 18 {
        ("===", TokenKey::Equals)
    } else if k == 19 {
        ("!=", TokenKey::NotEquals)
    } else if k == 20 {
        ("!==", TokenKey::NotEquals)
    } else if k == 21 {
        ("::", TokenKey::DoubleColon)
    } else if k == 22 {
        (">", TokenKey::GreaterThan)
    } else if k == 23 {
        (">=", TokenKey::GreaterThanOrEquals)
    } else if k == 24 {
        ("<", TokenKey::LessThan)
    } else if k == 25 {
        ("<=", TokenKey::LessThanOrEquals)
    } else if k == 26 {
        ("&&", TokenKey::And)
    } else if k == 27 {
        ("||", TokenKey::Or)
    } else if k == 28 {
        ("!", TokenKey::Not)
    } else if k == 29 {
        ("fnc", TokenKey::Function)
    } else if k == 30 {
        ("mxn", TokenKey::Mixin)
    } else if k == 31 {
        ("var", TokenKey::Variable)
    } else if k == 32 {
        ("cst", TokenKey::Constant)
    } else if k == 33 {
        ("while", TokenKey::While)
    } else if k == 34 {
        ("imp", TokenKey::Import)
    } else if k == 35 {
        ("frm", TokenKey::From)
    } else if k == 36 {
        ("exp", TokenKey::Export)
    } else if k == 37 {
        ("if", TokenKey::If)
    } else if k == 38 {
        ("ret", TokenKey::Return)
    } else if k == 39 {
        ("true", TokenKey::True)
    } else if k == 40 {
        ("false", TokenKey::False)
    } else {
        ("func", TokenKey::Function)
    }
}

/// Whether `line` holds the spelling `c` at `col`.
fn matches_here(line: &Vec<char>, col: usize, c: &str) -> (r: bool)
    requires
        col <= line@.len(),
    ensures
        r == matches_at(line@, col as int, c@),
{
    let len = c.unicode_len();
    let mut i: usize = 0;
    while i < len
        invariant
            col <= line@.len(),
            len == c@.len(),
            0 <= i <= len,
            i <= line@.len() - col,
            forall|j: int| 0 <= j < i ==> line@[col + j] == c@[j],
        decreases len - i,
    {
        if i >= line.len() - col {
            return false;
        }
        if line[col + i] != c.get_char(i) {
            assert(!matches_at(line@, col as int, c@)) by {
                if col + len <= line@.len() {
                    assert(line@.subrange(col as int, col + len)[i as int] == line@[col + i]);
                }
            }
            return false;
        }
        i = i + 1;
    }
    assert(line@.subrange(col as int, col + len) =~= c@);
    true
}

/// The first combo-table spelling that `line` holds at `col`.
fn find_combo(line: &Vec<char>, col: usize) -> (r: Option<usize>)
    requires
        col <= line@.len(),
    ensures
        match r {
            Some(k) => first_combo(line@, col as int, 0) == Some(k as int),
            None => first_combo(line@, col as int, 0) is None,
        },
{
    let mut k: usize = 0;
    while k < 30
        invariant
            col <= line@.len(),
            0 <= k <= combo_count(),
            first_combo(line@, col as int, 0) == first_combo(line@, col as int, k as int),
        decreases combo_count() - k,
    {
        let c = combo_text(k);
        if matches_here(line, col, c) {
            return Some(k);
        }
        k = k + 1;
    }
    None
}

/// Where the run of word characters that starts at `col` ends; each
/// character is tested with the word-character pattern.
fn word_end_at(line: &Vec<char>, col: usize) -> (e: usize)
    requires
        col <= line@.len(),
    ensures
        e == word_end(line@, col as int),
{
    let mut j = col;
    let mut stop = false;
    while j < line.len() && !stop
        invariant
            col <= j <= line@.len(),
            word_end(line@, col as int) == if stop {
                j as int
            } else {
                word_end(line@, j as int)
            },
        decreases line@.len() - j + if stop {
            0int
        } else {
            1int
        },
    {
        let mut one = String::new();
        push_char(&mut one, line[j]);
        assert(one@ == seq![line@[j as int]]);
        if pattern_matches("^[A-Za-z0-9_\\.]$", one.as_str()) {
            j = j + 1;
        } else {
            stop = true;
        }
    }
    j
}

/// The characters of `line` from `from` up to `to`, as a `String`.
fn text_of(line: &Vec<char>, from: usize, to: usize) -> (r: String)
    requires
        from <= to <= line@.len(),
    ensures
        r@ == line@.subrange(from as int, to as int),
{
    let mut s = String::new();
    let mut i = from;
    while i < to
        invariant
            from <= i <= to <= line@.len(),
            s@ == line@.subrange(from as int, i as int),
        decreases to - i,
    {
        push_char(&mut s, line[i]);
        i = i + 1;
        assert(s@ =~= line@.subrange(from as int, i as int));
    }
    s
}

/// The token that the text `raw`, found at 0-based line `ln` and column
/// `col`, stands for.
fn get_token(raw: &str, ln: usize, col: usize) -> (t: Token)
    requires
        ln < usize::MAX,
        col < usize::MAX,
        is_ascii_text(raw@) || (raw@.len() > 0 && raw@[0] == '"'),
    ensures
        t@ == spec_token(raw@, ln as int, col as int),
{
    let l = ln + 1;
    let c = col + 1;
    let mut k: usize = 0;
    while k < 42
        invariant
            0 <= k <= keyword_count(),
            l == ln + 1,
            c == col + 1,
            keyword_from(raw@, 0) == keyword_from(raw@, k as int),
        decreases keyword_count() - k,
    {
        let (text, key) = keyword_at(k);
        if same_text(raw, text) {
            assert(keyword_from(raw@, k as int) == Some(key));
            return Token { key, ln: l, col: c, raw: None };
        }
        k = k + 1;
    }
    assert(keyword_from(raw@, 0) is None);
    proof {
        if !is_ascii_text(raw@) {
            assert((raw@[0] as u32) < 128);
            assert(crate::text::has_non_number_ascii(raw@));
        }
    }
    let key = if pattern_matches("^\\d*\\.?\\d+$", raw) {
        TokenKey::PrimitiveNumber
    } else if pattern_matches("^\".+\"$", raw) {
        TokenKey::PrimitiveString
    } else {
        TokenKey::Keyword
    };
    Token { key, ln: l, col: c, raw: Some(raw.to_owned()) }
}


/// Prepending twice is prepending the concatenation.
pub proof fn lemma_prepend_concat(a: Seq<TokenV>, b: Seq<TokenV>, x: Option<Seq<TokenV>>)
    ensures
        prepend(a, prepend(b, x)) == prepend(a + b, x),
{
    if let Some(r) = x {
        assert(a + (b + r) =~= (a + b) + r);
    }
}

proof fn lemma_views_push(ts: Seq<Token>, t: Token)
    ensures
        token_views(ts.push(t)) == token_views(ts).push(t@),
{
    assert(token_views(ts.push(t)) =~= token_views(ts).push(t@));
}

/// Reads the tokens of one line (0-based line `ln`) and appends them to
/// `tokens`; the reason where the line cannot be read (see `line_tokens`).
fn tokenize_line(line: &Vec<char>, ln: usize, tokens: &mut Vec<Token>) -> (r: Option<
    TokenizeError,
>)
    requires
        line@.len() > 0 ==> ln < usize::MAX,
    ensures
        (r is None) == line_tokens(line@, ln as int, 0, line_start()) is Some,
        r == line_failure(line@, ln as int, 0, line_start()),
        r is None ==> token_views(final(tokens)@) == token_views(old(tokens)@) + line_tokens(
            line@,
            ln as int,
            0,
            line_start(),
        ).unwrap(),
{
    let n = line.len();
    let mut col: usize = 0;
    let mut in_str = false;
    let mut escaped = false;
    let mut text = String::new();
    let ghost mut emitted: Seq<TokenV> = Seq::empty();
    assert(token_views(tokens@) =~= token_views(old(tokens)@) + emitted);
    assert(LineState { in_str, escaped, text: text@ } == line_start());
    assert(prepend(emitted, line_tokens(line@, ln as int, 0, line_start())) == line_tokens(
        line@,
        ln as int,
        0,
        line_start(),
    )) by {
        if let Some(r) = line_tokens(line@, ln as int, 0, line_start()) {
            assert(emitted + r =~= r);
        }
    }
    while col < n
        invariant
            n == line@.len(),
            col <= n,
            n > 0 ==> ln < usize::MAX,
            line_tokens(line@, ln as int, 0, line_start()) == prepend(
                emitted,
                line_tokens(
                    line@,
                    ln as int,
                    col as int,
                    LineState { in_str, escaped, text: text@ },
                ),
            ),
            token_views(tokens@) == token_views(old(tokens)@) + emitted,
            line_failure(line@, ln as int, 0, line_start()) == line_failure(
                line@,
                ln as int,
                col as int,
                LineState { in_str, escaped, text: text@ },
            ),
            in_str ==> text@.len() >= 1 && text@[0] == '"',
            !in_str ==> text@.len() == 0,
        decreases n - col,
    {
        let ghost st = LineState { in_str, escaped, text: text@ };
        let c = line[col];
        if c == '"' {
            push_char(&mut text, '"');
            if in_str && !escaped {
                let t = get_token(text.as_str(), ln, col);
                proof {
                    lemma_views_push(tokens@, t);
                    lemma_prepend_concat(
                        emitted,
                        seq![t@],
                        line_tokens(
                            line@,
                            ln as int,
                            col + 1,
                            LineState { in_str: false, escaped: false, text: Seq::empty() },
                        ),
                    );
                    emitted = emitted + seq![t@];
                }
                tokens.push(t);
                assert(token_views(tokens@) == token_views(old(tokens)@) + emitted);
                text = String::new();
                in_str = false;
                escaped = false;
            } else if in_str {
            } else {
                in_str = true;
            }
            col = col + 1;
        } else if in_str {
            if c == '\\' && !escaped {
                escaped = true;
            } else {
                push_char(&mut text, c);
                escaped = false;
            }
            col = col + 1;
        } else if c == ' ' || c == '\n' || c == '\r' || c == '\t' {
            col = col + 1;
        } else {
            match find_combo(line, col) {
                Some(k) => {
                    proof {
                        lemma_first_combo(line@, col as int, 0);
                    }
                    if k == 10 {
                        col = n;
                    } else {
                        proof {
                            lemma_combo_len(k as int);
                        }
                        let txt = combo_text(k);
                        let t = get_token(txt, ln, col);
                        proof {
                            lemma_views_push(tokens@, t);
                            lemma_prepend_concat(
                                emitted,
                                seq![t@],
                                line_tokens(line@, ln as int, col + combo(k as int).len(), st),
                            );
                            emitted = emitted + seq![t@];
                        }
                        tokens.push(t);
                        col = col + txt.unicode_len();
                    }
                },
                None => {
                    let e = word_end_at(line, col);
                    proof {
                        lemma_word_end(line@, col as int);
                    }
                    if e == col {
                        // A character that starts no token.
                        return Some(TokenizeError::UnrecognizedCharacter { line: ln, column: col });
                    }
                    let w = text_of(line, col, e);
                    assert(is_ascii_text(w@)) by {
                        assert forall|i: int| 0 <= i < w@.len() implies (#[trigger] w@[i] as u32)
                            < 128 by {
                            assert(is_word_char(line@[col + i]));
                        }
                    }
                    let t = get_token(w.as_str(), ln, col);
                    proof {
                        lemma_views_push(tokens@, t);
                        lemma_prepend_concat(
                            emitted,
                            seq![t@],
                            line_tokens(line@, ln as int, e as int, st),
                        );
                        emitted = emitted + seq![t@];
                    }
                    tokens.push(t);
                    col = e;
                },
            }
        }
    }
    if in_str {
        // A string literal still open at the end of the line.
        return Some(TokenizeError::UnclosedString { line: ln });
    }
    assert(emitted + Seq::<TokenV>::empty() =~= emitted);
    None
}

/// The end of the line that starts at `start`.
fn find_line_end(cs: &Vec<char>, start: usize) -> (e: usize)
    requires
        start <= cs@.len(),
    ensures
        e == line_end(cs@, start as int),
{
    let mut j = start;
    while j < cs.len() && cs[j] != '\n'
        invariant
            start <= j <= cs@.len(),
            line_end(cs@, start as int) == line_end(cs@, j as int),
        decreases cs@.len() - j,
    {
        j = j + 1;
    }
    j
}

/// The characters of `cs` from `from` up to `to`.
fn copy_range(cs: &Vec<char>, from: usize, to: usize) -> (r: Vec<char>)
    requires
        from <= to <= cs@.len(),
    ensures
        r@ == cs@.subrange(from as int, to as int),
{
    let mut r: Vec<char> = Vec::new();
    let mut i = from;
    while i < to
        invariant
            from <= i <= to <= cs@.len(),
            r@ == cs@.subrange(from as int, i as int),
        decreases to - i,
    {
        r.push(cs[i]);
        i = i + 1;
        assert(r@ =~= cs@.subrange(from as int, i as int));
    }
    r
}

/// Splits a source text into tokens, line by line, or tells why it cannot
/// (see `tokenize`): the first line that cannot be read gives the reason.
pub fn tokenize_or_failure(code: &str) -> (r: Result<Vec<Token>, TokenizeError>)
    ensures
        match r {
            Ok(ts) => spec_tokenize(code@) == Some(token_views(ts@)) && spec_tokenize_failure(
                code@,
            ) is None,
            Err(e) => spec_tokenize(code@) is None && spec_tokenize_failure(code@) == Some(e),
        },
{
    let cs = chars_of(code);
    let n = cs.len();
    let mut tokens: Vec<Token> = Vec::new();
    let mut start: usize = 0;
    let mut ln: usize = 0;
    let mut done = false;
    assert(token_views(tokens@) =~= Seq::<TokenV>::empty());
    assert(prepend(Seq::empty(), tokens_from(cs@, 0, 0)) == tokens_from(cs@, 0, 0)) by {
        if let Some(r) = tokens_from(cs@, 0, 0) {
            assert(Seq::<TokenV>::empty() + r =~= r);
        }
    }
    while !done
        invariant
            n == cs@.len(),
            cs@ == code@,
            start <= n,
            ln <= start,
            !done ==> spec_tokenize(cs@) == prepend(
                token_views(tokens@),
                tokens_from(cs@, start as int, ln as int),
            ),
            done ==> spec_tokenize(cs@) == Some(token_views(tokens@)),
            !done ==> spec_tokenize_failure(cs@) == tokens_failure(cs@, start as int, ln as int),
            done ==> spec_tokenize_failure(cs@) is None,
        decreases n - start + if done {
            0int
        } else {
            1int
        },
    {
        let e = find_line_end(&cs, start);
        proof {
            lemma_line_end(cs@, start as int);
        }
        let line = copy_range(&cs, start, e);
        let ghost here = line_tokens(line@, ln as int, 0, line_start());
        let ghost before = token_views(tokens@);
        if let Some(f) = tokenize_line(&line, ln, &mut tokens) {
            return Err(f);
        }
        if e >= n {
            done = true;
        } else {
            proof {
                lemma_prepend_concat(before, here.unwrap(), tokens_from(cs@, e + 1, ln + 1));
            }
            start = e + 1;
            ln = ln + 1;
        }
    }
    Ok(tokens)
}

/// Splits a source text into tokens, line by line; `None` where the text
/// cannot be read (see `tokenize`).
pub fn try_tokenize(code: &str) -> (r: Option<Vec<Token>>)
    ensures
        match r {
            Some(ts) => spec_tokenize(code@) == Some(token_views(ts@)),
            None => spec_tokenize(code@) is None,
        },
{
    match tokenize_or_failure(code) {
        Ok(ts) => Some(ts),
        Err(_) => None,
    }
}

/// Splits a source text into tokens, line by line.
///
/// Each token carries its 1-based line and column; a string literal is
/// placed at the column of its closing quote. Spaces, tabs and carriage
/// returns separate tokens, `//` ends the line, and a backslash inside a
/// string literal takes the next character as it is. A text with a
/// character that belongs to no token, or with a string literal still open
/// at the end of its line, cannot be split (`spec_tokenize` is `None`); such
/// texts are left out by the precondition, and `try_tokenize` takes any
/// text.
pub fn tokenize(code: &str) -> (r: Result<Vec<Token>, String>)
    requires
        spec_tokenize(code@) is Some,
    ensures
        r is Ok,
        r matches Ok(ts) ==> Some(token_views(ts@)) == spec_tokenize(code@),
{
    Ok(try_tokenize(code).unwrap())
}

} // verus!
