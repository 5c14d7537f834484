use vstd::prelude::*;

use crate::text::is_space;
use super::tokens::TokenV;
use super::{
    combo, combo_count, comment_combo, first_combo, lemma_combo_len, lemma_first_combo,
    lemma_line_end, lemma_word_end, line_end, line_start, line_tokens, matches_at, prepend,
    spec_token, spec_tokenize, tokens_from, word_end, LineState,
};

verus! {

/// The same token, one line further down.
pub open spec fn next_line(t: TokenV) -> TokenV {
    TokenV { ln: (t.ln + 1) as usize, ..t }
}

/// Tokens moved one line further down.
pub open spec fn lines_down(r: Option<Seq<TokenV>>) -> Option<Seq<TokenV>> {
    match r {
        Some(ts) => Some(ts.map_values(|t: TokenV| next_line(t))),
        None => None,
    }
}

proof fn lemma_down_cons(x: TokenV, r: Option<Seq<TokenV>>)
    ensures
        prepend(seq![next_line(x)], lines_down(r)) == lines_down(prepend(seq![x], r)),
{
    if let Some(ts) = r {
        assert((seq![x] + ts).map_values(|t: TokenV| next_line(t)) =~= seq![next_line(x)]
            + ts.map_values(|t: TokenV| next_line(t)));
    }
}

proof fn lemma_down_concat(a: Seq<TokenV>, r: Option<Seq<TokenV>>)
    ensures
        prepend(a.map_values(|t: TokenV| next_line(t)), lines_down(r)) == lines_down(
            prepend(a, r),
        ),
{
    if let Some(ts) = r {
        assert((a + ts).map_values(|t: TokenV| next_line(t)) =~= a.map_values(
            |t: TokenV| next_line(t),
        ) + ts.map_values(|t: TokenV| next_line(t)));
    }
}

proof fn lemma_token_down(raw: Seq<char>, ln: int, col: int)
    requires
        0 <= ln,
        ln + 2 <= usize::MAX,
    ensures
        spec_token(raw, ln + 1, col) == next_line(spec_token(raw, ln, col)),
{
}

/// Reading a line as the next line down gives the same tokens, one line
/// further down.
proof fn lemma_line_down(line: Seq<char>, ln: int, col: int, st: LineState)
    requires
        0 <= col,
        0 <= ln,
        line.len() > 0 ==> ln + 2 <= usize::MAX,
    ensures
        line_tokens(line, ln + 1, col, st) == lines_down(line_tokens(line, ln, col, st)),
    decreases line.len() - col,
{
    if col >= line.len() {
        assert(Seq::<TokenV>::empty().map_values(|t: TokenV| next_line(t)) =~= Seq::<
            TokenV,
        >::empty());
        return;
    }
    let c = line[col];
    if c == '"' {
        let text = st.text.push('"');
        if st.in_str && !st.escaped {
            let next = LineState { in_str: false, escaped: false, text: Seq::empty() };
            lemma_line_down(line, ln, col + 1, next);
            lemma_token_down(text, ln, col);
            lemma_down_cons(spec_token(text, ln, col), line_tokens(line, ln, col + 1, next));
        } else if st.in_str {
            lemma_line_down(line, ln, col + 1, LineState { text, ..st });
        } else {
            lemma_line_down(line, ln, col + 1, LineState { in_str: true, text, ..st });
        }
    } else if st.in_str {
        if c == '\\' && !st.escaped {
            lemma_line_down(line, ln, col + 1, LineState { escaped: true, ..st });
        } else {
            lemma_line_down(
                line,
                ln,
                col + 1,
                LineState { text: st.text.push(c), escaped: false, ..st },
            );
        }
    } else if is_space(c) {
        lemma_line_down(line, ln, col + 1, st);
    } else {
        match first_combo(line, col, 0) {
            Some(k) => {
                if k == comment_combo() {
                    assert(Seq::<TokenV>::empty().map_values(|t: TokenV| next_line(t)) =~= Seq::<
                        TokenV,
                    >::empty());
                } else {
                    lemma_first_combo(line, col, 0);
                    lemma_combo_len(k);
                    let next = col + combo(k).len();
                    lemma_line_down(line, ln, next, st);
                    lemma_token_down(combo(k), ln, col);
                    lemma_down_cons(spec_token(combo(k), ln, col), line_tokens(line, ln, next, st));
                }
            },
            None => {
                let e = word_end(line, col);
                lemma_word_end(line, col);
                if e > col {
                    lemma_line_down(line, ln, e, st);
                    lemma_token_down(line.subrange(col, e), ln, col);
                    lemma_down_cons(
                        spec_token(line.subrange(col, e), ln, col),
                        line_tokens(line, ln, e, st),
                    );
                }
            },
        }
    }
}

proof fn lemma_tokens_down(code: Seq<char>, start: int, ln: int)
    requires
        0 <= ln <= start <= code.len(),
        code.len() < usize::MAX,
    ensures
        tokens_from(code, start, ln + 1) == lines_down(tokens_from(code, start, ln)),
    decreases code.len() - start,
{
    let e = line_end(code, start);
    lemma_line_end(code, start);
    let line = code.subrange(start, e);
    lemma_line_down(line, ln, 0, line_start());
    if e < code.len() {
        lemma_tokens_down(code, e + 1, ln + 1);
        if let Some(here) = line_tokens(line, ln, 0, line_start()) {
            lemma_down_concat(here, tokens_from(code, e + 1, ln + 1));
        }
    }
}

proof fn lemma_line_end_suffix(p: Seq<char>, q: Seq<char>, s: int)
    requires
        0 <= s <= q.len(),
    ensures
        line_end(p + q, p.len() + s) == p.len() + line_end(q, s),
    decreases q.len() - s,
{
    if s < q.len() {
        assert((p + q)[p.len() + s] == q[s]);
        if q[s] != '\n' {
            lemma_line_end_suffix(p, q, s + 1);
        }
    }
}

proof fn lemma_tokens_suffix(p: Seq<char>, q: Seq<char>, s: int, ln: int)
    requires
        0 <= s <= q.len(),
    ensures
        tokens_from(p + q, p.len() + s, ln) == tokens_from(q, s, ln),
    decreases q.len() - s,
{
    let code = p + q;
    lemma_line_end_suffix(p, q, s);
    lemma_line_end(q, s);
    let e = line_end(q, s);
    assert(code.subrange(p.len() + s, p.len() + e) =~= q.subrange(s, e));
    if e < q.len() {
        lemma_tokens_suffix(p, q, e + 1, ln + 1);
    }
}

/// Each line is read on its own: the tokens of a text are those of its
/// first line followed by those of the lines after it, read as a text of
/// their own and moved one line further down.
pub proof fn law_lines_read_independently(first: Seq<char>, rest: Seq<char>)
    requires
        forall|i: int| 0 <= i < first.len() ==> #[trigger] first[i] != '\n',
        first.len() + 1 + rest.len() < usize::MAX,
    ensures
        spec_tokenize(first + seq!['\n'] + rest) == match spec_tokenize(first) {
            Some(a) => prepend(a, lines_down(spec_tokenize(rest))),
            None => None,
        },
{
    let head = first + seq!['\n'];
    let code = head + rest;
    lemma_line_end(code, 0);
    lemma_line_end(first, 0);
    assert(line_end(first, 0) == first.len()) by {
        if line_end(first, 0) < first.len() {
            assert(first[line_end(first, 0)] == '\n');
        }
    }
    assert(line_end(code, 0) == first.len()) by {
        assert(code[first.len() as int] == '\n');
        if line_end(code, 0) < first.len() {
            assert(code[line_end(code, 0)] == first[line_end(code, 0)]);
        }
    }
    assert(code.subrange(0, first.len() as int) =~= first.subrange(0, first.len() as int));
    lemma_tokens_suffix(head, rest, 0, 1);
    lemma_tokens_down(rest, 0, 0);
}


/// Only the comment marker has a `/` after its first character among the
/// operator and punctuation spellings.
proof fn lemma_slash_after_first(k: int, j: int)
    requires
        0 <= k < combo_count(),
        1 <= j < combo(k).len(),
        combo(k)[j] == '/',
    ensures
        k == comment_combo(),
        j == 1,
{
    reveal_strlit("===");
    reveal_strlit("!==");
    reveal_strlit("+=");
    reveal_strlit("-=");
    reveal_strlit("==");
    reveal_strlit("!=");
    reveal_strlit(">=");
    reveal_strlit("::");
    reveal_strlit("<=");
    reveal_strlit("&&");
    reveal_strlit("//");
    reveal_strlit("**");
    reveal_strlit("||");
    reveal_strlit("(");
    reveal_strlit(")");
    reveal_strlit("[");
    reveal_strlit("]");
    reveal_strlit("{");
    reveal_strlit("}");
    reveal_strlit(";");
    reveal_strlit(":");
    reveal_strlit(",");
    reveal_strlit("+");
    reveal_strlit("-");
    reveal_strlit("*");
    reveal_strlit("/");
    reveal_strlit("=");
    reveal_strlit(">");
    reveal_strlit("<");
    reveal_strlit("!");
}

/// The comment marker is the first spelling that `//` starts with.
proof fn lemma_comment_found(line: Seq<char>, col: int, k: int)
    requires
        0 <= k <= comment_combo(),
        0 <= col,
        col + 1 < line.len(),
        line[col] == '/',
        line[col + 1] == '/',
    ensures
        first_combo(line, col, k) == Some(comment_combo()),
    decreases comment_combo() - k,
{
    reveal_strlit("===");
    reveal_strlit("!==");
    reveal_strlit("+=");
    reveal_strlit("-=");
    reveal_strlit("==");
    reveal_strlit("!=");
    reveal_strlit(">=");
    reveal_strlit("::");
    reveal_strlit("<=");
    reveal_strlit("&&");
    reveal_strlit("//");
    if k < comment_combo() {
        assert(combo(k)[0] != '/');
        assert(!matches_at(line, col, combo(k))) by {
            if matches_at(line, col, combo(k)) {
                assert(line.subrange(col, col + combo(k).len())[0] == line[col]);
            }
        }
        lemma_comment_found(line, col, k + 1);
    } else {
        assert(line.subrange(col, col + 2) =~= combo(k));
    }
}

/// Before the comment, the spellings are found as in the text without it.
proof fn lemma_combo_before_comment(code: Seq<char>, line: Seq<char>, col: int, k: int)
    requires
        0 <= col < code.len(),
        code.last() != '/',
        line.len() > code.len(),
        line.subrange(0, code.len() as int) == code,
        line[code.len() as int] == '/',
    ensures
        first_combo(line, col, k) == first_combo(code, col, k),
    decreases combo_count() - k,
{
    if 0 <= k < combo_count() {
        let c = combo(k);
        lemma_combo_len(k);
        if col + c.len() <= code.len() {
            assert(line.subrange(col, col + c.len()) =~= code.subrange(col, col + c.len())) by {
                assert forall|i: int| 0 <= i < c.len() implies #[trigger] line.subrange(
                    col,
                    col + c.len(),
                )[i] == code.subrange(col, col + c.len())[i] by {
                    assert(line[col + i] == line.subrange(0, code.len() as int)[col + i]);
                }
            }
        } else if matches_at(line, col, c) {
            let j = code.len() - col;
            assert(line.subrange(col, col + c.len())[j] == line[code.len() as int]);
            lemma_slash_after_first(k, j);
            assert(c[0] == line[col]) by {
                assert(line.subrange(col, col + c.len())[0] == line[col]);
            }
            reveal_strlit("//");
            assert(line[col] == line.subrange(0, code.len() as int)[col]);
            assert(false);
        }
        lemma_combo_before_comment(code, line, col, k + 1);
    }
}

proof fn lemma_word_before_comment(code: Seq<char>, line: Seq<char>, j: int)
    requires
        0 <= j <= code.len(),
        line.len() > code.len(),
        line.subrange(0, code.len() as int) == code,
        line[code.len() as int] == '/',
    ensures
        word_end(line, j) == word_end(code, j),
    decreases code.len() - j,
{
    if j < code.len() {
        assert(line[j] == line.subrange(0, code.len() as int)[j]);
        if crate::text::is_word_char(code[j]) {
            lemma_word_before_comment(code, line, j + 1);
        }
    }
}

proof fn lemma_comment_line(code: Seq<char>, note: Seq<char>, ln: int, col: int)
    requires
        0 <= col <= code.len(),
        forall|i: int| 0 <= i < code.len() ==> #[trigger] code[i] != '"',
        code.len() > 0 ==> code.last() != '/',
    ensures
        line_tokens(code + seq!['/', '/'] + note, ln, col, line_start()) == line_tokens(
            code,
            ln,
            col,
            line_start(),
        ),
    decreases code.len() - col,
{
    let line = code + seq!['/', '/'] + note;
    assert(line.subrange(0, code.len() as int) =~= code);
    assert(line[code.len() as int] == '/');
    assert(line[code.len() + 1int] == '/');
    if col == code.len() {
        lemma_comment_found(line, col, 0);
    } else {
        assert(line[col] == code[col]);
        let c = code[col];
        if is_space(c) {
            lemma_comment_line(code, note, ln, col + 1);
        } else {
            lemma_combo_before_comment(code, line, col, 0);
            match first_combo(code, col, 0) {
                Some(k) => {
                    if k != comment_combo() {
                        lemma_first_combo(code, col, 0);
                        lemma_combo_len(k);
                        lemma_comment_line(code, note, ln, col + combo(k).len());
                    }
                },
                None => {
                    lemma_word_before_comment(code, line, col);
                    lemma_word_end(code, col);
                    let e = word_end(code, col);
                    if e > col {
                        assert(line.subrange(col, e) =~= code.subrange(col, e)) by {
                            assert forall|i: int| 0 <= i < e - col implies #[trigger] line.subrange(
                                col,
                                e,
                            )[i] == code.subrange(col, e)[i] by {
                                assert(line[col + i] == line.subrange(0, code.len() as int)[col
                                    + i]);
                            }
                        }
                        lemma_comment_line(code, note, ln, e);
                    }
                },
            }
        }
    }
}

/// A comment runs to the end of its line: on a line without string
/// literals, whatever follows `//` is never read (unless the text before it
/// ends in `/`, which the marker would then take as its first half).
pub proof fn law_comment_ends_line(code: Seq<char>, note: Seq<char>)
    requires
        forall|i: int| 0 <= i < code.len() ==> #[trigger] code[i] != '\n' && code[i] != '"',
        forall|i: int| 0 <= i < note.len() ==> #[trigger] note[i] != '\n',
        code.len() > 0 ==> code.last() != '/',
    ensures
        spec_tokenize(code + seq!['/', '/'] + note) == spec_tokenize(code),
{
    let line = code + seq!['/', '/'] + note;
    lemma_line_end(line, 0);
    lemma_line_end(code, 0);
    assert(line_end(code, 0) == code.len()) by {
        if line_end(code, 0) < code.len() {
            assert(code[line_end(code, 0)] == '\n');
        }
    }
    assert(line_end(line, 0) == line.len()) by {
        if line_end(line, 0) < line.len() {
            let e = line_end(line, 0);
            assert(line[e] == '\n');
            if e < code.len() {
                assert(line[e] == code[e]);
            } else if e >= code.len() + 2 {
                assert(line[e] == note[e - code.len() - 2]);
            }
        }
    }
    assert(line.subrange(0, line.len() as int) =~= line);
    assert(code.subrange(0, code.len() as int) =~= code);
    lemma_comment_line(code, note, 0, 0);
}

} // verus!
