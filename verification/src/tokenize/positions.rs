use vstd::prelude::*;

use crate::text::is_space;
use super::tokens::{carries_text, TokenV};
use super::{
    combo, comment_combo, first_combo, keyword_count, keyword_entry, keyword_from, lemma_combo_len,
    lemma_first_combo, lemma_line_end, lemma_word_end, line_end, line_start, line_tokens,
    spec_token, spec_tokenize, tokens_from, word_end, LineState,
};

verus! {

/// Token `a` stands before token `b` in the text: on an earlier line, or
/// further left on the same line.
pub open spec fn precedes(a: TokenV, b: TokenV) -> bool {
    a.ln < b.ln || (a.ln == b.ln && a.col < b.col)
}

/// The tokens come in the order of their positions in the text.
pub open spec fn in_source_order(ts: Seq<TokenV>) -> bool {
    forall|i: int, j: int| 0 <= i < j < ts.len() ==> precedes(#[trigger] ts[i], #[trigger] ts[j])
}

/// A token has a 1-based position and carries its text exactly when it is
/// a number, a string literal or a name.
pub open spec fn well_placed(t: TokenV) -> bool {
    t.ln >= 1 && t.col >= 1 && (t.raw is Some <==> carries_text(t.key))
}

proof fn lemma_keyword_kind(raw: Seq<char>, k: int)
    ensures
        keyword_from(raw, k) matches Some(key) ==> !carries_text(key),
    decreases keyword_count() - k,
{
    if 0 <= k < keyword_count() && raw != keyword_entry(k).0 {
        lemma_keyword_kind(raw, k + 1);
    }
}

proof fn lemma_token_shape(raw: Seq<char>, ln: int, col: int)
    requires
        0 <= ln < usize::MAX,
        0 <= col < usize::MAX,
    ensures
        spec_token(raw, ln, col).ln == ln + 1,
        spec_token(raw, ln, col).col == col + 1,
        well_placed(spec_token(raw, ln, col)),
{
    lemma_keyword_kind(raw, 0);
}

proof fn lemma_order_cons(t: TokenV, r: Seq<TokenV>)
    requires
        in_source_order(r),
        forall|k: int| 0 <= k < r.len() ==> precedes(t, #[trigger] r[k]),
    ensures
        in_source_order(seq![t] + r),
{
    let s = seq![t] + r;
    assert forall|i: int, j: int| 0 <= i < j < s.len() implies precedes(
        #[trigger] s[i],
        #[trigger] s[j],
    ) by {
        assert(s[j] == r[j - 1]);
        if i > 0 {
            assert(s[i] == r[i - 1]);
        }
    }
}

proof fn lemma_order_concat(a: Seq<TokenV>, b: Seq<TokenV>)
    requires
        in_source_order(a),
        in_source_order(b),
        forall|i: int, j: int| 0 <= i < a.len() && 0 <= j < b.len() ==> precedes(
            #[trigger] a[i],
            #[trigger] b[j],
        ),
    ensures
        in_source_order(a + b),
{
    let s = a + b;
    assert forall|i: int, j: int| 0 <= i < j < s.len() implies precedes(
        #[trigger] s[i],
        #[trigger] s[j],
    ) by {
        if j < a.len() {
        } else if i < a.len() {
            assert(s[j] == b[j - a.len()]);
        } else {
            assert(s[i] == b[i - a.len()]);
            assert(s[j] == b[j - a.len()]);
        }
    }
}

/// What the tokens of one line, read from column `col` on, look like: all
/// on that line, right of `col`, well placed and in order.
pub open spec fn line_shape(ts: Seq<TokenV>, line_len: int, ln: int, col: int) -> bool {
    &&& in_source_order(ts)
    &&& forall|k: int|
        0 <= k < ts.len() ==> {
            &&& (#[trigger] ts[k]).ln == ln + 1
            &&& col < ts[k].col <= line_len
            &&& well_placed(ts[k])
        }
}

proof fn lemma_line_cons(t: TokenV, rest: Option<Seq<TokenV>>, line_len: int, ln: int, col: int, next: int)
    requires
        t.ln == ln + 1,
        t.col == col + 1,
        col < line_len,
        col < next,
        well_placed(t),
        rest matches Some(r) ==> line_shape(r, line_len, ln, next),
    ensures
        super::prepend(seq![t], rest) matches Some(ts) ==> line_shape(ts, line_len, ln, col),
{
    if let Some(r) = rest {
        lemma_order_cons(t, r);
        let ts = seq![t] + r;
        assert forall|k: int| 0 <= k < ts.len() implies {
            &&& (#[trigger] ts[k]).ln == ln + 1
            &&& col < ts[k].col <= line_len
            &&& well_placed(ts[k])
        } by {
            if k > 0 {
                assert(ts[k] == r[k - 1]);
            }
        }
    }
}

proof fn lemma_line_order(line: Seq<char>, ln: int, col: int, st: LineState)
    requires
        0 <= col,
        0 <= ln,
        line.len() <= usize::MAX,
        line.len() > 0 ==> ln < usize::MAX,
    ensures
        line_tokens(line, ln, col, st) matches Some(ts) ==> line_shape(ts, line.len() as int, ln, col),
    decreases line.len() - col,
{
    if col >= line.len() {
        return;
    }
    let c = line[col];
    if c == '"' {
        let text = st.text.push('"');
        if st.in_str && !st.escaped {
            let next = LineState { in_str: false, escaped: false, text: Seq::empty() };
            lemma_line_order(line, ln, col + 1, next);
            lemma_token_shape(text, ln, col);
            lemma_line_cons(
                spec_token(text, ln, col),
                line_tokens(line, ln, col + 1, next),
                line.len() as int,
                ln,
                col,
                col + 1,
            );
        } else if st.in_str {
            lemma_line_order(line, ln, col + 1, LineState { text, ..st });
        } else {
            lemma_line_order(line, ln, col + 1, LineState { in_str: true, text, ..st });
        }
    } else if st.in_str {
        if c == '\\' && !st.escaped {
            lemma_line_order(line, ln, col + 1, LineState { escaped: true, ..st });
        } else {
            lemma_line_order(
                line,
                ln,
                col + 1,
                LineState { text: st.text.push(c), escaped: false, ..st },
            );
        }
    } else if is_space(c) {
        lemma_line_order(line, ln, col + 1, st);
    } else {
        match first_combo(line, col, 0) {
            Some(k) => {
                if k != comment_combo() {
                    lemma_first_combo(line, col, 0);
                    lemma_combo_len(k);
                    let next = col + combo(k).len();
                    lemma_line_order(line, ln, next, st);
                    lemma_token_shape(combo(k), ln, col);
                    lemma_line_cons(
                        spec_token(combo(k), ln, col),
                        line_tokens(line, ln, next, st),
                        line.len() as int,
                        ln,
                        col,
                        next,
                    );
                }
            },
            None => {
                let e = word_end(line, col);
                lemma_word_end(line, col);
                if e > col {
                    lemma_line_order(line, ln, e, st);
                    lemma_token_shape(line.subrange(col, e), ln, col);
                    lemma_line_cons(
                        spec_token(line.subrange(col, e), ln, col),
                        line_tokens(line, ln, e, st),
                        line.len() as int,
                        ln,
                        col,
                        e,
                    );
                }
            },
        }
    }
}

proof fn lemma_tokens_from_order(code: Seq<char>, start: int, ln: int)
    requires
        0 <= ln <= start <= code.len(),
        code.len() <= usize::MAX,
    ensures
        tokens_from(code, start, ln) matches Some(ts) ==> {
            &&& in_source_order(ts)
            &&& forall|k: int| 0 <= k < ts.len() ==> (#[trigger] ts[k]).ln > ln && well_placed(ts[k])
        },
    decreases code.len() - start,
{
    let e = line_end(code, start);
    lemma_line_end(code, start);
    let line = code.subrange(start, e);
    lemma_line_order(line, ln, 0, line_start());
    if e < code.len() {
        lemma_tokens_from_order(code, e + 1, ln + 1);
        if let Some(here) = line_tokens(line, ln, 0, line_start()) {
            if let Some(rest) = tokens_from(code, e + 1, ln + 1) {
                lemma_order_concat(here, rest);
                let ts = here + rest;
                assert forall|k: int| 0 <= k < ts.len() implies (#[trigger] ts[k]).ln > ln
                    && well_placed(ts[k]) by {
                    if k >= here.len() {
                        assert(ts[k] == rest[k - here.len()]);
                    }
                }
            }
        }
    }
}

/// Every token that the tokenizer produces has a 1-based line and column
/// and carries its text exactly when it is a number, a string literal or a
/// name; and the tokens come in the order in which they stand in the text.
pub proof fn law_tokens_in_source_order(code: Seq<char>)
    requires
        code.len() <= usize::MAX,
    ensures
        spec_tokenize(code) matches Some(ts) ==> {
            &&& in_source_order(ts)
            &&& forall|k: int| 0 <= k < ts.len() ==> well_placed(#[trigger] ts[k])
        },
{
    lemma_tokens_from_order(code, 0, 0);
}

} // verus!
