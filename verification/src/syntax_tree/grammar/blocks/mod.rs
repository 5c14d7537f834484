use vstd::prelude::*;

pub mod if_block;
pub mod return_block;
pub mod variable_init;
pub mod while_block;

use crate::syntax_tree::grammar::expression::{
    BracketSplit, bracket_split, error_at, lemma_views_subrange, spec_eval,
};
use crate::syntax_tree::grammar::get_type::spec_get_type;
use crate::syntax_tree::syntax::{
    Block, BlockV, ExprV, InitV, ParsingError, Types, blocks_outcome, blocks_view,
};
use crate::tokenize::{Token, TokenKey, TokenV, token_views};

verus! {

// ---------------------------------------------------------------------------
// Specification
// ---------------------------------------------------------------------------

/// The first position, from `from` on, of a token of kind `key`.
pub open spec fn first_key(t: Seq<TokenV>, key: TokenKey, from: int) -> Option<int>
    decreases t.len() - from,
{
    if from < 0 || from >= t.len() {
        None
    } else if t[from].key == key {
        Some(from)
    } else {
        first_key(t, key, from + 1)
    }
}

/// `first_key` finds a token of the kind asked for, and none comes before it.
pub proof fn lemma_first_key(t: Seq<TokenV>, key: TokenKey, from: int)
    ensures
        first_key(t, key, from) matches Some(j) ==> 0 <= from <= j < t.len() && t[j].key == key,
        first_key(t, key, from) is None ==> forall|j: int|
            0 <= from <= j < t.len() ==> #[trigger] t[j].key != key,
    decreases t.len() - from,
{
    if 0 <= from < t.len() && t[from].key != key {
        lemma_first_key(t, key, from + 1);
    }
}

/// The position of the `}` that closes the braces open `depth` deep, when
/// reading from `from` on.
pub open spec fn closing_brace(t: Seq<TokenV>, from: int, depth: nat) -> Option<int>
    decreases t.len() - from,
{
    if from < 0 || from >= t.len() {
        None
    } else if t[from].key == TokenKey::CurlyBraceLeft {
        closing_brace(t, from + 1, depth + 1)
    } else if t[from].key == TokenKey::CurlyBraceRight {
        if depth <= 1 {
            Some(from)
        } else {
            closing_brace(t, from + 1, (depth - 1) as nat)
        }
    } else {
        closing_brace(t, from + 1, depth)
    }
}

/// The closing brace lies at or after the position the search starts from.
pub proof fn lemma_closing_brace(t: Seq<TokenV>, from: int, depth: nat)
    ensures
        closing_brace(t, from, depth) matches Some(j) ==> 0 <= from <= j < t.len(),
    decreases t.len() - from,
{
    if 0 <= from < t.len() {
        if t[from].key == TokenKey::CurlyBraceLeft {
            lemma_closing_brace(t, from + 1, depth + 1);
        } else if t[from].key == TokenKey::CurlyBraceRight {
            if depth > 1 {
                lemma_closing_brace(t, from + 1, (depth - 1) as nat);
            }
        } else {
            lemma_closing_brace(t, from + 1, depth);
        }
    }
}

/// A block followed by the blocks after it.
pub open spec fn cons_block(
    b: Option<Result<BlockV, ParsingError>>,
    rest: Option<Result<Seq<BlockV>, ParsingError>>,
) -> Option<Result<Seq<BlockV>, ParsingError>> {
    match b {
        Some(Ok(x)) => match rest {
            Some(Ok(r)) => Some(Ok(seq![x] + r)),
            other => other,
        },
        Some(Err(e)) => Some(Err(e)),
        None => None,
    }
}

/// A value given by an expression.
pub open spec fn init_expression(v: Option<Result<ExprV, ParsingError>>) -> Option<
    Result<InitV, ParsingError>,
> {
    match v {
        Some(Ok(x)) => Some(Ok(InitV::Expression(x))),
        Some(Err(e)) => Some(Err(e)),
        None => None,
    }
}

/// The length of a list: `[ expression ]`.
pub open spec fn spec_list_init(t: Seq<TokenV>) -> Option<Result<InitV, ParsingError>> {
    if t.len() == 0 {
        None
    } else if t[0].key != TokenKey::BracketLeft {
        Some(Err(error_at(t[0], "Invalid token")))
    } else if t.last().key != TokenKey::BracketRight {
        Some(Err(error_at(t.last(), "Invalid token")))
    } else if t.len() < 2 {
        None
    } else {
        match spec_eval(t.subrange(1, t.len() - 1)) {
            Some(Ok(x)) => Some(Ok(InitV::ListInit { col: t[0].col, ln: t[0].ln, length: x })),
            Some(Err(e)) => Some(Err(e)),
            None => None,
        }
    }
}

/// The size of a matrix: `[ width , height ]`.
pub open spec fn spec_matrix_init(t: Seq<TokenV>) -> Option<Result<InitV, ParsingError>> {
    if t.len() == 0 {
        None
    } else if t[0].key != TokenKey::BracketLeft {
        Some(Err(error_at(t[0], "Invalid token")))
    } else if t.last().key != TokenKey::BracketRight {
        Some(Err(error_at(t.last(), "Invalid token")))
    } else {
        match bracket_split(t, 1, 0, 0) {
            BracketSplit::Comma(i) => {
                if 1 <= i && i + 1 <= t.len() - 1 {
                    match spec_eval(t.subrange(1, i)) {
                        Some(Ok(w)) => match spec_eval(t.subrange(i + 1, t.len() - 1)) {
                            Some(Ok(h)) => Some(
                                Ok(InitV::MatrixInit { col: t[0].col, ln: t[0].ln, width: w, height: h }),
                            ),
                            Some(Err(e)) => Some(Err(e)),
                            None => None,
                        },
                        Some(Err(e)) => Some(Err(e)),
                        None => None,
                    }
                } else {
                    None
                }
            },
            BracketSplit::Unbalanced => Some(Err(error_at(t[0], "Unexpected token"))),
            BracketSplit::NoComma => Some(
                Err(error_at(t[0], "Couldn't find ',' in matrix initialization")),
            ),
        }
    }
}

/// The kinds that open a variable initialisation, in order.
pub open spec fn init_order(i: int, first: TokenKey) -> TokenKey {
    if i == 0 {
        first
    } else if i == 1 {
        TokenKey::Keyword
    } else if i == 2 {
        TokenKey::Colon
    } else if i == 3 {
        TokenKey::Keyword
    } else {
        TokenKey::Assign
    }
}

/// The first of the five leading tokens that is not of the kind
/// `init_order` wants.
pub open spec fn first_misplaced(t: Seq<TokenV>, first: TokenKey, i: int) -> Option<int>
    decreases 5 - i,
{
    if i < 0 || i >= 5 || i >= t.len() {
        None
    } else if t[i].key != init_order(i, first) {
        Some(i)
    } else {
        first_misplaced(t, first, i + 1)
    }
}

/// A variable initialisation `var name : type = value ;`.
pub open spec fn spec_variable_init(t: Seq<TokenV>) -> Option<Result<BlockV, ParsingError>> {
    if t.len() == 0 {
        None
    } else if t.len() < 6 {
        Some(Err(error_at(t[0], "Invalid variable initalization")))
    } else {
        match first_misplaced(t, TokenKey::Variable, 0) {
            Some(i) => Some(Err(error_at(t[i], "Invalid word"))),
            None => match spec_get_type(t[3]) {
                None => None,
                Some(Err(e)) => Some(Err(e)),
                Some(Ok(tpe)) => match t[1].raw {
                    None => None,
                    Some(name) => {
                        let set = t.subrange(5, t.len() - 1);
                        let value = if tpe == Types::Matrix {
                            spec_matrix_init(set)
                        } else if tpe == Types::List {
                            spec_list_init(set)
                        } else {
                            init_expression(spec_eval(set))
                        };
                        match value {
                            Some(Ok(v)) => Some(
                                Ok(
                                    BlockV::VariableInit {
                                        col: t[0].col,
                                        ln: t[0].ln,
                                        value: v,
                                        tpe,
                                        name,
                                    },
                                ),
                            ),
                            Some(Err(e)) => Some(Err(e)),
                            None => None,
                        }
                    },
                },
            },
        }
    }
}

/// A return statement `ret ;` or `ret expression ;`.
pub open spec fn spec_return(t: Seq<TokenV>) -> Option<Result<BlockV, ParsingError>> {
    if t.len() < 2 {
        None
    } else if t.len() == 2 {
        Some(Ok(BlockV::Return { col: t[0].col, ln: t[0].ln, eval: None }))
    } else {
        match spec_eval(t.subrange(1, t.len() - 1)) {
            Some(Ok(x)) => Some(Ok(BlockV::Return { col: t[0].col, ln: t[0].ln, eval: Some(x) })),
            Some(Err(e)) => Some(Err(e)),
            None => None,
        }
    }
}

/// A guarded body `keyword condition { blocks }`, for `if` (`is_while`
/// false) and `while` (`is_while` true).
pub open spec fn spec_guarded(t: Seq<TokenV>, is_while: bool) -> Option<
    Result<BlockV, ParsingError>,
>
    decreases t.len(), 2nat, 0nat,
{
    match first_key(t, TokenKey::CurlyBraceLeft, 0) {
        None => {
            if t.len() == 0 {
                None
            } else {
                Some(
                    Err(
                        error_at(
                            t[0],
                            if is_while {
                                "Couldn't find start '{' for while"
                            } else {
                                "Couldn't find start '{' for if"
                            },
                        ),
                    ),
                )
            }
        },
        Some(j) => {
            if j < 1 || j >= t.len() {
                None
            } else {
                match spec_eval(t.subrange(1, j)) {
                    Some(Ok(cond)) => match closing_brace(t, j + 1, 1) {
                        None => Some(
                            Err(
                                error_at(
                                    t[0],
                                    if is_while {
                                        "Couldn't find ending '}' for while"
                                    } else {
                                        "Couldn't find ending '}' for if"
                                    },
                                ),
                            ),
                        ),
                        Some(e) => {
                            if e <= j || e >= t.len() {
                                None
                            } else {
                                match blocks_from(t.subrange(j + 1, e), 0) {
                                    Some(Ok(bs)) => Some(
                                        Ok(
                                            if is_while {
                                                BlockV::While {
                                                    col: t[0].col,
                                                    ln: t[0].ln,
                                                    eval: cond,
                                                    blocks: bs,
                                                }
                                            } else {
                                                BlockV::If {
                                                    col: t[0].col,
                                                    ln: t[0].ln,
                                                    eval: cond,
                                                    blocks: bs,
                                                }
                                            },
                                        ),
                                    ),
                                    Some(Err(e)) => Some(Err(e)),
                                    None => None,
                                }
                            }
                        },
                    },
                    Some(Err(e)) => Some(Err(e)),
                    None => None,
                }
            }
        },
    }
}

/// The blocks of a body, from token `i` on; `None` where the tokens are
/// malformed beyond a reportable error, among them a statement that no `;`
/// ends.
pub open spec fn blocks_from(t: Seq<TokenV>, i: int) -> Option<Result<Seq<BlockV>, ParsingError>>
    decreases t.len(), 3nat, t.len() - i,
{
    if i < 0 || i >= t.len() {
        Some(Ok(Seq::empty()))
    } else {
        let tok = t[i];
        let semi = first_key(t, TokenKey::SemiColon, i);
        proof {
            lemma_first_key(t, TokenKey::SemiColon, i);
        }
        if tok.key == TokenKey::Variable && semi is Some {
            let s = semi.unwrap();
            cons_block(spec_variable_init(t.subrange(i, s + 1)), blocks_from(t, s + 1))
        } else if tok.key == TokenKey::Return && semi is Some {
            let s = semi.unwrap();
            cons_block(spec_return(t.subrange(i, s + 1)), blocks_from(t, s + 1))
        } else if tok.key == TokenKey::While || tok.key == TokenKey::If {
            let is_while = tok.key == TokenKey::While;
            match first_key(t, TokenKey::CurlyBraceLeft, i) {
                None => Some(
                    Err(
                        error_at(
                            tok,
                            "Couldn't find starting '{' for if",
                        ),
                    ),
                ),
                Some(cs) => {
                    proof {
                        lemma_first_key(t, TokenKey::CurlyBraceLeft, i);
                        lemma_closing_brace(t, cs + 1, 1);
                    }
                    match closing_brace(t, cs + 1, 1) {
                        None => Some(
                            Err(
                                error_at(
                                    tok,
                                    if is_while {
                                        "Couldn't find ending '}' for while"
                                    } else {
                                        "Couldn't find ending '}' for if"
                                    },
                                ),
                            ),
                        ),
                        Some(ce) => cons_block(
                            spec_guarded(t.subrange(i, ce + 1), is_while),
                            blocks_from(t, ce + 1),
                        ),
                    }
                },
            }
        } else {
            match semi {
                None => None,
                Some(s) => cons_block(
                    match spec_eval(t.subrange(i, s)) {
                        Some(Ok(x)) => Some(Ok(BlockV::Expression(x))),
                        Some(Err(e)) => Some(Err(e)),
                        None => None,
                    },
                    blocks_from(t, s + 1),
                ),
            }
        }
    }
}

/// The blocks of a body.
pub open spec fn spec_blocks(t: Seq<TokenV>) -> Option<Result<Seq<BlockV>, ParsingError>> {
    blocks_from(t, 0)
}


// ---------------------------------------------------------------------------
// Implementation
// ---------------------------------------------------------------------------

/// The first position, from `from` on, of a token of kind `key`.
pub(crate) fn find_key(tokens: &[Token], key: TokenKey, from: usize) -> (r: Option<usize>)
    requires
        from <= tokens@.len(),
    ensures
        match r {
            Some(j) => first_key(token_views(tokens@), key, from as int) == Some(j as int),
            None => first_key(token_views(tokens@), key, from as int) is None,
        },
{
    let ghost t = token_views(tokens@);
    let mut j = from;
    while j < tokens.len()
        invariant
            from <= j <= tokens@.len(),
            t == token_views(tokens@),
            first_key(t, key, from as int) == first_key(t, key, j as int),
        decreases tokens@.len() - j,
    {
        if tokens[j].key == key {
            return Some(j);
        }
        j = j + 1;
    }
    None
}

/// The position of the `}` that closes a brace opened just before `from`.
pub(crate) fn find_closing(tokens: &[Token], from: usize) -> (r: Option<usize>)
    requires
        1 <= from <= tokens@.len(),
    ensures
        match r {
            Some(j) => closing_brace(token_views(tokens@), from as int, 1) == Some(j as int),
            None => closing_brace(token_views(tokens@), from as int, 1) is None,
        },
{
    let ghost t = token_views(tokens@);
    let mut depth: usize = 1;
    let mut j = from;
    while j < tokens.len()
        invariant
            from <= j <= tokens@.len(),
            t == token_views(tokens@),
            1 <= from,
            1 <= depth <= j - from + 1,
            closing_brace(t, from as int, 1) == closing_brace(t, j as int, depth as nat),
        decreases tokens@.len() - j,
    {
        if tokens[j].key == TokenKey::CurlyBraceLeft {
            depth = depth + 1;
        } else if tokens[j].key == TokenKey::CurlyBraceRight {
            if depth == 1 {
                return Some(j);
            }
            depth = depth - 1;
        }
        j = j + 1;
    }
    None
}

/// The blocks `a` already read, followed by the outcome of reading the rest.
pub open spec fn prepend_blocks(
    a: Seq<BlockV>,
    rest: Option<Result<Seq<BlockV>, ParsingError>>,
) -> Option<Result<Seq<BlockV>, ParsingError>> {
    match rest {
        Some(Ok(r)) => Some(Ok(a + r)),
        other => other,
    }
}

proof fn lemma_prepend_cons(a: Seq<BlockV>, x: BlockV, rest: Option<Result<Seq<BlockV>, ParsingError>>)
    ensures
        prepend_blocks(a, cons_block(Some(Ok(x)), rest)) == prepend_blocks(a.push(x), rest),
{
    if let Some(Ok(r)) = rest {
        assert(a + (seq![x] + r) =~= a.push(x) + r);
    }
}

/// The view of blocks with one more at the end.
pub proof fn lemma_blocks_push(bs: Seq<Block>, b: Block)
    ensures
        blocks_view(bs.push(b)) == blocks_view(bs).push(b@),
{
    assert(bs.push(b).drop_last() =~= bs);
}

/// The blocks of a body: variable initialisations and return statements up
/// to their `;`, `while` and `if` blocks up to their closing `}`, and
/// expression statements up to their `;`. `None` where the tokens are
/// malformed beyond a reportable error, among them a statement that no `;`
/// ends.
#[verifier::rlimit(60)]
pub fn try_eval(tokens: &[Token]) -> (r: Option<Result<Vec<Block>, ParsingError>>)
    ensures
        blocks_outcome(r) == spec_blocks(token_views(tokens@)),
    decreases tokens@.len(), 4nat,
{
    let ghost t = token_views(tokens@);
    let n = tokens.len();
    let mut blocks: Vec<Block> = Vec::new();
    let mut i: usize = 0;
    assert(blocks_view(blocks@) =~= Seq::<BlockV>::empty());
    assert(prepend_blocks(Seq::empty(), blocks_from(t, 0)) == blocks_from(t, 0)) by {
        if let Some(Ok(r)) = blocks_from(t, 0) {
            assert(Seq::<BlockV>::empty() + r =~= r);
        }
    }
    while i < n
        invariant
            n == tokens@.len(),
            t == token_views(tokens@),
            i <= n,
            spec_blocks(t) == prepend_blocks(blocks_view(blocks@), blocks_from(t, i as int)),
        decreases n - i,
    {
        let token = &tokens[i];
        let semi = find_key(tokens, TokenKey::SemiColon, i);
        proof {
            lemma_first_key(t, TokenKey::SemiColon, i as int);
            lemma_first_key(t, TokenKey::CurlyBraceLeft, i as int);
        }
        let ghost before = blocks_view(blocks@);
        if token.key == TokenKey::Variable && semi.is_some() {
            let s = semi.unwrap();
            proof {
                lemma_views_subrange(tokens@, i as int, s + 1);
            }
            match variable_init::try_eval(&tokens[i..s + 1]) {
                Some(Ok(b)) => {
                    proof {
                        lemma_prepend_cons(before, b@, blocks_from(t, s + 1));
                        lemma_blocks_push(blocks@, b);
                    }
                    blocks.push(b);
                },
                Some(Err(e)) => {
                    return Some(Err(e));
                },
                None => {
                    return None;
                },
            }
            i = s + 1;
        } else if token.key == TokenKey::Return && semi.is_some() {
            let s = semi.unwrap();
            proof {
                lemma_views_subrange(tokens@, i as int, s + 1);
            }
            match return_block::try_eval(&tokens[i..s + 1]) {
                Some(Ok(b)) => {
                    proof {
                        lemma_prepend_cons(before, b@, blocks_from(t, s + 1));
                        lemma_blocks_push(blocks@, b);
                    }
                    blocks.push(b);
                },
                Some(Err(e)) => {
                    return Some(Err(e));
                },
                None => {
                    return None;
                },
            }
            i = s + 1;
        } else if token.key == TokenKey::While || token.key == TokenKey::If {
            let curly_start = match find_key(tokens, TokenKey::CurlyBraceLeft, i) {
                Some(cs) => cs + 1,
                None => {
                    return Some(
                        Err(
                            ParsingError {
                                col: token.col,
                                ln: token.ln,
                                reason: "Couldn't find starting '{' for if",
                            },
                        ),
                    );
                },
            };
            proof {
                lemma_closing_brace(t, curly_start as int, 1);
            }
            match find_closing(tokens, curly_start) {
                None => {
                    return Some(
                        Err(
                            ParsingError {
                                col: token.col,
                                ln: token.ln,
                                reason: if token.key == TokenKey::While {
                                    "Couldn't find ending '}' for while"
                                } else {
                                    "Couldn't find ending '}' for if"
                                },
                            },
                        ),
                    );
                },
                Some(curly_end) => {
                    proof {
                        lemma_views_subrange(tokens@, i as int, curly_end + 1);
                    }
                    let block = if token.key == TokenKey::While {
                        if_block::eval_guarded(&tokens[i..curly_end + 1], true)
                    } else {
                        if_block::eval_guarded(&tokens[i..curly_end + 1], false)
                    };
                    match block {
                        Some(Ok(b)) => {
                            proof {
                                lemma_prepend_cons(before, b@, blocks_from(t, curly_end + 1));
                                lemma_blocks_push(blocks@, b);
                            }
                            blocks.push(b);
                        },
                        Some(Err(e)) => {
                            return Some(Err(e));
                        },
                        None => {
                            return None;
                        },
                    }
                    i = curly_end + 1;
                },
            }
        } else {
            // A statement that no `;` ends cannot be read.
            let s = match semi {
                Some(s) => s,
                None => {
                    return None;
                },
            };
            proof {
                lemma_views_subrange(tokens@, i as int, s as int);
            }
            match crate::syntax_tree::grammar::expression::try_eval(&tokens[i..s]) {
                Some(Ok(x)) => {
                    let b = Block::Expression(x);
                    proof {
                        lemma_prepend_cons(before, b@, blocks_from(t, s + 1));
                        lemma_blocks_push(blocks@, b);
                    }
                    blocks.push(b);
                },
                Some(Err(e)) => {
                    return Some(Err(e));
                },
                None => {
                    return None;
                },
            }
            i = s + 1;
        }
    }
    assert(blocks_view(blocks@) + Seq::<BlockV>::empty() =~= blocks_view(blocks@));
    Some(Ok(blocks))
}

/// The blocks of a body (see `try_eval`), on tokens that the parser can
/// judge.
pub fn eval(tokens: &[Token]) -> (r: Result<Vec<Block>, ParsingError>)
    requires
        spec_blocks(token_views(tokens@)) is Some,
    ensures
        blocks_outcome(Some(r)) == spec_blocks(token_views(tokens@)),
{
    try_eval(tokens).unwrap()
}

} // verus!
