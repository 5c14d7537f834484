use vstd::prelude::*;

pub mod grammar;
pub mod syntax;

use crate::tokenize::{Token, token_views};
use grammar::spec_grammar;
use syntax::{GlobalBlock, ParsingError, globals_outcome};

verus! {

/// The syntax tree of a program given as tokens; `None` where the tokens
/// are malformed beyond any error the parser reports.
pub fn try_syntax_tree(tokens: Vec<Token>) -> (r: Option<Result<Vec<GlobalBlock>, ParsingError>>)
    ensures
        globals_outcome(r) == spec_grammar(token_views(tokens@)),
{
    grammar::try_eval(tokens.as_slice())
}

/// The syntax tree of a program given as tokens (see `try_syntax_tree`), on
/// tokens that the parser can judge.
pub fn syntax_tree(tokens: Vec<Token>) -> (r: Result<Vec<GlobalBlock>, ParsingError>)
    requires
        spec_grammar(token_views(tokens@)) is Some,
    ensures
        globals_outcome(Some(r)) == spec_grammar(token_views(tokens@)),
{
    grammar::eval(tokens.as_slice())
}

} // verus!
