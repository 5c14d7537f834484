use vstd::prelude::*;

use super::tokens::{TokenKey, TokenV};
use super::{keyword_from, spec_token};

verus! {

/// The spelling `s`, found at 0-based line `ln` and column `col`, is a
/// token of kind `key` at the next line and column numbers, carrying no
/// text.
pub open spec fn spelled(s: Seq<char>, key: TokenKey, ln: int, col: int) -> bool {
    spec_token(s, ln, col) == TokenV {
        key,
        ln: (ln + 1) as usize,
        col: (col + 1) as usize,
        raw: None::<Seq<char>>,
    }
}

/// The characters of each fixed spelling.
proof fn lemma_fixed_spellings()
    ensures
        "{"@ == seq!['{'],
        "}"@ == seq!['}'],
        "("@ == seq!['('],
        ")"@ == seq![')'],
        "["@ == seq!['['],
        "]"@ == seq![']'],
        ";"@ == seq![';'],
        ":"@ == seq![':'],
        ","@ == seq![','],
        "+"@ == seq!['+'],
        "**"@ == seq!['*', '*'],
        "-"@ == seq!['-'],
        "/"@ == seq!['/'],
        "*"@ == seq!['*'],
        "="@ == seq!['='],
        "+="@ == seq!['+', '='],
        "-="@ == seq!['-', '='],
        "=="@ == seq!['=', '='],
        "==="@ == seq!['=', '=', '='],
        "!="@ == seq!['!', '='],
        "!=="@ == seq!['!', '=', '='],
        "::"@ == seq![':', ':'],
        ">"@ == seq!['>'],
        ">="@ == seq!['>', '='],
        "<"@ == seq!['<'],
        "<="@ == seq!['<', '='],
        "&&"@ == seq!['&', '&'],
        "||"@ == seq!['|', '|'],
        "!"@ == seq!['!'],
        "fnc"@ == seq!['f', 'n', 'c'],
        "func"@ == seq!['f', 'u', 'n', 'c'],
        "mxn"@ == seq!['m', 'x', 'n'],
        "var"@ == seq!['v', 'a', 'r'],
        "cst"@ == seq!['c', 's', 't'],
        "while"@ == seq!['w', 'h', 'i', 'l', 'e'],
        "imp"@ == seq!['i', 'm', 'p'],
        "frm"@ == seq!['f', 'r', 'm'],
        "exp"@ == seq!['e', 'x', 'p'],
        "if"@ == seq!['i', 'f'],
        "ret"@ == seq!['r', 'e', 't'],
        "true"@ == seq!['t', 'r', 'u', 'e'],
        "false"@ == seq!['f', 'a', 'l', 's', 'e'],
{
    reveal_strlit("{");
    assert("{"@ =~= seq!['{']);
    reveal_strlit("}");
    assert("}"@ =~= seq!['}']);
    reveal_strlit("(");
    assert("("@ =~= seq!['(']);
    reveal_strlit(")");
    assert(")"@ =~= seq![')']);
    reveal_strlit("[");
    assert("["@ =~= seq!['[']);
    reveal_strlit("]");
    assert("]"@ =~= seq![']']);
    reveal_strlit(";");
    assert(";"@ =~= seq![';']);
    reveal_strlit(":");
    assert(":"@ =~= seq![':']);
    reveal_strlit(",");
    assert(","@ =~= seq![',']);
    reveal_strlit("+");
    assert("+"@ =~= seq!['+']);
    reveal_strlit("**");
    assert("**"@ =~= seq!['*', '*']);
    reveal_strlit("-");
    assert("-"@ =~= seq!['-']);
    reveal_strlit("/");
    assert("/"@ =~= seq!['/']);
    reveal_strlit("*");
    assert("*"@ =~= seq!['*']);
    reveal_strlit("=");
    assert("="@ =~= seq!['=']);
    reveal_strlit("+=");
    assert("+="@ =~= seq!['+', '=']);
    reveal_strlit("-=");
    assert("-="@ =~= seq!['-', '=']);
    reveal_strlit("==");
    assert("=="@ =~= seq!['=', '=']);
    reveal_strlit("===");
    assert("==="@ =~= seq!['=', '=', '=']);
    reveal_strlit("!=");
    assert("!="@ =~= seq!['!', '=']);
    reveal_strlit("!==");
    assert("!=="@ =~= seq!['!', '=', '=']);
    reveal_strlit("::");
    assert("::"@ =~= seq![':', ':']);
    reveal_strlit(">");
    assert(">"@ =~= seq!['>']);
    reveal_strlit(">=");
    assert(">="@ =~= seq!['>', '=']);
    reveal_strlit("<");
    assert("<"@ =~= seq!['<']);
    reveal_strlit("<=");
    assert("<="@ =~= seq!['<', '=']);
    reveal_strlit("&&");
    assert("&&"@ =~= seq!['&', '&']);
    reveal_strlit("||");
    assert("||"@ =~= seq!['|', '|']);
    reveal_strlit("!");
    assert("!"@ =~= seq!['!']);
    reveal_strlit("fnc");
    assert("fnc"@ =~= seq!['f', 'n', 'c']);
    reveal_strlit("func");
    assert("func"@ =~= seq!['f', 'u', 'n', 'c']);
    reveal_strlit("mxn");
    assert("mxn"@ =~= seq!['m', 'x', 'n']);
    reveal_strlit("var");
    assert("var"@ =~= seq!['v', 'a', 'r']);
    reveal_strlit("cst");
    assert("cst"@ =~= seq!['c', 's', 't']);
    reveal_strlit("while");
    assert("while"@ =~= seq!['w', 'h', 'i', 'l', 'e']);
    reveal_strlit("imp");
    assert("imp"@ =~= seq!['i', 'm', 'p']);
    reveal_strlit("frm");
    assert("frm"@ =~= seq!['f', 'r', 'm']);
    reveal_strlit("exp");
    assert("exp"@ =~= seq!['e', 'x', 'p']);
    reveal_strlit("if");
    assert("if"@ =~= seq!['i', 'f']);
    reveal_strlit("ret");
    assert("ret"@ =~= seq!['r', 'e', 't']);
    reveal_strlit("true");
    assert("true"@ =~= seq!['t', 'r', 'u', 'e']);
    reveal_strlit("false");
    assert("false"@ =~= seq!['f', 'a', 'l', 's', 'e']);
}

proof fn lemma_spelled_0(ln: int, col: int)
    ensures
        spelled("{"@, TokenKey::CurlyBraceLeft, ln, col),
{
    lemma_fixed_spellings();
    reveal_with_fuel(keyword_from, 43);
}

proof fn lemma_spelled_1(ln: int, col: int)
    ensures
        spelled("}"@, TokenKey::CurlyBraceRight, ln, col),
{
    lemma_fixed_spellings();
    reveal_with_fuel(keyword_from, 43);
}

proof fn lemma_spelled_2(ln: int, col: int)
    ensures
        spelled("("@, TokenKey::ParentheseLeft, ln, col),
{
    lemma_fixed_spellings();
    reveal_with_fuel(keyword_from, 43);
}

proof fn lemma_spelled_3(ln: int, col: int)
    ensures
        spelled(")"@, TokenKey::ParentheseRight, ln, col),
{
    lemma_fixed_spellings();
    reveal_with_fuel(keyword_from, 43);
}

proof fn lemma_spelled_4(ln: int, col: int)
    ensures
        spelled("["@, TokenKey::BracketLeft, ln, col),
{
    lemma_fixed_spellings();
    reveal_with_fuel(keyword_from, 43);
}

proof fn lemma_spelled_5(ln: int, col: int)
    ensures
        spelled("]"@, TokenKey::BracketRight, ln, col),
{
    lemma_fixed_spellings();
    reveal_with_fuel(keyword_from, 43);
}

proof fn lemma_spelled_6(ln: int, col: int)
    ensures
        spelled(";"@, TokenKey::SemiColon, ln, col),
{
    lemma_fixed_spellings();
    reveal_with_fuel(keyword_from, 43);
}

proof fn lemma_spelled_7(ln: int, col: int)
    ensures
        spelled(":"@, TokenKey::Colon, ln, col),
{
    lemma_fixed_spellings();
    reveal_with_fuel(keyword_from, 43);
}

proof fn lemma_spelled_8(ln: int, col: int)
    ensures
        spelled(","@, TokenKey::Comma, ln, col),
{
    lemma_fixed_spellings();
    reveal_with_fuel(keyword_from, 43);
}

proof fn lemma_spelled_9(ln: int, col: int)
    ensures
        spelled("+"@, TokenKey::Addition, ln, col),
{
    lemma_fixed_spellings();
    reveal_with_fuel(keyword_from, 43);
}

proof fn lemma_spelled_10(ln: int, col: int)
    ensures
        spelled("**"@, TokenKey::Power, ln, col),
{
    lemma_fixed_spellings();
    reveal_with_fuel(keyword_from, 43);
}

proof fn lemma_spelled_11(ln: int, col: int)
    ensures
        spelled("-"@, TokenKey::Subtraction, ln, col),
{
    lemma_fixed_spellings();
    reveal_with_fuel(keyword_from, 43);
}

proof fn lemma_spelled_12(ln: int, col: int)
    ensures
        spelled("/"@, TokenKey::Division, ln, col),
{
    lemma_fixed_spellings();
    reveal_with_fuel(keyword_from, 43);
}

proof fn lemma_spelled_13(ln: int, col: int)
    ensures
        spelled("*"@, TokenKey::Multiplication, ln, col),
{
    lemma_fixed_spellings();
    reveal_with_fuel(keyword_from, 43);
}

proof fn lemma_spelled_14(ln: int, col: int)
    ensures
        spelled("="@, TokenKey::Assign, ln, col),
{
    lemma_fixed_spellings();
    reveal_with_fuel(keyword_from, 43);
}

proof fn lemma_spelled_15(ln: int, col: int)
    ensures
        spelled("+="@, TokenKey::AdditionAssign, ln, col),
{
    lemma_fixed_spellings();
    reveal_with_fuel(keyword_from, 43);
}

proof fn lemma_spelled_16(ln: int, col: int)
    ensures
        spelled("-="@, TokenKey::SubtractAssign, ln, col),
{
    lemma_fixed_spellings();
    reveal_with_fuel(keyword_from, 43);
}

proof fn lemma_spelled_17(ln: int, col: int)
    ensures
        spelled("=="@, TokenKey::Equals, ln, col),
{
    lemma_fixed_spellings();
    reveal_with_fuel(keyword_from, 43);
}

proof fn lemma_spelled_18(ln: int, col: int)
    ensures
        spelled("==="@, TokenKey::Equals, ln, col),
{
    lemma_fixed_spellings();
    reveal_with_fuel(keyword_from, 43);
}

proof fn lemma_spelled_19(ln: int, col: int)
    ensures
        spelled("!="@, TokenKey::NotEquals, ln, col),
{
    lemma_fixed_spellings();
    reveal_with_fuel(keyword_from, 43);
}

proof fn lemma_spelled_20(ln: int, col: int)
    ensures
        spelled("!=="@, TokenKey::NotEquals, ln, col),
{
    lemma_fixed_spellings();
    reveal_with_fuel(keyword_from, 43);
}

proof fn lemma_spelled_21(ln: int, col: int)
    ensures
        spelled("::"@, TokenKey::DoubleColon, ln, col),
{
    lemma_fixed_spellings();
    reveal_with_fuel(keyword_from, 43);
}

proof fn lemma_spelled_22(ln: int, col: int)
    ensures
        spelled(">"@, TokenKey::GreaterThan, ln, col),
{
    lemma_fixed_spellings();
    reveal_with_fuel(keyword_from, 43);
}

proof fn lemma_spelled_23(ln: int, col: int)
    ensures
        spelled(">="@, TokenKey::GreaterThanOrEquals, ln, col),
{
    lemma_fixed_spellings();
    reveal_with_fuel(keyword_from, 43);
}

proof fn lemma_spelled_24(ln: int, col: int)
    ensures
        spelled("<"@, TokenKey::LessThan, ln, col),
{
    lemma_fixed_spellings();
    reveal_with_fuel(keyword_from, 43);
}

proof fn lemma_spelled_25(ln: int, col: int)
    ensures
        spelled("<="@, TokenKey::LessThanOrEquals, ln, col),
{
    lemma_fixed_spellings();
    reveal_with_fuel(keyword_from, 43);
}

proof fn lemma_spelled_26(ln: int, col: int)
    ensures
        spelled("&&"@, TokenKey::And, ln, col),
{
    lemma_fixed_spellings();
    reveal_with_fuel(keyword_from, 43);
}

proof fn lemma_spelled_27(ln: int, col: int)
    ensures
        spelled("||"@, TokenKey::Or, ln, col),
{
    lemma_fixed_spellings();
    reveal_with_fuel(keyword_from, 43);
}

proof fn lemma_spelled_28(ln: int, col: int)
    ensures
        spelled("!"@, TokenKey::Not, ln, col),
{
    lemma_fixed_spellings();
    reveal_with_fuel(keyword_from, 43);
}

proof fn lemma_spelled_29(ln: int, col: int)
    ensures
        spelled("fnc"@, TokenKey::Function, ln, col),
{
    lemma_fixed_spellings();
    reveal_with_fuel(keyword_from, 43);
}

proof fn lemma_spelled_30(ln: int, col: int)
    ensures
        spelled("func"@, TokenKey::Function, ln, col),
{
    lemma_fixed_spellings();
    reveal_with_fuel(keyword_from, 43);
}

proof fn lemma_spelled_31(ln: int, col: int)
    ensures
        spelled("mxn"@, TokenKey::Mixin, ln, col),
{
    lemma_fixed_spellings();
    reveal_with_fuel(keyword_from, 43);
}

proof fn lemma_spelled_32(ln: int, col: int)
    ensures
        spelled("var"@, TokenKey::Variable, ln, col),
{
    lemma_fixed_spellings();
    reveal_with_fuel(keyword_from, 43);
}

proof fn lemma_spelled_33(ln: int, col: int)
    ensures
        spelled("cst"@, TokenKey::Constant, ln, col),
{
    lemma_fixed_spellings();
    reveal_with_fuel(keyword_from, 43);
}

proof fn lemma_spelled_34(ln: int, col: int)
    ensures
        spelled("while"@, TokenKey::While, ln, col),
{
    lemma_fixed_spellings();
    reveal_with_fuel(keyword_from, 43);
}

proof fn lemma_spelled_35(ln: int, col: int)
    ensures
        spelled("imp"@, TokenKey::Import, ln, col),
{
    lemma_fixed_spellings();
    reveal_with_fuel(keyword_from, 43);
}

proof fn lemma_spelled_36(ln: int, col: int)
    ensures
        spelled("frm"@, TokenKey::From, ln, col),
{
    lemma_fixed_spellings();
    reveal_with_fuel(keyword_from, 43);
}

proof fn lemma_spelled_37(ln: int, col: int)
    ensures
        spelled("exp"@, TokenKey::Export, ln, col),
{
    lemma_fixed_spellings();
    reveal_with_fuel(keyword_from, 43);
}

proof fn lemma_spelled_38(ln: int, col: int)
    ensures
        spelled("if"@, TokenKey::If, ln, col),
{
    lemma_fixed_spellings();
    reveal_with_fuel(keyword_from, 43);
}

proof fn lemma_spelled_39(ln: int, col: int)
    ensures
        spelled("ret"@, TokenKey::Return, ln, col),
{
    lemma_fixed_spellings();
    reveal_with_fuel(keyword_from, 43);
}

proof fn lemma_spelled_40(ln: int, col: int)
    ensures
        spelled("true"@, TokenKey::True, ln, col),
{
    lemma_fixed_spellings();
    reveal_with_fuel(keyword_from, 43);
}

proof fn lemma_spelled_41(ln: int, col: int)
    ensures
        spelled("false"@, TokenKey::False, ln, col),
{
    lemma_fixed_spellings();
    reveal_with_fuel(keyword_from, 43);
}

/// The brackets and punctuation each give one fixed kind of token,
/// wherever they stand.
pub proof fn law_punctuation_spellings(ln: int, col: int)
    ensures
        spelled("{"@, TokenKey::CurlyBraceLeft, ln, col),
        spelled("}"@, TokenKey::CurlyBraceRight, ln, col),
        spelled("("@, TokenKey::ParentheseLeft, ln, col),
        spelled(")"@, TokenKey::ParentheseRight, ln, col),
        spelled("["@, TokenKey::BracketLeft, ln, col),
        spelled("]"@, TokenKey::BracketRight, ln, col),
        spelled(";"@, TokenKey::SemiColon, ln, col),
        spelled(":"@, TokenKey::Colon, ln, col),
        spelled(","@, TokenKey::Comma, ln, col),
{
    lemma_spelled_0(ln, col);
    lemma_spelled_1(ln, col);
    lemma_spelled_2(ln, col);
    lemma_spelled_3(ln, col);
    lemma_spelled_4(ln, col);
    lemma_spelled_5(ln, col);
    lemma_spelled_6(ln, col);
    lemma_spelled_7(ln, col);
    lemma_spelled_8(ln, col);
}

/// The operators each give one fixed kind of token, wherever they
/// stand: `!=` and `!==` are both "not equals", `==` and `===` both
/// "equals", and a lone `!` is "not".
pub proof fn law_operators_spellings(ln: int, col: int)
    ensures
        spelled("+"@, TokenKey::Addition, ln, col),
        spelled("**"@, TokenKey::Power, ln, col),
        spelled("-"@, TokenKey::Subtraction, ln, col),
        spelled("/"@, TokenKey::Division, ln, col),
        spelled("*"@, TokenKey::Multiplication, ln, col),
        spelled("="@, TokenKey::Assign, ln, col),
        spelled("+="@, TokenKey::AdditionAssign, ln, col),
        spelled("-="@, TokenKey::SubtractAssign, ln, col),
        spelled("=="@, TokenKey::Equals, ln, col),
        spelled("==="@, TokenKey::Equals, ln, col),
        spelled("!="@, TokenKey::NotEquals, ln, col),
        spelled("!=="@, TokenKey::NotEquals, ln, col),
        spelled("::"@, TokenKey::DoubleColon, ln, col),
        spelled(">"@, TokenKey::GreaterThan, ln, col),
        spelled(">="@, TokenKey::GreaterThanOrEquals, ln, col),
        spelled("<"@, TokenKey::LessThan, ln, col),
        spelled("<="@, TokenKey::LessThanOrEquals, ln, col),
        spelled("&&"@, TokenKey::And, ln, col),
        spelled("||"@, TokenKey::Or, ln, col),
        spelled("!"@, TokenKey::Not, ln, col),
{
    lemma_spelled_9(ln, col);
    lemma_spelled_10(ln, col);
    lemma_spelled_11(ln, col);
    lemma_spelled_12(ln, col);
    lemma_spelled_13(ln, col);
    lemma_spelled_14(ln, col);
    lemma_spelled_15(ln, col);
    lemma_spelled_16(ln, col);
    lemma_spelled_17(ln, col);
    lemma_spelled_18(ln, col);
    lemma_spelled_19(ln, col);
    lemma_spelled_20(ln, col);
    lemma_spelled_21(ln, col);
    lemma_spelled_22(ln, col);
    lemma_spelled_23(ln, col);
    lemma_spelled_24(ln, col);
    lemma_spelled_25(ln, col);
    lemma_spelled_26(ln, col);
    lemma_spelled_27(ln, col);
    lemma_spelled_28(ln, col);
}

/// The reserved words each give one fixed kind of token, wherever they
/// stand; `func` and `fnc` both start a function.
pub proof fn law_words_spellings(ln: int, col: int)
    ensures
        spelled("fnc"@, TokenKey::Function, ln, col),
        spelled("func"@, TokenKey::Function, ln, col),
        spelled("mxn"@, TokenKey::Mixin, ln, col),
        spelled("var"@, TokenKey::Variable, ln, col),
        spelled("cst"@, TokenKey::Constant, ln, col),
        spelled("while"@, TokenKey::While, ln, col),
        spelled("imp"@, TokenKey::Import, ln, col),
        spelled("frm"@, TokenKey::From, ln, col),
        spelled("exp"@, TokenKey::Export, ln, col),
        spelled("if"@, TokenKey::If, ln, col),
        spelled("ret"@, TokenKey::Return, ln, col),
        spelled("true"@, TokenKey::True, ln, col),
        spelled("false"@, TokenKey::False, ln, col),
{
    lemma_spelled_29(ln, col);
    lemma_spelled_30(ln, col);
    lemma_spelled_31(ln, col);
    lemma_spelled_32(ln, col);
    lemma_spelled_33(ln, col);
    lemma_spelled_34(ln, col);
    lemma_spelled_35(ln, col);
    lemma_spelled_36(ln, col);
    lemma_spelled_37(ln, col);
    lemma_spelled_38(ln, col);
    lemma_spelled_39(ln, col);
    lemma_spelled_40(ln, col);
    lemma_spelled_41(ln, col);
}

} // verus!
