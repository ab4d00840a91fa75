//! Tokens, operator tags and declaration flags.
use vstd::prelude::*;
use crate::position::Position;
use crate::position::PosV;

verus! {

/// The closed set of operator tags understood by the value algebra.
#[derive(Clone, Copy, PartialEq, Eq, Structural, Debug)]
pub enum OprType {
    Plus,
    Minus,
    AstMult,
    DotMult,
    CrossMult,
    Div,
    FractDiv,
    Modulo,
    Pow,
    Concat,
    TypeCast,
    MinusSign,
    PlusSign,
}

/// The surface symbol of each operator.
pub open spec fn opr_symbol(op: OprType) -> Seq<char> {
    match op {
        OprType::Plus => "+"@,
        OprType::Minus => "-"@,
        OprType::AstMult => "*"@,
        OprType::DotMult => "\u{b7}"@,
        OprType::CrossMult => "\u{d7}"@,
        OprType::Div => "/"@,
        OprType::FractDiv => "\u{f7}"@,
        OprType::Modulo => "%"@,
        OprType::Pow => "^"@,
        OprType::Concat => "~"@,
        OprType::TypeCast => "::"@,
        OprType::MinusSign => "-"@,
        OprType::PlusSign => "+"@,
    }
}

impl OprType {
    /// The surface symbol, used when reporting operator errors.
    pub fn symbol(&self) -> (r: &'static str)
        ensures
            r@ == opr_symbol(*self),
    {
        match self {
            OprType::Plus => "+",
            OprType::Minus => "-",
            OprType::AstMult => "*",
            OprType::DotMult => "\u{b7}",
            OprType::CrossMult => "\u{d7}",
            OprType::Div => "/",
            OprType::FractDiv => "\u{f7}",
            OprType::Modulo => "%",
            OprType::Pow => "^",
            OprType::Concat => "~",
            OprType::TypeCast => "::",
            OprType::MinusSign => "-",
            OprType::PlusSign => "+",
        }
    }
}

/// Declaration flags carried by `Declare` nodes.
#[derive(Clone, Copy, PartialEq, Eq, Structural, Debug)]
pub enum Flag {
    Const,
}

/// A raw lexer token; the core only ever reads its position.
#[derive(Debug)]
pub struct Token {
    pub position: Position,
    pub value: String,
}

/// Mathematical image of a `Token`.
pub struct TokenV {
    pub position: PosV,
    pub value: Seq<char>,
}

impl View for Token {
    type V = TokenV;

    open spec fn view(&self) -> TokenV {
        TokenV { position: self.position@, value: self.value@ }
    }
}

impl Token {
    pub fn duplicate(&self) -> (r: Token)
        ensures
            r == *self,
    {
        Token { position: self.position.duplicate(), value: self.value.clone() }
    }
}

} // verus!
