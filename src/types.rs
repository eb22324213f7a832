use vstd::prelude::*;

verus! {

/// The static type tag that resolution attaches to a binding.
#[derive(Clone, Copy, Debug, PartialEq, Eq, Structural)]
pub enum Type {
    Null,
    Text,
    Bool,
    Num,
}

/// A place in the source text.
#[derive(Clone, Copy, Debug, PartialEq, Eq, Structural)]
pub struct Position {
    pub row: usize,
    pub col: usize,
}

/// Why a parse rule failed.
#[derive(Debug)]
pub enum Failure {
    /// The tokens do not match the rule; no position at the end of input.
    Syntax(Option<Position>),
    /// A read of a name that has no active binding, at the name's token.
    UndefinedVariable(Position, String),
}

/// A value subtree as the expression language hands it over once parsed:
/// its static type and its rendering in the target language.
#[derive(Debug)]
pub struct Expr {
    pub kind: Type,
    pub code: String,
}

impl Expr {
    /// An unparsed expression: no type yet, nothing rendered.
    pub fn new() -> (r: Expr)
        ensures
            r.kind == Type::Null,
            r.code@ == Seq::<char>::empty(),
    {
        Expr { kind: Type::Null, code: String::new() }
    }

    /// The static type of the expression.
    pub fn get_type(&self) -> (r: Type)
        ensures
            r == self.kind,
    {
        self.kind
    }

    /// The rendering of the expression in the target language.
    pub fn translate(&self) -> (r: String)
        ensures
            r@ == self.code@,
    {
        self.code.clone()
    }
}

} // verus!
