//! The tagged-union definition as the host parser hands it over.
use vstd::prelude::*;

verus! {

/// The delimiter of a token group.
#[derive(Clone, Copy, Debug, PartialEq, Eq)]
pub enum Delim {
    Paren,
    Brace,
    Bracket,
    Invisible,
}

/// One token of an annotation's argument list.
#[derive(Clone, Debug, PartialEq, Eq)]
pub enum Tok {
    /// An identifier or keyword.
    Ident(String),
    /// A punctuation character, and whether the next character is glued to it.
    Punct(char, bool),
    /// A string literal, by its value.
    Str(String),
    /// Any other literal, by its source text.
    Lit(String),
    /// A delimited group, with its inner source text kept verbatim.
    Group(Delim, String),
}

/// An attribute: its path, and the tokens inside its parentheses when it has
/// them (`#[expand_to(...)]`).
#[derive(Clone, Debug, PartialEq, Eq)]
pub struct Annotation {
    pub path: String,
    pub args: Option<Vec<Tok>>,
}

/// A field of a variant. Positional fields carry an empty name.
#[derive(Clone, Debug, PartialEq, Eq)]
pub struct Field {
    pub name: String,
    pub annotations: Vec<Annotation>,
}

/// The field layout of a variant.
#[derive(Clone, Debug, PartialEq, Eq)]
pub enum Shape {
    Unit,
    Positional(Vec<Field>),
    Named(Vec<Field>),
}

#[derive(Clone, Debug, PartialEq, Eq)]
pub struct Variant {
    pub name: String,
    pub shape: Shape,
    pub annotations: Vec<Annotation>,
}

/// A tagged union: its name and its variants in declaration order.
#[derive(Clone, Debug, PartialEq, Eq)]
pub struct UnionDef {
    pub name: String,
    pub variants: Vec<Variant>,
}

impl Shape {
    /// The fields of the variant, in declaration order.
    pub open spec fn fields(self) -> Seq<Field> {
        match self {
            Shape::Unit => Seq::empty(),
            Shape::Positional(fs) => fs@,
            Shape::Named(fs) => fs@,
        }
    }
}

} // verus!
