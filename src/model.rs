//! The mathematical model of the syntax trees the library rewrites.
//!
//! Each executable syntax type of `syntax` has a view in one of the types
//! below, in which identifiers are character sequences and lists are `Seq`s.
use vstd::prelude::*;

use crate::syntax::Delimiter;

verus! {

/// A token tree: a delimited group, an identifier, a punctuation character
/// (with whether it is joined to the next one), a literal, or an already
/// parsed type or bound list carried as one token.
pub enum TokenV {
    Group(Delimiter, Seq<TokenV>),
    Ident(Seq<char>),
    Punct(char, bool),
    Literal(Seq<char>),
    Type(Box<TypeV>),
    Bounds(Seq<BoundV>),
}

/// A type expression.
pub enum TypeV {
    Array(Box<TypeV>, Seq<TokenV>),
    Slice(Box<TypeV>),
    Ptr(bool, Box<TypeV>),
    Reference(Option<Seq<char>>, bool, Box<TypeV>),
    Paren(Box<TypeV>),
    Group(Box<TypeV>),
    Tuple(Seq<TypeV>),
    BareFn(Seq<TokenV>, Seq<TypeV>, Option<Box<TypeV>>),
    Path(Option<QSelfV>, PathV),
    Infer,
    Never,
    TraitObject(Seq<TokenV>),
    ImplTrait(Seq<TokenV>),
    Macro(PathV, Delimiter, Seq<TokenV>),
    Verbatim(Seq<TokenV>),
}

/// The `<T as Trait>` part of a qualified path: the self type, how many of
/// the path's segments name the trait, and whether there is an `as`.
pub struct QSelfV {
    pub ty: Box<TypeV>,
    pub position: nat,
    pub as_trait: bool,
}

pub struct PathV {
    pub leading_colon: bool,
    pub segments: Seq<SegmentV>,
}

pub struct SegmentV {
    pub ident: Seq<char>,
    pub arguments: ArgsV,
}

pub enum ArgsV {
    Empty,
    Angle(Seq<GenericArgV>),
    Paren(Seq<TypeV>, Option<Box<TypeV>>),
}

pub enum GenericArgV {
    Type(TypeV),
    AssocType(Seq<char>, TypeV),
    Verbatim(Seq<TokenV>),
}

pub enum BoundV {
    Trait(Seq<Seq<char>>, bool, PathV),
    Lifetime(Seq<char>),
    Verbatim(Seq<TokenV>),
}

/// What an alias stands for: a type, or a list of bounds.
pub enum AliasBodyV {
    Type(TypeV),
    Trait(Seq<BoundV>),
}

pub struct AliasV {
    pub name: Seq<char>,
    pub body: AliasBodyV,
}

/// The aliases in force (in declaration order; a later one with the same
/// name and kind hides an earlier one), and whether invocations of other
/// macros are searched for escape markers.
pub struct Scope {
    pub aliases: Seq<AliasV>,
    pub in_macros: bool,
}

/// An alias being expanded: its name, and whether it is a trait alias.
pub type Frame = (Seq<char>, bool);

pub enum ErrorV {
    /// The alias, and the names of the aliases being expanded around it.
    Cycle(Seq<char>, Seq<Seq<char>>),
    MultipleBounds(Seq<char>),
    GenericAlias(Seq<char>),
    NonTraitBound(Seq<char>),
    UnsupportedItem,
    EmptyBounds(Seq<char>),
    UnsupportedOption(Seq<char>),
    ExpectedBool(Seq<char>),
}

/// A `where` predicate: `for<'a> T: B + C`, or one kept as tokens.
pub enum PredicateV {
    Type(Seq<Seq<char>>, TypeV, Seq<BoundV>),
    Verbatim(Seq<TokenV>),
}

/// A generic parameter: a type parameter with bounds and default, a const
/// parameter, or one kept as tokens (a lifetime).
pub enum ParamV {
    Type(Seq<char>, Seq<BoundV>, Option<TypeV>),
    Const(Seq<char>, TypeV),
    Verbatim(Seq<TokenV>),
}

pub struct GenericsV {
    pub params: Seq<ParamV>,
    pub where_clause: Option<Seq<PredicateV>>,
}

/// A function by its types: parameters, return type, and the types written
/// in its body, in order.
pub struct SignatureV {
    pub inputs: Seq<TypeV>,
    pub output: Option<TypeV>,
    pub body: Seq<TypeV>,
}

pub enum MemberV {
    Const(TypeV),
    Fn(SignatureV),
    Type(TypeV),
    AssocType(Seq<BoundV>, Option<TypeV>),
    Macro(PathV, Delimiter, Seq<TokenV>),
    Verbatim,
}

pub enum AttributeV {
    Alias(Seq<AliasV>),
    Other(Seq<TokenV>),
}

pub enum ItemKindV {
    Impl(Option<PathV>, TypeV, Seq<MemberV>),
    Types(Seq<TypeV>),
    Fn(SignatureV),
    Trait(Seq<BoundV>, Seq<MemberV>),
    Macro(PathV, Delimiter, Seq<TokenV>),
    Other,
    Verbatim,
}

pub struct ItemV {
    pub attrs: Seq<AttributeV>,
    pub generics: GenericsV,
    pub kind: ItemKindV,
}

} // verus!
