//! Alias declarations, the stack of aliases being expanded, and errors.
use vstd::prelude::*;

use crate::model::{AliasBodyV, AliasV, ErrorV, Frame};
use crate::semantics::{chain, find, first_empty, lemma_first_empty_prefix, lookup};
use crate::seqs::{lemma_take_all, lemma_take_next};
use crate::syntax::{strs_view, bounds_view, ty_view, TypeBound, TypeExpr};

verus! {

/// What an alias stands for.
#[derive(Debug)]
pub enum AliasBody {
    /// `type X = T`
    Type(TypeExpr),
    /// `trait A = B + C`
    Trait(Vec<TypeBound>),
}

/// One alias declaration.
#[derive(Debug)]
pub struct AliasDef {
    pub name: String,
    pub body: AliasBody,
}

/// An alias being expanded.
#[derive(Debug)]
pub struct Expansion {
    pub name: String,
    pub is_trait: bool,
}

/// Why an item could not be rewritten.
#[derive(Debug)]
pub enum AliasError {
    /// An alias met again while it was being expanded; `chain` names the
    /// aliases being expanded, outermost first.
    Cycle { name: String, chain: Vec<String> },
    /// A trait alias of several bounds used as the trait of a qualified path.
    MultipleBounds(String),
    /// A trait alias given generic arguments in a qualified path.
    GenericAlias(String),
    /// A trait alias whose bound is no trait used in a qualified path.
    NonTraitBound(String),
    /// An item of a kind that cannot carry alias declarations.
    UnsupportedItem,
    /// A trait alias that stands for no bound at all.
    EmptyBounds(String),
    /// An option other than `macros`.
    UnsupportedOption(String),
    /// An option whose value is not a boolean.
    ExpectedBool(String),
}

impl View for AliasBody {
    type V = AliasBodyV;

    open spec fn view(&self) -> AliasBodyV {
        match self {
            AliasBody::Type(t) => AliasBodyV::Type(ty_view(*t)),
            AliasBody::Trait(b) => AliasBodyV::Trait(bounds_view(b@)),
        }
    }
}

impl View for AliasDef {
    type V = AliasV;

    open spec fn view(&self) -> AliasV {
        AliasV { name: self.name@, body: self.body@ }
    }
}

impl View for Expansion {
    type V = Frame;

    open spec fn view(&self) -> Frame {
        (self.name@, self.is_trait)
    }
}

impl View for AliasError {
    type V = ErrorV;

    open spec fn view(&self) -> ErrorV {
        match self {
            AliasError::Cycle { name, chain } => ErrorV::Cycle(name@, strs_view(chain@)),
            AliasError::MultipleBounds(x) => ErrorV::MultipleBounds(x@),
            AliasError::GenericAlias(x) => ErrorV::GenericAlias(x@),
            AliasError::NonTraitBound(x) => ErrorV::NonTraitBound(x@),
            AliasError::UnsupportedItem => ErrorV::UnsupportedItem,
            AliasError::EmptyBounds(x) => ErrorV::EmptyBounds(x@),
            AliasError::UnsupportedOption(x) => ErrorV::UnsupportedOption(x@),
            AliasError::ExpectedBool(x) => ErrorV::ExpectedBool(x@),
        }
    }
}

pub open spec fn aliases_view(s: Seq<AliasDef>) -> Seq<AliasV> {
    s.map_values(|a: AliasDef| a@)
}

pub open spec fn frames_view(s: Seq<Expansion>) -> Seq<Frame> {
    s.map_values(|f: Expansion| f@)
}

/// The last declaration with this name and kind.
pub fn find_alias<'a>(aliases: &'a Vec<AliasDef>, name: &String, is_trait: bool) -> (r: Option<&'a AliasBody>)
    ensures
        match r {
            Some(b) => lookup(aliases_view(aliases@), (name@, is_trait)) == Some(b@),
            None => lookup(aliases_view(aliases@), (name@, is_trait)) is None,
        },
{
    let ghost tab = aliases_view(aliases@);
    let mut i: usize = aliases.len();
    proof {
        lemma_take_all(tab);
    }
    while i > 0
        invariant
            i <= aliases.len(),
            tab == aliases_view(aliases@),
            lookup(tab, (name@, is_trait)) == lookup(tab.take(i as int), (name@, is_trait)),
        decreases i,
    {
        let a = &aliases[i - 1];
        proof {
            lemma_take_next(tab, i - 1);
        }
        let k = match &a.body {
            AliasBody::Type(_) => false,
            AliasBody::Trait(_) => true,
        };
        if k == is_trait && a.name == *name {
            return Some(&a.body);
        }
        i -= 1;
    }
    None
}

/// The first trait alias of the list that stands for no bound.
pub fn empty_trait_alias(aliases: &Vec<AliasDef>) -> (r: Option<String>)
    ensures
        match r {
            Some(x) => first_empty(aliases_view(aliases@)) == Some(x@),
            None => first_empty(aliases_view(aliases@)) is None,
        },
{
    let ghost tab = aliases_view(aliases@);
    let mut i: usize = 0;
    while i < aliases.len()
        invariant
            i <= aliases.len(),
            tab == aliases_view(aliases@),
            first_empty(tab.take(i as int)) is None,
        decreases aliases.len() - i,
    {
        proof {
            lemma_take_next(tab, i as int);
        }
        if let AliasBody::Trait(b) = &aliases[i].body {
            if b.len() == 0 {
                proof {
                    lemma_first_empty_prefix(tab, i + 1);
                }
                return Some(aliases[i].name.clone());
            }
        }
        i += 1;
    }
    proof {
        lemma_take_all(tab);
    }
    None
}

/// The position of the last declaration with this name and kind among the
/// first `n`.
pub fn find_visible(aliases: &Vec<AliasDef>, n: usize, name: &String, is_trait: bool) -> (r: Option<usize>)
    requires
        n <= aliases@.len(),
    ensures
        match r {
            Some(i) => find(aliases_view(aliases@), n as nat, (name@, is_trait)) == Some(i as nat),
            None => find(aliases_view(aliases@), n as nat, (name@, is_trait)) is None,
        },
{
    let ghost tab = aliases_view(aliases@);
    let mut i: usize = n;
    while i > 0
        invariant
            i <= n <= aliases@.len(),
            tab == aliases_view(aliases@),
            find(tab, n as nat, (name@, is_trait)) == find(tab, i as nat, (name@, is_trait)),
        decreases i,
    {
        let a = &aliases[i - 1];
        let k = match &a.body {
            AliasBody::Type(_) => false,
            AliasBody::Trait(_) => true,
        };
        if k == is_trait && a.name == *name {
            return Some(i - 1);
        }
        i -= 1;
    }
    None
}

/// The names of the aliases being expanded, outermost first.
pub fn expansion_chain(stack: &Vec<Expansion>) -> (r: Vec<String>)
    ensures
        strs_view(r@) == chain(frames_view(stack@)),
{
    let ghost c = chain(frames_view(stack@));
    let mut r: Vec<String> = Vec::new();
    let mut i: usize = 0;
    while i < stack.len()
        invariant
            i <= stack.len(),
            c == chain(frames_view(stack@)),
            r@.len() == i,
            forall|j: int| 0 <= j < i ==> #[trigger] r@[j]@ == c[j],
        decreases stack.len() - i,
    {
        r.push(stack[i].name.clone());
        i += 1;
    }
    assert(strs_view(r@) =~= c);
    r
}

} // verus!
