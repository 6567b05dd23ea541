//! An impl block whose `where` clause may also declare type aliases, written
//! `alias!(X = T):` among the predicates.
use vstd::prelude::*;

use crate::item::{
    attrs_view, members_view, params_view, predicates_view, Attribute, GenericParam, Generics,
    Item, ItemKind, Member, WherePredicate,
};
use crate::model::{AliasBodyV, AliasV, GenericsV, ItemKindV, ItemV, PredicateV, Scope};
use crate::semantics::resolve_item;
use crate::substitute::{lift, Visitor};
use crate::syntax::{path_view, ty_view, Path, TypeExpr};
use crate::table::{aliases_view, AliasBody, AliasDef, AliasError};

verus! {

/// `alias!(ident = ty):`
#[derive(Debug)]
pub struct InlineTypeAlias {
    pub ident: String,
    pub ty: TypeExpr,
}

#[derive(Debug)]
pub enum AugmentedWherePredicate {
    WherePredicate(WherePredicate),
    TypeAlias(InlineTypeAlias),
}

#[derive(Debug)]
pub struct AugmentedWhereClause {
    pub predicates: Vec<AugmentedWherePredicate>,
}

#[derive(Debug)]
pub struct AugmentedGenerics {
    pub params: Vec<GenericParam>,
    pub where_clause: Option<AugmentedWhereClause>,
}

#[derive(Debug)]
pub struct AugmentedImpl {
    pub attrs: Vec<Attribute>,
    pub generics: AugmentedGenerics,
    pub trait_path: Option<Path>,
    pub self_ty: TypeExpr,
    pub members: Vec<Member>,
}

/// The aliases declared among the predicates, in order.
pub open spec fn inline_aliases(s: Seq<AugmentedWherePredicate>) -> Seq<AliasV>
    decreases s.len(),
{
    if s.len() == 0 {
        Seq::empty()
    } else {
        inline_aliases(s.drop_last()) + match s.last() {
            AugmentedWherePredicate::TypeAlias(a) => seq![
                AliasV { name: a.ident@, body: AliasBodyV::Type(ty_view(a.ty)) },
            ],
            AugmentedWherePredicate::WherePredicate(_) => Seq::empty(),
        }
    }
}

/// The ordinary predicates, in order.
pub open spec fn plain_predicates(s: Seq<AugmentedWherePredicate>) -> Seq<PredicateV>
    decreases s.len(),
{
    if s.len() == 0 {
        Seq::empty()
    } else {
        plain_predicates(s.drop_last()) + match s.last() {
            AugmentedWherePredicate::TypeAlias(_) => Seq::empty(),
            AugmentedWherePredicate::WherePredicate(p) => seq![p@],
        }
    }
}

pub open spec fn lossy_generics(g: AugmentedGenerics) -> GenericsV {
    GenericsV {
        params: params_view(g.params@),
        where_clause: match g.where_clause {
            Some(w) => Some(plain_predicates(w.predicates@)),
            None => None,
        },
    }
}

/// The impl block as an item, without the alias declarations.
pub open spec fn lossy_item(a: AugmentedImpl) -> ItemV {
    ItemV {
        attrs: attrs_view(a.attrs@),
        generics: lossy_generics(a.generics),
        kind: ItemKindV::Impl(
            match a.trait_path {
                Some(p) => Some(path_view(p)),
                None => None,
            },
            ty_view(a.self_ty),
            members_view(a.members@),
        ),
    }
}

pub open spec fn impl_aliases(a: AugmentedImpl) -> Seq<AliasV> {
    match a.generics.where_clause {
        Some(w) => inline_aliases(w.predicates@),
        None => Seq::empty(),
    }
}

impl AugmentedWherePredicate {
    /// The predicate, when it is no alias declaration.
    pub fn into_predicate(self) -> (r: Option<WherePredicate>)
        ensures
            match self {
                AugmentedWherePredicate::WherePredicate(p) => r == Some(p),
                AugmentedWherePredicate::TypeAlias(_) => r is None,
            },
    {
        match self {
            AugmentedWherePredicate::WherePredicate(p) => Some(p),
            AugmentedWherePredicate::TypeAlias(_) => None,
        }
    }
}

impl AugmentedWhereClause {
    /// A clause of ordinary predicates only.
    pub fn from_where_clause(predicates: Vec<WherePredicate>) -> (r: AugmentedWhereClause)
        ensures
            r.predicates@.len() == predicates@.len(),
            forall|i: int| 0 <= i < predicates@.len() ==> #[trigger] r.predicates@[i] == AugmentedWherePredicate::WherePredicate(predicates@[i]),
    {
        let ghost orig = predicates@;
        let mut rest = predicates;
        let mut out: Vec<AugmentedWherePredicate> = Vec::new();
        while rest.len() > 0
            invariant
                out@.len() + rest@.len() == orig.len(),
                rest@ == orig.subrange(out@.len() as int, orig.len() as int),
                forall|i: int| 0 <= i < out@.len() ==> #[trigger] out@[i] == AugmentedWherePredicate::WherePredicate(orig[i]),
            decreases rest@.len(),
        {
            let p = rest.remove(0);
            out.push(AugmentedWherePredicate::WherePredicate(p));
            assert(rest@ =~= orig.subrange(out@.len() as int, orig.len() as int));
        }
        AugmentedWhereClause { predicates: out }
    }

    /// The aliases declared in the clause, in order.
    pub fn aliases(&self) -> (r: Vec<AliasDef>)
        ensures
            aliases_view(r@) == inline_aliases(self.predicates@),
    {
        let mut r: Vec<AliasDef> = Vec::new();
        let mut i: usize = 0;
        while i < self.predicates.len()
            invariant
                i <= self.predicates.len(),
                aliases_view(r@) == inline_aliases(self.predicates@.take(i as int)),
            decreases self.predicates.len() - i,
        {
            proof {
                crate::seqs::lemma_take_next(self.predicates@, i as int);
            }
            if let AugmentedWherePredicate::TypeAlias(a) = &self.predicates[i] {
                let d = AliasDef { name: a.ident.clone(), body: AliasBody::Type(a.ty.deep_copy()) };
                let ghost pre = r@;
                r.push(d);
                assert(aliases_view(r@) =~= aliases_view(pre) + seq![d@]);
            } else {
                assert(aliases_view(r@) =~= aliases_view(r@) + Seq::<AliasV>::empty());
            }
            i += 1;
        }
        proof {
            crate::seqs::lemma_take_all(self.predicates@);
        }
        r
    }

    /// The ordinary predicates, the alias declarations left out.
    pub fn into_where_clause_lossy(self) -> (r: Vec<WherePredicate>)
        ensures
            predicates_view(r@) == plain_predicates(self.predicates@),
    {
        let ghost orig = self.predicates@;
        let mut rest = self.predicates;
        let mut out: Vec<WherePredicate> = Vec::new();
        let ghost k: int = 0;
        assert(predicates_view(out@) =~= Seq::<PredicateV>::empty());
        while rest.len() > 0
            invariant
                0 <= k <= orig.len(),
                rest@ == orig.subrange(k, orig.len() as int),
                predicates_view(out@) == plain_predicates(orig.take(k)),
            decreases rest@.len(),
        {
            proof {
                crate::seqs::lemma_take_next(orig, k);
            }
            let p = rest.remove(0);
            match p.into_predicate() {
                Some(q) => {
                    let ghost pre = out@;
                    out.push(q);
                    assert(predicates_view(out@) =~= predicates_view(pre) + seq![q@]);
                },
                None => {
                    assert(predicates_view(out@) =~= predicates_view(out@) + Seq::<PredicateV>::empty());
                },
            }
            proof {
                k = k + 1;
            }
            assert(rest@ =~= orig.subrange(k, orig.len() as int));
        }
        proof {
            crate::seqs::lemma_take_all(orig);
        }
        out
    }
}

impl AugmentedGenerics {
    pub fn into_generics_lossy(self) -> (r: Generics)
        ensures
            r@ == lossy_generics(self),
    {
        let where_clause = match self.where_clause {
            Some(w) => Some(w.into_where_clause_lossy()),
            None => None,
        };
        Generics { params: self.params, where_clause }
    }
}

impl AugmentedImpl {
    pub fn into_item_impl_lossy(self) -> (r: Item)
        ensures
            r@ == lossy_item(self),
    {
        Item {
            attrs: self.attrs,
            generics: self.generics.into_generics_lossy(),
            kind: ItemKind::Impl { trait_path: self.trait_path, self_ty: self.self_ty, members: self.members },
        }
    }

    /// The impl block with the aliases of its `where` clause substituted
    /// and their declarations removed.
    pub fn substitute(self, in_macros: bool) -> (r: Result<Item, AliasError>)
        ensures
            lift(r) == resolve_item(Scope { aliases: impl_aliases(self), in_macros }, lossy_item(self)),
    {
        let aliases = match &self.generics.where_clause {
            Some(w) => w.aliases(),
            None => Vec::new(),
        };
        proof {
            if self.generics.where_clause is None {
                assert(aliases_view(aliases@) =~= Seq::<AliasV>::empty());
            }
        }
        let visitor = Visitor { aliases, in_macros };
        visitor.visit_item(self.into_item_impl_lossy())
    }
}

} // verus!
