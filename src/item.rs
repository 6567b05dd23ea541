//! Items: the unit that declares aliases, and its generics and members.
use vstd::prelude::*;

use crate::model::{
    AttributeV, ErrorV, GenericsV, ItemKindV, ItemV, MemberV, ParamV, PredicateV, Scope,
    SignatureV, TypeV,
};
use crate::semantics::{
    declared, expand, first_empty, lemma_resolve_all_prefix_error, lemma_resolve_all_step, member_step, param_step, predicate_step,
    resolve_all, resolve_generics, resolve_item, resolve_kind, resolve_member, resolve_opt_type,
    resolve_param, resolve_predicate, resolve_signature, undeclared,
};
use crate::seqs::{lemma_take_all, lemma_take_next};
use crate::substitute::{lift, Visitor};
use crate::syntax::{
    bounds_view, copy_bounds, copy_strings, copy_tokens, path_view, strs_view, toks_view, ty_view,
    tys_view, MacroCall, Path, TokenTree, TypeBound, TypeExpr,
};
use crate::table::{empty_trait_alias, aliases_view, frames_view, AliasBody, AliasDef, AliasError, Expansion};

verus! {

/// A `where` predicate.
#[derive(Debug)]
pub enum WherePredicate {
    /// `for<'a> T: B + C`
    Type { lifetimes: Vec<String>, bounded: TypeExpr, bounds: Vec<TypeBound> },
    /// A lifetime predicate, kept as tokens.
    Verbatim(Vec<TokenTree>),
}

#[derive(Debug)]
pub enum GenericParam {
    /// `T: B = D`
    Type { name: String, bounds: Vec<TypeBound>, default: Option<TypeExpr> },
    /// `const N: T`
    Const { name: String, ty: TypeExpr },
    /// A lifetime parameter, kept as tokens.
    Verbatim(Vec<TokenTree>),
}

#[derive(Debug)]
pub struct Generics {
    pub params: Vec<GenericParam>,
    pub where_clause: Option<Vec<WherePredicate>>,
}

/// The types of a function's signature.
#[derive(Debug)]
pub struct Signature {
    pub inputs: Vec<TypeExpr>,
    pub output: Option<TypeExpr>,
    /// The types written in the body (in `let` bindings, casts, paths and
    /// the like), outermost ones, in order.
    pub body: Vec<TypeExpr>,
}

/// A member of an impl block or a trait, by the types it holds.
#[derive(Debug)]
pub enum Member {
    Const(TypeExpr),
    Fn(Signature),
    Type(TypeExpr),
    /// A trait's associated type: its bounds and default.
    AssocType { bounds: Vec<TypeBound>, default: Option<TypeExpr> },
    Macro(MacroCall),
    /// A member with no type to substitute.
    Verbatim,
}

#[derive(Debug)]
pub enum Attribute {
    /// `#[alias(type X = .., trait A = ..)]`, already parsed.
    Alias(Vec<AliasDef>),
    /// Any other attribute, kept as tokens.
    Other(Vec<TokenTree>),
}

#[derive(Debug)]
pub enum ItemKind {
    Impl { trait_path: Option<Path>, self_ty: TypeExpr, members: Vec<Member> },
    /// A struct, enum or union by the types of its fields in order, or a
    /// `type`, `const` or `static` item by its one type.
    Types(Vec<TypeExpr>),
    Fn(Signature),
    /// A trait or trait alias: its supertrait bounds and members.
    Trait { supertraits: Vec<TypeBound>, members: Vec<Member> },
    /// An invocation of another macro in item position.
    Macro(MacroCall),
    /// An item with no type of its own (a module, a `use`): only its alias
    /// declarations are taken off.
    Other,
    /// An item given as bare tokens: alias declarations on it are refused.
    Verbatim,
}

#[derive(Debug)]
pub struct Item {
    pub attrs: Vec<Attribute>,
    pub generics: Generics,
    pub kind: ItemKind,
}

pub open spec fn opt_type_view(o: Option<TypeExpr>) -> Option<TypeV> {
    match o {
        Some(t) => Some(ty_view(t)),
        None => None,
    }
}

impl View for WherePredicate {
    type V = PredicateV;

    open spec fn view(&self) -> PredicateV {
        match self {
            WherePredicate::Type { lifetimes, bounded, bounds } => PredicateV::Type(
                strs_view(lifetimes@),
                ty_view(*bounded),
                bounds_view(bounds@),
            ),
            WherePredicate::Verbatim(t) => PredicateV::Verbatim(toks_view(t@)),
        }
    }
}

impl View for GenericParam {
    type V = ParamV;

    open spec fn view(&self) -> ParamV {
        match self {
            GenericParam::Type { name, bounds, default } => ParamV::Type(
                name@,
                bounds_view(bounds@),
                opt_type_view(*default),
            ),
            GenericParam::Const { name, ty } => ParamV::Const(name@, ty_view(*ty)),
            GenericParam::Verbatim(t) => ParamV::Verbatim(toks_view(t@)),
        }
    }
}

pub open spec fn params_view(s: Seq<GenericParam>) -> Seq<ParamV> {
    s.map_values(|p: GenericParam| p@)
}

pub open spec fn predicates_view(s: Seq<WherePredicate>) -> Seq<PredicateV> {
    s.map_values(|p: WherePredicate| p@)
}

pub open spec fn members_view(s: Seq<Member>) -> Seq<MemberV> {
    s.map_values(|m: Member| m@)
}

pub open spec fn attrs_view(s: Seq<Attribute>) -> Seq<AttributeV> {
    s.map_values(|a: Attribute| a@)
}

impl View for Generics {
    type V = GenericsV;

    open spec fn view(&self) -> GenericsV {
        GenericsV {
            params: params_view(self.params@),
            where_clause: match self.where_clause {
                Some(w) => Some(predicates_view(w@)),
                None => None,
            },
        }
    }
}

impl View for Signature {
    type V = SignatureV;

    open spec fn view(&self) -> SignatureV {
        SignatureV { inputs: tys_view(self.inputs@), output: opt_type_view(self.output), body: tys_view(self.body@) }
    }
}

impl View for Member {
    type V = MemberV;

    open spec fn view(&self) -> MemberV {
        match self {
            Member::Const(t) => MemberV::Const(ty_view(*t)),
            Member::Fn(s) => MemberV::Fn(s@),
            Member::Type(t) => MemberV::Type(ty_view(*t)),
            Member::AssocType { bounds, default } => MemberV::AssocType(bounds_view(bounds@), opt_type_view(*default)),
            Member::Macro(m) => MemberV::Macro(path_view(m.path), m.delimiter, toks_view(m.tokens@)),
            Member::Verbatim => MemberV::Verbatim,
        }
    }
}

impl View for Attribute {
    type V = AttributeV;

    open spec fn view(&self) -> AttributeV {
        match self {
            Attribute::Alias(d) => AttributeV::Alias(aliases_view(d@)),
            Attribute::Other(t) => AttributeV::Other(toks_view(t@)),
        }
    }
}

impl View for ItemKind {
    type V = ItemKindV;

    open spec fn view(&self) -> ItemKindV {
        match self {
            ItemKind::Impl { trait_path, self_ty, members } => ItemKindV::Impl(
                match trait_path {
                    Some(p) => Some(path_view(*p)),
                    None => None,
                },
                ty_view(*self_ty),
                members_view(members@),
            ),
            ItemKind::Types(f) => ItemKindV::Types(tys_view(f@)),
            ItemKind::Fn(s) => ItemKindV::Fn(s@),
            ItemKind::Trait { supertraits, members } => ItemKindV::Trait(bounds_view(supertraits@), members_view(members@)),
            ItemKind::Macro(m) => ItemKindV::Macro(path_view(m.path), m.delimiter, toks_view(m.tokens@)),
            ItemKind::Other => ItemKindV::Other,
            ItemKind::Verbatim => ItemKindV::Verbatim,
        }
    }
}

impl View for Item {
    type V = ItemV;

    open spec fn view(&self) -> ItemV {
        ItemV { attrs: attrs_view(self.attrs@), generics: self.generics@, kind: self.kind@ }
    }
}

pub open spec fn lift_opt_type(r: Result<Option<TypeExpr>, AliasError>) -> Result<Option<TypeV>, ErrorV> {
    match r {
        Ok(x) => Ok(opt_type_view(x)),
        Err(e) => Err(e@),
    }
}

pub open spec fn lift_params(r: Result<Vec<GenericParam>, AliasError>) -> Result<Seq<ParamV>, ErrorV> {
    match r {
        Ok(x) => Ok(params_view(x@)),
        Err(e) => Err(e@),
    }
}

pub open spec fn lift_predicates(r: Result<Vec<WherePredicate>, AliasError>) -> Result<Seq<PredicateV>, ErrorV> {
    match r {
        Ok(x) => Ok(predicates_view(x@)),
        Err(e) => Err(e@),
    }
}

pub open spec fn lift_members(r: Result<Vec<Member>, AliasError>) -> Result<Seq<MemberV>, ErrorV> {
    match r {
        Ok(x) => Ok(members_view(x@)),
        Err(e) => Err(e@),
    }
}

impl AliasDef {
    pub fn deep_copy(&self) -> (r: AliasDef)
        ensures
            r@ == self@,
    {
        let body = match &self.body {
            AliasBody::Type(t) => AliasBody::Type(t.deep_copy()),
            AliasBody::Trait(b) => AliasBody::Trait(copy_bounds(b)),
        };
        AliasDef { name: self.name.clone(), body }
    }
}

impl Visitor {

    /// Substitutes each generic parameter.
    #[verifier::spinoff_prover]
    pub fn visit_params(&self, v: &Vec<GenericParam>) -> (r: Result<Vec<GenericParam>, AliasError>)
        ensures
            lift_params(r) == resolve_all(params_view(v@), param_step(self@)),
    {
        let ghost sv = params_view(v@);
        assert(sv.take(0) =~= Seq::<ParamV>::empty());
        let mut r: Vec<GenericParam> = Vec::new();
        let mut i: usize = 0;
        assert(params_view(r@) =~= Seq::<ParamV>::empty());
        while i < v.len()
            invariant
                i <= v.len(),
                sv == params_view(v@),
                resolve_all(sv.take(i as int), param_step(self@)) == Ok::<_, ErrorV>(params_view(r@)),
            decreases v.len() - i,
        {
            proof {
                lemma_take_next(sv, i as int);
            }
            assert(sv[i as int] == v@[i as int]@);
            match self.visit_param(&v[i]) {
                Ok(x) => {
                    let ghost pre = r@;
                    r.push(x);
                    proof {
                        lemma_resolve_all_step(sv, param_step(self@), i as int, params_view(pre), x@);
                        assert(params_view(r@) =~= params_view(pre).push(x@));
                    }
                },
                Err(e) => {
                    proof {
                        lemma_resolve_all_prefix_error(sv, param_step(self@), i + 1);
                    }
                    return Err(e);
                },
            }
            i += 1;
        }
        proof {
            lemma_take_all(sv);
        }
        Ok(r)
    }

    /// Substitutes each `where` predicate.
    #[verifier::spinoff_prover]
    pub fn visit_predicates(&self, v: &Vec<WherePredicate>) -> (r: Result<Vec<WherePredicate>, AliasError>)
        ensures
            lift_predicates(r) == resolve_all(predicates_view(v@), predicate_step(self@)),
    {
        let ghost sv = predicates_view(v@);
        assert(sv.take(0) =~= Seq::<PredicateV>::empty());
        let mut r: Vec<WherePredicate> = Vec::new();
        let mut i: usize = 0;
        assert(predicates_view(r@) =~= Seq::<PredicateV>::empty());
        while i < v.len()
            invariant
                i <= v.len(),
                sv == predicates_view(v@),
                resolve_all(sv.take(i as int), predicate_step(self@)) == Ok::<_, ErrorV>(predicates_view(r@)),
            decreases v.len() - i,
        {
            proof {
                lemma_take_next(sv, i as int);
            }
            assert(sv[i as int] == v@[i as int]@);
            match self.visit_predicate(&v[i]) {
                Ok(x) => {
                    let ghost pre = r@;
                    r.push(x);
                    proof {
                        lemma_resolve_all_step(sv, predicate_step(self@), i as int, predicates_view(pre), x@);
                        assert(predicates_view(r@) =~= predicates_view(pre).push(x@));
                    }
                },
                Err(e) => {
                    proof {
                        lemma_resolve_all_prefix_error(sv, predicate_step(self@), i + 1);
                    }
                    return Err(e);
                },
            }
            i += 1;
        }
        proof {
            lemma_take_all(sv);
        }
        Ok(r)
    }

    /// Substitutes each member of an impl block.
    #[verifier::spinoff_prover]
    pub fn visit_members(&self, v: &Vec<Member>) -> (r: Result<Vec<Member>, AliasError>)
        ensures
            lift_members(r) == resolve_all(members_view(v@), member_step(self@)),
    {
        let ghost sv = members_view(v@);
        assert(sv.take(0) =~= Seq::<MemberV>::empty());
        let mut r: Vec<Member> = Vec::new();
        let mut i: usize = 0;
        assert(members_view(r@) =~= Seq::<MemberV>::empty());
        while i < v.len()
            invariant
                i <= v.len(),
                sv == members_view(v@),
                resolve_all(sv.take(i as int), member_step(self@)) == Ok::<_, ErrorV>(members_view(r@)),
            decreases v.len() - i,
        {
            proof {
                lemma_take_next(sv, i as int);
            }
            assert(sv[i as int] == v@[i as int]@);
            match self.visit_member(&v[i]) {
                Ok(x) => {
                    let ghost pre = r@;
                    r.push(x);
                    proof {
                        lemma_resolve_all_step(sv, member_step(self@), i as int, members_view(pre), x@);
                        assert(members_view(r@) =~= members_view(pre).push(x@));
                    }
                },
                Err(e) => {
                    proof {
                        lemma_resolve_all_prefix_error(sv, member_step(self@), i + 1);
                    }
                    return Err(e);
                },
            }
            i += 1;
        }
        proof {
            lemma_take_all(sv);
        }
        Ok(r)
    }

    /// A fresh stack: each position of an item is an entry point of its own.
    fn fresh_stack() -> (r: Vec<Expansion>)
        ensures
            frames_view(r@) == Seq::<(Seq<char>, bool)>::empty(),
    {
        let r: Vec<Expansion> = Vec::new();
        assert(frames_view(r@) =~= Seq::<(Seq<char>, bool)>::empty());
        r
    }

    pub fn visit_opt_type(&self, o: &Option<TypeExpr>) -> (r: Result<Option<TypeExpr>, AliasError>)
        ensures
            lift_opt_type(r) == resolve_opt_type(self@, opt_type_view(*o)),
    {
        match o {
            None => Ok(None),
            Some(t) => {
                let mut stack = Self::fresh_stack();
                match self.subst_type(t, self.aliases.len(), &mut stack) {
                    Ok(x) => Ok(Some(x)),
                    Err(e) => Err(e),
                }
            },
        }
    }

    /// Substitutes the bounded type of a predicate, then its bounds.
    #[verifier::spinoff_prover]
    pub fn visit_predicate(&self, p: &WherePredicate) -> (r: Result<WherePredicate, AliasError>)
        ensures
            lift(r) == resolve_predicate(self@, p@),
    {
        match p {
            WherePredicate::Type { lifetimes, bounded, bounds } => {
                let mut stack = Self::fresh_stack();
                let t = match self.subst_type(bounded, self.aliases.len(), &mut stack) {
                    Ok(t) => t,
                    Err(e) => return Err(e),
                };
                match self.subst_bounds(bounds, self.aliases.len(), &mut stack) {
                    Ok(b) => Ok(WherePredicate::Type { lifetimes: copy_strings(lifetimes), bounded: t, bounds: b }),
                    Err(e) => Err(e),
                }
            },
            WherePredicate::Verbatim(t) => Ok(WherePredicate::Verbatim(copy_tokens(t))),
        }
    }

    #[verifier::spinoff_prover]
    pub fn visit_param(&self, p: &GenericParam) -> (r: Result<GenericParam, AliasError>)
        ensures
            lift(r) == resolve_param(self@, p@),
    {
        match p {
            GenericParam::Type { name, bounds, default } => {
                let mut stack = Self::fresh_stack();
                let b = match self.subst_bounds(bounds, self.aliases.len(), &mut stack) {
                    Ok(b) => b,
                    Err(e) => return Err(e),
                };
                match self.visit_opt_type(default) {
                    Ok(d) => Ok(GenericParam::Type { name: name.clone(), bounds: b, default: d }),
                    Err(e) => Err(e),
                }
            },
            GenericParam::Const { name, ty } => {
                let mut stack = Self::fresh_stack();
                match self.subst_type(ty, self.aliases.len(), &mut stack) {
                    Ok(t) => Ok(GenericParam::Const { name: name.clone(), ty: t }),
                    Err(e) => Err(e),
                }
            },
            GenericParam::Verbatim(t) => Ok(GenericParam::Verbatim(copy_tokens(t))),
        }
    }

    #[verifier::spinoff_prover]
    pub fn visit_generics(&self, g: &Generics) -> (r: Result<Generics, AliasError>)
        ensures
            lift(r) == resolve_generics(self@, g@),
    {
        let params = match self.visit_params(&g.params) {
            Ok(p) => p,
            Err(e) => return Err(e),
        };
        match &g.where_clause {
            None => Ok(Generics { params, where_clause: None }),
            Some(w) => match self.visit_predicates(w) {
                Ok(rw) => Ok(Generics { params, where_clause: Some(rw) }),
                Err(e) => Err(e),
            },
        }
    }

    #[verifier::spinoff_prover]
    pub fn visit_signature(&self, s: &Signature) -> (r: Result<Signature, AliasError>)
        ensures
            lift(r) == resolve_signature(self@, s@),
    {
        let mut stack = Self::fresh_stack();
        let inputs = match self.subst_types(&s.inputs, self.aliases.len(), &mut stack) {
            Ok(i) => i,
            Err(e) => return Err(e),
        };
        let output = match self.visit_opt_type(&s.output) {
            Ok(o) => o,
            Err(e) => return Err(e),
        };
        match self.subst_types(&s.body, self.aliases.len(), &mut stack) {
            Ok(body) => Ok(Signature { inputs, output, body }),
            Err(e) => Err(e),
        }
    }

    #[verifier::spinoff_prover]
    pub fn visit_member(&self, m: &Member) -> (r: Result<Member, AliasError>)
        ensures
            lift(r) == resolve_member(self@, m@),
    {
        let mut stack = Self::fresh_stack();
        match m {
            Member::Const(t) => match self.subst_type(t, self.aliases.len(), &mut stack) {
                Ok(x) => Ok(Member::Const(x)),
                Err(e) => Err(e),
            },
            Member::Fn(s) => match self.visit_signature(s) {
                Ok(x) => Ok(Member::Fn(x)),
                Err(e) => Err(e),
            },
            Member::Type(t) => match self.subst_type(t, self.aliases.len(), &mut stack) {
                Ok(x) => Ok(Member::Type(x)),
                Err(e) => Err(e),
            },
            Member::AssocType { bounds, default } => {
                let b = match self.subst_bounds(bounds, self.aliases.len(), &mut stack) {
                    Ok(b) => b,
                    Err(e) => return Err(e),
                };
                match self.visit_opt_type(default) {
                    Ok(d) => Ok(Member::AssocType { bounds: b, default: d }),
                    Err(e) => Err(e),
                }
            },
            Member::Macro(mc) => {
                if self.in_macros {
                    match self.subst_tokens(&mc.tokens, self.aliases.len(), &mut stack) {
                        Ok(x) => Ok(Member::Macro(MacroCall { path: mc.path.deep_copy(), delimiter: mc.delimiter, tokens: x })),
                        Err(e) => Err(e),
                    }
                } else {
                    Ok(Member::Macro(MacroCall { path: mc.path.deep_copy(), delimiter: mc.delimiter, tokens: copy_tokens(&mc.tokens) }))
                }
            },
            Member::Verbatim => Ok(Member::Verbatim),
        }
    }

    #[verifier::spinoff_prover]
    pub fn visit_kind(&self, k: &ItemKind) -> (r: Result<ItemKind, AliasError>)
        ensures
            lift(r) == resolve_kind(self@, k@),
    {
        let mut stack = Self::fresh_stack();
        match k {
            ItemKind::Impl { trait_path, self_ty, members } => {
                let tp = match trait_path {
                    None => None,
                    Some(p) => match self.subst_path(p, self.aliases.len(), &mut stack) {
                        Ok(x) => Some(x),
                        Err(e) => return Err(e),
                    },
                };
                let st = match self.subst_type(self_ty, self.aliases.len(), &mut stack) {
                    Ok(x) => x,
                    Err(e) => return Err(e),
                };
                match self.visit_members(members) {
                    Ok(ms) => Ok(ItemKind::Impl { trait_path: tp, self_ty: st, members: ms }),
                    Err(e) => Err(e),
                }
            },
            ItemKind::Types(f) => match self.subst_types(f, self.aliases.len(), &mut stack) {
                Ok(x) => Ok(ItemKind::Types(x)),
                Err(e) => Err(e),
            },
            ItemKind::Fn(s) => match self.visit_signature(s) {
                Ok(x) => Ok(ItemKind::Fn(x)),
                Err(e) => Err(e),
            },
            ItemKind::Trait { supertraits, members } => {
                let b = match self.subst_bounds(supertraits, self.aliases.len(), &mut stack) {
                    Ok(b) => b,
                    Err(e) => return Err(e),
                };
                match self.visit_members(members) {
                    Ok(ms) => Ok(ItemKind::Trait { supertraits: b, members: ms }),
                    Err(e) => Err(e),
                }
            },
            ItemKind::Macro(mc) => {
                if self.in_macros {
                    match self.subst_tokens(&mc.tokens, self.aliases.len(), &mut stack) {
                        Ok(x) => Ok(ItemKind::Macro(MacroCall { path: mc.path.deep_copy(), delimiter: mc.delimiter, tokens: x })),
                        Err(e) => Err(e),
                    }
                } else {
                    Ok(ItemKind::Macro(MacroCall { path: mc.path.deep_copy(), delimiter: mc.delimiter, tokens: copy_tokens(&mc.tokens) }))
                }
            },
            ItemKind::Other => Ok(ItemKind::Other),
            ItemKind::Verbatim => Ok(ItemKind::Verbatim),
        }
    }

    /// Substitutes every alias reference of an item. The item's attributes
    /// are moved through as they are.
    #[verifier::spinoff_prover]
    pub fn visit_item(&self, item: Item) -> (r: Result<Item, AliasError>)
        ensures
            lift(r) == resolve_item(self@, item@),
    {
        let generics = match self.visit_generics(&item.generics) {
            Ok(g) => g,
            Err(e) => return Err(e),
        };
        match self.visit_kind(&item.kind) {
            Ok(kind) => Ok(Item { attrs: item.attrs, generics, kind }),
            Err(e) => Err(e),
        }
    }

    /// Takes the alias declarations off an item, in order, and makes the
    /// visitor that substitutes them. An item of a kind that is not modelled
    /// is refused rather than passed through.
    #[verifier::spinoff_prover]
    pub fn new(in_macros: bool, item: &mut Item) -> (r: Result<Visitor, AliasError>)
        ensures
            match r {
                Ok(v) => {
                    &&& !(old(item)@.kind is Verbatim)
                    &&& first_empty(declared(old(item)@.attrs)) is None
                    &&& v@ == Scope { aliases: declared(old(item)@.attrs), in_macros }
                    &&& final(item)@ == ItemV { attrs: undeclared(old(item)@.attrs), ..old(item)@ }
                },
                Err(e) => {
                    &&& final(item)@ == old(item)@
                    &&& if old(item)@.kind is Verbatim {
                        e@ == ErrorV::UnsupportedItem
                    } else {
                        &&& first_empty(declared(old(item)@.attrs)) is Some
                        &&& e@ == ErrorV::EmptyBounds(first_empty(declared(old(item)@.attrs))->0)
                    }
                },
            },
    {
        if let ItemKind::Verbatim = item.kind {
            return Err(AliasError::UnsupportedItem);
        }
        let ghost av = attrs_view(item.attrs@);
        let mut aliases: Vec<AliasDef> = Vec::new();
        let mut kept: Vec<Attribute> = Vec::new();
        let mut i: usize = 0;
        while i < item.attrs.len()
            invariant
                i <= item.attrs.len(),
                item@ == old(item)@,
                av == attrs_view(item.attrs@),
                aliases_view(aliases@) == declared(av.take(i as int)),
                attrs_view(kept@) == undeclared(av.take(i as int)),
            decreases item.attrs.len() - i,
        {
            proof {
                lemma_take_next(av, i as int);
            }
            match &item.attrs[i] {
                Attribute::Alias(defs) => {
                    let ghost before = aliases_view(aliases@);
                    let mut j: usize = 0;
                    while j < defs.len()
                        invariant
                            j <= defs.len(),
                            aliases_view(aliases@) == before + aliases_view(defs@).take(j as int),
                        decreases defs.len() - j,
                    {
                        let d = defs[j].deep_copy();
                        aliases.push(d);
                        proof {
                            assert(aliases_view(defs@)[j as int] == d@);
                            assert(aliases_view(defs@).take(j + 1) =~= aliases_view(defs@).take(j as int).push(d@));
                            assert(before + aliases_view(defs@).take(j + 1) =~= (before + aliases_view(defs@).take(j as int)).push(d@));
                            assert(aliases_view(aliases@) =~= aliases_view(aliases@.drop_last()).push(d@));
                        }
                        j += 1;
                    }
                    proof {
                        assert(aliases_view(defs@).take(defs.len() as int) =~= aliases_view(defs@));
                    }
                },
                Attribute::Other(t) => {
                    let a = Attribute::Other(copy_tokens(t));
                    kept.push(a);
                    proof {
                        assert(attrs_view(kept@) =~= attrs_view(kept@.drop_last()).push(a@));
                        assert(attrs_view(kept@.drop_last()) + seq![a@] =~= attrs_view(kept@));
                    }
                },
            }
            i += 1;
        }
        proof {
            lemma_take_all(av);
        }
        if let Some(x) = empty_trait_alias(&aliases) {
            return Err(AliasError::EmptyBounds(x));
        }
        item.attrs = kept;
        Ok(Visitor { aliases, in_macros })
    }
}

/// The whole transformation of one item.
pub fn expand_item(item: Item, in_macros: bool) -> (r: Result<Item, AliasError>)
    ensures
        lift(r) == expand(item@, in_macros),
{
    let mut item = item;
    match Visitor::new(in_macros, &mut item) {
        Ok(v) => v.visit_item(item),
        Err(e) => Err(e),
    }
}

} // verus!
