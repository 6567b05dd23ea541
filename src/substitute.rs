//! The substitution engine: rewrites syntax with the aliases of one item.
use vstd::prelude::*;

use crate::model::{BoundV, PathV, QSelfV, ErrorV, GenericArgV, Scope, SegmentV, TokenV, TypeV};
use crate::semantics::{
    expand_trait, expand_type, lemma_find, lookup_trait, marker_name, plain_path,
    resolve_args, resolve_bound, resolve_bounds, resolve_generic_arg, resolve_generic_args,
    resolve_opt, resolve_path, resolve_segments, resolve_token, resolve_tokens, resolve_type,
    resolve_types, lemma_types_prefix_error, lemma_generic_args_prefix_error,
    lemma_tokens_prefix_error, lemma_segments_step, lemma_segments_run_error, lemma_bounds_prefix_error,
};
use crate::seqs::{lemma_push_last, lemma_take_all, lemma_take_next};
use crate::syntax::{
    bounds_view, copy_segments, copy_strings, copy_tokens, gargs_view,
    lemma_bounds_view, lemma_bounds_view_concat, lemma_segs_view, lemma_segs_view_concat,
    lemma_toks_view, lemma_tys_view, lemma_gargs_view, strs_view, opt_ty_view, path_view, segs_view, toks_view,
    tys_view, Delimiter, GenericArgument, MacroCall, Path, PathArguments, PathSegment,
    QualifiedSelf, TokenTree, TraitBound, TypeBound, TypeExpr,
};
use crate::table::{
    aliases_view, expansion_chain, find_alias, find_visible, frames_view, AliasBody, AliasDef,
    AliasError, Expansion,
};

verus! {

/// The aliases declared on one item, and whether invocations of other
/// macros are searched for escape markers.
#[derive(Debug)]
pub struct Visitor {
    pub aliases: Vec<AliasDef>,
    pub in_macros: bool,
}

impl View for Visitor {
    type V = Scope;

    open spec fn view(&self) -> Scope {
        Scope { aliases: aliases_view(self.aliases@), in_macros: self.in_macros }
    }
}

pub open spec fn lift<T: View>(r: Result<T, AliasError>) -> Result<T::V, ErrorV> {
    match r {
        Ok(x) => Ok(x@),
        Err(e) => Err(e@),
    }
}

pub open spec fn lift_opt(r: Result<Option<Box<TypeExpr>>, AliasError>) -> Result<Option<Box<TypeV>>, ErrorV> {
    match r {
        Ok(x) => Ok(opt_ty_view(x)),
        Err(e) => Err(e@),
    }
}

pub open spec fn lift_types(r: Result<Vec<TypeExpr>, AliasError>) -> Result<Seq<TypeV>, ErrorV> {
    match r {
        Ok(x) => Ok(tys_view(x@)),
        Err(e) => Err(e@),
    }
}

pub open spec fn lift_tokens(r: Result<Vec<TokenTree>, AliasError>) -> Result<Seq<TokenV>, ErrorV> {
    match r {
        Ok(x) => Ok(toks_view(x@)),
        Err(e) => Err(e@),
    }
}

pub open spec fn lift_bounds(r: Result<Vec<TypeBound>, AliasError>) -> Result<Seq<BoundV>, ErrorV> {
    match r {
        Ok(x) => Ok(bounds_view(x@)),
        Err(e) => Err(e@),
    }
}

pub open spec fn lift_generic_args(r: Result<Vec<GenericArgument>, AliasError>) -> Result<Seq<GenericArgV>, ErrorV> {
    match r {
        Ok(x) => Ok(gargs_view(x@)),
        Err(e) => Err(e@),
    }
}

pub open spec fn lift_segments(r: Result<Vec<PathSegment>, AliasError>) -> Result<Seq<SegmentV>, ErrorV> {
    match r {
        Ok(x) => Ok(segs_view(x@)),
        Err(e) => Err(e@),
    }
}

/// The path made of one identifier.
pub fn plain_path_of(x: &String) -> (r: Path)
    ensures
        r@ == plain_path(x@),
{
    let r = Path {
        leading_colon: false,
        segments: vec![PathSegment { ident: x.clone(), arguments: PathArguments::Empty }],
    };
    proof {
        lemma_segs_view(r.segments@);
        assert(segs_view(r.segments@) =~= plain_path(x@).segments);
    }
    r
}

/// The bound list made of the trait of one identifier.
pub fn plain_bound_of(x: &String) -> (r: Vec<TypeBound>)
    ensures
        bounds_view(r@) == seq![BoundV::Trait(Seq::empty(), false, plain_path(x@))],
{
    let lifetimes: Vec<String> = Vec::new();
    proof {
        assert(strs_view(lifetimes@) =~= Seq::<Seq<char>>::empty());
    }
    let b = TypeBound::Trait(TraitBound { lifetimes, maybe: false, path: plain_path_of(x) });
    let mut r: Vec<TypeBound> = Vec::new();
    r.push(b);
    proof {
        lemma_bounds_view(r@);
        assert(bounds_view(r@) =~= seq![BoundV::Trait(Seq::empty(), false, plain_path(x@))]);
    }
    r
}

/// The name held by an escape marker `{ { name } }`.
pub fn marker(t: &TokenTree) -> (r: Option<&String>)
    ensures
        match r {
            Some(x) => marker_name(t@) == Some(x@),
            None => marker_name(t@) is None,
        },
{
    if let TokenTree::Group(Delimiter::Brace, s) = t {
        proof {
            lemma_toks_view(s@);
        }
        if s.len() == 1 {
            if let TokenTree::Group(Delimiter::Brace, s2) = &s[0] {
                proof {
                    lemma_toks_view(s2@);
                }
                if s2.len() == 1 {
                    if let TokenTree::Ident(x) = &s2[0] {
                        return Some(x);
                    }
                }
            }
        }
    }
    None
}

impl Visitor {

    /// Substitutes each type of a list.
    #[verifier::spinoff_prover]
    pub fn subst_types(&self, v: &Vec<TypeExpr>, n: usize, stack: &mut Vec<Expansion>) -> (r: Result<Vec<TypeExpr>, AliasError>)
        requires
            n <= self.aliases@.len(),
        ensures
            final(stack)@ == old(stack)@,
            lift_types(r) == resolve_types(self@, n as nat, frames_view(old(stack)@), tys_view(v@)),
        decreases n, 2nat, v,
    {
        let ghost st = frames_view(stack@);
        let ghost sv = tys_view(v@);
        proof {
            lemma_tys_view(v@);
        }
        let mut r: Vec<TypeExpr> = Vec::new();
        let mut i: usize = 0;
        while i < v.len()
            invariant
                i <= v.len(),
                stack@ == old(stack)@,
                n <= self.aliases@.len(),
                st == frames_view(stack@),
                sv == tys_view(v@),
                sv.len() == v@.len(),
                forall|j: int| 0 <= j < sv.len() ==> #[trigger] sv[j] == v@[j]@,
                resolve_types(self@, n as nat, st, sv.take(i as int)) == Ok::<_, ErrorV>(tys_view(r@)),
            decreases v.len() - i,
        {
            proof {
                lemma_take_next(sv, i as int);
            }
            match self.subst_type(&v[i], n, stack) {
                Ok(x) => {
                    proof {
                        lemma_push_last(r@, x);
                    }
                    r.push(x);
                },
                Err(e) => {
                    proof {
                        lemma_types_prefix_error(self@, n as nat, st, sv, i + 1);
                    }
                    return Err(e);
                },
            }
            i += 1;
        }
        proof {
            lemma_take_all(sv);
        }
        Ok(r)
    }

    /// Substitutes each generic argument of a list.
    #[verifier::spinoff_prover]
    pub fn subst_generic_args(&self, v: &Vec<GenericArgument>, n: usize, stack: &mut Vec<Expansion>) -> (r: Result<Vec<GenericArgument>, AliasError>)
        requires
            n <= self.aliases@.len(),
        ensures
            final(stack)@ == old(stack)@,
            lift_generic_args(r) == resolve_generic_args(self@, n as nat, frames_view(old(stack)@), gargs_view(v@)),
        decreases n, 2nat, v,
    {
        let ghost st = frames_view(stack@);
        let ghost sv = gargs_view(v@);
        proof {
            lemma_gargs_view(v@);
        }
        let mut r: Vec<GenericArgument> = Vec::new();
        let mut i: usize = 0;
        while i < v.len()
            invariant
                i <= v.len(),
                stack@ == old(stack)@,
                n <= self.aliases@.len(),
                st == frames_view(stack@),
                sv == gargs_view(v@),
                sv.len() == v@.len(),
                forall|j: int| 0 <= j < sv.len() ==> #[trigger] sv[j] == v@[j]@,
                resolve_generic_args(self@, n as nat, st, sv.take(i as int)) == Ok::<_, ErrorV>(gargs_view(r@)),
            decreases v.len() - i,
        {
            proof {
                lemma_take_next(sv, i as int);
            }
            match self.subst_generic_arg(&v[i], n, stack) {
                Ok(x) => {
                    proof {
                        lemma_push_last(r@, x);
                    }
                    r.push(x);
                },
                Err(e) => {
                    proof {
                        lemma_generic_args_prefix_error(self@, n as nat, st, sv, i + 1);
                    }
                    return Err(e);
                },
            }
            i += 1;
        }
        proof {
            lemma_take_all(sv);
        }
        Ok(r)
    }

    /// Replaces the escape markers in a token list.
    #[verifier::spinoff_prover]
    pub fn subst_tokens(&self, v: &Vec<TokenTree>, n: usize, stack: &mut Vec<Expansion>) -> (r: Result<Vec<TokenTree>, AliasError>)
        requires
            n <= self.aliases@.len(),
        ensures
            final(stack)@ == old(stack)@,
            lift_tokens(r) == resolve_tokens(self@, n as nat, frames_view(old(stack)@), toks_view(v@)),
        decreases n, 2nat, v,
    {
        let ghost st = frames_view(stack@);
        let ghost sv = toks_view(v@);
        proof {
            lemma_toks_view(v@);
        }
        let mut r: Vec<TokenTree> = Vec::new();
        let mut i: usize = 0;
        while i < v.len()
            invariant
                i <= v.len(),
                stack@ == old(stack)@,
                n <= self.aliases@.len(),
                st == frames_view(stack@),
                sv == toks_view(v@),
                sv.len() == v@.len(),
                forall|j: int| 0 <= j < sv.len() ==> #[trigger] sv[j] == v@[j]@,
                resolve_tokens(self@, n as nat, st, sv.take(i as int)) == Ok::<_, ErrorV>(toks_view(r@)),
            decreases v.len() - i,
        {
            proof {
                lemma_take_next(sv, i as int);
            }
            match self.subst_token(&v[i], n, stack) {
                Ok(x) => {
                    proof {
                        lemma_push_last(r@, x);
                    }
                    r.push(x);
                },
                Err(e) => {
                    proof {
                        lemma_tokens_prefix_error(self@, n as nat, st, sv, i + 1);
                    }
                    return Err(e);
                },
            }
            i += 1;
        }
        proof {
            lemma_take_all(sv);
        }
        Ok(r)
    }

    /// The expansion of a name in type position.
    #[verifier::spinoff_prover]
    pub fn expand_type(&self, x: &String, n: usize, stack: &mut Vec<Expansion>) -> (r: Result<TypeExpr, AliasError>)
        requires
            n <= self.aliases@.len(),
        ensures
            final(stack)@ == old(stack)@,
            lift(r) == expand_type(self@, n as nat, frames_view(old(stack)@), x@),
        decreases n, 1nat, x@,
    {
        let ghost st = frames_view(stack@);
        match find_visible(&self.aliases, self.aliases.len(), x, false) {
            Some(i) => {
                proof {
                    lemma_find(self@.aliases, self@.aliases.len(), (x@, false));
                }
                if i >= n {
                    return Err(AliasError::Cycle { name: x.clone(), chain: expansion_chain(stack) });
                }
                match &self.aliases[i].body {
                    AliasBody::Type(def) => {
                        stack.push(Expansion { name: x.clone(), is_trait: false });
                        proof {
                            assert(frames_view(stack@) =~= st.push((x@, false)));
                        }
                        let r = self.subst_type(def, i, stack);
                        let _ = stack.pop();
                        proof {
                            assert(stack@ =~= old(stack)@);
                        }
                        r
                    },
                    AliasBody::Trait(_) => Ok(TypeExpr::Path(None, plain_path_of(x))),
                }
            },
            None => Ok(TypeExpr::Path(None, plain_path_of(x))),
        }
    }

    /// The expansion of a trait alias into the bounds it stands for.
    #[verifier::spinoff_prover]
    pub fn expand_trait(&self, x: &String, n: usize, stack: &mut Vec<Expansion>) -> (r: Result<Vec<TypeBound>, AliasError>)
        requires
            n <= self.aliases@.len(),
        ensures
            final(stack)@ == old(stack)@,
            lift_bounds(r) == expand_trait(self@, n as nat, frames_view(old(stack)@), x@),
        decreases n, 1nat, x@,
    {
        let ghost st = frames_view(stack@);
        match find_visible(&self.aliases, self.aliases.len(), x, true) {
            Some(i) => {
                proof {
                    lemma_find(self@.aliases, self@.aliases.len(), (x@, true));
                }
                if i >= n {
                    return Err(AliasError::Cycle { name: x.clone(), chain: expansion_chain(stack) });
                }
                match &self.aliases[i].body {
                    AliasBody::Trait(def) => {
                        stack.push(Expansion { name: x.clone(), is_trait: true });
                        proof {
                            assert(frames_view(stack@) =~= st.push((x@, true)));
                        }
                        let r = self.subst_bounds(def, i, stack);
                        let _ = stack.pop();
                        proof {
                            assert(stack@ =~= old(stack)@);
                        }
                        r
                    },
                    AliasBody::Type(_) => Ok(plain_bound_of(x)),
                }
            },
            None => Ok(plain_bound_of(x)),
        }
    }

    pub fn subst_opt(&self, o: &Option<Box<TypeExpr>>, n: usize, stack: &mut Vec<Expansion>) -> (r: Result<Option<Box<TypeExpr>>, AliasError>)
        requires
            n <= self.aliases@.len(),
        ensures
            final(stack)@ == old(stack)@,
            lift_opt(r) == resolve_opt(self@, n as nat, frames_view(old(stack)@), opt_ty_view(*o)),
        decreases n, 2nat, o,
    {
        match o {
            None => Ok(None),
            Some(b) => match self.subst_type(b, n, stack) {
                Ok(r) => Ok(Some(Box::new(r))),
                Err(e) => Err(e),
            },
        }
    }

    /// Substitutes a type: alias names are replaced by their expansions,
    /// every other form is rebuilt around its substituted parts.
    #[verifier::spinoff_prover]
    pub fn subst_type(&self, t: &TypeExpr, n: usize, stack: &mut Vec<Expansion>) -> (r: Result<TypeExpr, AliasError>)
        requires
            n <= self.aliases@.len(),
        ensures
            final(stack)@ == old(stack)@,
            lift(r) == resolve_type(self@, n as nat, frames_view(old(stack)@), t@),
        decreases n, 2nat, t,
    {
        match t {
            TypeExpr::Array(e, len) => match self.subst_type(e, n, stack) {
                Ok(r) => Ok(TypeExpr::Array(Box::new(r), copy_tokens(len))),
                Err(x) => Err(x),
            },
            TypeExpr::Slice(e) => match self.subst_type(e, n, stack) {
                Ok(r) => Ok(TypeExpr::Slice(Box::new(r))),
                Err(x) => Err(x),
            },
            TypeExpr::Ptr(m, e) => match self.subst_type(e, n, stack) {
                Ok(r) => Ok(TypeExpr::Ptr(*m, Box::new(r))),
                Err(x) => Err(x),
            },
            TypeExpr::Reference(l, m, e) => match self.subst_type(e, n, stack) {
                Ok(r) => Ok(
                    TypeExpr::Reference(
                        match l {
                            Some(s) => Some(s.clone()),
                            None => None,
                        },
                        *m,
                        Box::new(r),
                    ),
                ),
                Err(x) => Err(x),
            },
            TypeExpr::Paren(e) => match self.subst_type(e, n, stack) {
                Ok(r) => Ok(TypeExpr::Paren(Box::new(r))),
                Err(x) => Err(x),
            },
            TypeExpr::Group(e) => match self.subst_type(e, n, stack) {
                Ok(r) => Ok(TypeExpr::Group(Box::new(r))),
                Err(x) => Err(x),
            },
            TypeExpr::Tuple(v) => match self.subst_types(v, n, stack) {
                Ok(r) => Ok(TypeExpr::Tuple(r)),
                Err(x) => Err(x),
            },
            TypeExpr::BareFn(h, a, o) => match self.subst_types(a, n, stack) {
                Ok(ra) => match self.subst_opt(o, n, stack) {
                    Ok(ro) => Ok(TypeExpr::BareFn(copy_tokens(h), ra, ro)),
                    Err(x) => Err(x),
                },
                Err(x) => Err(x),
            },
            TypeExpr::Path(None, p) => {
                assert(t@ == TypeV::Path(None, p@));
                proof {
                    lemma_segs_view(p.segments@);
                }
                if p.segments.len() == 1 && matches!(p.segments[0].arguments, PathArguments::Empty) {
                    let x = &p.segments[0].ident;
                    if let Some(AliasBody::Type(_)) = find_alias(&self.aliases, x, false) {
                        return self.expand_type(x, n, stack);
                    }
                }
                match self.subst_path(p, n, stack) {
                    Ok(r) => Ok(TypeExpr::Path(None, r)),
                    Err(x) => Err(x),
                }
            },
            TypeExpr::Path(Some(q), p) => {
                assert(t@ == TypeV::Path(Some(q@), p@));
                assert(*q@.ty == q.ty@);
                let qt = match self.subst_type(&q.ty, n, stack) {
                    Ok(x) => x,
                    Err(e) => return Err(e),
                };
                proof {
                    lemma_segs_view(p.segments@);
                }
                if q.as_trait && q.position == 1 && p.segments.len() >= 1 {
                    if let Some(AliasBody::Trait(_)) = find_alias(&self.aliases, &p.segments[0].ident, true) {
                        return self.fuse_qualified(q, qt, p, n, stack);
                    }
                }
                let q2 = QualifiedSelf { ty: Box::new(qt), position: q.position, as_trait: q.as_trait };
                assert(q2@ == QSelfV { ty: Box::new(q2.ty@), ..q@ });
                match self.subst_path(p, n, stack) {
                    Ok(r) => Ok(TypeExpr::Path(Some(q2), r)),
                    Err(x) => Err(x),
                }
            },
            TypeExpr::Macro(m) => {
                if self.in_macros {
                    match self.subst_tokens(&m.tokens, n, stack) {
                        Ok(r) => Ok(
                            TypeExpr::Macro(MacroCall { path: m.path.deep_copy(), delimiter: m.delimiter, tokens: r }),
                        ),
                        Err(x) => Err(x),
                    }
                } else {
                    Ok(t.deep_copy())
                }
            },
            _ => Ok(t.deep_copy()),
        }
    }

    /// `<Q as A>::Rest`, with `A` a trait alias: the alias's single trait
    /// bound takes the place of `A`. `qt` is `Q` substituted.
    #[verifier::spinoff_prover]
    pub fn fuse_qualified(&self, q: &QualifiedSelf, qt: TypeExpr, p: &Path, n: usize, stack: &mut Vec<Expansion>) -> (r: Result<TypeExpr, AliasError>)
        requires
            n <= self.aliases@.len(),
            q.as_trait,
            q.position == 1,
            p.segments.len() >= 1,
            lookup_trait(self@.aliases, p.segments@[0].ident@) is Some,
            resolve_type(self@, n as nat, frames_view(old(stack)@), *q@.ty) == Ok::<_, ErrorV>(qt@),
        ensures
            final(stack)@ == old(stack)@,
            lift(r) == resolve_type(self@, n as nat, frames_view(old(stack)@), TypeV::Path(Some(q@), p@)),
        decreases n, 2nat, p,
    {
        proof {
            lemma_segs_view(p.segments@);
        }
        let x = &p.segments[0].ident;
        let bs = match self.expand_trait(x, n, stack) {
            Ok(b) => b,
            Err(e) => return Err(e),
        };
        proof {
            lemma_bounds_view(bs@);
        }
        if bs.len() != 1 {
            return Err(AliasError::MultipleBounds(x.clone()));
        }
        if !matches!(p.segments[0].arguments, PathArguments::Empty) {
            return Err(AliasError::GenericAlias(x.clone()));
        }
        match &bs[0] {
            TypeBound::Trait(tb) => {
                let mut rest = match self.subst_segments(&p.segments, 1, n, stack) {
                    Ok(r) => r,
                    Err(e) => return Err(e),
                };
                let mut segs = copy_segments(&tb.path.segments);
                proof {
                    lemma_segs_view(segs@);
                    lemma_segs_view_concat(segs@, rest@);
                }
                let position = segs.len();
                let ghost rest_v = segs_view(rest@);
                let ghost bp = path_view(tb.path);
                assert(bounds_view(bs@)[0] == BoundV::Trait(strs_view(tb.lifetimes@), tb.maybe, bp));
                assert(bp.segments == segs_view(segs@));
                assert(p@.segments.drop_first() == segs_view(p.segments@).subrange(1, p.segments.len() as int));
                assert(resolve_segments(self@, n as nat, frames_view(old(stack)@), p@.segments.drop_first()) == Ok::<_, ErrorV>(rest_v));
                segs.append(&mut rest);
                assert(segs_view(segs@) == bp.segments + rest_v);
                let fused_q = QualifiedSelf { ty: Box::new(qt), position, as_trait: true };
                let fused_p = Path { leading_colon: tb.path.leading_colon, segments: segs };
                assert(fused_q@ == QSelfV { ty: Box::new(qt@), position: bp.segments.len(), as_trait: true });
                assert(fused_p@ == PathV { leading_colon: bp.leading_colon, segments: bp.segments + rest_v });
                let res = TypeExpr::Path(Some(fused_q), fused_p);
                assert(res@ == TypeV::Path(
                    Some(QSelfV { ty: Box::new(qt@), position: bp.segments.len(), as_trait: true }),
                    PathV { leading_colon: bp.leading_colon, segments: bp.segments + rest_v },
                ));
                Ok(res)
            },
            _ => Err(AliasError::NonTraitBound(x.clone())),
        }
    }

    #[verifier::spinoff_prover]
    pub fn subst_path(&self, p: &Path, n: usize, stack: &mut Vec<Expansion>) -> (r: Result<Path, AliasError>)
        requires
            n <= self.aliases@.len(),
        ensures
            final(stack)@ == old(stack)@,
            lift(r) == resolve_path(self@, n as nat, frames_view(old(stack)@), p@),
        decreases n, 2nat, p,
    {
        proof {
            lemma_segs_view(p.segments@);
            assert(segs_view(p.segments@).subrange(0, p.segments@.len() as int) =~= segs_view(p.segments@));
        }
        match self.subst_segments(&p.segments, 0, n, stack) {
            Ok(r) => Ok(Path { leading_colon: p.leading_colon, segments: r }),
            Err(e) => Err(e),
        }
    }

    /// Substitutes the arguments of the segments from `from` on.
    #[verifier::spinoff_prover]
    pub fn subst_segments(&self, v: &Vec<PathSegment>, from: usize, n: usize, stack: &mut Vec<Expansion>) -> (r: Result<Vec<PathSegment>, AliasError>)
        requires
            n <= self.aliases@.len(),
            from <= v.len(),
        ensures
            final(stack)@ == old(stack)@,
            lift_segments(r) == resolve_segments(self@, n as nat, frames_view(old(stack)@),
                segs_view(v@).subrange(from as int, v.len() as int),
            ),
        decreases n, 2nat, v,
    {
        let ghost st = frames_view(stack@);
        let ghost sv = segs_view(v@);
        proof {
            lemma_segs_view(v@);
        }
        let mut r: Vec<PathSegment> = Vec::new();
        let mut i: usize = from;
        while i < v.len()
            invariant
                from <= i <= v.len(),
                stack@ == old(stack)@,
                n <= self.aliases@.len(),
                st == frames_view(stack@),
                sv == segs_view(v@),
                sv.len() == v@.len(),
                forall|j: int| 0 <= j < sv.len() ==> #[trigger] sv[j] == v@[j]@,
                resolve_segments(self@, n as nat, st, sv.subrange(from as int, i as int)) == Ok::<_, ErrorV>(segs_view(r@)),
            decreases v.len() - i,
        {
            proof {
                lemma_segments_step(self@, n as nat, st, sv, from as int, i as int);
            }
            match self.subst_args(&v[i].arguments, n, stack) {
                Ok(a) => {
                    let x = PathSegment { ident: v[i].ident.clone(), arguments: a };
                    assert(x@ == SegmentV { ident: sv[i as int].ident, arguments: a@ });
                    proof {
                        lemma_push_last(r@, x);
                    }
                    r.push(x);
                },
                Err(e) => {
                    proof {
                        lemma_segments_run_error(self@, n as nat, st, sv, from as int, i as int);
                    }
                    return Err(e);
                },
            }
            i += 1;
        }
        Ok(r)
    }

    #[verifier::spinoff_prover]
    pub fn subst_args(&self, a: &PathArguments, n: usize, stack: &mut Vec<Expansion>) -> (r: Result<PathArguments, AliasError>)
        requires
            n <= self.aliases@.len(),
        ensures
            final(stack)@ == old(stack)@,
            lift(r) == resolve_args(self@, n as nat, frames_view(old(stack)@), a@),
        decreases n, 2nat, a,
    {
        match a {
            PathArguments::Empty => Ok(PathArguments::Empty),
            PathArguments::AngleBracketed(g) => match self.subst_generic_args(g, n, stack) {
                Ok(r) => Ok(PathArguments::AngleBracketed(r)),
                Err(e) => Err(e),
            },
            PathArguments::Parenthesized(v, o) => match self.subst_types(v, n, stack) {
                Ok(rv) => match self.subst_opt(o, n, stack) {
                    Ok(ro) => Ok(PathArguments::Parenthesized(rv, ro)),
                    Err(e) => Err(e),
                },
                Err(e) => Err(e),
            },
        }
    }

    #[verifier::spinoff_prover]
    pub fn subst_generic_arg(&self, g: &GenericArgument, n: usize, stack: &mut Vec<Expansion>) -> (r: Result<GenericArgument, AliasError>)
        requires
            n <= self.aliases@.len(),
        ensures
            final(stack)@ == old(stack)@,
            lift(r) == resolve_generic_arg(self@, n as nat, frames_view(old(stack)@), g@),
        decreases n, 2nat, g,
    {
        match g {
            GenericArgument::Type(t) => match self.subst_type(t, n, stack) {
                Ok(r) => Ok(GenericArgument::Type(r)),
                Err(e) => Err(e),
            },
            GenericArgument::AssocType(a, t) => match self.subst_type(t, n, stack) {
                Ok(r) => Ok(GenericArgument::AssocType(a.clone(), r)),
                Err(e) => Err(e),
            },
            GenericArgument::Verbatim(v) => Ok(GenericArgument::Verbatim(copy_tokens(v))),
        }
    }

    /// Substitutes the types inside one bound.
    #[verifier::spinoff_prover]
    pub fn subst_bound(&self, b: &TypeBound, n: usize, stack: &mut Vec<Expansion>) -> (r: Result<TypeBound, AliasError>)
        requires
            n <= self.aliases@.len(),
        ensures
            final(stack)@ == old(stack)@,
            lift(r) == resolve_bound(self@, n as nat, frames_view(old(stack)@), b@),
        decreases n, 2nat, b,
    {
        match b {
            TypeBound::Trait(t) => match self.subst_path(&t.path, n, stack) {
                Ok(p) => Ok(TypeBound::Trait(TraitBound { lifetimes: copy_strings(&t.lifetimes), maybe: t.maybe, path: p })),
                Err(e) => Err(e),
            },
            _ => Ok(b.deep_copy()),
        }
    }

    /// Substitutes a bound list, splicing in the bounds of each trait alias
    /// at the place where the alias stood.
    #[verifier::spinoff_prover]
    pub fn subst_bounds(&self, v: &Vec<TypeBound>, n: usize, stack: &mut Vec<Expansion>) -> (r: Result<Vec<TypeBound>, AliasError>)
        requires
            n <= self.aliases@.len(),
        ensures
            final(stack)@ == old(stack)@,
            lift_bounds(r) == resolve_bounds(self@, n as nat, frames_view(old(stack)@), bounds_view(v@)),
        decreases n, 2nat, v,
    {
        let ghost st = frames_view(stack@);
        let ghost sv = bounds_view(v@);
        proof {
            lemma_bounds_view(v@);
        }
        let mut r: Vec<TypeBound> = Vec::new();
        let mut i: usize = 0;
        while i < v.len()
            invariant
                i <= v.len(),
                stack@ == old(stack)@,
                n <= self.aliases@.len(),
                st == frames_view(stack@),
                sv == bounds_view(v@),
                sv.len() == v@.len(),
                forall|j: int| 0 <= j < sv.len() ==> #[trigger] sv[j] == v@[j]@,
                resolve_bounds(self@, n as nat, st, sv.take(i as int)) == Ok::<_, ErrorV>(bounds_view(r@)),
            decreases v.len() - i,
        {
            proof {
                lemma_take_next(sv, i as int);
            }
            let mut spliced = false;
            if let TypeBound::Trait(tb) = &v[i] {
                proof {
                    lemma_segs_view(tb.path.segments@);
                }
                if tb.path.segments.len() == 1 && matches!(tb.path.segments[0].arguments, PathArguments::Empty) {
                    let x = &tb.path.segments[0].ident;
                    if let Some(AliasBody::Trait(_)) = find_alias(&self.aliases, x, true) {
                        match self.expand_trait(x, n, stack) {
                            Ok(mut e) => {
                                proof {
                                    lemma_bounds_view_concat(r@, e@);
                                }
                                r.append(&mut e);
                            },
                            Err(e) => {
                                proof {
                                    lemma_bounds_prefix_error(self@, n as nat, st, sv, i + 1);
                                }
                                return Err(e);
                            },
                        }
                        spliced = true;
                    }
                }
            }
            if !spliced {
                match self.subst_bound(&v[i], n, stack) {
                    Ok(x) => {
                        proof {
                            lemma_push_last(r@, x);
                        }
                        r.push(x);
                    },
                    Err(e) => {
                        proof {
                            lemma_bounds_prefix_error(self@, n as nat, st, sv, i + 1);
                        }
                        return Err(e);
                    },
                }
            }
            i += 1;
        }
        proof {
            lemma_take_all(sv);
        }
        Ok(r)
    }

    /// Replaces a token that is an escape marker naming an alias by the
    /// alias's expansion, and searches groups for markers at every depth.
    #[verifier::spinoff_prover]
    pub fn subst_token(&self, t: &TokenTree, n: usize, stack: &mut Vec<Expansion>) -> (r: Result<TokenTree, AliasError>)
        requires
            n <= self.aliases@.len(),
        ensures
            final(stack)@ == old(stack)@,
            lift(r) == resolve_token(self@, n as nat, frames_view(old(stack)@), t@),
        decreases n, 2nat, t,
    {
        if let Some(x) = marker(t) {
            if let Some(AliasBody::Type(_)) = find_alias(&self.aliases, x, false) {
                return match self.expand_type(x, n, stack) {
                    Ok(r) => Ok(TokenTree::Type(Box::new(r))),
                    Err(e) => Err(e),
                };
            }
            if let Some(AliasBody::Trait(_)) = find_alias(&self.aliases, x, true) {
                return match self.expand_trait(x, n, stack) {
                    Ok(r) => Ok(TokenTree::Bounds(r)),
                    Err(e) => Err(e),
                };
            }
        }
        match t {
            TokenTree::Group(d, s) => match self.subst_tokens(s, n, stack) {
                Ok(r) => Ok(TokenTree::Group(*d, r)),
                Err(e) => Err(e),
            },
            _ => Ok(t.deep_copy()),
        }
    }
}

} // verus!
