//! What substitution means, stated over the model.
//!
//! `resolve_*` give the result of substituting the aliases of a scope into a
//! piece of syntax: either the rewritten syntax or the first error met, left
//! to right. `n` is how many aliases, in declaration order, are in view: all
//! of them in the item itself, only those declared before an alias inside
//! its definition. Only the last declaration of a name and kind counts. The stack names the aliases being expanded around it.
use vstd::prelude::*;

use crate::model::{
    AttributeV, GenericsV, ItemKindV, ItemV, MemberV, ParamV, PredicateV, SignatureV,
    AliasBodyV, AliasV, ArgsV, BoundV, ErrorV, Frame, GenericArgV, PathV, QSelfV, Scope, SegmentV,
    TokenV, TypeV,
};
use crate::seqs::{lemma_subrange_next, lemma_take_next};
use crate::syntax::Delimiter;

verus! {

pub open spec fn key(a: AliasV) -> Frame {
    (a.name, a.body is Trait)
}

/// The last alias of the table with this name and kind.
pub open spec fn lookup(tab: Seq<AliasV>, k: Frame) -> Option<AliasBodyV>
    decreases tab.len(),
{
    if tab.len() == 0 {
        None
    } else if key(tab.last()) == k {
        Some(tab.last().body)
    } else {
        lookup(tab.drop_last(), k)
    }
}

pub open spec fn lookup_type(tab: Seq<AliasV>, name: Seq<char>) -> Option<TypeV> {
    match lookup(tab, (name, false)) {
        Some(AliasBodyV::Type(t)) => Some(t),
        _ => None,
    }
}

pub open spec fn lookup_trait(tab: Seq<AliasV>, name: Seq<char>) -> Option<Seq<BoundV>> {
    match lookup(tab, (name, true)) {
        Some(AliasBodyV::Trait(b)) => Some(b),
        _ => None,
    }
}

/// The last alias with this name and kind among the first `n` of the
/// table.
pub open spec fn find(tab: Seq<AliasV>, n: nat, k: Frame) -> Option<nat>
    decreases n,
{
    if n == 0 {
        None
    } else if n <= tab.len() && key(tab[n - 1]) == k {
        Some((n - 1) as nat)
    } else {
        find(tab, (n - 1) as nat, k)
    }
}

pub open spec fn chain(st: Seq<Frame>) -> Seq<Seq<char>> {
    st.map_values(|f: Frame| f.0)
}

pub open spec fn plain_path(name: Seq<char>) -> PathV {
    PathV {
        leading_colon: false,
        segments: seq![SegmentV { ident: name, arguments: ArgsV::Empty }],
    }
}

/// The name a path is, when it is one identifier with no arguments.
pub open spec fn single_name(p: PathV) -> Option<Seq<char>> {
    if p.segments.len() == 1 && p.segments[0].arguments is Empty {
        Some(p.segments[0].ident)
    } else {
        None
    }
}

/// The trait alias a bound refers to, if it does.
pub open spec fn bound_alias(cx: Scope, b: BoundV) -> Option<Seq<char>> {
    match b {
        BoundV::Trait(_, _, p) => match single_name(p) {
            Some(x) => if lookup_trait(cx.aliases, x) is Some {
                Some(x)
            } else {
                None
            },
            None => None,
        },
        _ => None,
    }
}

/// The name held by an escape marker `{ { name } }`.
pub open spec fn marker_name(t: TokenV) -> Option<Seq<char>> {
    match t {
        TokenV::Group(Delimiter::Brace, s) => if s.len() == 1 {
            match s[0] {
                TokenV::Group(Delimiter::Brace, s2) => if s2.len() == 1 {
                    match s2[0] {
                        TokenV::Ident(x) => Some(x),
                        _ => None,
                    }
                } else {
                    None
                },
                _ => None,
            }
        } else {
            None
        },
        _ => None,
    }
}

/// The expansion of a name in type position. Only the last declaration of
/// a name counts; its definition is substituted with only the aliases
/// declared before it in view. A definition that refers to an alias whose
/// (last) declaration is not before it, its own name included, is a
/// definitional cycle. A name that is no type alias stays as it is.
pub open spec fn expand_type(cx: Scope, n: nat, st: Seq<Frame>, x: Seq<char>) -> Result<TypeV, ErrorV>
    decreases n, 1nat, x,
{
    match find(cx.aliases, cx.aliases.len(), (x, false)) {
        Some(i) => if i < n {
            match cx.aliases[i as int].body {
                AliasBodyV::Type(def) => resolve_type(cx, i, st.push((x, false)), def),
                AliasBodyV::Trait(_) => Ok(TypeV::Path(None, plain_path(x))),
            }
        } else {
            Err(ErrorV::Cycle(x, chain(st)))
        },
        None => Ok(TypeV::Path(None, plain_path(x))),
    }
}

/// The expansion of a trait alias: its bounds, substituted and with nested
/// trait aliases spliced in, under the same rule of declaration order.
pub open spec fn expand_trait(cx: Scope, n: nat, st: Seq<Frame>, x: Seq<char>) -> Result<Seq<BoundV>, ErrorV>
    decreases n, 1nat, x,
{
    match find(cx.aliases, cx.aliases.len(), (x, true)) {
        Some(i) => if i < n {
            match cx.aliases[i as int].body {
                AliasBodyV::Trait(def) => resolve_bounds(cx, i, st.push((x, true)), def),
                AliasBodyV::Type(_) => Ok(seq![BoundV::Trait(Seq::empty(), false, plain_path(x))]),
            }
        } else {
            Err(ErrorV::Cycle(x, chain(st)))
        },
        None => Ok(seq![BoundV::Trait(Seq::empty(), false, plain_path(x))]),
    }
}

pub open spec fn resolve_opt(cx: Scope, n: nat, st: Seq<Frame>, o: Option<Box<TypeV>>) -> Result<Option<Box<TypeV>>, ErrorV>
    decreases n, 2nat, o,
{
    match o {
        None => Ok(None),
        Some(t) => match resolve_type(cx, n, st, *t) {
            Ok(r) => Ok(Some(Box::new(r))),
            Err(e) => Err(e),
        },
    }
}

pub open spec fn resolve_type(cx: Scope, n: nat, st: Seq<Frame>, t: TypeV) -> Result<TypeV, ErrorV>
    decreases n, 2nat, t,
{
    match t {
        TypeV::Array(e, len) => match resolve_type(cx, n, st, *e) {
            Ok(r) => Ok(TypeV::Array(Box::new(r), len)),
            Err(x) => Err(x),
        },
        TypeV::Slice(e) => match resolve_type(cx, n, st, *e) {
            Ok(r) => Ok(TypeV::Slice(Box::new(r))),
            Err(x) => Err(x),
        },
        TypeV::Ptr(m, e) => match resolve_type(cx, n, st, *e) {
            Ok(r) => Ok(TypeV::Ptr(m, Box::new(r))),
            Err(x) => Err(x),
        },
        TypeV::Reference(l, m, e) => match resolve_type(cx, n, st, *e) {
            Ok(r) => Ok(TypeV::Reference(l, m, Box::new(r))),
            Err(x) => Err(x),
        },
        TypeV::Paren(e) => match resolve_type(cx, n, st, *e) {
            Ok(r) => Ok(TypeV::Paren(Box::new(r))),
            Err(x) => Err(x),
        },
        TypeV::Group(e) => match resolve_type(cx, n, st, *e) {
            Ok(r) => Ok(TypeV::Group(Box::new(r))),
            Err(x) => Err(x),
        },
        TypeV::Tuple(s) => match resolve_types(cx, n, st, s) {
            Ok(r) => Ok(TypeV::Tuple(r)),
            Err(x) => Err(x),
        },
        TypeV::BareFn(h, a, o) => match resolve_types(cx, n, st, a) {
            Ok(ra) => match resolve_opt(cx, n, st, o) {
                Ok(ro) => Ok(TypeV::BareFn(h, ra, ro)),
                Err(x) => Err(x),
            },
            Err(x) => Err(x),
        },
        TypeV::Path(None, p) => if single_name(p) is Some && lookup_type(cx.aliases, single_name(p)->0) is Some {
            expand_type(cx, n, st, single_name(p)->0)
        } else {
            match resolve_path(cx, n, st, p) {
                Ok(r) => Ok(TypeV::Path(None, r)),
                Err(x) => Err(x),
            }
        },
        TypeV::Path(Some(q), p) => match resolve_type(cx, n, st, *q.ty) {
            Err(x) => Err(x),
            Ok(qt) => if q.as_trait && q.position == 1 && p.segments.len() >= 1 && lookup_trait(
                cx.aliases,
                p.segments[0].ident,
            ) is Some {
                // `<Q as A>::Rest`, with `A` a trait alias: the alias's single
                // trait bound takes the place of `A`.
                let x = p.segments[0].ident;
                match expand_trait(cx, n, st, x) {
                    Err(e) => Err(e),
                    Ok(bs) => if bs.len() != 1 {
                        Err(ErrorV::MultipleBounds(x))
                    } else if !(p.segments[0].arguments is Empty) {
                        Err(ErrorV::GenericAlias(x))
                    } else {
                        match bs[0] {
                            BoundV::Trait(_, _, bp) => {
                                proof {
                                    assert(decreases_to!(p => p.segments));
                                    assert(decreases_to!(p.segments => p.segments.subrange(1, p.segments.len() as int)));
                                }
                                match resolve_segments(cx, n, st, p.segments.drop_first()) {
                                Ok(rest) => Ok(
                                    TypeV::Path(
                                        Some(QSelfV { ty: Box::new(qt), position: bp.segments.len(), as_trait: true }),
                                        PathV { leading_colon: bp.leading_colon, segments: bp.segments + rest },
                                    ),
                                ),
                                Err(e) => Err(e),
                            }},
                            _ => Err(ErrorV::NonTraitBound(x)),
                        }
                    },
                }
            } else {
                match resolve_path(cx, n, st, p) {
                    Ok(r) => Ok(TypeV::Path(Some(QSelfV { ty: Box::new(qt), ..q }), r)),
                    Err(x) => Err(x),
                }
            },
        },
        TypeV::Macro(p, d, s) => if cx.in_macros {
            match resolve_tokens(cx, n, st, s) {
                Ok(r) => Ok(TypeV::Macro(p, d, r)),
                Err(x) => Err(x),
            }
        } else {
            Ok(t)
        },
        _ => Ok(t),
    }
}

pub open spec fn resolve_types(cx: Scope, n: nat, st: Seq<Frame>, s: Seq<TypeV>) -> Result<Seq<TypeV>, ErrorV>
    decreases n, 2nat, s,
{
    if s.len() == 0 {
        Ok(Seq::empty())
    } else {
        match resolve_types(cx, n, st, s.drop_last()) {
            Err(x) => Err(x),
            Ok(pre) => match resolve_type(cx, n, st, s.last()) {
                Ok(r) => Ok(pre.push(r)),
                Err(x) => Err(x),
            },
        }
    }
}

pub open spec fn resolve_path(cx: Scope, n: nat, st: Seq<Frame>, p: PathV) -> Result<PathV, ErrorV>
    decreases n, 2nat, p,
{
    match resolve_segments(cx, n, st, p.segments) {
        Ok(r) => Ok(PathV { leading_colon: p.leading_colon, segments: r }),
        Err(x) => Err(x),
    }
}

pub open spec fn resolve_segments(cx: Scope, n: nat, st: Seq<Frame>, s: Seq<SegmentV>) -> Result<Seq<SegmentV>, ErrorV>
    decreases n, 2nat, s,
{
    if s.len() == 0 {
        Ok(Seq::empty())
    } else {
        match resolve_segments(cx, n, st, s.drop_last()) {
            Err(x) => Err(x),
            Ok(pre) => match resolve_args(cx, n, st, s.last().arguments) {
                Ok(r) => Ok(pre.push(SegmentV { ident: s.last().ident, arguments: r })),
                Err(x) => Err(x),
            },
        }
    }
}

pub open spec fn resolve_args(cx: Scope, n: nat, st: Seq<Frame>, a: ArgsV) -> Result<ArgsV, ErrorV>
    decreases n, 2nat, a,
{
    match a {
        ArgsV::Empty => Ok(ArgsV::Empty),
        ArgsV::Angle(g) => match resolve_generic_args(cx, n, st, g) {
            Ok(r) => Ok(ArgsV::Angle(r)),
            Err(x) => Err(x),
        },
        ArgsV::Paren(i, o) => match resolve_types(cx, n, st, i) {
            Ok(ri) => match resolve_opt(cx, n, st, o) {
                Ok(ro) => Ok(ArgsV::Paren(ri, ro)),
                Err(x) => Err(x),
            },
            Err(x) => Err(x),
        },
    }
}

pub open spec fn resolve_generic_arg(cx: Scope, n: nat, st: Seq<Frame>, g: GenericArgV) -> Result<GenericArgV, ErrorV>
    decreases n, 2nat, g,
{
    match g {
        GenericArgV::Type(t) => match resolve_type(cx, n, st, t) {
            Ok(r) => Ok(GenericArgV::Type(r)),
            Err(x) => Err(x),
        },
        GenericArgV::AssocType(a, t) => match resolve_type(cx, n, st, t) {
            Ok(r) => Ok(GenericArgV::AssocType(a, r)),
            Err(x) => Err(x),
        },
        GenericArgV::Verbatim(_) => Ok(g),
    }
}

pub open spec fn resolve_generic_args(cx: Scope, n: nat, st: Seq<Frame>, s: Seq<GenericArgV>) -> Result<Seq<GenericArgV>, ErrorV>
    decreases n, 2nat, s,
{
    if s.len() == 0 {
        Ok(Seq::empty())
    } else {
        match resolve_generic_args(cx, n, st, s.drop_last()) {
            Err(x) => Err(x),
            Ok(pre) => match resolve_generic_arg(cx, n, st, s.last()) {
                Ok(r) => Ok(pre.push(r)),
                Err(x) => Err(x),
            },
        }
    }
}

/// A bound with the types inside it substituted.
pub open spec fn resolve_bound(cx: Scope, n: nat, st: Seq<Frame>, b: BoundV) -> Result<BoundV, ErrorV>
    decreases n, 2nat, b,
{
    match b {
        BoundV::Trait(l, m, p) => match resolve_path(cx, n, st, p) {
            Ok(r) => Ok(BoundV::Trait(l, m, r)),
            Err(x) => Err(x),
        },
        _ => Ok(b),
    }
}

/// A bound list with each trait alias replaced, in its place, by the bounds
/// it stands for, and every other bound substituted.
pub open spec fn resolve_bounds(cx: Scope, n: nat, st: Seq<Frame>, s: Seq<BoundV>) -> Result<Seq<BoundV>, ErrorV>
    decreases n, 2nat, s,
{
    if s.len() == 0 {
        Ok(Seq::empty())
    } else {
        match resolve_bounds(cx, n, st, s.drop_last()) {
            Err(x) => Err(x),
            Ok(pre) => match bound_alias(cx, s.last()) {
                Some(x) => match expand_trait(cx, n, st, x) {
                    Ok(r) => Ok(pre + r),
                    Err(e) => Err(e),
                },
                None => match resolve_bound(cx, n, st, s.last()) {
                    Ok(r) => Ok(pre.push(r)),
                    Err(e) => Err(e),
                },
            },
        }
    }
}

/// A token with escape markers that name aliases replaced by the aliases'
/// expansions, searched for at every depth. As in type position, a type
/// alias's definition is itself substituted, under the same cycle check,
/// before it takes the marker's place.
pub open spec fn resolve_token(cx: Scope, n: nat, st: Seq<Frame>, t: TokenV) -> Result<TokenV, ErrorV>
    decreases n, 2nat, t,
{
    let m = marker_name(t);
    if m is Some && lookup_type(cx.aliases, m->0) is Some {
        match expand_type(cx, n, st, m->0) {
            Ok(r) => Ok(TokenV::Type(Box::new(r))),
            Err(e) => Err(e),
        }
    } else if m is Some && lookup_trait(cx.aliases, m->0) is Some {
        match expand_trait(cx, n, st, m->0) {
            Ok(r) => Ok(TokenV::Bounds(r)),
            Err(e) => Err(e),
        }
    } else {
        match t {
            TokenV::Group(d, s) => match resolve_tokens(cx, n, st, s) {
                Ok(r) => Ok(TokenV::Group(d, r)),
                Err(e) => Err(e),
            },
            _ => Ok(t),
        }
    }
}

pub open spec fn resolve_tokens(cx: Scope, n: nat, st: Seq<Frame>, s: Seq<TokenV>) -> Result<Seq<TokenV>, ErrorV>
    decreases n, 2nat, s,
{
    if s.len() == 0 {
        Ok(Seq::empty())
    } else {
        match resolve_tokens(cx, n, st, s.drop_last()) {
            Err(x) => Err(x),
            Ok(pre) => match resolve_token(cx, n, st, s.last()) {
                Ok(r) => Ok(pre.push(r)),
                Err(x) => Err(x),
            },
        }
    }
}

/// An error in a prefix of the list is the error of the whole list.
pub proof fn lemma_types_prefix_error(cx: Scope, n: nat, st: Seq<Frame>, s: Seq<TypeV>, k: int)
    requires
        0 <= k <= s.len(),
        resolve_types(cx, n, st, s.take(k)) is Err,
    ensures
        resolve_types(cx, n, st, s) == resolve_types(cx, n, st, s.take(k)),
    decreases s.len(),
{
    if k < s.len() {
        assert(s.drop_last().take(k) =~= s.take(k));
        lemma_types_prefix_error(cx, n, st, s.drop_last(), k);
    } else {
        assert(s.take(k) =~= s);
    }
}

/// An error in a prefix of the list is the error of the whole list.
pub proof fn lemma_generic_args_prefix_error(cx: Scope, n: nat, st: Seq<Frame>, s: Seq<GenericArgV>, k: int)
    requires
        0 <= k <= s.len(),
        resolve_generic_args(cx, n, st, s.take(k)) is Err,
    ensures
        resolve_generic_args(cx, n, st, s) == resolve_generic_args(cx, n, st, s.take(k)),
    decreases s.len(),
{
    if k < s.len() {
        assert(s.drop_last().take(k) =~= s.take(k));
        lemma_generic_args_prefix_error(cx, n, st, s.drop_last(), k);
    } else {
        assert(s.take(k) =~= s);
    }
}

/// An error in a prefix of the list is the error of the whole list.
pub proof fn lemma_tokens_prefix_error(cx: Scope, n: nat, st: Seq<Frame>, s: Seq<TokenV>, k: int)
    requires
        0 <= k <= s.len(),
        resolve_tokens(cx, n, st, s.take(k)) is Err,
    ensures
        resolve_tokens(cx, n, st, s) == resolve_tokens(cx, n, st, s.take(k)),
    decreases s.len(),
{
    if k < s.len() {
        assert(s.drop_last().take(k) =~= s.take(k));
        lemma_tokens_prefix_error(cx, n, st, s.drop_last(), k);
    } else {
        assert(s.take(k) =~= s);
    }
}

/// An error in a prefix of the list is the error of the whole list.
pub proof fn lemma_segments_prefix_error(cx: Scope, n: nat, st: Seq<Frame>, s: Seq<SegmentV>, k: int)
    requires
        0 <= k <= s.len(),
        resolve_segments(cx, n, st, s.take(k)) is Err,
    ensures
        resolve_segments(cx, n, st, s) == resolve_segments(cx, n, st, s.take(k)),
    decreases s.len(),
{
    if k < s.len() {
        assert(s.drop_last().take(k) =~= s.take(k));
        lemma_segments_prefix_error(cx, n, st, s.drop_last(), k);
    } else {
        assert(s.take(k) =~= s);
    }
}

/// An error in a prefix of the list is the error of the whole list.
pub proof fn lemma_bounds_prefix_error(cx: Scope, n: nat, st: Seq<Frame>, s: Seq<BoundV>, k: int)
    requires
        0 <= k <= s.len(),
        resolve_bounds(cx, n, st, s.take(k)) is Err,
    ensures
        resolve_bounds(cx, n, st, s) == resolve_bounds(cx, n, st, s.take(k)),
    decreases s.len(),
{
    if k < s.len() {
        assert(s.drop_last().take(k) =~= s.take(k));
        lemma_bounds_prefix_error(cx, n, st, s.drop_last(), k);
    } else {
        assert(s.take(k) =~= s);
    }
}

/// One more segment of a run of segments.
pub proof fn lemma_segments_step(cx: Scope, n: nat, st: Seq<Frame>, sv: Seq<SegmentV>, from: int, i: int)
    requires
        0 <= from <= i < sv.len(),
    ensures
        resolve_segments(cx, n, st, sv.subrange(from, i + 1)) == match resolve_segments(cx, n, st, sv.subrange(from, i)) {
            Err(e) => Err(e),
            Ok(pre) => match resolve_args(cx, n, st, sv[i].arguments) {
                Ok(r) => Ok(pre.push(SegmentV { ident: sv[i].ident, arguments: r })),
                Err(e) => Err(e),
            },
        },
{
    lemma_subrange_next(sv, from, i);
    let s1 = sv.subrange(from, i + 1);
    assert(s1.len() > 0);
    assert(resolve_segments(cx, n, st, sv) == match resolve_segments(cx, n, st, sv.drop_last()) {
        Err(x) => Err(x),
        Ok(pre) => match resolve_args(cx, n, st, sv.last().arguments) {
            Ok(r) => Ok(pre.push(SegmentV { ident: sv.last().ident, arguments: r })),
            Err(x) => Err(x),
        },
    });
    assert(resolve_segments(cx, n, st, s1) == match resolve_segments(cx, n, st, s1.drop_last()) {
        Err(x) => Err(x),
        Ok(pre) => match resolve_args(cx, n, st, s1.last().arguments) {
            Ok(r) => Ok(pre.push(SegmentV { ident: s1.last().ident, arguments: r })),
            Err(x) => Err(x),
        },
    });
}

/// An error in segments `from..=i` is the error of segments `from..`.
pub proof fn lemma_segments_run_error(cx: Scope, n: nat, st: Seq<Frame>, sv: Seq<SegmentV>, from: int, i: int)
    requires
        0 <= from <= i < sv.len(),
        resolve_segments(cx, n, st, sv.subrange(from, i + 1)) is Err,
    ensures
        resolve_segments(cx, n, st, sv.subrange(from, sv.len() as int)) == resolve_segments(cx, n, st, sv.subrange(from, i + 1)),
{
    let whole = sv.subrange(from, sv.len() as int);
    assert(whole.take(i + 1 - from) =~= sv.subrange(from, i + 1));
    lemma_segments_prefix_error(cx, n, st, whole, i + 1 - from);
}

pub proof fn lemma_find(tab: Seq<AliasV>, n: nat, k: Frame)
    ensures
        find(tab, n, k) matches Some(i) ==> i < n && i < tab.len() && key(tab[i as int]) == k,
    decreases n,
{
    if n > 0 {
        lemma_find(tab, (n - 1) as nat, k);
    }
}


/// Each element resolved by `f`, or the first error, left to right.
pub open spec fn resolve_all<A, B>(s: Seq<A>, f: spec_fn(A) -> Result<B, ErrorV>) -> Result<Seq<B>, ErrorV>
    decreases s.len(),
{
    if s.len() == 0 {
        Ok(Seq::empty())
    } else {
        match resolve_all(s.drop_last(), f) {
            Err(e) => Err(e),
            Ok(pre) => match f(s.last()) {
                Ok(x) => Ok(pre.push(x)),
                Err(e) => Err(e),
            },
        }
    }
}

pub proof fn lemma_resolve_all_step<A, B>(s: Seq<A>, f: spec_fn(A) -> Result<B, ErrorV>, i: int, pre: Seq<B>, x: B)
    requires
        0 <= i < s.len(),
        resolve_all(s.take(i), f) == Ok::<_, ErrorV>(pre),
        f(s[i]) == Ok::<_, ErrorV>(x),
    ensures
        resolve_all(s.take(i + 1), f) == Ok::<_, ErrorV>(pre.push(x)),
{
    lemma_take_next(s, i);
}

pub proof fn lemma_resolve_all_prefix_error<A, B>(s: Seq<A>, f: spec_fn(A) -> Result<B, ErrorV>, k: int)
    requires
        0 <= k <= s.len(),
        resolve_all(s.take(k), f) is Err,
    ensures
        resolve_all(s, f) == resolve_all(s.take(k), f),
    decreases s.len(),
{
    if k < s.len() {
        assert(s.drop_last().take(k) =~= s.take(k));
        lemma_resolve_all_prefix_error(s.drop_last(), f, k);
    } else {
        assert(s.take(k) =~= s);
    }
}

/// Each type and bound position of an item is substituted on its own, with
/// no alias being expanded around it.
pub open spec fn resolve_opt_type(cx: Scope, o: Option<TypeV>) -> Result<Option<TypeV>, ErrorV> {
    match o {
        None => Ok(None),
        Some(t) => match resolve_type(cx, cx.aliases.len(), Seq::empty(), t) {
            Ok(r) => Ok(Some(r)),
            Err(e) => Err(e),
        },
    }
}

/// A predicate: its bounded type substituted, then its bounds, with trait
/// aliases spliced in.
pub open spec fn resolve_predicate(cx: Scope, p: PredicateV) -> Result<PredicateV, ErrorV> {
    match p {
        PredicateV::Type(l, t, b) => match resolve_type(cx, cx.aliases.len(), Seq::empty(), t) {
            Err(e) => Err(e),
            Ok(rt) => match resolve_bounds(cx, cx.aliases.len(), Seq::empty(), b) {
                Ok(rb) => Ok(PredicateV::Type(l, rt, rb)),
                Err(e) => Err(e),
            },
        },
        PredicateV::Verbatim(_) => Ok(p),
    }
}

pub open spec fn predicate_step(cx: Scope) -> spec_fn(PredicateV) -> Result<PredicateV, ErrorV> {
    |p: PredicateV| resolve_predicate(cx, p)
}

pub open spec fn resolve_param(cx: Scope, p: ParamV) -> Result<ParamV, ErrorV> {
    match p {
        ParamV::Type(n, b, d) => match resolve_bounds(cx, cx.aliases.len(), Seq::empty(), b) {
            Err(e) => Err(e),
            Ok(rb) => match resolve_opt_type(cx, d) {
                Ok(rd) => Ok(ParamV::Type(n, rb, rd)),
                Err(e) => Err(e),
            },
        },
        ParamV::Const(n, t) => match resolve_type(cx, cx.aliases.len(), Seq::empty(), t) {
            Ok(rt) => Ok(ParamV::Const(n, rt)),
            Err(e) => Err(e),
        },
        ParamV::Verbatim(_) => Ok(p),
    }
}

pub open spec fn param_step(cx: Scope) -> spec_fn(ParamV) -> Result<ParamV, ErrorV> {
    |p: ParamV| resolve_param(cx, p)
}

pub open spec fn resolve_generics(cx: Scope, g: GenericsV) -> Result<GenericsV, ErrorV> {
    match resolve_all(g.params, param_step(cx)) {
        Err(e) => Err(e),
        Ok(ps) => match g.where_clause {
            None => Ok(GenericsV { params: ps, where_clause: None }),
            Some(w) => match resolve_all(w, predicate_step(cx)) {
                Ok(rw) => Ok(GenericsV { params: ps, where_clause: Some(rw) }),
                Err(e) => Err(e),
            },
        },
    }
}

pub open spec fn resolve_signature(cx: Scope, s: SignatureV) -> Result<SignatureV, ErrorV> {
    match resolve_types(cx, cx.aliases.len(), Seq::empty(), s.inputs) {
        Err(e) => Err(e),
        Ok(i) => match resolve_opt_type(cx, s.output) {
            Err(e) => Err(e),
            Ok(o) => match resolve_types(cx, cx.aliases.len(), Seq::empty(), s.body) {
                Ok(b) => Ok(SignatureV { inputs: i, output: o, body: b }),
                Err(e) => Err(e),
            },
        },
    }
}

/// A member of an impl block; other macros' invocations are searched for
/// escape markers only when the scope asks for it.
pub open spec fn resolve_member(cx: Scope, m: MemberV) -> Result<MemberV, ErrorV> {
    match m {
        MemberV::Const(t) => match resolve_type(cx, cx.aliases.len(), Seq::empty(), t) {
            Ok(r) => Ok(MemberV::Const(r)),
            Err(e) => Err(e),
        },
        MemberV::Fn(s) => match resolve_signature(cx, s) {
            Ok(r) => Ok(MemberV::Fn(r)),
            Err(e) => Err(e),
        },
        MemberV::Type(t) => match resolve_type(cx, cx.aliases.len(), Seq::empty(), t) {
            Ok(r) => Ok(MemberV::Type(r)),
            Err(e) => Err(e),
        },
        MemberV::AssocType(b, d) => match resolve_bounds(cx, cx.aliases.len(), Seq::empty(), b) {
            Err(e) => Err(e),
            Ok(rb) => match resolve_opt_type(cx, d) {
                Ok(rd) => Ok(MemberV::AssocType(rb, rd)),
                Err(e) => Err(e),
            },
        },
        MemberV::Macro(p, d, t) => if cx.in_macros {
            match resolve_tokens(cx, cx.aliases.len(), Seq::empty(), t) {
                Ok(r) => Ok(MemberV::Macro(p, d, r)),
                Err(e) => Err(e),
            }
        } else {
            Ok(m)
        },
        MemberV::Verbatim => Ok(m),
    }
}

pub open spec fn member_step(cx: Scope) -> spec_fn(MemberV) -> Result<MemberV, ErrorV> {
    |m: MemberV| resolve_member(cx, m)
}

pub open spec fn resolve_kind(cx: Scope, k: ItemKindV) -> Result<ItemKindV, ErrorV> {
    match k {
        ItemKindV::Impl(tp, st, ms) => match (match tp {
            None => Ok(None),
            Some(p) => match resolve_path(cx, cx.aliases.len(), Seq::empty(), p) {
                Ok(r) => Ok(Some(r)),
                Err(e) => Err(e),
            },
        }) {
            Err(e) => Err(e),
            Ok(rtp) => match resolve_type(cx, cx.aliases.len(), Seq::empty(), st) {
                Err(e) => Err(e),
                Ok(rst) => match resolve_all(ms, member_step(cx)) {
                    Ok(rms) => Ok(ItemKindV::Impl(rtp, rst, rms)),
                    Err(e) => Err(e),
                },
            },
        },
        ItemKindV::Types(f) => match resolve_types(cx, cx.aliases.len(), Seq::empty(), f) {
            Ok(r) => Ok(ItemKindV::Types(r)),
            Err(e) => Err(e),
        },
        ItemKindV::Fn(s) => match resolve_signature(cx, s) {
            Ok(r) => Ok(ItemKindV::Fn(r)),
            Err(e) => Err(e),
        },
        ItemKindV::Trait(b, ms) => match resolve_bounds(cx, cx.aliases.len(), Seq::empty(), b) {
            Err(e) => Err(e),
            Ok(rb) => match resolve_all(ms, member_step(cx)) {
                Ok(rms) => Ok(ItemKindV::Trait(rb, rms)),
                Err(e) => Err(e),
            },
        },
        ItemKindV::Macro(p, d, t) => if cx.in_macros {
            match resolve_tokens(cx, cx.aliases.len(), Seq::empty(), t) {
                Ok(r) => Ok(ItemKindV::Macro(p, d, r)),
                Err(e) => Err(e),
            }
        } else {
            Ok(k)
        },
        ItemKindV::Other => Ok(k),
        ItemKindV::Verbatim => Ok(k),
    }
}

/// An item with every alias reference substituted: generics first, then
/// the item's own parts. Attributes are left as they are.
pub open spec fn resolve_item(cx: Scope, it: ItemV) -> Result<ItemV, ErrorV> {
    match resolve_generics(cx, it.generics) {
        Err(e) => Err(e),
        Ok(g) => match resolve_kind(cx, it.kind) {
            Ok(k) => Ok(ItemV { attrs: it.attrs, generics: g, kind: k }),
            Err(e) => Err(e),
        },
    }
}

/// The aliases declared by a list of attributes, in order.
pub open spec fn declared(attrs: Seq<AttributeV>) -> Seq<AliasV>
    decreases attrs.len(),
{
    if attrs.len() == 0 {
        Seq::empty()
    } else {
        declared(attrs.drop_last()) + match attrs.last() {
            AttributeV::Alias(d) => d,
            AttributeV::Other(_) => Seq::empty(),
        }
    }
}

/// The attributes that declare no aliases, in order.
pub open spec fn undeclared(attrs: Seq<AttributeV>) -> Seq<AttributeV>
    decreases attrs.len(),
{
    if attrs.len() == 0 {
        Seq::empty()
    } else {
        undeclared(attrs.drop_last()) + match attrs.last() {
            AttributeV::Alias(_) => Seq::empty(),
            AttributeV::Other(_) => seq![attrs.last()],
        }
    }
}

/// The first declared trait alias that stands for no bound.
pub open spec fn first_empty(s: Seq<AliasV>) -> Option<Seq<char>>
    decreases s.len(),
{
    if s.len() == 0 {
        None
    } else {
        match first_empty(s.drop_last()) {
            Some(x) => Some(x),
            None => match s.last().body {
                AliasBodyV::Trait(b) => if b.len() == 0 {
                    Some(s.last().name)
                } else {
                    None
                },
                AliasBodyV::Type(_) => None,
            },
        }
    }
}

pub proof fn lemma_first_empty_prefix(s: Seq<AliasV>, k: int)
    requires
        0 <= k <= s.len(),
        first_empty(s.take(k)) is Some,
    ensures
        first_empty(s) == first_empty(s.take(k)),
    decreases s.len(),
{
    if k < s.len() {
        assert(s.drop_last().take(k) =~= s.take(k));
        lemma_first_empty_prefix(s.drop_last(), k);
    } else {
        assert(s.take(k) =~= s);
    }
}

/// The whole transformation of one item: its alias declarations are taken
/// off and form the scope in which the rest of the item is substituted. An
/// item given as bare tokens, or a trait alias of no bound, is refused.
pub open spec fn expand(it: ItemV, in_macros: bool) -> Result<ItemV, ErrorV> {
    if it.kind is Verbatim {
        Err(ErrorV::UnsupportedItem)
    } else if first_empty(declared(it.attrs)) is Some {
        Err(ErrorV::EmptyBounds(first_empty(declared(it.attrs))->0))
    } else {
        resolve_item(
            Scope { aliases: declared(it.attrs), in_macros },
            ItemV { attrs: undeclared(it.attrs), ..it },
        )
    }
}

} // verus!
