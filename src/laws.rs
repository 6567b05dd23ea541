//! Properties of substitution, proved over the model.
use vstd::prelude::*;

use crate::model::{
    SignatureV, AliasBodyV, AliasV, ArgsV, BoundV, ErrorV, GenericArgV, GenericsV, ItemKindV, ItemV, MemberV, ParamV, PathV, PredicateV,
    Scope, SegmentV, TokenV, TypeV,
};
use crate::semantics::{
    bound_alias, chain, declared, first_empty, find, key, lemma_find, lookup, expand, expand_trait, expand_type, lookup_trait, lookup_type, marker_name, member_step,
    param_step, plain_path, predicate_step, resolve_all, resolve_args, resolve_bound,
    resolve_bounds, resolve_generic_arg, resolve_generic_args, resolve_generics,
    resolve_kind, resolve_member, resolve_opt, resolve_opt_type, resolve_signature, resolve_path,
    resolve_segments, resolve_token, resolve_tokens,
    resolve_type, resolve_types, single_name, undeclared,
};

verus! {

// ---- Where a piece of syntax refers to an alias of the scope ----

pub open spec fn mentions_type(cx: Scope, t: TypeV) -> bool
    decreases t,
{
    match t {
        TypeV::Array(e, _) => mentions_type(cx, *e),
        TypeV::Slice(e) => mentions_type(cx, *e),
        TypeV::Ptr(_, e) => mentions_type(cx, *e),
        TypeV::Reference(_, _, e) => mentions_type(cx, *e),
        TypeV::Paren(e) => mentions_type(cx, *e),
        TypeV::Group(e) => mentions_type(cx, *e),
        TypeV::Tuple(s) => mentions_types(cx, s),
        TypeV::BareFn(_, a, o) => mentions_types(cx, a) || match o {
            Some(b) => mentions_type(cx, *b),
            None => false,
        },
        TypeV::Path(None, p) => (single_name(p) is Some && lookup_type(cx.aliases, single_name(p)->0) is Some)
            || mentions_path(cx, p),
        TypeV::Path(Some(q), p) => mentions_type(cx, *q.ty) || (q.as_trait && q.position == 1
            && p.segments.len() >= 1 && lookup_trait(cx.aliases, p.segments[0].ident) is Some)
            || mentions_path(cx, p),
        TypeV::Macro(_, _, s) => cx.in_macros && mentions_tokens(cx, s),
        _ => false,
    }
}

pub open spec fn mentions_types(cx: Scope, s: Seq<TypeV>) -> bool
    decreases s,
{
    s.len() > 0 && (mentions_types(cx, s.drop_last()) || mentions_type(cx, s.last()))
}

pub open spec fn mentions_path(cx: Scope, p: PathV) -> bool
    decreases p,
{
    mentions_segments(cx, p.segments)
}

pub open spec fn mentions_segments(cx: Scope, s: Seq<SegmentV>) -> bool
    decreases s,
{
    s.len() > 0 && (mentions_segments(cx, s.drop_last()) || mentions_args(cx, s.last().arguments))
}

pub open spec fn mentions_args(cx: Scope, a: ArgsV) -> bool
    decreases a,
{
    match a {
        ArgsV::Empty => false,
        ArgsV::Angle(g) => mentions_generic_args(cx, g),
        ArgsV::Paren(i, o) => mentions_types(cx, i) || match o {
            Some(b) => mentions_type(cx, *b),
            None => false,
        },
    }
}

pub open spec fn mentions_generic_arg(cx: Scope, g: GenericArgV) -> bool
    decreases g,
{
    match g {
        GenericArgV::Type(t) => mentions_type(cx, t),
        GenericArgV::AssocType(_, t) => mentions_type(cx, t),
        GenericArgV::Verbatim(_) => false,
    }
}

pub open spec fn mentions_generic_args(cx: Scope, s: Seq<GenericArgV>) -> bool
    decreases s,
{
    s.len() > 0 && (mentions_generic_args(cx, s.drop_last()) || mentions_generic_arg(cx, s.last()))
}

pub open spec fn mentions_bound(cx: Scope, b: BoundV) -> bool
    decreases b,
{
    bound_alias(cx, b) is Some || match b {
        BoundV::Trait(_, _, p) => mentions_path(cx, p),
        _ => false,
    }
}

pub open spec fn mentions_bounds(cx: Scope, s: Seq<BoundV>) -> bool
    decreases s,
{
    s.len() > 0 && (mentions_bounds(cx, s.drop_last()) || mentions_bound(cx, s.last()))
}

pub open spec fn mentions_token(cx: Scope, t: TokenV) -> bool
    decreases t,
{
    (marker_name(t) is Some && (lookup_type(cx.aliases, marker_name(t)->0) is Some || lookup_trait(
        cx.aliases,
        marker_name(t)->0,
    ) is Some)) || match t {
        TokenV::Group(_, s) => mentions_tokens(cx, s),
        _ => false,
    }
}

pub open spec fn mentions_tokens(cx: Scope, s: Seq<TokenV>) -> bool
    decreases s,
{
    s.len() > 0 && (mentions_tokens(cx, s.drop_last()) || mentions_token(cx, s.last()))
}

// ---- Substitution leaves syntax that refers to no alias unchanged ----

#[verifier::spinoff_prover]
pub proof fn lemma_type_unchanged(cx: Scope, n: nat, st: Seq<(Seq<char>, bool)>, t: TypeV)
    requires
        cx.aliases.len() == 0 || !mentions_type(cx, t),
    ensures
        resolve_type(cx, n, st, t) == Ok::<_, ErrorV>(t),
    decreases t,
{
    match t {
        TypeV::Array(e, _) => {
            lemma_type_unchanged(cx, n, st, *e);
            assert(resolve_type(cx, n, st, t) == Ok::<_, ErrorV>(t));
        },
        TypeV::Slice(e) => {
            lemma_type_unchanged(cx, n, st, *e);
            assert(resolve_type(cx, n, st, t) == Ok::<_, ErrorV>(t));
        },
        TypeV::Ptr(_, e) => {
            lemma_type_unchanged(cx, n, st, *e);
            assert(resolve_type(cx, n, st, t) == Ok::<_, ErrorV>(t));
        },
        TypeV::Reference(_, _, e) => {
            lemma_type_unchanged(cx, n, st, *e);
            assert(resolve_type(cx, n, st, t) == Ok::<_, ErrorV>(t));
        },
        TypeV::Paren(e) => {
            lemma_type_unchanged(cx, n, st, *e);
            assert(resolve_type(cx, n, st, t) == Ok::<_, ErrorV>(t));
        },
        TypeV::Group(e) => {
            lemma_type_unchanged(cx, n, st, *e);
            assert(resolve_type(cx, n, st, t) == Ok::<_, ErrorV>(t));
        },
        TypeV::Tuple(s) => {
            lemma_types_unchanged(cx, n, st, s);
            assert(resolve_type(cx, n, st, t) == Ok::<_, ErrorV>(t));
        },
        TypeV::BareFn(_, a, o) => {
            lemma_types_unchanged(cx, n, st, a);
            if let Some(b) = o {
                lemma_type_unchanged(cx, n, st, *b);
            }
            assert(resolve_opt(cx, n, st, o) == Ok::<_, ErrorV>(o));
            assert(resolve_type(cx, n, st, t) == Ok::<_, ErrorV>(t));
        },
        TypeV::Path(None, p) => {
            lemma_path_unchanged(cx, n, st, p);
            assert(resolve_type(cx, n, st, t) == Ok::<_, ErrorV>(t));
        },
        TypeV::Path(Some(q), p) => {
            lemma_type_unchanged(cx, n, st, *q.ty);
            lemma_path_unchanged(cx, n, st, p);
            assert(resolve_type(cx, n, st, t) == Ok::<_, ErrorV>(t));
        },
        TypeV::Macro(_, _, s) => {
            if cx.in_macros {
                lemma_tokens_unchanged(cx, n, st, s);
            }
            assert(resolve_type(cx, n, st, t) == Ok::<_, ErrorV>(t));
        },
        _ => {
            assert(resolve_type(cx, n, st, t) == Ok::<_, ErrorV>(t));
        },
    }
}

#[verifier::spinoff_prover]
pub proof fn lemma_types_unchanged(cx: Scope, n: nat, st: Seq<(Seq<char>, bool)>, s: Seq<TypeV>)
    requires
        cx.aliases.len() == 0 || !mentions_types(cx, s),
    ensures
        resolve_types(cx, n, st, s) == Ok::<_, ErrorV>(s),
    decreases s,
{
    if s.len() > 0 {
        lemma_types_unchanged(cx, n, st, s.drop_last());
        lemma_type_unchanged(cx, n, st, s.last());
        assert(s.drop_last().push(s.last()) =~= s);
    } else {
        assert(s =~= Seq::empty());
    }
}

#[verifier::spinoff_prover]
pub proof fn lemma_path_unchanged(cx: Scope, n: nat, st: Seq<(Seq<char>, bool)>, p: PathV)
    requires
        cx.aliases.len() == 0 || !mentions_path(cx, p),
    ensures
        resolve_path(cx, n, st, p) == Ok::<_, ErrorV>(p),
    decreases p,
{
    lemma_segments_unchanged(cx, n, st, p.segments);
}

#[verifier::spinoff_prover]
pub proof fn lemma_segments_unchanged(cx: Scope, n: nat, st: Seq<(Seq<char>, bool)>, s: Seq<SegmentV>)
    requires
        cx.aliases.len() == 0 || !mentions_segments(cx, s),
    ensures
        resolve_segments(cx, n, st, s) == Ok::<_, ErrorV>(s),
    decreases s,
{
    if s.len() > 0 {
        lemma_segments_unchanged(cx, n, st, s.drop_last());
        lemma_args_unchanged(cx, n, st, s.last().arguments);
        assert(s.drop_last().push(SegmentV { ident: s.last().ident, arguments: s.last().arguments }) =~= s);
    } else {
        assert(s =~= Seq::empty());
    }
}

#[verifier::spinoff_prover]
pub proof fn lemma_args_unchanged(cx: Scope, n: nat, st: Seq<(Seq<char>, bool)>, a: ArgsV)
    requires
        cx.aliases.len() == 0 || !mentions_args(cx, a),
    ensures
        resolve_args(cx, n, st, a) == Ok::<_, ErrorV>(a),
    decreases a,
{
    match a {
        ArgsV::Empty => {},
        ArgsV::Angle(g) => lemma_generic_args_unchanged(cx, n, st, g),
        ArgsV::Paren(i, o) => {
            lemma_types_unchanged(cx, n, st, i);
            if let Some(b) = o {
                lemma_type_unchanged(cx, n, st, *b);
            }
            assert(resolve_opt(cx, n, st, o) == Ok::<_, ErrorV>(o));
        },
    }
}

#[verifier::spinoff_prover]
pub proof fn lemma_generic_arg_unchanged(cx: Scope, n: nat, st: Seq<(Seq<char>, bool)>, g: GenericArgV)
    requires
        cx.aliases.len() == 0 || !mentions_generic_arg(cx, g),
    ensures
        resolve_generic_arg(cx, n, st, g) == Ok::<_, ErrorV>(g),
    decreases g,
{
    match g {
        GenericArgV::Type(t) => lemma_type_unchanged(cx, n, st, t),
        GenericArgV::AssocType(_, t) => lemma_type_unchanged(cx, n, st, t),
        GenericArgV::Verbatim(_) => {},
    }
}

#[verifier::spinoff_prover]
pub proof fn lemma_generic_args_unchanged(cx: Scope, n: nat, st: Seq<(Seq<char>, bool)>, s: Seq<GenericArgV>)
    requires
        cx.aliases.len() == 0 || !mentions_generic_args(cx, s),
    ensures
        resolve_generic_args(cx, n, st, s) == Ok::<_, ErrorV>(s),
    decreases s,
{
    if s.len() > 0 {
        lemma_generic_args_unchanged(cx, n, st, s.drop_last());
        lemma_generic_arg_unchanged(cx, n, st, s.last());
        assert(s.drop_last().push(s.last()) =~= s);
    } else {
        assert(s =~= Seq::empty());
    }
}

#[verifier::spinoff_prover]
pub proof fn lemma_bound_unchanged(cx: Scope, n: nat, st: Seq<(Seq<char>, bool)>, b: BoundV)
    requires
        cx.aliases.len() == 0 || !mentions_bound(cx, b),
    ensures
        resolve_bound(cx, n, st, b) == Ok::<_, ErrorV>(b),
        bound_alias(cx, b) is None,
    decreases b,
{
    if let BoundV::Trait(_, _, p) = b {
        lemma_path_unchanged(cx, n, st, p);
    }
}

#[verifier::spinoff_prover]
pub proof fn lemma_bounds_unchanged(cx: Scope, n: nat, st: Seq<(Seq<char>, bool)>, s: Seq<BoundV>)
    requires
        cx.aliases.len() == 0 || !mentions_bounds(cx, s),
    ensures
        resolve_bounds(cx, n, st, s) == Ok::<_, ErrorV>(s),
    decreases s,
{
    if s.len() > 0 {
        lemma_bounds_unchanged(cx, n, st, s.drop_last());
        lemma_bound_unchanged(cx, n, st, s.last());
        assert(s.drop_last().push(s.last()) =~= s);
    } else {
        assert(s =~= Seq::empty());
    }
}

#[verifier::spinoff_prover]
pub proof fn lemma_token_unchanged(cx: Scope, n: nat, st: Seq<(Seq<char>, bool)>, t: TokenV)
    requires
        cx.aliases.len() == 0 || !mentions_token(cx, t),
    ensures
        resolve_token(cx, n, st, t) == Ok::<_, ErrorV>(t),
    decreases t,
{
    if let TokenV::Group(_, s) = t {
        lemma_tokens_unchanged(cx, n, st, s);
    }
}

#[verifier::spinoff_prover]
pub proof fn lemma_tokens_unchanged(cx: Scope, n: nat, st: Seq<(Seq<char>, bool)>, s: Seq<TokenV>)
    requires
        cx.aliases.len() == 0 || !mentions_tokens(cx, s),
    ensures
        resolve_tokens(cx, n, st, s) == Ok::<_, ErrorV>(s),
    decreases s,
{
    if s.len() > 0 {
        lemma_tokens_unchanged(cx, n, st, s.drop_last());
        lemma_token_unchanged(cx, n, st, s.last());
        assert(s.drop_last().push(s.last()) =~= s);
    } else {
        assert(s =~= Seq::empty());
    }
}

// ---- Laws ----

/// Substituting a type that refers to no alias of the scope gives the type
/// back unchanged, whatever aliases are being expanded around it.
#[verifier::spinoff_prover]
pub proof fn law_idempotent(cx: Scope, n: nat, st: Seq<(Seq<char>, bool)>, t: TypeV)
    requires
        !mentions_type(cx, t),
    ensures
        resolve_type(cx, n, st, t) == Ok::<_, ErrorV>(t),
{
    lemma_type_unchanged(cx, n, st, t);
}

/// Substituting a bound list that refers to no alias gives it back.
#[verifier::spinoff_prover]
pub proof fn law_idempotent_bounds(cx: Scope, n: nat, st: Seq<(Seq<char>, bool)>, s: Seq<BoundV>)
    requires
        !mentions_bounds(cx, s),
    ensures
        resolve_bounds(cx, n, st, s) == Ok::<_, ErrorV>(s),
{
    lemma_bounds_unchanged(cx, n, st, s);
}

pub open spec fn name_type(x: Seq<char>) -> TypeV {
    TypeV::Path(None, plain_path(x))
}

/// With `type Y = P` declared before `type X = Y`, where `P` is a name that
/// is no type alias, both `X` and `Y` stand for exactly `P`.
#[verifier::spinoff_prover]
pub proof fn law_transitive(cx: Scope, x: Seq<char>, y: Seq<char>, p: Seq<char>, i: nat, j: nat)
    requires
        find(cx.aliases, cx.aliases.len(), (y, false)) == Some(j),
        find(cx.aliases, cx.aliases.len(), (x, false)) == Some(i),
        j < i,
        cx.aliases[j as int].body == AliasBodyV::Type(name_type(p)),
        cx.aliases[i as int].body == AliasBodyV::Type(name_type(y)),
        lookup_type(cx.aliases, p) is None,
    ensures
        resolve_type(cx, cx.aliases.len(), Seq::empty(), name_type(x)) == Ok::<_, ErrorV>(name_type(p)),
        resolve_type(cx, cx.aliases.len(), Seq::empty(), name_type(y)) == Ok::<_, ErrorV>(name_type(p)),
{
    let tab = cx.aliases;
    let top = tab.len();
    let e: Seq<(Seq<char>, bool)> = Seq::empty();
    let s1 = e.push((x, false));
    let s2 = s1.push((y, false));
    let s3 = e.push((y, false));
    lemma_find(tab, top, (x, false));
    lemma_find(tab, top, (y, false));
    lemma_lookup_find(tab, (x, false));
    lemma_lookup_find(tab, (y, false));
    lemma_plain_name_free(cx, p);
    lemma_type_unchanged(cx, j, s2, name_type(p));
    lemma_type_unchanged(cx, j, s3, name_type(p));
    assert(single_name(plain_path(x)) == Some(x));
    assert(single_name(plain_path(y)) == Some(y));
    assert(resolve_type(cx, top, e, name_type(x)) == expand_type(cx, top, e, x));
    assert(expand_type(cx, top, e, x) == resolve_type(cx, i, s1, name_type(y)));
    assert(resolve_type(cx, i, s1, name_type(y)) == expand_type(cx, i, s1, y));
    assert(expand_type(cx, i, s1, y) == resolve_type(cx, j, s2, name_type(p)));
    assert(resolve_type(cx, top, e, name_type(y)) == expand_type(cx, top, e, y));
    assert(expand_type(cx, top, e, y) == resolve_type(cx, j, s3, name_type(p)));
}

/// The last declaration of a key in the whole table is what `find` gives
/// with every alias in view.
pub proof fn lemma_lookup_find(tab: Seq<AliasV>, k: (Seq<char>, bool))
    ensures
        lookup(tab, k) == match find(tab, tab.len(), k) {
            Some(i) => Some(tab[i as int].body),
            None => None::<AliasBodyV>,
        },
    decreases tab.len(),
{
    if tab.len() > 0 {
        let d = tab.drop_last();
        lemma_lookup_find(d, k);
        lemma_find_drop_last(tab, d.len(), k);
        lemma_find(d, d.len(), k);
        if key(tab.last()) != k {
            assert(find(tab, tab.len(), k) == find(tab, d.len(), k));
            if let Some(i) = find(d, d.len(), k) {
                assert(d[i as int] == tab[i as int]);
            }
        }
    }
}

pub proof fn lemma_find_drop_last(tab: Seq<AliasV>, m: nat, k: (Seq<char>, bool))
    requires
        m < tab.len(),
    ensures
        find(tab, m, k) == find(tab.drop_last(), m, k),
    decreases m,
{
    if m > 0 {
        lemma_find_drop_last(tab, (m - 1) as nat, k);
    }
}

/// A name that is no type alias refers to no alias.
pub proof fn lemma_plain_name_free(cx: Scope, p: Seq<char>)
    requires
        lookup_type(cx.aliases, p) is None,
    ensures
        !mentions_type(cx, name_type(p)),
{
    let segs = plain_path(p).segments;
    assert(segs.drop_last() =~= Seq::<SegmentV>::empty());
    assert(!mentions_segments(cx, Seq::<SegmentV>::empty()));
    assert(segs.last().arguments == ArgsV::Empty);
    assert(!mentions_args(cx, ArgsV::Empty));
    assert(!mentions_segments(cx, segs));
    assert(!mentions_path(cx, plain_path(p)));
}

/// An alias defined as itself is rejected as a cycle.
#[verifier::spinoff_prover]
pub proof fn law_self_cycle(cx: Scope, x: Seq<char>, i: nat)
    requires
        find(cx.aliases, cx.aliases.len(), (x, false)) == Some(i),
        cx.aliases[i as int].body == AliasBodyV::Type(name_type(x)),
    ensures
        resolve_type(cx, cx.aliases.len(), Seq::empty(), name_type(x)) == Err::<TypeV, ErrorV>(
            ErrorV::Cycle(x, seq![x]),
        ),
{
    let tab = cx.aliases;
    let top = tab.len();
    let e: Seq<(Seq<char>, bool)> = Seq::empty();
    let s1 = e.push((x, false));
    lemma_find(tab, top, (x, false));
    lemma_lookup_find(tab, (x, false));
    assert(single_name(plain_path(x)) == Some(x));
    assert(chain(s1) =~= seq![x]);
    assert(resolve_type(cx, top, e, name_type(x)) == expand_type(cx, top, e, x));
    assert(expand_type(cx, top, e, x) == resolve_type(cx, i, s1, name_type(x)));
    assert(resolve_type(cx, i, s1, name_type(x)) == expand_type(cx, i, s1, x));
}

/// Two aliases defined in terms of each other are rejected as a cycle,
/// whichever is declared first.
#[verifier::spinoff_prover]
pub proof fn law_mutual_cycle(cx: Scope, x: Seq<char>, y: Seq<char>, i: nat, j: nat)
    requires
        x != y,
        find(cx.aliases, cx.aliases.len(), (x, false)) == Some(i),
        find(cx.aliases, cx.aliases.len(), (y, false)) == Some(j),
        cx.aliases[i as int].body == AliasBodyV::Type(name_type(y)),
        cx.aliases[j as int].body == AliasBodyV::Type(name_type(x)),
    ensures
        resolve_type(cx, cx.aliases.len(), Seq::empty(), name_type(x)) matches Err(ErrorV::Cycle(_, _)),
{
    let tab = cx.aliases;
    let top = tab.len();
    let e: Seq<(Seq<char>, bool)> = Seq::empty();
    let s1 = e.push((x, false));
    let s2 = s1.push((y, false));
    lemma_find(tab, top, (x, false));
    lemma_find(tab, top, (y, false));
    lemma_lookup_find(tab, (x, false));
    lemma_lookup_find(tab, (y, false));
    assert(single_name(plain_path(x)) == Some(x));
    assert(single_name(plain_path(y)) == Some(y));
    assert(resolve_type(cx, top, e, name_type(x)) == expand_type(cx, top, e, x));
    assert(expand_type(cx, top, e, x) == resolve_type(cx, i, s1, name_type(y)));
    assert(resolve_type(cx, i, s1, name_type(y)) == expand_type(cx, i, s1, y));
    if j < i {
        assert(expand_type(cx, i, s1, y) == resolve_type(cx, j, s2, name_type(x)));
        assert(resolve_type(cx, j, s2, name_type(x)) == expand_type(cx, j, s2, x));
    }
}

/// The shape of a type whose own form substitution rebuilds.
pub open spec fn same_shape(t: TypeV, r: TypeV) -> bool {
    match (t, r) {
        (TypeV::Array(_, n), TypeV::Array(_, m)) => n == m,
        (TypeV::Slice(_), TypeV::Slice(_)) => true,
        (TypeV::Ptr(a, _), TypeV::Ptr(b, _)) => a == b,
        (TypeV::Reference(l, a, _), TypeV::Reference(k, b, _)) => l == k && a == b,
        (TypeV::Paren(_), TypeV::Paren(_)) => true,
        (TypeV::Group(_), TypeV::Group(_)) => true,
        (TypeV::Tuple(a), TypeV::Tuple(b)) => a.len() == b.len(),
        (TypeV::BareFn(h, a, o), TypeV::BareFn(k, b, p)) => h == k && a.len() == b.len() && (o is Some
            == p is Some),
        _ => false,
    }
}

pub open spec fn is_wrapper(t: TypeV) -> bool {
    ||| t is Array
    ||| t is Slice
    ||| t is Ptr
    ||| t is Reference
    ||| t is Paren
    ||| t is Group
    ||| t is Tuple
    ||| t is BareFn
}

#[verifier::spinoff_prover]
pub proof fn lemma_types_len(cx: Scope, n: nat, st: Seq<(Seq<char>, bool)>, s: Seq<TypeV>)
    ensures
        resolve_types(cx, n, st, s) matches Ok(r) ==> r.len() == s.len(),
    decreases s.len(),
{
    if s.len() > 0 {
        lemma_types_len(cx, n, st, s.drop_last());
    }
}

/// Substitution keeps a pointer, reference, array, slice, parenthesised,
/// tuple or function-pointer type of the same form: the same mutability,
/// lifetime, length, arity and return arrow. Only what is inside changes.
#[verifier::spinoff_prover]
pub proof fn law_shape_preserved(cx: Scope, n: nat, st: Seq<(Seq<char>, bool)>, t: TypeV)
    requires
        is_wrapper(t),
    ensures
        resolve_type(cx, n, st, t) matches Ok(r) ==> same_shape(t, r),
{
    match t {
        TypeV::Tuple(s) => {
            lemma_types_len(cx, n, st, s);
        },
        TypeV::BareFn(_, a, o) => {
            lemma_types_len(cx, n, st, a);
            assert(resolve_opt(cx, n, st, o) matches Ok(r) ==> (r is Some == o is Some));
        },
        _ => {},
    }
}

pub open spec fn trait_name(x: Seq<char>) -> BoundV {
    BoundV::Trait(Seq::empty(), false, plain_path(x))
}

/// `T: A + T3` with `trait A = T1 + T2` gives `T1 + T2 + T3`, when the
/// three bounds refer to no alias.
#[verifier::spinoff_prover]
pub proof fn law_bound_fusion_order(cx: Scope, a: Seq<char>, i: nat, t1: BoundV, t2: BoundV, t3: BoundV)
    requires
        find(cx.aliases, cx.aliases.len(), (a, true)) == Some(i),
        cx.aliases[i as int].body == AliasBodyV::Trait(seq![t1, t2]),
        !mentions_bound(cx, t1),
        !mentions_bound(cx, t2),
        !mentions_bound(cx, t3),
    ensures
        resolve_bounds(cx, cx.aliases.len(), Seq::empty(), seq![trait_name(a), t3]) == Ok::<_, ErrorV>(
            seq![t1, t2, t3],
        ),
{
    let tab = cx.aliases;
    let top = tab.len();
    let e: Seq<(Seq<char>, bool)> = Seq::empty();
    let inner = e.push((a, true));
    let pair = seq![t1, t2];
    let whole = seq![trait_name(a), t3];
    let empty = Seq::<BoundV>::empty();
    lemma_find(tab, top, (a, true));
    lemma_lookup_find(tab, (a, true));
    assert(pair.drop_last() =~= seq![t1]);
    assert(seq![t1].drop_last() =~= empty);
    assert(!mentions_bounds(cx, empty));
    assert(!mentions_bounds(cx, seq![t1]));
    assert(!mentions_bounds(cx, pair));
    lemma_bounds_unchanged(cx, i, inner, pair);
    lemma_bound_unchanged(cx, top, e, t3);
    assert(single_name(plain_path(a)) == Some(a));
    assert(bound_alias(cx, trait_name(a)) == Some(a));
    assert(expand_trait(cx, top, e, a) == resolve_bounds(cx, i, inner, pair));
    assert(whole.drop_last() =~= seq![trait_name(a)]);
    assert(seq![trait_name(a)].drop_last() =~= empty);
    assert(resolve_bounds(cx, top, e, empty) == Ok::<_, ErrorV>(empty));
    assert(empty + pair =~= pair);
    assert(resolve_bounds(cx, top, e, seq![trait_name(a)]) == Ok::<_, ErrorV>(pair));
    assert(pair.push(t3) =~= seq![t1, t2, t3]);
}


pub proof fn lemma_resolve_all_unchanged<A>(s: Seq<A>, f: spec_fn(A) -> Result<A, ErrorV>)
    requires
        forall|i: int| 0 <= i < s.len() ==> f(#[trigger] s[i]) == Ok::<_, ErrorV>(s[i]),
    ensures
        resolve_all(s, f) == Ok::<_, ErrorV>(s),
    decreases s.len(),
{
    if s.len() > 0 {
        assert forall|i: int| 0 <= i < s.drop_last().len() implies f(#[trigger] s.drop_last()[i]) == Ok::<_, ErrorV>(s.drop_last()[i]) by {
            assert(s.drop_last()[i] == s[i]);
        }
        lemma_resolve_all_unchanged(s.drop_last(), f);
        assert(f(s[s.len() - 1]) == Ok::<_, ErrorV>(s[s.len() - 1]));
        assert(s.drop_last().push(s.last()) =~= s);
    } else {
        assert(s =~= Seq::empty());
    }
}

pub open spec fn mentions_opt_type(cx: Scope, o: Option<TypeV>) -> bool {
    o matches Some(t) && mentions_type(cx, t)
}

pub open spec fn mentions_param(cx: Scope, p: ParamV) -> bool {
    match p {
        ParamV::Type(_, b, d) => mentions_bounds(cx, b) || mentions_opt_type(cx, d),
        ParamV::Const(_, t) => mentions_type(cx, t),
        ParamV::Verbatim(_) => false,
    }
}

pub open spec fn mentions_predicate(cx: Scope, p: PredicateV) -> bool {
    match p {
        PredicateV::Type(_, t, b) => mentions_type(cx, t) || mentions_bounds(cx, b),
        PredicateV::Verbatim(_) => false,
    }
}

pub open spec fn mentions_generics(cx: Scope, g: GenericsV) -> bool {
    (exists|i: int| 0 <= i < g.params.len() && mentions_param(cx, #[trigger] g.params[i])) || (
    g.where_clause matches Some(w) && exists|i: int| 0 <= i < w.len() && mentions_predicate(cx, #[trigger] w[i]))
}

pub open spec fn mentions_signature(cx: Scope, sig: SignatureV) -> bool {
    mentions_types(cx, sig.inputs) || mentions_opt_type(cx, sig.output) || mentions_types(cx, sig.body)
}

pub open spec fn mentions_member(cx: Scope, m: MemberV) -> bool {
    match m {
        MemberV::Const(t) => mentions_type(cx, t),
        MemberV::Fn(sig) => mentions_signature(cx, sig),
        MemberV::Type(t) => mentions_type(cx, t),
        MemberV::AssocType(b, d) => mentions_bounds(cx, b) || mentions_opt_type(cx, d),
        MemberV::Macro(_, _, t) => cx.in_macros && mentions_tokens(cx, t),
        MemberV::Verbatim => false,
    }
}

pub open spec fn mentions_kind(cx: Scope, k: ItemKindV) -> bool {
    match k {
        ItemKindV::Impl(tp, st, ms) => (tp matches Some(p) && mentions_path(cx, p)) || mentions_type(cx, st) || exists|i: int|
            0 <= i < ms.len() && mentions_member(cx, #[trigger] ms[i]),
        ItemKindV::Types(f) => mentions_types(cx, f),
        ItemKindV::Fn(sig) => mentions_signature(cx, sig),
        ItemKindV::Trait(b, ms) => mentions_bounds(cx, b) || exists|i: int|
            0 <= i < ms.len() && mentions_member(cx, #[trigger] ms[i]),
        ItemKindV::Macro(_, _, t) => cx.in_macros && mentions_tokens(cx, t),
        ItemKindV::Other => false,
        ItemKindV::Verbatim => false,
    }
}

/// Whether an item refers, anywhere substitution looks, to an alias of the
/// scope.
pub open spec fn mentions_item(cx: Scope, it: ItemV) -> bool {
    mentions_generics(cx, it.generics) || mentions_kind(cx, it.kind)
}

pub proof fn lemma_opt_type_unchanged(cx: Scope, o: Option<TypeV>)
    requires
        cx.aliases.len() == 0 || !mentions_opt_type(cx, o),
    ensures
        resolve_opt_type(cx, o) == Ok::<_, ErrorV>(o),
{
    if let Some(t) = o {
        lemma_type_unchanged(cx, cx.aliases.len(), Seq::empty(), t);
    }
}

pub proof fn lemma_generics_unchanged(cx: Scope, g: GenericsV)
    requires
        cx.aliases.len() == 0 || !mentions_generics(cx, g),
    ensures
        resolve_generics(cx, g) == Ok::<_, ErrorV>(g),
{
    let e: Seq<(Seq<char>, bool)> = Seq::empty();
    let top = cx.aliases.len();
    assert forall|i: int| 0 <= i < g.params.len() implies param_step(cx)(#[trigger] g.params[i]) == Ok::<_, ErrorV>(g.params[i]) by {
        assert(cx.aliases.len() == 0 || !mentions_param(cx, g.params[i]));
        match g.params[i] {
            ParamV::Type(_, b, d) => {
                lemma_bounds_unchanged(cx, top, e, b);
                lemma_opt_type_unchanged(cx, d);
            },
            ParamV::Const(_, t) => lemma_type_unchanged(cx, top, e, t),
            ParamV::Verbatim(_) => {},
        }
    }
    lemma_resolve_all_unchanged(g.params, param_step(cx));
    if let Some(w) = g.where_clause {
        assert forall|i: int| 0 <= i < w.len() implies predicate_step(cx)(#[trigger] w[i]) == Ok::<_, ErrorV>(w[i]) by {
            assert(cx.aliases.len() == 0 || !mentions_predicate(cx, w[i]));
            if let PredicateV::Type(_, t, b) = w[i] {
                lemma_type_unchanged(cx, top, e, t);
                lemma_bounds_unchanged(cx, top, e, b);
            }
        }
        lemma_resolve_all_unchanged(w, predicate_step(cx));
    }
}

pub proof fn lemma_signature_unchanged(cx: Scope, sig: SignatureV)
    requires
        cx.aliases.len() == 0 || !mentions_signature(cx, sig),
    ensures
        resolve_signature(cx, sig) == Ok::<_, ErrorV>(sig),
{
    let e: Seq<(Seq<char>, bool)> = Seq::empty();
    lemma_types_unchanged(cx, cx.aliases.len(), e, sig.inputs);
    lemma_opt_type_unchanged(cx, sig.output);
    lemma_types_unchanged(cx, cx.aliases.len(), e, sig.body);
}

pub proof fn lemma_member_unchanged(cx: Scope, m: MemberV)
    requires
        cx.aliases.len() == 0 || !mentions_member(cx, m),
    ensures
        resolve_member(cx, m) == Ok::<_, ErrorV>(m),
{
    let e: Seq<(Seq<char>, bool)> = Seq::empty();
    let top = cx.aliases.len();
    match m {
        MemberV::Const(t) => lemma_type_unchanged(cx, top, e, t),
        MemberV::Fn(sig) => lemma_signature_unchanged(cx, sig),
        MemberV::Type(t) => lemma_type_unchanged(cx, top, e, t),
        MemberV::AssocType(b, d) => {
            lemma_bounds_unchanged(cx, top, e, b);
            lemma_opt_type_unchanged(cx, d);
        },
        MemberV::Macro(_, _, t) => {
            if cx.in_macros {
                lemma_tokens_unchanged(cx, top, e, t);
            }
        },
        MemberV::Verbatim => {},
    }
}

pub proof fn lemma_members_unchanged(cx: Scope, ms: Seq<MemberV>)
    requires
        cx.aliases.len() == 0 || !(exists|i: int| 0 <= i < ms.len() && mentions_member(cx, #[trigger] ms[i])),
    ensures
        resolve_all(ms, member_step(cx)) == Ok::<_, ErrorV>(ms),
{
    assert forall|i: int| 0 <= i < ms.len() implies member_step(cx)(#[trigger] ms[i]) == Ok::<_, ErrorV>(ms[i]) by {
        lemma_member_unchanged(cx, ms[i]);
    }
    lemma_resolve_all_unchanged(ms, member_step(cx));
}

pub proof fn lemma_kind_unchanged(cx: Scope, k: ItemKindV)
    requires
        cx.aliases.len() == 0 || !mentions_kind(cx, k),
    ensures
        resolve_kind(cx, k) == Ok::<_, ErrorV>(k),
{
    let e: Seq<(Seq<char>, bool)> = Seq::empty();
    let top = cx.aliases.len();
    match k {
        ItemKindV::Impl(tp, st, ms) => {
            if let Some(p) = tp {
                lemma_path_unchanged(cx, top, e, p);
            }
            lemma_type_unchanged(cx, top, e, st);
            lemma_members_unchanged(cx, ms);
        },
        ItemKindV::Types(f) => lemma_types_unchanged(cx, top, e, f),
        ItemKindV::Fn(sig) => lemma_signature_unchanged(cx, sig),
        ItemKindV::Trait(b, ms) => {
            lemma_bounds_unchanged(cx, top, e, b);
            lemma_members_unchanged(cx, ms);
        },
        ItemKindV::Macro(_, _, t) => {
            if cx.in_macros {
                lemma_tokens_unchanged(cx, top, e, t);
            }
        },
        ItemKindV::Other => {},
        ItemKindV::Verbatim => {},
    }
}

/// An item whose declared aliases it never refers to comes out with its
/// alias declarations removed and nothing else changed.
pub proof fn law_unused_aliases(it: ItemV, in_macros: bool)
    requires
        !(it.kind is Verbatim),
        first_empty(declared(it.attrs)) is None,
        !mentions_item(Scope { aliases: declared(it.attrs), in_macros }, it),
    ensures
        expand(it, in_macros) == Ok::<_, ErrorV>(ItemV { attrs: undeclared(it.attrs), ..it }),
{
    let cx = Scope { aliases: declared(it.attrs), in_macros };
    lemma_generics_unchanged(cx, it.generics);
    lemma_kind_unchanged(cx, it.kind);
}

/// Aliases are scoped to the item that declares them: an item that declares
/// none comes out unchanged (its alias attributes, if empty, removed), even
/// when it names aliases that a neighbouring item declares.
pub proof fn law_scope_contained(b: ItemV, in_macros: bool)
    requires
        declared(b.attrs).len() == 0,
        !(b.kind is Verbatim),
    ensures
        expand(b, in_macros) == Ok::<_, ErrorV>(ItemV { attrs: undeclared(b.attrs), ..b }),
{
    let cx = Scope { aliases: declared(b.attrs), in_macros };
    lemma_generics_unchanged(cx, b.generics);
    lemma_kind_unchanged(cx, b.kind);
}

/// The parts of a list, joined in order.
pub open spec fn concat(parts: Seq<Seq<BoundV>>) -> Seq<BoundV>
    decreases parts.len(),
{
    if parts.len() == 0 {
        Seq::empty()
    } else {
        concat(parts.drop_last()) + parts.last()
    }
}

/// In a bound list, each trait alias is replaced, in its own place, by the
/// bounds it expands to, and each other bound that refers to no alias stays
/// where it is: the result is those parts joined in the list's order.
pub proof fn law_bounds_spliced_in_place(cx: Scope, n: nat, st: Seq<(Seq<char>, bool)>, s: Seq<BoundV>, parts: Seq<Seq<BoundV>>)
    requires
        parts.len() == s.len(),
        forall|i: int| 0 <= i < s.len() ==> match bound_alias(cx, #[trigger] s[i]) {
            Some(x) => expand_trait(cx, n, st, x) == Ok::<_, ErrorV>(parts[i]),
            None => !mentions_bound(cx, s[i]) && parts[i] == seq![s[i]],
        },
    ensures
        resolve_bounds(cx, n, st, s) == Ok::<_, ErrorV>(concat(parts)),
    decreases s.len(),
{
    if s.len() > 0 {
        let k = s.len() - 1;
        assert forall|i: int| 0 <= i < s.drop_last().len() implies match bound_alias(cx, #[trigger] s.drop_last()[i]) {
            Some(x) => expand_trait(cx, n, st, x) == Ok::<_, ErrorV>(parts.drop_last()[i]),
            None => !mentions_bound(cx, s.drop_last()[i]) && parts.drop_last()[i] == seq![s.drop_last()[i]],
        } by {
            assert(s.drop_last()[i] == s[i]);
        }
        law_bounds_spliced_in_place(cx, n, st, s.drop_last(), parts.drop_last());
        assert(s[k] == s.last());
        if bound_alias(cx, s.last()) is None {
            lemma_bound_unchanged(cx, n, st, s.last());
            assert(concat(parts.drop_last()).push(s.last()) =~= concat(parts.drop_last()) + parts.last());
        }
    } else {
        assert(s =~= Seq::<BoundV>::empty());
    }
}


/// An error in one element of a type list is an error of the whole list.
pub proof fn lemma_types_error(cx: Scope, n: nat, st: Seq<(Seq<char>, bool)>, s: Seq<TypeV>, k: int)
    requires
        0 <= k < s.len(),
        resolve_type(cx, n, st, s[k]) is Err,
    ensures
        resolve_types(cx, n, st, s) is Err,
    decreases s.len(),
{
    if k < s.len() - 1 {
        assert(s.drop_last()[k] == s[k]);
        lemma_types_error(cx, n, st, s.drop_last(), k);
    }
}

/// An item that declares an alias defined as itself, and uses it as one of
/// its field types, gives no output: its expansion is an error.
pub proof fn law_cycle_rejects_item(it: ItemV, in_macros: bool, x: Seq<char>, i: nat, f: Seq<TypeV>, k: int)
    requires
        it.kind == ItemKindV::Types(f),
        0 <= k < f.len(),
        f[k] == name_type(x),
        find(declared(it.attrs), declared(it.attrs).len(), (x, false)) == Some(i),
        declared(it.attrs)[i as int].body == AliasBodyV::Type(name_type(x)),
    ensures
        expand(it, in_macros) is Err,
{
    let cx = Scope { aliases: declared(it.attrs), in_macros };
    if first_empty(declared(it.attrs)) is None {
        law_self_cycle(cx, x, i);
        lemma_types_error(cx, cx.aliases.len(), Seq::empty(), f, k);
    }
}

} // verus!
