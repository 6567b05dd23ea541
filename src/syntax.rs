//! Executable syntax trees: type expressions, paths, bounds and token trees.
use vstd::prelude::*;

use crate::seqs::{lemma_push_last, lemma_take_all, lemma_take_next};
use crate::model::{ArgsV, BoundV, GenericArgV, PathV, QSelfV, SegmentV, TokenV, TypeV};

verus! {

/// The delimiter of a token group; `Invisible` is a group without visible delimiters.
#[derive(Clone, Copy, Debug, PartialEq, Eq, Structural)]
pub enum Delimiter {
    Parenthesis,
    Brace,
    Bracket,
    Invisible,
}

#[derive(Debug)]
pub enum TokenTree {
    Group(Delimiter, Vec<TokenTree>),
    Ident(String),
    /// A punctuation character, and whether it is joined to the next one.
    Punct(char, bool),
    Literal(String),
    /// A type carried as a single token.
    Type(Box<TypeExpr>),
    /// A `+`-separated bound list carried as a single token.
    Bounds(Vec<TypeBound>),
}

#[derive(Debug)]
pub enum TypeExpr {
    /// `[T; N]`, with the length expression kept as tokens.
    Array(Box<TypeExpr>, Vec<TokenTree>),
    Slice(Box<TypeExpr>),
    /// `*mut T` when the flag is set, else `*const T`.
    Ptr(bool, Box<TypeExpr>),
    /// `&'a mut T`: lifetime, mutability, referent.
    Reference(Option<String>, bool, Box<TypeExpr>),
    Paren(Box<TypeExpr>),
    Group(Box<TypeExpr>),
    Tuple(Vec<TypeExpr>),
    /// `for<'a> unsafe extern "C" fn(A, B) -> R`: the tokens before `fn`,
    /// the argument types and the return type.
    BareFn(Vec<TokenTree>, Vec<TypeExpr>, Option<Box<TypeExpr>>),
    Path(Option<QualifiedSelf>, Path),
    Infer,
    Never,
    /// `dyn A + B`, kept as the tokens of its bounds.
    TraitObject(Vec<TokenTree>),
    /// `impl A + B`, kept as the tokens of its bounds.
    ImplTrait(Vec<TokenTree>),
    /// A type produced by an invocation of another macro.
    Macro(MacroCall),
    Verbatim(Vec<TokenTree>),
}

#[derive(Debug)]
pub struct QualifiedSelf {
    pub ty: Box<TypeExpr>,
    pub position: usize,
    pub as_trait: bool,
}

#[derive(Debug)]
pub struct Path {
    pub leading_colon: bool,
    pub segments: Vec<PathSegment>,
}

#[derive(Debug)]
pub struct PathSegment {
    pub ident: String,
    pub arguments: PathArguments,
}

#[derive(Debug)]
pub enum PathArguments {
    Empty,
    AngleBracketed(Vec<GenericArgument>),
    /// `Fn(A, B) -> R`.
    Parenthesized(Vec<TypeExpr>, Option<Box<TypeExpr>>),
}

#[derive(Debug)]
pub enum GenericArgument {
    Type(TypeExpr),
    /// `Item = T`.
    AssocType(String, TypeExpr),
    /// Lifetimes, constants and constraints, kept as tokens.
    Verbatim(Vec<TokenTree>),
}

#[derive(Debug)]
pub enum TypeBound {
    Trait(TraitBound),
    Lifetime(String),
    Verbatim(Vec<TokenTree>),
}

/// `for<'a> ?Path`: the higher-ranked lifetimes, whether it is a `?` bound,
/// and the trait.
#[derive(Debug)]
pub struct TraitBound {
    pub lifetimes: Vec<String>,
    pub maybe: bool,
    pub path: Path,
}

/// An invocation of some other macro: its path, delimiter and input tokens.
#[derive(Debug)]
pub struct MacroCall {
    pub path: Path,
    pub delimiter: Delimiter,
    pub tokens: Vec<TokenTree>,
}

pub open spec fn strs_view(s: Seq<String>) -> Seq<Seq<char>> {
    s.map_values(|x: String| x@)
}

pub open spec fn tok_view(t: TokenTree) -> TokenV
    decreases t,
{
    match t {
        TokenTree::Group(d, v) => TokenV::Group(d, toks_view(v@)),
        TokenTree::Ident(s) => TokenV::Ident(s@),
        TokenTree::Punct(c, j) => TokenV::Punct(c, j),
        TokenTree::Literal(s) => TokenV::Literal(s@),
        TokenTree::Type(b) => TokenV::Type(Box::new(ty_view(*b))),
        TokenTree::Bounds(v) => TokenV::Bounds(bounds_view(v@)),
    }
}

pub open spec fn toks_view(s: Seq<TokenTree>) -> Seq<TokenV>
    decreases s,
{
    if s.len() == 0 {
        Seq::empty()
    } else {
        toks_view(s.drop_last()).push(tok_view(s.last()))
    }
}

pub open spec fn opt_ty_view(o: Option<Box<TypeExpr>>) -> Option<Box<TypeV>>
    decreases o,
{
    match o {
        Some(b) => Some(Box::new(ty_view(*b))),
        None => None,
    }
}

pub open spec fn ty_view(t: TypeExpr) -> TypeV
    decreases t,
{
    match t {
        TypeExpr::Array(e, n) => TypeV::Array(Box::new(ty_view(*e)), toks_view(n@)),
        TypeExpr::Slice(e) => TypeV::Slice(Box::new(ty_view(*e))),
        TypeExpr::Ptr(m, e) => TypeV::Ptr(m, Box::new(ty_view(*e))),
        TypeExpr::Reference(l, m, e) => TypeV::Reference(
            match l {
                Some(s) => Some(s@),
                None => None,
            },
            m,
            Box::new(ty_view(*e)),
        ),
        TypeExpr::Paren(e) => TypeV::Paren(Box::new(ty_view(*e))),
        TypeExpr::Group(e) => TypeV::Group(Box::new(ty_view(*e))),
        TypeExpr::Tuple(v) => TypeV::Tuple(tys_view(v@)),
        TypeExpr::BareFn(h, a, o) => TypeV::BareFn(toks_view(h@), tys_view(a@), opt_ty_view(o)),
        TypeExpr::Path(q, p) => TypeV::Path(
            match q {
                Some(q) => Some(qself_view(q)),
                None => None,
            },
            path_view(p),
        ),
        TypeExpr::Infer => TypeV::Infer,
        TypeExpr::Never => TypeV::Never,
        TypeExpr::TraitObject(v) => TypeV::TraitObject(toks_view(v@)),
        TypeExpr::ImplTrait(v) => TypeV::ImplTrait(toks_view(v@)),
        TypeExpr::Macro(m) => TypeV::Macro(path_view(m.path), m.delimiter, toks_view(m.tokens@)),
        TypeExpr::Verbatim(v) => TypeV::Verbatim(toks_view(v@)),
    }
}

pub open spec fn qself_view(q: QualifiedSelf) -> QSelfV
    decreases q,
{
    QSelfV { ty: Box::new(ty_view(*q.ty)), position: q.position as nat, as_trait: q.as_trait }
}

pub open spec fn tys_view(s: Seq<TypeExpr>) -> Seq<TypeV>
    decreases s,
{
    if s.len() == 0 {
        Seq::empty()
    } else {
        tys_view(s.drop_last()).push(ty_view(s.last()))
    }
}

pub open spec fn path_view(p: Path) -> PathV
    decreases p,
{
    PathV { leading_colon: p.leading_colon, segments: segs_view(p.segments@) }
}

pub open spec fn seg_view(s: PathSegment) -> SegmentV
    decreases s,
{
    SegmentV { ident: s.ident@, arguments: args_view(s.arguments) }
}

pub open spec fn segs_view(s: Seq<PathSegment>) -> Seq<SegmentV>
    decreases s,
{
    if s.len() == 0 {
        Seq::empty()
    } else {
        segs_view(s.drop_last()).push(seg_view(s.last()))
    }
}

pub open spec fn args_view(a: PathArguments) -> ArgsV
    decreases a,
{
    match a {
        PathArguments::Empty => ArgsV::Empty,
        PathArguments::AngleBracketed(v) => ArgsV::Angle(gargs_view(v@)),
        PathArguments::Parenthesized(v, o) => ArgsV::Paren(tys_view(v@), opt_ty_view(o)),
    }
}

pub open spec fn garg_view(g: GenericArgument) -> GenericArgV
    decreases g,
{
    match g {
        GenericArgument::Type(t) => GenericArgV::Type(ty_view(t)),
        GenericArgument::AssocType(n, t) => GenericArgV::AssocType(n@, ty_view(t)),
        GenericArgument::Verbatim(v) => GenericArgV::Verbatim(toks_view(v@)),
    }
}

pub open spec fn gargs_view(s: Seq<GenericArgument>) -> Seq<GenericArgV>
    decreases s,
{
    if s.len() == 0 {
        Seq::empty()
    } else {
        gargs_view(s.drop_last()).push(garg_view(s.last()))
    }
}

pub open spec fn bound_view(b: TypeBound) -> BoundV
    decreases b,
{
    match b {
        TypeBound::Trait(t) => BoundV::Trait(strs_view(t.lifetimes@), t.maybe, path_view(t.path)),
        TypeBound::Lifetime(l) => BoundV::Lifetime(l@),
        TypeBound::Verbatim(v) => BoundV::Verbatim(toks_view(v@)),
    }
}

pub open spec fn bounds_view(s: Seq<TypeBound>) -> Seq<BoundV>
    decreases s,
{
    if s.len() == 0 {
        Seq::empty()
    } else {
        bounds_view(s.drop_last()).push(bound_view(s.last()))
    }
}

impl View for TokenTree {
    type V = TokenV;

    open spec fn view(&self) -> TokenV {
        tok_view(*self)
    }
}

impl View for TypeExpr {
    type V = TypeV;

    open spec fn view(&self) -> TypeV {
        ty_view(*self)
    }
}

impl View for QualifiedSelf {
    type V = QSelfV;

    open spec fn view(&self) -> QSelfV {
        qself_view(*self)
    }
}

impl View for Path {
    type V = PathV;

    open spec fn view(&self) -> PathV {
        path_view(*self)
    }
}

impl View for PathSegment {
    type V = SegmentV;

    open spec fn view(&self) -> SegmentV {
        seg_view(*self)
    }
}

impl View for PathArguments {
    type V = ArgsV;

    open spec fn view(&self) -> ArgsV {
        args_view(*self)
    }
}

impl View for GenericArgument {
    type V = GenericArgV;

    open spec fn view(&self) -> GenericArgV {
        garg_view(*self)
    }
}

impl View for TypeBound {
    type V = BoundV;

    open spec fn view(&self) -> BoundV {
        bound_view(*self)
    }
}


pub proof fn lemma_toks_view(s: Seq<TokenTree>)
    ensures
        toks_view(s).len() == s.len(),
        forall|i: int| 0 <= i < s.len() ==> #[trigger] toks_view(s)[i] == tok_view(s[i]),
    decreases s.len(),
{
    if s.len() > 0 {
        lemma_toks_view(s.drop_last());
    }
}

pub proof fn lemma_tys_view(s: Seq<TypeExpr>)
    ensures
        tys_view(s).len() == s.len(),
        forall|i: int| 0 <= i < s.len() ==> #[trigger] tys_view(s)[i] == ty_view(s[i]),
    decreases s.len(),
{
    if s.len() > 0 {
        lemma_tys_view(s.drop_last());
    }
}

pub proof fn lemma_segs_view(s: Seq<PathSegment>)
    ensures
        segs_view(s).len() == s.len(),
        forall|i: int| 0 <= i < s.len() ==> #[trigger] segs_view(s)[i] == seg_view(s[i]),
    decreases s.len(),
{
    if s.len() > 0 {
        lemma_segs_view(s.drop_last());
    }
}

pub proof fn lemma_gargs_view(s: Seq<GenericArgument>)
    ensures
        gargs_view(s).len() == s.len(),
        forall|i: int| 0 <= i < s.len() ==> #[trigger] gargs_view(s)[i] == garg_view(s[i]),
    decreases s.len(),
{
    if s.len() > 0 {
        lemma_gargs_view(s.drop_last());
    }
}

pub proof fn lemma_bounds_view(s: Seq<TypeBound>)
    ensures
        bounds_view(s).len() == s.len(),
        forall|i: int| 0 <= i < s.len() ==> #[trigger] bounds_view(s)[i] == bound_view(s[i]),
    decreases s.len(),
{
    if s.len() > 0 {
        lemma_bounds_view(s.drop_last());
    }
}

pub proof fn lemma_segs_view_concat(a: Seq<PathSegment>, b: Seq<PathSegment>)
    ensures
        segs_view(a + b) == segs_view(a) + segs_view(b),
{
    lemma_segs_view(a);
    lemma_segs_view(b);
    lemma_segs_view(a + b);
    assert(segs_view(a + b) =~= segs_view(a) + segs_view(b));
}

pub proof fn lemma_bounds_view_concat(a: Seq<TypeBound>, b: Seq<TypeBound>)
    ensures
        bounds_view(a + b) == bounds_view(a) + bounds_view(b),
{
    lemma_bounds_view(a);
    lemma_bounds_view(b);
    lemma_bounds_view(a + b);
    assert(bounds_view(a + b) =~= bounds_view(a) + bounds_view(b));
}

pub fn copy_tokens(v: &Vec<TokenTree>) -> (r: Vec<TokenTree>)
    ensures
        toks_view(r@) == toks_view(v@),
    decreases v,
{
    let mut r: Vec<TokenTree> = Vec::new();
    let mut i: usize = 0;
    while i < v.len()
        invariant
            i <= v.len(),
            toks_view(r@) == toks_view(v@.take(i as int)),
        decreases v.len() - i,
    {
        let x = v[i].deep_copy();
        proof {
            lemma_take_next(v@, i as int);
            lemma_push_last(r@, x);
        }
        r.push(x);
        i += 1;
    }
    proof {
        lemma_take_all(v@);
    }
    r
}

pub fn copy_types(v: &Vec<TypeExpr>) -> (r: Vec<TypeExpr>)
    ensures
        tys_view(r@) == tys_view(v@),
    decreases v,
{
    let mut r: Vec<TypeExpr> = Vec::new();
    let mut i: usize = 0;
    while i < v.len()
        invariant
            i <= v.len(),
            tys_view(r@) == tys_view(v@.take(i as int)),
        decreases v.len() - i,
    {
        let x = v[i].deep_copy();
        proof {
            lemma_take_next(v@, i as int);
            lemma_push_last(r@, x);
        }
        r.push(x);
        i += 1;
    }
    proof {
        lemma_take_all(v@);
    }
    r
}

pub fn copy_segments(v: &Vec<PathSegment>) -> (r: Vec<PathSegment>)
    ensures
        segs_view(r@) == segs_view(v@),
    decreases v,
{
    let mut r: Vec<PathSegment> = Vec::new();
    let mut i: usize = 0;
    while i < v.len()
        invariant
            i <= v.len(),
            segs_view(r@) == segs_view(v@.take(i as int)),
        decreases v.len() - i,
    {
        let x = v[i].deep_copy();
        proof {
            lemma_take_next(v@, i as int);
            lemma_push_last(r@, x);
        }
        r.push(x);
        i += 1;
    }
    proof {
        lemma_take_all(v@);
    }
    r
}

pub fn copy_generic_args(v: &Vec<GenericArgument>) -> (r: Vec<GenericArgument>)
    ensures
        gargs_view(r@) == gargs_view(v@),
    decreases v,
{
    let mut r: Vec<GenericArgument> = Vec::new();
    let mut i: usize = 0;
    while i < v.len()
        invariant
            i <= v.len(),
            gargs_view(r@) == gargs_view(v@.take(i as int)),
        decreases v.len() - i,
    {
        let x = v[i].deep_copy();
        proof {
            lemma_take_next(v@, i as int);
            lemma_push_last(r@, x);
        }
        r.push(x);
        i += 1;
    }
    proof {
        lemma_take_all(v@);
    }
    r
}

pub fn copy_bounds(v: &Vec<TypeBound>) -> (r: Vec<TypeBound>)
    ensures
        bounds_view(r@) == bounds_view(v@),
    decreases v,
{
    let mut r: Vec<TypeBound> = Vec::new();
    let mut i: usize = 0;
    while i < v.len()
        invariant
            i <= v.len(),
            bounds_view(r@) == bounds_view(v@.take(i as int)),
        decreases v.len() - i,
    {
        let x = v[i].deep_copy();
        proof {
            lemma_take_next(v@, i as int);
            lemma_push_last(r@, x);
        }
        r.push(x);
        i += 1;
    }
    proof {
        lemma_take_all(v@);
    }
    r
}

pub fn copy_strings(v: &Vec<String>) -> (r: Vec<String>)
    ensures
        r@ == v@,
{
    let mut r: Vec<String> = Vec::new();
    let mut i: usize = 0;
    while i < v.len()
        invariant
            i <= v.len(),
            r@ == v@.take(i as int),
        decreases v.len() - i,
    {
        r.push(v[i].clone());
        proof {
            lemma_take_next(v@, i as int);
            lemma_push_last(r@.drop_last(), v@[i as int]);
        }
        i += 1;
    }
    proof {
        lemma_take_all(v@);
    }
    r
}

pub fn copy_opt_type(o: &Option<Box<TypeExpr>>) -> (r: Option<Box<TypeExpr>>)
    ensures
        opt_ty_view(r) == opt_ty_view(*o),
    decreases o,
{
    match o {
        Some(b) => Some(Box::new(b.deep_copy())),
        None => None,
    }
}

impl TokenTree {
    pub fn deep_copy(&self) -> (r: TokenTree)
        ensures
            r@ == self@,
        decreases self,
    {
        match self {
            TokenTree::Group(d, v) => TokenTree::Group(*d, copy_tokens(v)),
            TokenTree::Ident(s) => TokenTree::Ident(s.clone()),
            TokenTree::Punct(c, j) => TokenTree::Punct(*c, *j),
            TokenTree::Literal(s) => TokenTree::Literal(s.clone()),
            TokenTree::Type(b) => TokenTree::Type(Box::new(b.deep_copy())),
            TokenTree::Bounds(v) => TokenTree::Bounds(copy_bounds(v)),
        }
    }
}

impl TypeExpr {
    pub fn deep_copy(&self) -> (r: TypeExpr)
        ensures
            r@ == self@,
        decreases self,
    {
        match self {
            TypeExpr::Array(e, n) => TypeExpr::Array(Box::new(e.deep_copy()), copy_tokens(n)),
            TypeExpr::Slice(e) => TypeExpr::Slice(Box::new(e.deep_copy())),
            TypeExpr::Ptr(m, e) => TypeExpr::Ptr(*m, Box::new(e.deep_copy())),
            TypeExpr::Reference(l, m, e) => TypeExpr::Reference(
                match l {
                    Some(s) => Some(s.clone()),
                    None => None,
                },
                *m,
                Box::new(e.deep_copy()),
            ),
            TypeExpr::Paren(e) => TypeExpr::Paren(Box::new(e.deep_copy())),
            TypeExpr::Group(e) => TypeExpr::Group(Box::new(e.deep_copy())),
            TypeExpr::Tuple(v) => TypeExpr::Tuple(copy_types(v)),
            TypeExpr::BareFn(h, a, o) => TypeExpr::BareFn(copy_tokens(h), copy_types(a), copy_opt_type(o)),
            TypeExpr::Path(q, p) => TypeExpr::Path(
                match q {
                    Some(q) => Some(q.deep_copy()),
                    None => None,
                },
                p.deep_copy(),
            ),
            TypeExpr::Infer => TypeExpr::Infer,
            TypeExpr::Never => TypeExpr::Never,
            TypeExpr::TraitObject(v) => TypeExpr::TraitObject(copy_tokens(v)),
            TypeExpr::ImplTrait(v) => TypeExpr::ImplTrait(copy_tokens(v)),
            TypeExpr::Macro(m) => TypeExpr::Macro(
                MacroCall { path: m.path.deep_copy(), delimiter: m.delimiter, tokens: copy_tokens(&m.tokens) },
            ),
            TypeExpr::Verbatim(v) => TypeExpr::Verbatim(copy_tokens(v)),
        }
    }
}

impl QualifiedSelf {
    pub fn deep_copy(&self) -> (r: QualifiedSelf)
        ensures
            r@ == self@,
        decreases self,
    {
        QualifiedSelf { ty: Box::new(self.ty.deep_copy()), position: self.position, as_trait: self.as_trait }
    }
}

impl Path {
    pub fn deep_copy(&self) -> (r: Path)
        ensures
            r@ == self@,
        decreases self,
    {
        Path { leading_colon: self.leading_colon, segments: copy_segments(&self.segments) }
    }
}

impl PathSegment {
    pub fn deep_copy(&self) -> (r: PathSegment)
        ensures
            r@ == self@,
        decreases self,
    {
        PathSegment { ident: self.ident.clone(), arguments: self.arguments.deep_copy() }
    }
}

impl PathArguments {
    pub fn deep_copy(&self) -> (r: PathArguments)
        ensures
            r@ == self@,
        decreases self,
    {
        match self {
            PathArguments::Empty => PathArguments::Empty,
            PathArguments::AngleBracketed(v) => PathArguments::AngleBracketed(copy_generic_args(v)),
            PathArguments::Parenthesized(v, o) => PathArguments::Parenthesized(copy_types(v), copy_opt_type(o)),
        }
    }
}

impl GenericArgument {
    pub fn deep_copy(&self) -> (r: GenericArgument)
        ensures
            r@ == self@,
        decreases self,
    {
        match self {
            GenericArgument::Type(t) => GenericArgument::Type(t.deep_copy()),
            GenericArgument::AssocType(n, t) => GenericArgument::AssocType(n.clone(), t.deep_copy()),
            GenericArgument::Verbatim(v) => GenericArgument::Verbatim(copy_tokens(v)),
        }
    }
}

impl TypeBound {
    pub fn deep_copy(&self) -> (r: TypeBound)
        ensures
            r@ == self@,
        decreases self,
    {
        match self {
            TypeBound::Trait(t) => TypeBound::Trait(
                TraitBound { lifetimes: copy_strings(&t.lifetimes), maybe: t.maybe, path: t.path.deep_copy() },
            ),
            TypeBound::Lifetime(l) => TypeBound::Lifetime(l.clone()),
            TypeBound::Verbatim(v) => TypeBound::Verbatim(copy_tokens(v)),
        }
    }
}

} // verus!
