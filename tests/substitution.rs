use local_type_alias::augmented::{
    AugmentedGenerics, AugmentedImpl, AugmentedWhereClause, AugmentedWherePredicate,
    InlineTypeAlias,
};
use local_type_alias::item::{
    expand_item, Attribute, GenericParam, Generics, Item, ItemKind, Member, Signature,
    WherePredicate,
};
use local_type_alias::options::{Lit, Options, Setting};
use local_type_alias::substitute::Visitor;
use local_type_alias::syntax::{
    Delimiter, GenericArgument, MacroCall, Path, PathArguments, PathSegment, QualifiedSelf,
    TokenTree, TraitBound, TypeBound, TypeExpr,
};
use local_type_alias::table::{AliasBody, AliasDef, AliasError, Expansion};

fn seg(name: &str) -> PathSegment {
    PathSegment { ident: name.to_string(), arguments: PathArguments::Empty }
}

fn path(names: &[&str]) -> Path {
    Path { leading_colon: false, segments: names.iter().map(|n| seg(n)).collect() }
}

fn name(n: &str) -> TypeExpr {
    TypeExpr::Path(None, path(&[n]))
}

fn generic(n: &str, args: Vec<TypeExpr>) -> TypeExpr {
    TypeExpr::Path(
        None,
        Path {
            leading_colon: false,
            segments: vec![PathSegment {
                ident: n.to_string(),
                arguments: PathArguments::AngleBracketed(
                    args.into_iter().map(GenericArgument::Type).collect(),
                ),
            }],
        },
    )
}

fn lit(s: &str) -> TokenTree {
    TokenTree::Literal(s.to_string())
}

fn array(t: TypeExpr, n: &str) -> TypeExpr {
    TypeExpr::Array(Box::new(t), vec![lit(n)])
}

fn ptr_mut(t: TypeExpr) -> TypeExpr {
    TypeExpr::Ptr(true, Box::new(t))
}

fn fn_ptr(args: Vec<TypeExpr>, ret: TypeExpr) -> TypeExpr {
    TypeExpr::BareFn(vec![], args, Some(Box::new(ret)))
}

fn trait_bound(p: Path) -> TypeBound {
    TypeBound::Trait(TraitBound { lifetimes: vec![], maybe: false, path: p })
}

fn type_alias(n: &str, t: TypeExpr) -> AliasDef {
    AliasDef { name: n.to_string(), body: AliasBody::Type(t) }
}

fn trait_alias(n: &str, b: Vec<TypeBound>) -> AliasDef {
    AliasDef { name: n.to_string(), body: AliasBody::Trait(b) }
}

fn visitor(aliases: Vec<AliasDef>, in_macros: bool) -> Visitor {
    Visitor { aliases, in_macros }
}

fn dbg<T: std::fmt::Debug>(t: &T) -> String {
    format!("{:?}", t)
}

fn subst(v: &Visitor, t: &TypeExpr) -> Result<TypeExpr, AliasError> {
    let mut stack: Vec<Expansion> = Vec::new();
    v.subst_type(t, v.aliases.len(), &mut stack)
}

fn marker(n: &str) -> TokenTree {
    TokenTree::Group(
        Delimiter::Brace,
        vec![TokenTree::Group(Delimiter::Brace, vec![TokenTree::Ident(n.to_string())])],
    )
}

fn x_y_z() -> Vec<AliasDef> {
    vec![
        type_alias("X", array(name("u8"), "4")),
        type_alias("Y", ptr_mut(name("X"))),
        type_alias("Z", fn_ptr(vec![name("X")], name("Y"))),
    ]
}

#[test]
fn chained_aliases_resolve_in_a_predicate() {
    let v = visitor(x_y_z(), false);
    let expected = fn_ptr(vec![array(name("u8"), "4")], ptr_mut(array(name("u8"), "4")));
    let bound = trait_bound(Path {
        leading_colon: false,
        segments: vec![PathSegment {
            ident: "PartialEq".to_string(),
            arguments: PathArguments::AngleBracketed(vec![GenericArgument::Type(fn_ptr(
                vec![array(name("u8"), "4")],
                ptr_mut(array(name("u8"), "4")),
            ))]),
        }],
    });
    let p = WherePredicate::Type { lifetimes: vec![], bounded: name("Z"), bounds: vec![bound] };
    let r = v.visit_predicate(&p).unwrap();
    match r {
        WherePredicate::Type { bounded, bounds, .. } => {
            assert_eq!(dbg(&bounded), dbg(&expected));
            assert_eq!(bounds.len(), 1);
        },
        _ => panic!("expected a type predicate"),
    }
}

fn macro_member(tokens: Vec<TokenTree>) -> Member {
    Member::Macro(MacroCall { path: path(&["m"]), delimiter: Delimiter::Parenthesis, tokens })
}

#[test]
fn markers_left_alone_without_the_option() {
    let v = visitor(x_y_z(), false);
    let m = macro_member(vec![TokenTree::Ident("a".to_string()), marker("X")]);
    let before = dbg(&m);
    let r = v.visit_member(&m).unwrap();
    assert_eq!(dbg(&r), before);
}

#[test]
fn markers_replaced_at_every_depth_with_the_option() {
    let v = visitor(x_y_z(), true);
    let deep = TokenTree::Group(
        Delimiter::Bracket,
        vec![TokenTree::Group(Delimiter::Parenthesis, vec![marker("Y")])],
    );
    let m = macro_member(vec![marker("X"), TokenTree::Punct(',', false), deep]);
    let r = v.visit_member(&m).unwrap();
    let expected = macro_member(vec![
        TokenTree::Type(Box::new(array(name("u8"), "4"))),
        TokenTree::Punct(',', false),
        TokenTree::Group(
            Delimiter::Bracket,
            vec![TokenTree::Group(
                Delimiter::Parenthesis,
                vec![TokenTree::Type(Box::new(ptr_mut(array(name("u8"), "4"))))],
            )],
        ),
    ]);
    assert_eq!(dbg(&r), dbg(&expected));
}

#[test]
fn marker_of_unknown_name_is_kept() {
    let v = visitor(x_y_z(), true);
    let m = macro_member(vec![marker("W")]);
    let before = dbg(&m);
    assert_eq!(dbg(&v.visit_member(&m).unwrap()), before);
}

#[test]
fn resolved_type_is_unchanged() {
    let v = visitor(x_y_z(), true);
    let t = TypeExpr::Tuple(vec![
        generic("Vec", vec![name("u8")]),
        TypeExpr::Reference(Some("'a".to_string()), false, Box::new(name("str"))),
        TypeExpr::Never,
    ]);
    assert_eq!(dbg(&subst(&v, &t).unwrap()), dbg(&t));
}

#[test]
fn substituting_twice_changes_nothing_more() {
    let v = visitor(x_y_z(), false);
    let once = subst(&v, &name("Z")).unwrap();
    let twice = subst(&v, &once).unwrap();
    assert_eq!(dbg(&once), dbg(&twice));
}

#[test]
fn alias_of_alias_resolves_to_the_end() {
    let v = visitor(vec![type_alias("Y", name("i32")), type_alias("X", name("Y"))], false);
    assert_eq!(dbg(&subst(&v, &name("X")).unwrap()), dbg(&name("i32")));
    assert_eq!(dbg(&subst(&v, &name("Y")).unwrap()), dbg(&name("i32")));
}

#[test]
fn later_declaration_wins() {
    let v = visitor(vec![type_alias("X", name("u8")), type_alias("X", name("u16"))], false);
    assert_eq!(dbg(&subst(&v, &name("X")).unwrap()), dbg(&name("u16")));
}

#[test]
fn wrappers_keep_their_shape() {
    let v = visitor(vec![type_alias("X", name("u8"))], false);
    let t = TypeExpr::Tuple(vec![
        TypeExpr::Reference(None, true, Box::new(name("X"))),
        ptr_mut(name("X")),
        array(name("X"), "3"),
        TypeExpr::Slice(Box::new(name("X"))),
    ]);
    let expected = TypeExpr::Tuple(vec![
        TypeExpr::Reference(None, true, Box::new(name("u8"))),
        ptr_mut(name("u8")),
        array(name("u8"), "3"),
        TypeExpr::Slice(Box::new(name("u8"))),
    ]);
    assert_eq!(dbg(&subst(&v, &t).unwrap()), dbg(&expected));
}

#[test]
fn generic_arguments_are_substituted_but_not_the_path() {
    let v = visitor(vec![type_alias("X", name("u8")), type_alias("Vec", name("Nope"))], false);
    let t = generic("Vec", vec![name("X")]);
    assert_eq!(dbg(&subst(&v, &t).unwrap()), dbg(&generic("Vec", vec![name("u8")])));
}

#[test]
fn self_referential_alias_is_a_cycle() {
    let v = visitor(vec![type_alias("X", name("X"))], false);
    match subst(&v, &name("X")) {
        Err(AliasError::Cycle { name, chain }) => {
            assert_eq!(name, "X");
            assert_eq!(chain, vec!["X".to_string()]);
        },
        other => panic!("expected a cycle, got {:?}", other),
    }
}

#[test]
fn mutually_referential_aliases_are_a_cycle() {
    let v = visitor(vec![type_alias("X", name("Y")), type_alias("Y", name("X"))], false);
    match subst(&v, &name("X")) {
        Err(AliasError::Cycle { name, chain }) => {
            assert_eq!(name, "Y");
            assert_eq!(chain, vec!["X".to_string()]);
        },
        other => panic!("expected a cycle, got {:?}", other),
    }
    match subst(&v, &name("Y")) {
        Err(AliasError::Cycle { name, chain }) => {
            assert_eq!(name, "Y");
            assert_eq!(chain, vec!["Y".to_string(), "X".to_string()]);
        },
        other => panic!("expected a cycle, got {:?}", other),
    }
}

#[test]
fn reference_to_a_later_alias_is_a_cycle() {
    let v = visitor(vec![type_alias("X", name("Y")), type_alias("Y", name("i32"))], false);
    match subst(&v, &name("X")) {
        Err(AliasError::Cycle { name, chain }) => {
            assert_eq!(name, "Y");
            assert_eq!(chain, vec!["X".to_string()]);
        },
        other => panic!("expected a cycle, got {:?}", other),
    }
    assert_eq!(dbg(&subst(&v, &name("Y")).unwrap()), dbg(&name("i32")));
}

#[test]
fn forward_reference_in_an_item_gives_no_output() {
    let item = Item {
        attrs: vec![Attribute::Alias(vec![type_alias("X", name("Y")), type_alias("Y", name("i32"))])],
        generics: Generics { params: vec![], where_clause: None },
        kind: ItemKind::Types(vec![name("X")]),
    };
    assert!(matches!(expand_item(item, false), Err(AliasError::Cycle { .. })));
}

#[test]
fn forward_trait_alias_reference_is_a_cycle() {
    let v = visitor(
        vec![trait_alias("A", bounds_of(&["B"])), trait_alias("B", bounds_of(&["Clone"]))],
        false,
    );
    let mut stack: Vec<Expansion> = Vec::new();
    let r = v.subst_bounds(&bounds_of(&["A"]), 2, &mut stack);
    assert!(matches!(r, Err(AliasError::Cycle { name, .. }) if name == "B"));
}

#[test]
fn redeclared_alias_overwrites_and_cannot_refer_to_itself() {
    let v = visitor(vec![type_alias("X", name("u8")), type_alias("X", generic("Vec", vec![name("X")]))], false);
    assert!(matches!(subst(&v, &name("X")), Err(AliasError::Cycle { name, .. }) if name == "X"));
    let v = visitor(vec![type_alias("X", name("u8")), type_alias("X", name("u16"))], false);
    assert_eq!(dbg(&subst(&v, &name("X")).unwrap()), dbg(&name("u16")));
}

#[test]
fn cycle_in_an_item_gives_no_output() {
    let item = Item {
        attrs: vec![Attribute::Alias(vec![type_alias("X", generic("Vec", vec![name("X")]))])],
        generics: Generics { params: vec![], where_clause: None },
        kind: ItemKind::Types(vec![name("X")]),
    };
    assert!(matches!(expand_item(item, false), Err(AliasError::Cycle { .. })));
}

fn bounds_of(names: &[&str]) -> Vec<TypeBound> {
    names.iter().map(|n| trait_bound(path(&[n]))).collect()
}

#[test]
fn trait_alias_is_spliced_in_place() {
    let v = visitor(vec![trait_alias("A", bounds_of(&["Trait1", "Trait2"]))], false);
    let mut stack: Vec<Expansion> = Vec::new();
    let r = v.subst_bounds(&bounds_of(&["A", "Trait3"]), v.aliases.len(), &mut stack).unwrap();
    assert_eq!(dbg(&r), dbg(&bounds_of(&["Trait1", "Trait2", "Trait3"])));
    let r = v.subst_bounds(&bounds_of(&["Trait0", "A"]), v.aliases.len(), &mut stack).unwrap();
    assert_eq!(dbg(&r), dbg(&bounds_of(&["Trait0", "Trait1", "Trait2"])));
}

#[test]
fn spliced_bounds_have_their_types_substituted() {
    let bound = trait_bound(Path {
        leading_colon: false,
        segments: vec![PathSegment {
            ident: "PartialEq".to_string(),
            arguments: PathArguments::AngleBracketed(vec![GenericArgument::Type(name("X"))]),
        }],
    });
    let v = visitor(vec![type_alias("X", name("u8")), trait_alias("A", vec![bound])], false);
    let mut stack: Vec<Expansion> = Vec::new();
    let r = v.subst_bounds(&bounds_of(&["A"]), v.aliases.len(), &mut stack).unwrap();
    let expected = trait_bound(Path {
        leading_colon: false,
        segments: vec![PathSegment {
            ident: "PartialEq".to_string(),
            arguments: PathArguments::AngleBracketed(vec![GenericArgument::Type(name("u8"))]),
        }],
    });
    assert_eq!(dbg(&r), dbg(&vec![expected]));
}

fn qualified(self_ty: TypeExpr, names: &[&str]) -> TypeExpr {
    TypeExpr::Path(
        Some(QualifiedSelf { ty: Box::new(self_ty), position: 1, as_trait: true }),
        path(names),
    )
}

#[test]
fn trait_alias_fused_into_qualified_path() {
    let add = Path {
        leading_colon: false,
        segments: vec![
            seg("std"),
            seg("ops"),
            PathSegment {
                ident: "Add".to_string(),
                arguments: PathArguments::AngleBracketed(vec![GenericArgument::Type(name("X"))]),
            },
        ],
    };
    let v = visitor(
        vec![type_alias("X", name("u8")), trait_alias("A", vec![trait_bound(add)])],
        false,
    );
    let r = subst(&v, &qualified(name("X"), &["A", "Output"])).unwrap();
    let mut segments = vec![
        seg("std"),
        seg("ops"),
        PathSegment {
            ident: "Add".to_string(),
            arguments: PathArguments::AngleBracketed(vec![GenericArgument::Type(name("u8"))]),
        },
    ];
    segments.push(seg("Output"));
    let expected = TypeExpr::Path(
        Some(QualifiedSelf { ty: Box::new(name("u8")), position: 3, as_trait: true }),
        Path { leading_colon: false, segments },
    );
    assert_eq!(dbg(&r), dbg(&expected));
}

#[test]
fn multi_bound_alias_in_qualified_path_is_rejected() {
    let v = visitor(vec![trait_alias("A", bounds_of(&["Clone", "Send"]))], false);
    let r = subst(&v, &qualified(name("T"), &["A", "Output"]));
    assert!(matches!(r, Err(AliasError::MultipleBounds(n)) if n == "A"));
}

#[test]
fn generic_alias_in_qualified_path_is_rejected() {
    let v = visitor(vec![trait_alias("A", bounds_of(&["Clone"]))], false);
    let p = Path {
        leading_colon: false,
        segments: vec![
            PathSegment {
                ident: "A".to_string(),
                arguments: PathArguments::AngleBracketed(vec![GenericArgument::Type(name("u8"))]),
            },
            seg("Output"),
        ],
    };
    let t = TypeExpr::Path(
        Some(QualifiedSelf { ty: Box::new(name("T")), position: 1, as_trait: true }),
        p,
    );
    assert!(matches!(subst(&v, &t), Err(AliasError::GenericAlias(n)) if n == "A"));
}

#[test]
fn lifetime_alias_in_qualified_path_is_rejected() {
    let v = visitor(vec![trait_alias("A", vec![TypeBound::Lifetime("'a".to_string())])], false);
    let r = subst(&v, &qualified(name("T"), &["A", "Output"]));
    assert!(matches!(r, Err(AliasError::NonTraitBound(n)) if n == "A"));
}

fn plain_item(attrs: Vec<Attribute>, kind: ItemKind) -> Item {
    Item { attrs, generics: Generics { params: vec![], where_clause: None }, kind }
}

#[test]
fn declarations_are_removed_and_applied() {
    let other = Attribute::Other(vec![TokenTree::Ident("inline".to_string())]);
    let item = Item {
        attrs: vec![
            Attribute::Alias(vec![type_alias("X", name("i32"))]),
            Attribute::Other(vec![TokenTree::Ident("inline".to_string())]),
        ],
        generics: Generics {
            params: vec![GenericParam::Type {
                name: "T".to_string(),
                bounds: vec![],
                default: Some(name("X")),
            }],
            where_clause: Some(vec![WherePredicate::Type {
                lifetimes: vec![],
                bounded: name("X"),
                bounds: bounds_of(&["Copy"]),
            }]),
        },
        kind: ItemKind::Fn(Signature { inputs: vec![name("X")], output: Some(name("X")), body: vec![generic("Vec", vec![name("X")])] }),
    };
    let r = expand_item(item, false).unwrap();
    let expected = Item {
        attrs: vec![other],
        generics: Generics {
            params: vec![GenericParam::Type {
                name: "T".to_string(),
                bounds: vec![],
                default: Some(name("i32")),
            }],
            where_clause: Some(vec![WherePredicate::Type {
                lifetimes: vec![],
                bounded: name("i32"),
                bounds: bounds_of(&["Copy"]),
            }]),
        },
        kind: ItemKind::Fn(Signature { inputs: vec![name("i32")], output: Some(name("i32")), body: vec![generic("Vec", vec![name("i32")])] }),
    };
    assert_eq!(dbg(&r), dbg(&expected));
}

#[test]
fn aliases_do_not_leak_into_another_item() {
    let a = plain_item(
        vec![Attribute::Alias(vec![type_alias("X", name("i32"))])],
        ItemKind::Types(vec![name("X")]),
    );
    let b = plain_item(vec![], ItemKind::Types(vec![name("X")]));
    let before = dbg(&b);
    let ra = expand_item(a, false).unwrap();
    let rb = expand_item(b, false).unwrap();
    assert_eq!(dbg(&ra.kind), dbg(&ItemKind::Types(vec![name("i32")])));
    assert_eq!(dbg(&rb), before);
}

#[test]
fn verbatim_item_is_unsupported() {
    let mut item = plain_item(vec![], ItemKind::Verbatim);
    assert!(matches!(Visitor::new(false, &mut item), Err(AliasError::UnsupportedItem)));
}

#[test]
fn impl_members_are_substituted() {
    let item = plain_item(
        vec![Attribute::Alias(vec![type_alias("X", name("u8"))])],
        ItemKind::Impl {
            trait_path: Some(Path {
                leading_colon: false,
                segments: vec![PathSegment {
                    ident: "From".to_string(),
                    arguments: PathArguments::AngleBracketed(vec![GenericArgument::Type(name("X"))]),
                }],
            }),
            self_ty: generic("Wrapper", vec![name("X")]),
            members: vec![Member::Const(name("X")), Member::Type(name("X")), Member::Verbatim],
        },
    );
    let r = expand_item(item, false).unwrap();
    match r.kind {
        ItemKind::Impl { trait_path, self_ty, members } => {
            assert_eq!(dbg(&self_ty), dbg(&generic("Wrapper", vec![name("u8")])));
            assert!(dbg(&trait_path).contains("\"u8\""));
            assert_eq!(dbg(&members), dbg(&vec![Member::Const(name("u8")), Member::Type(name("u8")), Member::Verbatim]));
        },
        _ => panic!("expected an impl"),
    }
}

#[test]
fn where_clause_aliases_of_an_impl() {
    let aug = AugmentedImpl {
        attrs: vec![],
        generics: AugmentedGenerics {
            params: vec![],
            where_clause: Some(AugmentedWhereClause {
                predicates: vec![
                    AugmentedWherePredicate::TypeAlias(InlineTypeAlias {
                        ident: "X".to_string(),
                        ty: name("i32"),
                    }),
                    AugmentedWherePredicate::WherePredicate(WherePredicate::Type {
                        lifetimes: vec![],
                        bounded: name("X"),
                        bounds: bounds_of(&["Copy"]),
                    }),
                ],
            }),
        },
        trait_path: None,
        self_ty: generic("S", vec![name("X")]),
        members: vec![],
    };
    let r = aug.substitute(false).unwrap();
    let preds = r.generics.where_clause.unwrap();
    assert_eq!(preds.len(), 1);
    assert_eq!(
        dbg(&preds[0]),
        dbg(&WherePredicate::Type { lifetimes: vec![], bounded: name("i32"), bounds: bounds_of(&["Copy"]) })
    );
    assert!(matches!(r.kind, ItemKind::Impl { .. }));
}

#[test]
fn where_clause_conversions() {
    let clause = AugmentedWhereClause::from_where_clause(vec![WherePredicate::Verbatim(vec![lit("'a")])]);
    assert_eq!(clause.predicates.len(), 1);
    assert_eq!(clause.aliases().len(), 0);
    let kept = clause.into_where_clause_lossy();
    assert_eq!(kept.len(), 1);
    let alias = AugmentedWherePredicate::TypeAlias(InlineTypeAlias { ident: "X".to_string(), ty: name("u8") });
    assert!(alias.into_predicate().is_none());
}

fn setting(n: &str, value: Option<Lit>) -> Setting {
    Setting { name: n.to_string(), value }
}

#[test]
fn options_default_off() {
    assert!(!Options::default().in_macros);
    assert!(!Options::from_settings(&vec![]).unwrap().in_macros);
}

#[test]
fn options_macros_flag_and_value() {
    assert!(Options::from_settings(&vec![setting("macros", None)]).unwrap().in_macros);
    assert!(Options::from_settings(&vec![setting("macros", Some(Lit::Bool(true)))]).unwrap().in_macros);
    let s = vec![setting("macros", None), setting("macros", Some(Lit::Bool(false)))];
    assert!(!Options::from_settings(&s).unwrap().in_macros);
}

#[test]
fn options_errors() {
    let r = Options::from_settings(&vec![setting("other", None)]);
    assert!(matches!(r, Err(AliasError::UnsupportedOption(n)) if n == "other"));
    let r = Options::from_settings(&vec![setting("macros", Some(Lit::Other("1".to_string())))]);
    assert!(matches!(r, Err(AliasError::ExpectedBool(n)) if n == "macros"));
}

#[test]
fn forward_reference_in_a_where_clause_is_a_cycle() {
    let alias = |n: &str, t: TypeExpr| AugmentedWherePredicate::TypeAlias(InlineTypeAlias { ident: n.to_string(), ty: t });
    let aug = AugmentedImpl {
        attrs: vec![],
        generics: AugmentedGenerics {
            params: vec![],
            where_clause: Some(AugmentedWhereClause { predicates: vec![alias("X", name("Y")), alias("Y", name("i32"))] }),
        },
        trait_path: None,
        self_ty: name("X"),
        members: vec![],
    };
    assert!(matches!(aug.substitute(false), Err(AliasError::Cycle { .. })));
}

#[test]
fn enum_fields_are_substituted() {
    let item = plain_item(
        vec![Attribute::Alias(vec![type_alias("X", name("i32"))])],
        ItemKind::Types(vec![name("X"), TypeExpr::Tuple(vec![name("X"), name("u8")])]),
    );
    let r = expand_item(item, false).unwrap();
    assert_eq!(
        dbg(&r.kind),
        dbg(&ItemKind::Types(vec![name("i32"), TypeExpr::Tuple(vec![name("i32"), name("u8")])]))
    );
}

#[test]
fn cycle_through_a_pointer_is_rejected() {
    let v = visitor(vec![type_alias("X", TypeExpr::Ptr(false, Box::new(name("Y")))), type_alias("Y", name("X"))], false);
    assert!(matches!(subst(&v, &name("X")), Err(AliasError::Cycle { .. })));
    assert!(matches!(subst(&v, &name("Y")), Err(AliasError::Cycle { .. })));
}

#[test]
fn trait_items_are_substituted() {
    let item = plain_item(
        vec![Attribute::Alias(vec![type_alias("X", name("u8")), trait_alias("A", bounds_of(&["Clone", "Send"]))])],
        ItemKind::Trait {
            supertraits: bounds_of(&["A"]),
            members: vec![
                Member::Const(name("X")),
                Member::AssocType { bounds: bounds_of(&["A"]), default: Some(name("X")) },
                Member::Fn(Signature { inputs: vec![name("X")], output: None, body: vec![] }),
            ],
        },
    );
    let r = expand_item(item, false).unwrap();
    let expected = ItemKind::Trait {
        supertraits: bounds_of(&["Clone", "Send"]),
        members: vec![
            Member::Const(name("u8")),
            Member::AssocType { bounds: bounds_of(&["Clone", "Send"]), default: Some(name("u8")) },
            Member::Fn(Signature { inputs: vec![name("u8")], output: None, body: vec![] }),
        ],
    };
    assert_eq!(dbg(&r.kind), dbg(&expected));
}

#[test]
fn item_without_types_has_only_its_declarations_removed() {
    let other = Attribute::Other(vec![TokenTree::Ident("doc".to_string())]);
    let item = plain_item(
        vec![Attribute::Alias(vec![type_alias("X", name("u8"))]), other],
        ItemKind::Other,
    );
    let r = expand_item(item, false).unwrap();
    let expected = plain_item(vec![Attribute::Other(vec![TokenTree::Ident("doc".to_string())])], ItemKind::Other);
    assert_eq!(dbg(&r), dbg(&expected));
}

#[test]
fn macro_item_markers_follow_the_option() {
    let call = |t: Vec<TokenTree>| ItemKind::Macro(MacroCall { path: path(&["m"]), delimiter: Delimiter::Brace, tokens: t });
    let decl = || vec![Attribute::Alias(vec![type_alias("X", name("u8"))])];
    let r = expand_item(plain_item(decl(), call(vec![marker("X")])), true).unwrap();
    assert_eq!(dbg(&r.kind), dbg(&call(vec![TokenTree::Type(Box::new(name("u8")))])));
    let r = expand_item(plain_item(decl(), call(vec![marker("X")])), false).unwrap();
    assert_eq!(dbg(&r.kind), dbg(&call(vec![marker("X")])));
}

#[test]
fn empty_trait_alias_is_refused() {
    let mut item = plain_item(vec![Attribute::Alias(vec![trait_alias("A", vec![])])], ItemKind::Other);
    let r = Visitor::new(false, &mut item);
    assert!(matches!(r, Err(AliasError::EmptyBounds(n)) if n == "A"));
    assert_eq!(item.attrs.len(), 1);
}

#[test]
fn function_body_types_are_substituted() {
    let item = plain_item(
        vec![Attribute::Alias(vec![type_alias("X", name("u8"))])],
        ItemKind::Fn(Signature { inputs: vec![], output: None, body: vec![name("X"), ptr_mut(name("X"))] }),
    );
    let r = expand_item(item, false).unwrap();
    let expected = ItemKind::Fn(Signature { inputs: vec![], output: None, body: vec![name("u8"), ptr_mut(name("u8"))] });
    assert_eq!(dbg(&r.kind), dbg(&expected));
}

#[test]
fn where_clause_aliases_resolve_in_order() {
    let alias = |n: &str, t: TypeExpr| AugmentedWherePredicate::TypeAlias(InlineTypeAlias { ident: n.to_string(), ty: t });
    let aug = AugmentedImpl {
        attrs: vec![],
        generics: AugmentedGenerics {
            params: vec![],
            where_clause: Some(AugmentedWhereClause {
                predicates: vec![alias("Y", name("i32")), alias("X", generic("Vec", vec![name("Y")]))],
            }),
        },
        trait_path: None,
        self_ty: TypeExpr::Tuple(vec![name("X"), name("Y")]),
        members: vec![],
    };
    let r = aug.substitute(false).unwrap();
    match r.kind {
        ItemKind::Impl { self_ty, .. } => assert_eq!(
            dbg(&self_ty),
            dbg(&TypeExpr::Tuple(vec![generic("Vec", vec![name("i32")]), name("i32")]))
        ),
        _ => panic!("expected an impl"),
    }
    assert_eq!(r.generics.where_clause.unwrap().len(), 0);
}
