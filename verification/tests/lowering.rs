//! Lowering behavior on hand-built syntax values.

use tendon::attributes::{Attribute, Meta, MetaInner, Span, Visibility};
use tendon::items::{Abi, GenericParams, Repr, StructKind, Type};
use tendon::lower::{
    extract_string, lower_enum, lower_function_item, lower_metadata, lower_struct,
};
use tendon::paths::Path;
use tendon::syntax::{
    SynArg, SynEnum, SynField, SynFields, SynFunction, SynSignature, SynStruct, SynType,
    SynVariant, SynVis,
};
use tendon::tokens::{Token, Tokens};

fn span() -> Span {
    Span::new("fake_file.rs", 0, 0)
}

fn doc_attr(text: &str) -> Attribute {
    Attribute::Meta(Meta::Assign {
        path: Path::fake("doc"),
        literal: Tokens {
            toks: vec![Token::Str(text.to_owned())],
        },
    })
}

fn assign_attr(name: &str, value: &str) -> Attribute {
    Attribute::Meta(Meta::Assign {
        path: Path::fake(name),
        literal: Tokens {
            toks: vec![Token::Str(value.to_owned())],
        },
    })
}

fn call_attr(name: &str, args: Vec<MetaInner>) -> Attribute {
    Attribute::Meta(Meta::Call {
        path: Path::fake(name),
        args,
    })
}

fn path_ty(name: &str) -> SynType {
    SynType::Path {
        path: Path::fake(name),
        params: Vec::new(),
    }
}

#[test]
fn struct_lowering() {
    let struct_ = SynStruct {
        vis: SynVis::Pub,
        attrs: vec![
            doc_attr(" This is an example struct."),
            call_attr(
                "derive",
                vec![MetaInner::Meta(Meta::Path(Path::fake("Clone")))],
            ),
            call_attr("repr", vec![MetaInner::Meta(Meta::Path(Path::fake("C")))]),
        ],
        name: "Thing".to_owned(),
        generics: GenericParams {
            lifetimes: vec!["a".to_owned()],
            type_params: vec!["T".to_owned()],
        },
        fields: SynFields::Named(vec![
            SynField {
                vis: SynVis::Pub,
                attrs: vec![doc_attr(" This is a reference to a different thing.")],
                name: Some("reference".to_owned()),
                ty: SynType::Reference {
                    lifetime: Some("a".to_owned()),
                    mut_: false,
                    inner: Box::new(path_ty("T")),
                },
                span: span(),
            },
            SynField {
                vis: SynVis::Inherited,
                attrs: vec![],
                name: Some("others".to_owned()),
                ty: SynType::Path {
                    path: Path::fake("Vec"),
                    params: vec![SynType::Reference {
                        lifetime: Some("a".to_owned()),
                        mut_: false,
                        inner: Box::new(path_ty("T")),
                    }],
                },
                span: span(),
            },
            SynField {
                vis: SynVis::Inherited,
                attrs: vec![],
                name: Some("count".to_owned()),
                ty: path_ty("i32"),
                span: span(),
            },
            SynField {
                vis: SynVis::Inherited,
                attrs: vec![],
                name: Some("path".to_owned()),
                ty: SynType::Reference {
                    lifetime: Some("a".to_owned()),
                    mut_: false,
                    inner: Box::new(SynType::Path {
                        path: Path {
                            segments: vec![
                                "std".to_owned(),
                                "path".to_owned(),
                                "Path".to_owned(),
                            ],
                        },
                        params: Vec::new(),
                    }),
                },
                span: span(),
            },
        ]),
        span: span(),
    };

    let struct_ = lower_struct(&Visibility::NonPub, struct_).unwrap();

    assert_eq!(struct_.name, "Thing".to_owned());
    assert_eq!(struct_.metadata.visibility, Visibility::Pub);
    assert_eq!(struct_.type_metadata.repr, Repr::C);
    assert_eq!(struct_.type_metadata.derives[0].path, Path::fake("Clone"));
    assert_eq!(struct_.kind, StructKind::Named);
    assert_eq!(struct_.fields.len(), 4);
    assert_eq!(struct_.fields[0].name, "reference".to_owned());
    assert_eq!(struct_.fields[1].name, "others".to_owned());
    assert_eq!(struct_.fields[2].name, "count".to_owned());
    assert_eq!(struct_.fields[3].name, "path".to_owned());

    match &struct_.fields[2].type_ {
        Type::Path(pt) => {
            assert_eq!(pt.path, Path::fake("i32"));
            assert!(pt.params.is_empty());
        }
        _ => panic!("count should lower to a path type"),
    }

    assert_eq!(struct_.fields[0].metadata.visibility, Visibility::Pub);
    assert_eq!(struct_.fields[1].metadata.visibility, Visibility::NonPub);
    assert_eq!(struct_.fields[2].metadata.visibility, Visibility::NonPub);
    assert_eq!(struct_.fields[3].metadata.visibility, Visibility::NonPub);
    assert_eq!(
        struct_.fields[0].metadata.docs,
        Some(" This is a reference to a different thing.".to_owned())
    );
}

#[test]
fn enum_lowering() {
    let enum_ = SynEnum {
        vis: SynVis::Pub,
        attrs: vec![call_attr(
            "repr",
            vec![
                MetaInner::Meta(Meta::Path(Path::fake("C"))),
                MetaInner::Meta(Meta::Path(Path::fake("i8"))),
            ],
        )],
        name: "Thing2".to_owned(),
        generics: GenericParams::default(),
        variants: vec![
            SynVariant {
                attrs: vec![
                    doc_attr(" enum variant"),
                    Attribute::Meta(Meta::Assign {
                        path: Path::fake("attribute"),
                        literal: Tokens {
                            toks: vec![Token::Str("banana".to_owned())],
                        },
                    }),
                ],
                name: "Variant1".to_owned(),
                fields: SynFields::Unit,
                span: span(),
            },
            SynVariant {
                attrs: vec![],
                name: "Variant2".to_owned(),
                fields: SynFields::Unnamed(vec![SynField {
                    vis: SynVis::Inherited,
                    attrs: vec![],
                    name: None,
                    ty: path_ty("i32"),
                    span: span(),
                }]),
                span: span(),
            },
            SynVariant {
                attrs: vec![],
                name: "Variant3".to_owned(),
                fields: SynFields::Named(vec![SynField {
                    vis: SynVis::Inherited,
                    attrs: vec![],
                    name: Some("val".to_owned()),
                    ty: path_ty("i32"),
                    span: span(),
                }]),
                span: span(),
            },
        ],
        span: span(),
    };

    let enum_ = lower_enum(&Visibility::NonPub, enum_).unwrap();

    assert_eq!(enum_.name, "Thing2".to_owned());
    assert_eq!(enum_.type_metadata.repr, Repr::IntOuterTag("i8".to_owned()));

    assert_eq!(enum_.variants.len(), 3);
    assert_eq!(enum_.variants[0].name, "Variant1".to_owned());
    assert_eq!(enum_.variants[1].name, "Variant2".to_owned());
    assert_eq!(enum_.variants[2].name, "Variant3".to_owned());
    assert_eq!(enum_.variants[0].kind, StructKind::Unit);
    assert_eq!(enum_.variants[1].kind, StructKind::Tuple);
    assert_eq!(enum_.variants[2].kind, StructKind::Named);

    assert_eq!(
        enum_.variants[0].metadata.docs,
        Some(" enum variant".to_owned())
    );
    assert_eq!(enum_.variants[0].metadata.extra_attributes.len(), 1);
    match &enum_.variants[0].metadata.extra_attributes[0] {
        Attribute::Meta(Meta::Assign { path, literal }) => {
            assert_eq!(*path, Path::fake("attribute"));
            assert_eq!(extract_string(literal), "banana".to_owned());
        }
        _ => panic!("the extra attribute should keep its assigned shape"),
    }

    assert_eq!(enum_.variants[0].fields.len(), 0);
    assert_eq!(enum_.variants[1].fields.len(), 1);
    assert_eq!(enum_.variants[2].fields.len(), 1);

    assert_eq!(enum_.variants[1].fields[0].name, "0".to_owned());
    assert_eq!(enum_.variants[2].fields[0].name, "val".to_owned());
}

#[test]
fn function_lowering() {
    let function_ = SynFunction {
        vis: SynVis::Pub,
        attrs: vec![
            Attribute::Meta(Meta::Path(Path::fake("no_mangle"))),
            assign_attr("export_name", "orange"),
            assign_attr("link_section", ".banana"),
        ],
        sig: SynSignature {
            name: "f".to_owned(),
            inputs: vec![
                SynArg::Typed {
                    name: Some("t".to_owned()),
                    ty: SynType::Reference {
                        lifetime: None,
                        mut_: false,
                        inner: Box::new(path_ty("T")),
                    },
                },
                SynArg::Typed {
                    name: Some("rest".to_owned()),
                    ty: SynType::Opaque(Tokens { toks: vec![] }),
                },
            ],
            variadic: true,
            output: Some(path_ty("i32")),
            is_unsafe: true,
            is_async: true,
            is_const: true,
            abi: Some(Some("system".to_owned())),
            generics: GenericParams {
                lifetimes: vec![],
                type_params: vec!["T".to_owned()],
            },
        },
        span: span(),
    };
    let function_ = lower_function_item(&Visibility::NonPub, function_).unwrap();
    assert!(function_.signature.is_const);
    assert!(function_.signature.is_unsafe);
    assert!(function_.signature.is_async);
    match &function_.signature.abi {
        Abi::Other(other) => assert_eq!(other, "system"),
        _ => panic!("an explicit convention string should be kept"),
    }
    assert!(function_.signature.variadic);
    assert!(function_.symbol_metadata.no_mangle);
    assert_eq!(
        function_.symbol_metadata.export_name,
        Some("orange".to_owned())
    );
    assert_eq!(
        function_.symbol_metadata.link_section,
        Some(".banana".to_owned())
    );
    assert!(!function_.signature.generics.is_empty());
    assert!(!function_.signature.args.is_empty());
    assert_eq!(function_.signature.args.len(), 1);
    assert!(!function_.signature.ret.is_void());
    assert_eq!(function_.name, "f".to_owned());

    let function_ = SynFunction {
        vis: SynVis::Inherited,
        attrs: vec![],
        sig: SynSignature {
            name: "g".to_owned(),
            inputs: vec![],
            variadic: false,
            output: None,
            is_unsafe: false,
            is_async: false,
            is_const: false,
            abi: None,
            generics: GenericParams::default(),
        },
        span: span(),
    };
    let function_ = lower_function_item(&Visibility::NonPub, function_).unwrap();
    assert!(!function_.signature.is_const);
    assert!(!function_.signature.is_unsafe);
    assert!(!function_.signature.is_async);
    assert_eq!(function_.signature.abi, Abi::Rust);
    assert!(!function_.signature.variadic);
    assert!(!function_.symbol_metadata.no_mangle);
    assert_eq!(function_.symbol_metadata.export_name, None);
    assert_eq!(function_.symbol_metadata.link_section, None);
    assert!(function_.signature.generics.is_empty());
    assert!(function_.signature.args.is_empty());
    assert!(function_.signature.ret.is_void());
    assert_eq!(function_.name, "g".to_owned());
}

#[test]
fn metadata_lowering() {
    let all = lower_metadata(
        &Visibility::Pub,
        SynVis::Pub,
        vec![
            doc_attr(" this is an item that exists"),
            assign_attr("must_use", "use me"),
            call_attr(
                "deprecated",
                vec![
                    MetaInner::Meta(Meta::Assign {
                        path: Path::fake("since"),
                        literal: Tokens {
                            toks: vec![Token::Str("0.2.0".to_owned())],
                        },
                    }),
                    MetaInner::Meta(Meta::Assign {
                        path: Path::fake("note"),
                        literal: Tokens {
                            toks: vec![Token::Str("don't use me".to_owned())],
                        },
                    }),
                ],
            ),
            Attribute::Meta(Meta::Path(Path::fake("other_attribute"))),
            call_attr(
                "other_attribute_meta",
                vec![MetaInner::Meta(Meta::Assign {
                    path: Path::fake("thing"),
                    literal: Tokens {
                        toks: vec![Token::Str("baz".to_owned())],
                    },
                })],
            ),
            Attribute::Other {
                path: Path::fake("other_attribute_weird"),
                input: Tokens {
                    toks: vec![
                        Token::Literal("2".to_owned()),
                        Token::Punct('+'),
                        Token::Literal("2".to_owned()),
                        Token::Punct('/'),
                        Token::Literal("3".to_owned()),
                        Token::Punct('-'),
                        Token::Literal("4".to_owned()),
                    ],
                },
            },
        ],
        span(),
    );
    assert_eq!(all.visibility, Visibility::Pub);
    assert_eq!(all.docs, Some(" this is an item that exists".to_owned()));
    assert_eq!(all.must_use, Some("use me".to_owned()));
    let dep = all.deprecated.as_ref().unwrap();
    assert_eq!(dep.since, Some("0.2.0".to_owned()));
    assert_eq!(dep.note, Some("don't use me".to_owned()));

    assert_eq!(all.extra_attributes.len(), 3);
    match &all.extra_attributes[0] {
        Attribute::Meta(Meta::Path(path)) => {
            assert_eq!(*path, Path::fake("other_attribute"));
        }
        _ => panic!("a bare attribute should lower to a path meta"),
    }
    match &all.extra_attributes[1] {
        Attribute::Meta(Meta::Call { path, args }) => {
            assert_eq!(*path, Path::fake("other_attribute_meta"));
            match &args[0] {
                MetaInner::Meta(Meta::Assign { path, literal }) => {
                    assert_eq!(*path, Path::fake("thing"));
                    assert_eq!(literal.to_text(), "\"baz\"".to_owned());
                }
                _ => panic!("the argument should keep its assigned shape"),
            }
        }
        _ => panic!("a call attribute should lower to a call meta"),
    }
    match &all.extra_attributes[2] {
        Attribute::Other { path, input } => {
            assert_eq!(*path, Path::fake("other_attribute_weird"));
            assert_eq!(input.to_text(), "2 + 2 / 3 - 4".to_owned());
        }
        _ => panic!("an unparsed attribute should stay an opaque token bag"),
    }

    let inherits_public =
        lower_metadata(&Visibility::Pub, SynVis::Inherited, vec![], span());
    assert_eq!(inherits_public.visibility, Visibility::Pub);

    let inherits_private =
        lower_metadata(&Visibility::NonPub, SynVis::Inherited, vec![], span());
    assert_eq!(inherits_private.visibility, Visibility::NonPub);
}

#[test]
fn tuple_field_names_use_decimal_indices() {
    assert_eq!(tendon::tokens::u64_to_string(0), "0".to_owned());
    assert_eq!(tendon::tokens::u64_to_string(10), "10".to_owned());
    assert_eq!(tendon::tokens::u64_to_string(907), "907".to_owned());
}

#[test]
fn type_position_macro_is_an_error() {
    let f = SynField {
        vis: SynVis::Inherited,
        attrs: vec![],
        name: Some("x".to_owned()),
        ty: SynType::Macro(Tokens { toks: vec![] }),
        span: span(),
    };
    let st = SynStruct {
        vis: SynVis::Pub,
        attrs: vec![],
        name: "Bad".to_owned(),
        generics: GenericParams::default(),
        fields: SynFields::Named(vec![f]),
        span: span(),
    };
    match lower_struct(&Visibility::NonPub, st) {
        Err(e) => assert_eq!(e, tendon::lower::LowerError::TypePositionMacro),
        Ok(_) => panic!("a macro in type position should abort the item"),
    }
}
