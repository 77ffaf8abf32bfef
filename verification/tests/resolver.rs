//! End-to-end resolution behavior: building a package store, imports with
//! glob and explicit priority, back-link propagation, macro expansion, and
//! the accessibility query.

use tendon::attributes::{Metadata, Span, Visibility};
use tendon::crates::CrateData;
use tendon::database::{Binding, CrateNamespace, Db, DatabaseError, Priority};
use tendon::items::{
    EnumItem, GenericParams, InherentImpl, ModuleItem, SymbolItem, TypeItem, TypeMetadata,
};
use tendon::paths::{CrateId, Identity, Path};
use tendon::syntax::{SynFields, SynItem, SynSignature, SynStruct, SynVis};
use tendon::syntax::{SynArg, SynFunction, SynType};
use tendon::tokens::{Delim, Token, Tokens};
use tendon::walker::{ModRequest, Walker};

fn span() -> Span {
    Span::new("fake_file.rs", 0, 0)
}

fn fake_crate(name: &str) -> CrateData {
    CrateData::fake(CrateId::new(name, "0.0.0"))
}

fn root_module() -> ModuleItem {
    ModuleItem::new("{root}", Metadata::fake())
}

fn unit_struct(vis: SynVis, name: &str) -> SynItem {
    SynItem::Struct(SynStruct {
        vis,
        attrs: vec![],
        name: name.to_owned(),
        generics: GenericParams::default(),
        fields: SynFields::Unit,
        span: span(),
    })
}

fn inline_mod(vis: SynVis, name: &str, items: Vec<SynItem>) -> SynItem {
    SynItem::ModInline {
        vis,
        attrs: vec![],
        name: name.to_owned(),
        items,
        span: span(),
    }
}

fn use_item(segments: Vec<&str>, glob: bool, rename: Option<&str>) -> SynItem {
    SynItem::Use {
        vis: SynVis::Pub,
        attrs: vec![],
        path: Path {
            segments: segments.into_iter().map(|s| s.to_owned()).collect(),
        },
        glob,
        rename: rename.map(|s| s.to_owned()),
        span: span(),
    }
}

fn walk(walker: &mut Walker, db: &Db, items: Vec<SynItem>) {
    let mut textual = tendon::strmap::StrMap::new();
    let mut requests: Vec<ModRequest> = Vec::new();
    let root: Vec<String> = vec![];
    walker.walk_items(db, &root, items, &mut textual, &mut requests, 64);
    walker.resolve_fixed_point(db, &mut requests, 64);
}

fn seal(walker: Walker, db: &mut Db) {
    walker.complete(db);
}

#[test]
fn crate_building() {
    let test_crate_a = CrateId::new("test_crate_a", "0.0.0");
    let mut walker = Walker::new(CrateData::fake(test_crate_a.clone_id()));

    walker.add_root_scope(root_module()).unwrap();
    let root: Vec<String> = vec![];
    assert!(walker.crate_.modules.get_item(&root).is_some());

    let mod_a = walker
        .add::<ModuleItem>(&root, ModuleItem::new("a", Metadata::fake()))
        .unwrap();

    assert!(walker.crate_.modules.get_item(&mod_a.path).is_some());
    assert!(walker
        .crate_
        .get_binding::<ModuleItem>(&vec!["a".to_owned()])
        .unwrap()
        .absolute_target
        .eq_identity(&mod_a));

    let mod_a_b = walker
        .add::<ModuleItem>(&mod_a.path, ModuleItem::new("a", Metadata::fake()))
        .unwrap();

    let type_a_b_c = walker
        .add::<TypeItem>(
            &mod_a_b.path,
            TypeItem::Enum(EnumItem {
                name: "C".to_owned(),
                metadata: Metadata::fake(),
                type_metadata: TypeMetadata::default(),
                generics: GenericParams::default(),
                variants: vec![],
                inherent_impl: InherentImpl {},
            }),
        )
        .unwrap();

    let root_identity = Identity::root(&test_crate_a);
    walker
        .add_binding::<TypeItem>(
            &root,
            &"CRenamed".to_owned(),
            type_a_b_c.clone_identity(),
            Visibility::InScope(root_identity.clone_identity()),
            Priority::Explicit,
        )
        .unwrap();

    let in_root = walker
        .crate_
        .get_binding::<TypeItem>(&vec!["CRenamed".to_owned()])
        .unwrap();
    let in_a_b = walker
        .crate_
        .get_binding::<TypeItem>(&vec!["a".to_owned(), "a".to_owned(), "C".to_owned()])
        .unwrap();

    assert!(in_root.absolute_target.eq_identity(&in_a_b.absolute_target));
    assert_eq!(
        in_root.visibility,
        Visibility::InScope(root_identity.clone_identity())
    );
    assert_eq!(in_a_b.visibility, Visibility::Pub);
}

#[test]
fn trivial_definition() {
    // a single package whose root defines one public function
    let mut db = Db::new();
    let mut walker = Walker::new(fake_crate("demo"));
    walker.add_root_scope(root_module()).unwrap();
    let f = SynItem::Function(SynFunction {
        vis: SynVis::Pub,
        attrs: vec![],
        sig: SynSignature {
            name: "f".to_owned(),
            inputs: vec![SynArg::Typed {
                name: Some("y".to_owned()),
                ty: SynType::Path {
                    path: Path::fake("i32"),
                    params: vec![],
                },
            }],
            variadic: false,
            output: Some(SynType::Path {
                path: Path::fake("i32"),
                params: vec![],
            }),
            is_unsafe: false,
            is_async: false,
            is_const: false,
            abi: None,
            generics: GenericParams::default(),
        },
        span: span(),
    });
    walk(&mut walker, &db, vec![f]);
    seal(walker, &mut db);

    let demo = CrateId::new("demo", "0.0.0");
    let accessible = db.accessible_items::<SymbolItem>(&demo);
    assert_eq!(accessible.len(), 1);
    assert_eq!(accessible[0].0, vec!["f".to_owned()]);
    assert!(accessible[0]
        .1
        .eq_identity(&Identity::new(&demo, &vec!["f".to_owned()])));

    let cdb = db.get_crate(&demo).unwrap();
    let item = cdb.get_item::<SymbolItem>(&vec!["f".to_owned()]).unwrap();
    let SymbolItem::Function(func) = item;
    assert_eq!(func.signature.args.len(), 1);
    assert_eq!(func.signature.args[0].name, "y".to_owned());
    match &func.signature.args[0].type_ {
        tendon::items::Type::Path(pt) => assert_eq!(pt.path, Path::fake("i32")),
        _ => panic!("the argument should keep its path type"),
    }
    assert!(!func.signature.ret.is_void());
    assert_eq!(func.signature.abi, tendon::items::Abi::Rust);
    assert!(!func.signature.is_unsafe);
    assert!(!func.signature.is_async);
    assert!(!func.signature.is_const);
}

#[test]
fn reexport_collapse() {
    // `mod a { pub struct T; }` and `pub use a::T as U`: the binding at `U`
    // points straight at the defining identity, never through `a::T`
    let mut db = Db::new();
    let mut walker = Walker::new(fake_crate("p"));
    walker.add_root_scope(root_module()).unwrap();
    walk(
        &mut walker,
        &db,
        vec![
            inline_mod(SynVis::Pub, "a", vec![unit_struct(SynVis::Pub, "T")]),
            use_item(vec!["a", "T"], false, Some("U")),
        ],
    );
    let defining = Identity::new(
        &CrateId::new("p", "0.0.0"),
        &vec!["a".to_owned(), "T".to_owned()],
    );
    let u = walker
        .crate_
        .get_binding::<TypeItem>(&vec!["U".to_owned()])
        .unwrap();
    assert!(u.absolute_target.eq_identity(&defining));
    assert_eq!(u.priority, Priority::Explicit);
    seal(walker, &mut db);

    let p = CrateId::new("p", "0.0.0");
    let accessible = db.accessible_items::<TypeItem>(&p);
    // one target, reached by its shortest public access path
    assert_eq!(accessible.len(), 1);
    assert_eq!(accessible[0].0, vec!["U".to_owned()]);
    assert!(accessible[0].1.eq_identity(&defining));
}

#[test]
fn shortest_path_tie_break() {
    // two access paths to one target: the shorter wins; on equal length the
    // lexicographically smaller wins; the output is sorted
    let mut walker = Walker::new(fake_crate("p"));
    walker.add_root_scope(root_module()).unwrap();
    let root: Vec<String> = vec![];
    let a = walker
        .add::<ModuleItem>(&root, ModuleItem::new("a", Metadata::fake()))
        .unwrap();
    let x = walker
        .add::<TypeItem>(
            &a.path,
            TypeItem::Enum(EnumItem {
                name: "X".to_owned(),
                metadata: Metadata::fake(),
                type_metadata: TypeMetadata::default(),
                generics: GenericParams::default(),
                variants: vec![],
                inherent_impl: InherentImpl {},
            }),
        )
        .unwrap();
    // a deeper and a shorter binding to the same target
    walker
        .add_binding::<TypeItem>(
            &root,
            &"X".to_owned(),
            x.clone_identity(),
            Visibility::Pub,
            Priority::Explicit,
        )
        .unwrap();

    let mut db = Db::new();
    seal(walker, &mut db);
    let p = CrateId::new("p", "0.0.0");
    let accessible = db.accessible_items::<TypeItem>(&p);
    assert_eq!(accessible.len(), 1);
    assert_eq!(accessible[0].0, vec!["X".to_owned()]);
    assert!(accessible[0].1.eq_identity(&x));

    // determinism: the same query twice gives the same answer
    let again = db.accessible_items::<TypeItem>(&p);
    assert_eq!(accessible.len(), again.len());
    for i in 0..accessible.len() {
        assert_eq!(accessible[i].0, again[i].0);
        assert!(accessible[i].1.eq_identity(&again[i].1));
    }
}

#[test]
fn glob_vs_explicit() {
    // `mod b { pub struct X; pub struct Y; } use b::*; use b::X as Z;`
    let mut db = Db::new();
    let mut walker = Walker::new(fake_crate("p"));
    walker.add_root_scope(root_module()).unwrap();
    walk(
        &mut walker,
        &db,
        vec![
            inline_mod(
                SynVis::Pub,
                "b",
                vec![unit_struct(SynVis::Pub, "X"), unit_struct(SynVis::Pub, "Y")],
            ),
            use_item(vec!["b"], true, None),
            use_item(vec!["b", "X"], false, Some("Z")),
        ],
    );
    let bx = walker
        .crate_
        .get_binding::<TypeItem>(&vec!["X".to_owned()])
        .unwrap();
    let by = walker
        .crate_
        .get_binding::<TypeItem>(&vec!["Y".to_owned()])
        .unwrap();
    let bz = walker
        .crate_
        .get_binding::<TypeItem>(&vec!["Z".to_owned()])
        .unwrap();
    assert_eq!(bx.priority, Priority::Glob);
    assert_eq!(by.priority, Priority::Glob);
    assert_eq!(bz.priority, Priority::Explicit);
    let (parked_imports, parked_macros) = walker.residual_counts();
    assert_eq!(parked_imports, 0);
    assert_eq!(parked_macros, 0);
}

#[test]
fn glob_of_empty_module_adds_nothing() {
    let mut db = Db::new();
    let mut walker = Walker::new(fake_crate("p"));
    walker.add_root_scope(root_module()).unwrap();
    walk(
        &mut walker,
        &db,
        vec![inline_mod(SynVis::Pub, "e", vec![])],
    );
    let types_before = count_bindings(&walker.crate_.types);
    let symbols_before = count_bindings(&walker.crate_.symbols);
    let macros_before = count_bindings(&walker.crate_.macros);
    let modules_before = count_bindings(&walker.crate_.modules);
    walk(&mut walker, &db, vec![use_item(vec!["e"], true, None)]);
    assert_eq!(count_bindings(&walker.crate_.types), types_before);
    assert_eq!(count_bindings(&walker.crate_.symbols), symbols_before);
    assert_eq!(count_bindings(&walker.crate_.macros), macros_before);
    assert_eq!(count_bindings(&walker.crate_.modules), modules_before);
    let (parked_imports, _) = walker.residual_counts();
    assert_eq!(parked_imports, 0);
}

fn count_bindings<I: tendon::database::NamespaceLookup>(ns: &CrateNamespace<I>) -> usize {
    ns.bindings.len()
}

#[test]
fn glob_then_explicit_wins() {
    let id = CrateId::new("p", "0.0.0");
    let mut ns: CrateNamespace<TypeItem> = CrateNamespace::new(id.clone_id());
    let t1 = Identity::new(&id, &vec!["a".to_owned(), "T".to_owned()]);
    let t2 = Identity::new(&id, &vec!["b".to_owned(), "T".to_owned()]);
    ns.add_binding(
        vec!["T".to_owned()],
        t1.clone_identity(),
        Visibility::Pub,
        Priority::Glob,
    )
    .unwrap();
    // the explicit binding displaces the glob one
    ns.add_binding(
        vec!["T".to_owned()],
        t2.clone_identity(),
        Visibility::Pub,
        Priority::Explicit,
    )
    .unwrap();
    let b = ns.get_binding(&vec!["T".to_owned()]).unwrap();
    assert!(b.absolute_target.eq_identity(&t2));
    assert_eq!(b.priority, Priority::Explicit);
}

#[test]
fn explicit_then_glob_is_rejected() {
    let id = CrateId::new("p", "0.0.0");
    let mut ns: CrateNamespace<TypeItem> = CrateNamespace::new(id.clone_id());
    let t1 = Identity::new(&id, &vec!["a".to_owned(), "T".to_owned()]);
    let t2 = Identity::new(&id, &vec!["b".to_owned(), "T".to_owned()]);
    ns.add_binding(
        vec!["T".to_owned()],
        t1.clone_identity(),
        Visibility::Pub,
        Priority::Explicit,
    )
    .unwrap();
    let r = ns.add_binding(
        vec!["T".to_owned()],
        t2.clone_identity(),
        Visibility::Pub,
        Priority::Glob,
    );
    assert_eq!(r, Err(DatabaseError::BindingAlreadyPresent));
    // an explicit binding is never displaced, even by another explicit one
    let r2 = ns.add_binding(
        vec!["T".to_owned()],
        t2.clone_identity(),
        Visibility::Pub,
        Priority::Explicit,
    );
    assert_eq!(r2, Err(DatabaseError::BindingAlreadyPresent));
    let b = ns.get_binding(&vec!["T".to_owned()]).unwrap();
    assert!(b.absolute_target.eq_identity(&t1));
}

#[test]
fn back_link_propagation() {
    // `mod a { use crate::b::*; } mod b {}`, then a new item in `b` arrives
    // in `a` at glob priority; declaring the name in `a` then displaces it
    let mut db = Db::new();
    let mut walker = Walker::new(fake_crate("p"));
    walker.add_root_scope(root_module()).unwrap();
    walk(
        &mut walker,
        &db,
        vec![
            inline_mod(SynVis::Pub, "b", vec![]),
            inline_mod(
                SynVis::Pub,
                "a",
                vec![SynItem::Use {
                    vis: SynVis::Pub,
                    attrs: vec![],
                    path: Path {
                        segments: vec!["crate".to_owned(), "b".to_owned()],
                    },
                    glob: true,
                    rename: None,
                    span: span(),
                }],
            ),
        ],
    );
    // now the walker discovers `pub struct X` inside `b`
    let mut textual = tendon::strmap::StrMap::new();
    let mut requests: Vec<ModRequest> = Vec::new();
    walker.walk_items(
        &db,
        &vec!["b".to_owned()],
        vec![unit_struct(SynVis::Pub, "X")],
        &mut textual,
        &mut requests,
        64,
    );
    let in_a = walker
        .crate_
        .get_binding::<TypeItem>(&vec!["a".to_owned(), "X".to_owned()])
        .unwrap();
    assert_eq!(in_a.priority, Priority::Glob);
    assert!(in_a.absolute_target.eq_identity(&Identity::new(
        &CrateId::new("p", "0.0.0"),
        &vec!["b".to_owned(), "X".to_owned()]
    )));

    // declaring `X` in `a` explicitly displaces the glob entry
    walker.walk_items(
        &db,
        &vec!["a".to_owned()],
        vec![unit_struct(SynVis::Pub, "X")],
        &mut textual,
        &mut requests,
        64,
    );
    let in_a2 = walker
        .crate_
        .get_binding::<TypeItem>(&vec!["a".to_owned(), "X".to_owned()])
        .unwrap();
    assert_eq!(in_a2.priority, Priority::Explicit);
    assert!(in_a2.absolute_target.eq_identity(&Identity::new(
        &CrateId::new("p", "0.0.0"),
        &vec!["a".to_owned(), "X".to_owned()]
    )));
}

#[test]
fn textually_scoped_macro() {
    // `macro_rules! m { () => { pub struct Gen; } } m!();` at the root
    let mut db = Db::new();
    let mut walker = Walker::new(fake_crate("p"));
    walker.add_root_scope(root_module()).unwrap();
    let body = Tokens {
        toks: vec![
            Token::Open(Delim::Paren),
            Token::Close(Delim::Paren),
            Token::Punct('='),
            Token::Punct('>'),
            Token::Open(Delim::Brace),
            Token::Ident("pub".to_owned()),
            Token::Ident("struct".to_owned()),
            Token::Ident("Gen".to_owned()),
            Token::Punct(';'),
            Token::Close(Delim::Brace),
        ],
    };
    walk(
        &mut walker,
        &db,
        vec![
            SynItem::MacroDef(tendon::syntax::SynMacroDef {
                attrs: vec![],
                name: "m".to_owned(),
                body,
                span: span(),
            }),
            SynItem::MacroCall {
                path: Path::fake("m"),
                tokens: Tokens { toks: vec![] },
                span: span(),
            },
        ],
    );
    seal(walker, &mut db);
    let p = CrateId::new("p", "0.0.0");
    let cdb = db.get_crate(&p).unwrap();
    let item = cdb.get_item::<TypeItem>(&vec!["Gen".to_owned()]).unwrap();
    match item {
        TypeItem::Struct(st) => {
            assert_eq!(st.name, "Gen".to_owned());
            assert_eq!(st.kind, tendon::items::StructKind::Unit);
        }
        _ => panic!("the expansion should define a struct"),
    }
}

#[test]
fn nonpub_intermediate_hides_subtree() {
    // `mod m { pub struct T; }` with `m` not public: nothing under `m` is
    // externally accessible, but the item is still stored
    let mut db = Db::new();
    let mut walker = Walker::new(fake_crate("p"));
    walker.add_root_scope(root_module()).unwrap();
    walk(
        &mut walker,
        &db,
        vec![inline_mod(
            SynVis::Other,
            "m",
            vec![unit_struct(SynVis::Pub, "T")],
        )],
    );
    seal(walker, &mut db);
    let p = CrateId::new("p", "0.0.0");
    let accessible = db.accessible_items::<TypeItem>(&p);
    for (rel, _target) in &accessible {
        assert_ne!(*rel, vec!["m".to_owned(), "T".to_owned()]);
    }
    assert_eq!(accessible.len(), 0);
    let cdb = db.get_crate(&p).unwrap();
    assert!(cdb
        .get_item::<TypeItem>(&vec!["m".to_owned(), "T".to_owned()])
        .is_some());
}

#[test]
fn self_bindings_accompany_items() {
    // every defined item carries an explicit self-binding at its own path,
    // at the item's own visibility
    let mut walker = Walker::new(fake_crate("p"));
    walker.add_root_scope(root_module()).unwrap();
    let root: Vec<String> = vec![];
    let m = walker
        .add::<ModuleItem>(&root, ModuleItem::new("m", Metadata::fake()))
        .unwrap();
    let b: &Binding = walker
        .crate_
        .get_binding::<ModuleItem>(&vec!["m".to_owned()])
        .unwrap();
    assert!(b.absolute_target.eq_identity(&m));
    assert_eq!(b.priority, Priority::Explicit);
    assert_eq!(b.visibility, Visibility::Pub);
}

#[test]
fn defining_twice_is_an_error() {
    let mut walker = Walker::new(fake_crate("p"));
    walker.add_root_scope(root_module()).unwrap();
    let root: Vec<String> = vec![];
    walker
        .add::<ModuleItem>(&root, ModuleItem::new("m", Metadata::fake()))
        .unwrap();
    let r = walker.add::<ModuleItem>(&root, ModuleItem::new("m", Metadata::fake()));
    assert_eq!(r.unwrap_err(), DatabaseError::ItemAlreadyPresent);
}

#[test]
fn missing_scope_is_an_error() {
    let mut walker = Walker::new(fake_crate("p"));
    walker.add_root_scope(root_module()).unwrap();
    let r = walker.add::<ModuleItem>(
        &vec!["nowhere".to_owned()],
        ModuleItem::new("m", Metadata::fake()),
    );
    assert_eq!(r.unwrap_err(), DatabaseError::NoSuchScope);
}

#[test]
fn fragment_capture_substitutes() {
    // `macro_rules! w { ($t:ty) => { pub struct Holder { x : $t } } } w!(u8);`
    let mut db = Db::new();
    let mut walker = Walker::new(fake_crate("p"));
    walker.add_root_scope(root_module()).unwrap();
    let body = Tokens {
        toks: vec![
            Token::Open(Delim::Paren),
            Token::Punct('$'),
            Token::Ident("t".to_owned()),
            Token::Punct(':'),
            Token::Ident("ty".to_owned()),
            Token::Close(Delim::Paren),
            Token::Punct('='),
            Token::Punct('>'),
            Token::Open(Delim::Brace),
            Token::Ident("pub".to_owned()),
            Token::Ident("struct".to_owned()),
            Token::Ident("Holder".to_owned()),
            Token::Open(Delim::Brace),
            Token::Ident("x".to_owned()),
            Token::Punct(':'),
            Token::Punct('$'),
            Token::Ident("t".to_owned()),
            Token::Close(Delim::Brace),
            Token::Close(Delim::Brace),
        ],
    };
    walk(
        &mut walker,
        &db,
        vec![
            SynItem::MacroDef(tendon::syntax::SynMacroDef {
                attrs: vec![],
                name: "w".to_owned(),
                body,
                span: span(),
            }),
            SynItem::MacroCall {
                path: Path::fake("w"),
                tokens: Tokens {
                    toks: vec![Token::Ident("u8".to_owned())],
                },
                span: span(),
            },
        ],
    );
    seal(walker, &mut db);
    let p = CrateId::new("p", "0.0.0");
    let cdb = db.get_crate(&p).unwrap();
    let item = cdb
        .get_item::<TypeItem>(&vec!["Holder".to_owned()])
        .unwrap();
    match item {
        TypeItem::Struct(st) => {
            assert_eq!(st.fields.len(), 1);
            assert_eq!(st.fields[0].name, "x".to_owned());
            match &st.fields[0].type_ {
                tendon::items::Type::Path(pt) => assert_eq!(pt.path, Path::fake("u8")),
                _ => panic!("the captured type should substitute into the field"),
            }
        }
        _ => panic!("the expansion should define a struct"),
    }
}

#[test]
fn unresolved_macro_stays_parked() {
    let db = Db::new();
    let mut walker = Walker::new(fake_crate("p"));
    walker.add_root_scope(root_module()).unwrap();
    walk(
        &mut walker,
        &db,
        vec![SynItem::MacroCall {
            path: Path::fake("missing"),
            tokens: Tokens { toks: vec![] },
            span: span(),
        }],
    );
    let (_, parked_macros) = walker.residual_counts();
    assert_eq!(parked_macros, 1);
}

#[test]
fn unresolved_import_stays_parked() {
    let db = Db::new();
    let mut walker = Walker::new(fake_crate("p"));
    walker.add_root_scope(root_module()).unwrap();
    walk(
        &mut walker,
        &db,
        vec![use_item(vec!["nowhere", "X"], false, None)],
    );
    let (parked_imports, _) = walker.residual_counts();
    assert_eq!(parked_imports, 1);
}

#[test]
fn cross_package_resolution() {
    // a dependency's public item resolves through the database
    let mut db = Db::new();
    let mut dep_walker = Walker::new(fake_crate("base"));
    dep_walker.add_root_scope(root_module()).unwrap();
    walk(&mut dep_walker, &db, vec![unit_struct(SynVis::Pub, "T")]);
    seal(dep_walker, &mut db);

    let mut data = fake_crate("app_crate");
    data.set_dep("base".to_owned(), CrateId::new("base", "0.0.0"));
    let mut walker = Walker::new(data);
    walker.add_root_scope(root_module()).unwrap();
    walk(
        &mut walker,
        &db,
        vec![use_item(vec!["base", "T"], false, None)],
    );
    let b = walker
        .crate_
        .get_binding::<TypeItem>(&vec!["T".to_owned()])
        .unwrap();
    assert!(b.absolute_target.eq_identity(&Identity::new(
        &CrateId::new("base", "0.0.0"),
        &vec!["T".to_owned()]
    )));
}

#[test]
fn root_scope_yields_the_root_identity() {
    let mut walker = Walker::new(fake_crate("rooty"));
    let root_id = walker.add_root_scope(root_module()).unwrap();
    let empty: Vec<String> = vec![];
    assert!(root_id.eq_identity(&Identity::new(&CrateId::new("rooty", "0.0.0"), &empty)));
}

#[test]
fn extern_rename_at_root_rebinds_the_dependency() {
    let db = Db::new();
    let mut data = fake_crate("renamer_a");
    data.set_dep("base".to_owned(), CrateId::new("base", "0.0.0"));
    let mut walker = Walker::new(data);
    walker.add_root_scope(root_module()).unwrap();
    walk(
        &mut walker,
        &db,
        vec![SynItem::ExternDep {
            vis: SynVis::Inherited,
            attrs: vec![],
            name: "base".to_owned(),
            rename: Some("aliased".to_owned()),
            macro_use: false,
            span: span(),
        }],
    );
    assert!(walker
        .crate_
        .crate_data
        .dep_of(&"aliased".to_owned())
        .is_some());
}

#[test]
fn extern_rename_outside_root_is_not_applied() {
    let db = Db::new();
    let mut data = fake_crate("renamer_b");
    data.set_dep("base".to_owned(), CrateId::new("base", "0.0.0"));
    let mut walker = Walker::new(data);
    walker.add_root_scope(root_module()).unwrap();
    walk(
        &mut walker,
        &db,
        vec![inline_mod(
            SynVis::Pub,
            "inner",
            vec![SynItem::ExternDep {
                vis: SynVis::Inherited,
                attrs: vec![],
                name: "base".to_owned(),
                rename: Some("aliased".to_owned()),
                macro_use: false,
                span: span(),
            }],
        )],
    );
    assert!(walker
        .crate_
        .crate_data
        .dep_of(&"aliased".to_owned())
        .is_none());
    assert!(walker.crate_.crate_data.dep_of(&"base".to_owned()).is_some());
}

#[test]
fn std_macros_enter_the_prelude_implicitly() {
    let mut db = Db::new();
    let mut std_walker = Walker::new(fake_crate("std"));
    std_walker.add_root_scope(root_module()).unwrap();
    let root: Vec<String> = vec![];
    std_walker
        .add::<tendon::items::MacroItem>(
            &root,
            tendon::items::MacroItem::Declarative(tendon::items::DeclarativeMacroItem {
                name: "println".to_owned(),
                metadata: Metadata::fake(),
                macro_export: true,
                rules: vec![],
            }),
        )
        .unwrap();
    seal(std_walker, &mut db);

    let mut data = fake_crate("user_of_std");
    data.set_dep("std".to_owned(), CrateId::new("std", "0.0.0"));
    let mut walker = Walker::new(data);
    walker.add_root_scope(root_module()).unwrap();
    walker.inject_implicit_prelude(&db);
    assert!(walker
        .prelude
        .macros
        .get(&"println".to_owned())
        .is_some());
}

#[test]
fn partly_understood_expansion_stays_parked() {
    // the template produces `fn f ( ) { }`, a shape item parsing does not
    // cover, so the invocation must surface in the residual count
    let db = Db::new();
    let mut walker = Walker::new(fake_crate("partial"));
    walker.add_root_scope(root_module()).unwrap();
    let body = Tokens {
        toks: vec![
            Token::Open(Delim::Paren),
            Token::Close(Delim::Paren),
            Token::Punct('='),
            Token::Punct('>'),
            Token::Open(Delim::Brace),
            Token::Ident("fn".to_owned()),
            Token::Ident("f".to_owned()),
            Token::Open(Delim::Paren),
            Token::Close(Delim::Paren),
            Token::Open(Delim::Brace),
            Token::Close(Delim::Brace),
            Token::Close(Delim::Brace),
        ],
    };
    walk(
        &mut walker,
        &db,
        vec![
            SynItem::MacroDef(tendon::syntax::SynMacroDef {
                attrs: vec![],
                name: "m".to_owned(),
                body,
                span: span(),
            }),
            SynItem::MacroCall {
                path: Path::fake("m"),
                tokens: Tokens { toks: vec![] },
                span: span(),
            },
        ],
    );
    let (_, parked_macros) = walker.residual_counts();
    assert_eq!(parked_macros, 1);
}

#[test]
fn unparsed_expansion_tokens_are_counted() {
    let toks = vec![
        Token::Ident("fn".to_owned()),
        Token::Ident("f".to_owned()),
    ];
    let (items, skipped) = tendon::macros::parse_items(&toks);
    assert!(items.is_empty());
    assert_eq!(skipped, 2);
    let empty: Vec<Token> = vec![];
    let (items2, skipped2) = tendon::macros::parse_items(&empty);
    assert!(items2.is_empty());
    assert_eq!(skipped2, 0);
}

#[test]
fn substitution_splices_bound_names() {
    let mut binds: tendon::strmap::StrMap<Vec<Token>> = tendon::strmap::StrMap::new();
    let _ = binds.insert("x".to_owned(), vec![Token::Ident("u8".to_owned())]);
    let template = vec![
        Token::Punct('$'),
        Token::Ident("x".to_owned()),
        Token::Punct(';'),
        Token::Punct('$'),
        Token::Ident("y".to_owned()),
    ];
    let out = tendon::macros::substitute(&template, &binds);
    assert_eq!(out.len(), 4);
    assert!(tendon::tokens::token_eq(
        &out[0],
        &Token::Ident("u8".to_owned())
    ));
    assert!(tendon::tokens::token_eq(&out[1], &Token::Punct(';')));
    assert!(tendon::tokens::token_eq(&out[2], &Token::Punct('$')));
    assert!(tendon::tokens::token_eq(
        &out[3],
        &Token::Ident("y".to_owned())
    ));
}
