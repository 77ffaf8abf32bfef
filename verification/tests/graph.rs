//! Path orders, identifier normalization, and the package-graph helpers.

use tendon::crates::RustEdition;
use tendon::paths::{normalize_crate_name, path_lt, CrateId, Path};
use tendon::tools::{
    add_rust_sources, lower_absolute_crate, lower_crates, transitive_dependencies,
    BuildMetadata, BuildNode, BuildPackage, BuildTarget,
};

#[test]
fn crate_names_normalize_hyphens() {
    let id = lower_absolute_crate(&"quick-error".to_owned(), &"1.2.3".to_owned());
    assert_eq!(id.name, "quick_error".to_owned());
    assert_eq!(id.version, "1.2.3".to_owned());
    assert_eq!(
        normalize_crate_name(&"a-b-c".to_owned()),
        "a_b_c".to_owned()
    );
    assert_eq!(normalize_crate_name(&"plain".to_owned()), "plain".to_owned());
}

#[test]
fn path_order_is_lexicographic() {
    let a = vec!["a".to_owned(), "b".to_owned()];
    let b = vec!["a".to_owned(), "c".to_owned()];
    let prefix = vec!["a".to_owned()];
    assert!(path_lt(&a, &b));
    assert!(!path_lt(&b, &a));
    assert!(path_lt(&prefix, &a));
    assert!(!path_lt(&a, &a));
}

#[test]
fn standard_packages_injection() {
    let mut crates = vec![tendon::crates::CrateData::fake(CrateId::new(
        "app_crate", "1.0.0",
    ))];
    add_rust_sources(&mut crates, &"/src/rust".to_owned());
    assert_eq!(crates.len(), 4);
    assert_eq!(crates[1].crate_id.name, "core".to_owned());
    assert_eq!(crates[2].crate_id.name, "alloc".to_owned());
    assert_eq!(crates[3].crate_id.name, "std".to_owned());
    assert_eq!(crates[1].crate_id.version, "0.0.0".to_owned());
    assert_eq!(crates[1].rust_edition, RustEdition::Rust2018);
    assert_eq!(crates[1].entry, "/src/rust/libcore/lib.rs".to_owned());
    // the chain std -> alloc -> core
    assert_eq!(
        crates[3].dep_of(&"alloc".to_owned()).unwrap().name,
        "alloc".to_owned()
    );
    assert_eq!(
        crates[3].dep_of(&"core".to_owned()).unwrap().name,
        "core".to_owned()
    );
    assert_eq!(
        crates[2].dep_of(&"core".to_owned()).unwrap().name,
        "core".to_owned()
    );
    // every pre-existing package gains all three
    assert_eq!(
        crates[0].dep_of(&"std".to_owned()).unwrap().name,
        "std".to_owned()
    );
    assert_eq!(
        crates[0].dep_of(&"core".to_owned()).unwrap().name,
        "core".to_owned()
    );
}

fn pkg(id: &str, name: &str, edition: &str, kinds: Vec<&str>) -> BuildPackage {
    BuildPackage {
        id: id.to_owned(),
        name: name.to_owned(),
        version: "0.1.0".to_owned(),
        manifest_path: format!("{}/Cargo.toml", name),
        edition: edition.to_owned(),
        targets: vec![BuildTarget {
            kinds: kinds.into_iter().map(|k| k.to_owned()).collect(),
            src_path: format!("{}/src/lib.rs", name),
        }],
    }
}

#[test]
fn build_metadata_lowering() {
    let meta = BuildMetadata {
        packages: vec![
            pkg("id-a", "crate-a", "2018", vec!["lib"]),
            pkg("id-b", "crate-b", "2018", vec!["lib"]),
            pkg("id-c", "crate-c", "2018", vec!["bin"]),
        ],
        nodes: vec![
            BuildNode {
                id: "id-a".to_owned(),
                features: vec!["default".to_owned()],
                deps: vec![("crate-b".to_owned(), "id-b".to_owned())],
            },
            BuildNode {
                id: "id-b".to_owned(),
                features: vec![],
                deps: vec![],
            },
            BuildNode {
                id: "id-c".to_owned(),
                features: vec![],
                deps: vec![],
            },
        ],
    };
    let crates = lower_crates(&meta);
    // the binary-only package is skipped
    assert_eq!(crates.len(), 2);
    assert_eq!(crates[0].crate_id.name, "crate_a".to_owned());
    assert_eq!(crates[0].entry, "crate-a/src/lib.rs".to_owned());
    assert_eq!(crates[0].features, vec!["default".to_owned()]);
    assert!(!crates[0].is_proc_macro);
    assert_eq!(
        crates[0].dep_of(&"crate_b".to_owned()).unwrap().name,
        "crate_b".to_owned()
    );
    assert_eq!(crates[1].crate_id.name, "crate_b".to_owned());
}

#[test]
fn transitive_dependencies_close_the_graph() {
    let a = CrateId::new("a", "1.0.0");
    let b = CrateId::new("b", "1.0.0");
    let c = CrateId::new("c", "1.0.0");
    let mut da = tendon::crates::CrateData::fake(a.clone_id());
    da.set_dep("b".to_owned(), b.clone_id());
    let mut dbc = tendon::crates::CrateData::fake(b.clone_id());
    dbc.set_dep("c".to_owned(), c.clone_id());
    let dc = tendon::crates::CrateData::fake(c.clone_id());
    let unrelated = tendon::crates::CrateData::fake(CrateId::new("z", "1.0.0"));
    let crates = vec![da, dbc, dc, unrelated];

    let deps = transitive_dependencies(&a, &crates);
    assert_eq!(deps[0].name, "a".to_owned());
    let names: Vec<String> = deps.iter().map(|d| d.name.clone()).collect();
    assert!(names.contains(&"b".to_owned()));
    assert!(names.contains(&"c".to_owned()));
    assert!(!names.contains(&"z".to_owned()));
    assert_eq!(deps.len(), 3);
}

#[test]
fn path_helpers() {
    let p = Path::fake("alpha");
    assert_eq!(p.segments, vec!["alpha".to_owned()]);
    assert!(p.eq_path(&Path::fake("alpha")));
    assert!(!p.eq_path(&Path::fake("beta")));
    let q = Path::ident("x".to_owned());
    assert_eq!(q.get_ident().unwrap(), "x");
}
