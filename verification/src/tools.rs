//! Bridging the build tool's metadata into the resolver's package graph:
//! identifier normalization, the graph of package data, the injection of the
//! standard packages, and transitive dependency computation. The metadata
//! itself arrives as plain values; reading it from the build tool is the
//! caller's business.

use vstd::prelude::*;

use crate::attributes::opt_str_view;
use crate::crates::{CrateData, RustEdition};
use crate::paths::{CrateId, CrateIdV, normalize_crate_name, normalized_name};
use crate::strmap::StrMap;

verus! {

/// One target of a package: its kind strings and its root source file.
#[derive(Clone, Debug, PartialEq)]
pub struct BuildTarget {
    pub kinds: Vec<String>,
    pub src_path: String,
}

/// One package of the build metadata, keyed by the build tool's opaque
/// package identifier string.
#[derive(Clone, Debug, PartialEq)]
pub struct BuildPackage {
    pub id: String,
    pub name: String,
    pub version: String,
    pub manifest_path: String,
    pub edition: String,
    pub targets: Vec<BuildTarget>,
}

/// One resolved node: a package instantiated with features and dependencies.
#[derive(Clone, Debug, PartialEq)]
pub struct BuildNode {
    pub id: String,
    pub features: Vec<String>,
    /// Dependency name, as imported, paired with the dependency's package
    /// identifier string.
    pub deps: Vec<(String, String)>,
}

/// The build metadata: packages and the resolved node for each.
pub struct BuildMetadata {
    pub packages: Vec<BuildPackage>,
    pub nodes: Vec<BuildNode>,
}

/// The package identifier a package lowers to: the name with hyphens
/// normalized to underscores, the version verbatim.
pub fn lower_absolute_crate(name: &String, version: &String) -> (r: CrateId)
    ensures
        r@.name == normalized_name(name@),
        r@.version == version@,
{
    CrateId { name: normalize_crate_name(name), version: version.clone() }
}

/// Whether a kind list marks a library target, or, with `proc_only`, a
/// procedural-macro target specifically.
pub open spec fn spec_is_lib_kind(kinds: Seq<String>, proc_only: bool) -> bool {
    exists|k: int|
        0 <= k < kinds.len() && ((#[trigger] kinds[k])@ == ("proc-macro")@ || (!proc_only
            && kinds[k]@ == ("lib")@))
}

fn is_lib_kind(kinds: &Vec<String>, proc_only: bool) -> (r: bool)
    ensures
        r == spec_is_lib_kind(kinds@, proc_only),
{
    let n = kinds.len();
    let mut i: usize = 0;
    while i < n
        invariant
            n == kinds@.len(),
            i <= n,
            forall|q: int|
                0 <= q < i ==> !((#[trigger] kinds@[q])@ == ("proc-macro")@ || (!proc_only
                    && kinds@[q]@ == ("lib")@)),
        decreases n - i,
    {
        if kinds[i] == ("proc-macro").to_owned() {
            return true;
        }
        if !proc_only && kinds[i] == ("lib").to_owned() {
            return true;
        }
        i += 1;
    }
    false
}

/// Whether any target is of a library kind.
pub open spec fn spec_has_lib(targets: Seq<BuildTarget>, proc_only: bool) -> bool {
    exists|t: int|
        0 <= t < targets.len() && spec_is_lib_kind((#[trigger] targets[t]).kinds@, proc_only)
}

fn is_lib_kind_of_any(targets: &Vec<BuildTarget>, proc_only: bool) -> (r: bool)
    ensures
        r == spec_has_lib(targets@, proc_only),
{
    let n = targets.len();
    let mut i: usize = 0;
    while i < n
        invariant
            n == targets@.len(),
            i <= n,
            forall|q: int|
                0 <= q < i ==> !spec_is_lib_kind((#[trigger] targets@[q]).kinds@, proc_only),
        decreases n - i,
    {
        if is_lib_kind(&targets[i].kinds, proc_only) {
            return true;
        }
        i += 1;
    }
    false
}

/// The root source file of the first library-like target, if any.
pub open spec fn spec_first_lib_entry(targets: Seq<BuildTarget>) -> Option<Seq<char>>
    decreases targets.len(),
{
    if targets.len() == 0 {
        None
    } else if spec_is_lib_kind(targets[0].kinds@, false) {
        Some(targets[0].src_path@)
    } else {
        spec_first_lib_entry(targets.drop_first())
    }
}

proof fn lemma_first_lib_at(targets: Seq<BuildTarget>, t: int)
    requires
        0 <= t < targets.len(),
        spec_is_lib_kind(targets[t].kinds@, false),
        forall|q: int| 0 <= q < t ==> !spec_is_lib_kind((#[trigger] targets[q]).kinds@, false),
    ensures
        spec_first_lib_entry(targets) == Some(targets[t].src_path@),
    decreases t,
{
    if t > 0 {
        lemma_first_lib_at(targets.drop_first(), t - 1);
    }
}

proof fn lemma_first_lib_none(targets: Seq<BuildTarget>)
    requires
        forall|q: int|
            0 <= q < targets.len() ==> !spec_is_lib_kind((#[trigger] targets[q]).kinds@, false),
    ensures
        spec_first_lib_entry(targets) is None,
    decreases targets.len(),
{
    if targets.len() > 0 {
        lemma_first_lib_none(targets.drop_first());
    }
}

fn first_lib_entry(targets: &Vec<BuildTarget>) -> (r: Option<String>)
    ensures
        opt_str_view(r) == spec_first_lib_entry(targets@),
{
    let n = targets.len();
    let mut i: usize = 0;
    while i < n
        invariant
            n == targets@.len(),
            i <= n,
            forall|q: int|
                0 <= q < i ==> !spec_is_lib_kind((#[trigger] targets@[q]).kinds@, false),
        decreases n - i,
    {
        if is_lib_kind(&targets[i].kinds, false) {
            proof {
                lemma_first_lib_at(targets@, i as int);
            }
            return Some(targets[i].src_path.clone());
        }
        i += 1;
    }
    proof {
        lemma_first_lib_none(targets@);
    }
    None
}

/// First-match lookup of a package by its opaque identifier string.
pub open spec fn spec_find_pkg(s: Seq<BuildPackage>, id: Seq<char>) -> Option<BuildPackage>
    decreases s.len(),
{
    if s.len() == 0 {
        None
    } else if s[0].id@ == id {
        Some(s[0])
    } else {
        spec_find_pkg(s.drop_first(), id)
    }
}

proof fn lemma_find_pkg_at(s: Seq<BuildPackage>, id: Seq<char>, j: int)
    requires
        0 <= j < s.len(),
        s[j].id@ == id,
        forall|q: int| 0 <= q < j ==> (#[trigger] s[q]).id@ != id,
    ensures
        spec_find_pkg(s, id) == Some(s[j]),
    decreases j,
{
    if j > 0 {
        lemma_find_pkg_at(s.drop_first(), id, j - 1);
    }
}

proof fn lemma_find_pkg_none(s: Seq<BuildPackage>, id: Seq<char>)
    requires
        forall|q: int| 0 <= q < s.len() ==> (#[trigger] s[q]).id@ != id,
    ensures
        spec_find_pkg(s, id) is None,
    decreases s.len(),
{
    if s.len() > 0 {
        lemma_find_pkg_none(s.drop_first(), id);
    }
}

fn find_package<'a>(packages: &'a Vec<BuildPackage>, id: &String) -> (r: Option<&'a BuildPackage>)
    ensures
        match r {
            Some(p) => spec_find_pkg(packages@, id@) == Some(*p),
            None => spec_find_pkg(packages@, id@) is None,
        },
{
    let n = packages.len();
    let mut i: usize = 0;
    while i < n
        invariant
            n == packages@.len(),
            i <= n,
            forall|q: int| 0 <= q < i ==> (#[trigger] packages@[q]).id@ != id@,
        decreases n - i,
    {
        if packages[i].id == *id {
            proof {
                lemma_find_pkg_at(packages@, id@, i as int);
            }
            return Some(&packages[i]);
        }
        i += 1;
    }
    proof {
        lemma_find_pkg_none(packages@, id@);
    }
    None
}

/// The edition a package's edition string carries, if this resolver carries
/// it.
pub open spec fn spec_edition(e: Seq<char>) -> Option<RustEdition> {
    if e == ("2015")@ {
        Some(RustEdition::Rust2015)
    } else if e == ("2018")@ {
        Some(RustEdition::Rust2018)
    } else {
        None
    }
}

/// The dependency map a node lowers to: each dependency whose package is
/// listed maps its normalized name to the package's normalized identifier.
pub open spec fn spec_deps_of_node(
    packages: Seq<BuildPackage>,
    deps: Seq<(String, String)>,
) -> Map<Seq<char>, CrateIdV>
    decreases deps.len(),
{
    if deps.len() == 0 {
        Map::empty()
    } else {
        let m = spec_deps_of_node(packages, deps.drop_last());
        match spec_find_pkg(packages, deps.last().1@) {
            Some(p) => m.insert(
                normalized_name(deps.last().0@),
                CrateIdV { name: normalized_name(p.name@), version: p.version@ },
            ),
            None => m,
        }
    }
}

/// The entry one resolved node lowers to, if its package is listed, has a
/// library or procedural-macro target, and carries a known edition.
pub open spec fn spec_node_entry(
    packages: Seq<BuildPackage>,
    node: BuildNode,
) -> Option<crate::crates::CrateDataV> {
    match spec_find_pkg(packages, node.id@) {
        None => None,
        Some(p) => match spec_first_lib_entry(p.targets@) {
            None => None,
            Some(entry) => match spec_edition(p.edition@) {
                None => None,
                Some(ed) => Some(
                    crate::crates::CrateDataV {
                        crate_id: CrateIdV {
                            name: normalized_name(p.name@),
                            version: p.version@,
                        },
                        deps: spec_deps_of_node(packages, node.deps@),
                        is_proc_macro: spec_has_lib(p.targets@, true),
                        entry,
                        manifest_path: p.manifest_path@,
                        features: crate::paths::path_view(node.features@),
                        rust_edition: ed,
                    },
                ),
            },
        },
    }
}

/// The package graph the metadata lowers to, node by node in order.
pub open spec fn spec_lower_crates(
    packages: Seq<BuildPackage>,
    nodes: Seq<BuildNode>,
) -> Seq<crate::crates::CrateDataV>
    decreases nodes.len(),
{
    if nodes.len() == 0 {
        Seq::empty()
    } else {
        let rest = spec_lower_crates(packages, nodes.drop_last());
        match spec_node_entry(packages, nodes.last()) {
            Some(e) => rest.push(e),
            None => rest,
        }
    }
}

/// The views of a lowered package list.
pub open spec fn crates_view(s: Seq<CrateData>) -> Seq<crate::crates::CrateDataV> {
    s.map_values(|c: CrateData| c@)
}

/// Lower one resolved node, if its package qualifies.
#[verifier::loop_isolation(false)]
fn lower_node(packages: &Vec<BuildPackage>, node: &BuildNode) -> (r: Option<CrateData>)
    ensures
        (match r {
            Some(cd) => cd.deps.wf() && spec_node_entry(packages@, *node) == Some(cd@),
            None => spec_node_entry(packages@, *node) is None,
        }),
{
    let pkg = match find_package(packages, &node.id) {
        Some(p) => p,
        None => {
            return None;
        },
    };
    let src_path = match first_lib_entry(&pkg.targets) {
        Some(e) => e,
        None => {
            return None;
        },
    };
    let rust_edition = if pkg.edition == ("2015").to_owned() {
        RustEdition::Rust2015
    } else if pkg.edition == ("2018").to_owned() {
        RustEdition::Rust2018
    } else {
        return None;
    };
    let is_proc_macro = is_lib_kind_of_any(&pkg.targets, true);
    let crate_id = lower_absolute_crate(&pkg.name, &pkg.version);
    let mut deps: StrMap<CrateId> = StrMap::new();
    let ghost dv = node.deps@;
    let dn = node.deps.len();
    let mut di: usize = 0;
    proof {
        assert(deps@.map_values(|c: CrateId| c@) =~= spec_deps_of_node(packages@, dv.take(0)));
    }
    while di < dn
        invariant
            dn == node.deps@.len(),
            di <= dn,
            deps.wf(),
            deps@.map_values(|c: CrateId| c@) == spec_deps_of_node(packages@, dv.take(di as int)),
        decreases dn - di,
    {
        proof {
            assert(dv.take(di + 1).drop_last() =~= dv.take(di as int));
            assert(dv.take(di + 1).last() == dv[di as int]);
        }
        match find_package(packages, &node.deps[di].1) {
            Some(dp) => {
                let dep_id = lower_absolute_crate(&dp.name, &dp.version);
                let dep_name = normalize_crate_name(&node.deps[di].0);
                let _ = deps.insert(dep_name, dep_id);
                proof {
                    assert(deps@.map_values(|c: CrateId| c@) =~= spec_deps_of_node(
                        packages@,
                        dv.take(di + 1),
                    ));
                }
            },
            None => {},
        }
        di += 1;
    }
    proof {
        assert(dv.take(dn as int) =~= dv);
    }
    let cd = CrateData {
        crate_id,
        deps,
        is_proc_macro,
        entry: src_path,
        manifest_path: pkg.manifest_path.clone(),
        features: crate::paths::clone_path(&node.features),
        rust_edition,
    };
    proof {
        assert(cd@ == spec_node_entry(packages@, *node)->Some_0);
    }
    Some(cd)
}

/// Lower the build metadata to the resolver's package graph: one entry, in
/// order, for every resolved node whose package has a library or
/// procedural-macro target and a carried edition, with the normalized
/// identifier, that target's source path, the normalized dependency map,
/// the node's features, the procedural-macro flag, and the edition.
#[verifier::loop_isolation(false)]
pub fn lower_crates(meta: &BuildMetadata) -> (r: Vec<CrateData>)
    ensures
        crates_view(r@) == spec_lower_crates(meta.packages@, meta.nodes@),
        forall|i: int| 0 <= i < r@.len() ==> (#[trigger] r@[i]).deps.wf(),
{
    let mut out: Vec<CrateData> = Vec::new();
    let ghost nv = meta.nodes@;
    let n = meta.nodes.len();
    let mut ni: usize = 0;
    proof {
        assert(crates_view(out@) =~= spec_lower_crates(meta.packages@, nv.take(0)));
    }
    while ni < n
        invariant
            n == meta.nodes@.len(),
            ni <= n,
            crates_view(out@) == spec_lower_crates(meta.packages@, nv.take(ni as int)),
            forall|i: int| 0 <= i < out@.len() ==> (#[trigger] out@[i]).deps.wf(),
        decreases n - ni,
    {
        proof {
            assert(nv.take(ni + 1).drop_last() =~= nv.take(ni as int));
            assert(nv.take(ni + 1).last() == nv[ni as int]);
        }
        match lower_node(&meta.packages, &meta.nodes[ni]) {
            Some(cd) => {
                out.push(cd);
                proof {
                    assert(crates_view(out@) =~= spec_lower_crates(
                        meta.packages@,
                        nv.take(ni + 1),
                    ));
                }
            },
            None => {},
        }
        ni += 1;
    }
    proof {
        assert(nv.take(n as int) =~= nv);
    }
    out
}

/// The path under `dir` at `a/b`, with the path separator.
pub open spec fn spec_joined(dir: Seq<char>, a: Seq<char>, b: Seq<char>) -> Seq<char> {
    dir + seq!['/'] + a + seq!['/'] + b
}

/// Join a directory and a file name with the path separator.
fn join_dir(dir: &String, a: &str, b: &str) -> (r: String)
    ensures
        r@ == spec_joined(dir@, a@, b@),
{
    let mut s = dir.clone();
    s.push('/');
    s.push_str(a);
    s.push('/');
    s.push_str(b);
    proof {
        assert(s@ =~= spec_joined(dir@, a@, b@));
    }
    s
}

/// Inject the standard packages into the graph: `core`, `alloc`, and `std`
/// with version `0.0.0` and the later edition, chained `std` on `alloc` on
/// `core`, their entry files under the given source tree; every package
/// already in the graph gains all three as dependencies.
pub fn add_rust_sources(crates: &mut Vec<CrateData>, sources_dir: &String)
    requires
        forall|i: int| 0 <= i < old(crates)@.len() ==> (#[trigger] old(crates)@[i]).deps.wf(),
    ensures
        final(crates)@.len() == old(crates)@.len() + 3,
        forall|i: int| 0 <= i < final(crates)@.len() ==> (#[trigger] final(crates)@[i]).deps.wf(),
        forall|i: int|
            0 <= i < old(crates)@.len() ==> (#[trigger] final(crates)@[i])@ == (
            crate::crates::CrateDataV {
                deps: old(crates)@[i]@.deps.insert(("core")@, final(crates)@[old(crates)@.len()
                    as int]@.crate_id).insert(
                    ("alloc")@,
                    final(crates)@[old(crates)@.len() as int + 1]@.crate_id,
                ).insert(("std")@, final(crates)@[old(crates)@.len() as int + 2]@.crate_id),
                ..old(crates)@[i]@
            }),
        ({
            let nc = final(crates)@[old(crates)@.len() as int]@;
            let na = final(crates)@[old(crates)@.len() as int + 1]@;
            let ns = final(crates)@[old(crates)@.len() as int + 2]@;
            &&& nc.crate_id.name == ("core")@ && nc.crate_id.version == ("0.0.0")@
            &&& na.crate_id.name == ("alloc")@ && na.crate_id.version == ("0.0.0")@
            &&& ns.crate_id.name == ("std")@ && ns.crate_id.version == ("0.0.0")@
            &&& nc.rust_edition == RustEdition::Rust2018 && na.rust_edition
                == RustEdition::Rust2018 && ns.rust_edition == RustEdition::Rust2018
            &&& !nc.is_proc_macro && !na.is_proc_macro && !ns.is_proc_macro
            &&& nc.entry == spec_joined(sources_dir@, ("libcore")@, ("lib.rs")@)
            &&& na.entry == spec_joined(sources_dir@, ("liballoc")@, ("lib.rs")@)
            &&& ns.entry == spec_joined(sources_dir@, ("libstd")@, ("lib.rs")@)
            &&& nc.manifest_path == spec_joined(sources_dir@, ("libcore")@, ("Cargo.toml")@)
            &&& na.manifest_path == spec_joined(sources_dir@, ("liballoc")@, ("Cargo.toml")@)
            &&& ns.manifest_path == spec_joined(sources_dir@, ("libstd")@, ("Cargo.toml")@)
            &&& nc.deps == Map::<Seq<char>, crate::paths::CrateIdV>::empty()
            &&& na.deps == Map::<Seq<char>, crate::paths::CrateIdV>::empty().insert(
                ("core")@,
                nc.crate_id,
            )
            &&& ns.deps == Map::<Seq<char>, crate::paths::CrateIdV>::empty().insert(
                ("core")@,
                nc.crate_id,
            ).insert(("alloc")@, na.crate_id)
            &&& nc.features == Seq::<Seq<char>>::empty() && na.features == Seq::<
                Seq<char>,
            >::empty() && ns.features == Seq::<Seq<char>>::empty()
        }),
{
    let libcore = CrateId::new("core", "0.0.0");
    let liballoc = CrateId::new("alloc", "0.0.0");
    let libstd = CrateId::new("std", "0.0.0");

    let n = crates.len();
    let mut i: usize = 0;
    while i < n
        invariant
            n == old(crates)@.len(),
            crates@.len() == n,
            i <= n,
            libcore@.name == ("core")@ && libcore@.version == ("0.0.0")@,
            liballoc@.name == ("alloc")@ && liballoc@.version == ("0.0.0")@,
            libstd@.name == ("std")@ && libstd@.version == ("0.0.0")@,
            forall|q: int| i <= q < n ==> #[trigger] crates@[q] == old(crates)@[q],
            forall|q: int| 0 <= q < n ==> (#[trigger] crates@[q]).deps.wf(),
            forall|q: int|
                0 <= q < i ==> (#[trigger] crates@[q])@ == (crate::crates::CrateDataV {
                    deps: old(crates)@[q]@.deps.insert(("core")@, libcore@).insert(
                        ("alloc")@,
                        liballoc@,
                    ).insert(("std")@, libstd@),
                    ..old(crates)@[q]@
                }),
        decreases n - i,
    {
        let c = &mut crates[i];
        c.set_dep(("core").to_owned(), libcore.clone_id());
        c.set_dep(("alloc").to_owned(), liballoc.clone_id());
        c.set_dep(("std").to_owned(), libstd.clone_id());
        i += 1;
    }

    let mut core_data = CrateData::fake(libcore.clone_id());
    core_data.entry = join_dir(sources_dir, "libcore", "lib.rs");
    core_data.manifest_path = join_dir(sources_dir, "libcore", "Cargo.toml");

    let mut alloc_data = CrateData::fake(liballoc.clone_id());
    alloc_data.entry = join_dir(sources_dir, "liballoc", "lib.rs");
    alloc_data.manifest_path = join_dir(sources_dir, "liballoc", "Cargo.toml");
    alloc_data.set_dep(("core").to_owned(), libcore.clone_id());

    let mut std_data = CrateData::fake(libstd.clone_id());
    std_data.entry = join_dir(sources_dir, "libstd", "lib.rs");
    std_data.manifest_path = join_dir(sources_dir, "libstd", "Cargo.toml");
    std_data.set_dep(("core").to_owned(), libcore.clone_id());
    std_data.set_dep(("alloc").to_owned(), liballoc.clone_id());

    crates.push(core_data);
    crates.push(alloc_data);
    crates.push(std_data);
}

/// First-match lookup of a package by identifier in the graph.
pub open spec fn spec_find_crate(s: Seq<CrateData>, id: CrateIdV) -> Option<CrateData>
    decreases s.len(),
{
    if s.len() == 0 {
        None
    } else if s[0]@.crate_id == id {
        Some(s[0])
    } else {
        spec_find_crate(s.drop_first(), id)
    }
}

/// Whether an identifier occurs in a list.
pub open spec fn id_in(s: Seq<CrateId>, id: CrateIdV) -> bool {
    exists|k: int| 0 <= k < s.len() && (#[trigger] s[k])@ == id
}

/// Every dependency of the package is a member of the list.
pub open spec fn deps_in(cd: CrateData, seen: Seq<CrateId>) -> bool {
    forall|n: Seq<char>| #[trigger] cd@.deps.contains_key(n) ==> id_in(seen, cd@.deps[n])
}

/// Membership survives appending.
proof fn lemma_id_in_push(s: Seq<CrateId>, e: CrateId, id: CrateIdV)
    requires
        id_in(s, id),
    ensures
        id_in(s.push(e), id),
{
    let k = choose|k: int| 0 <= k < s.len() && (#[trigger] s[k])@ == id;
    assert(s.push(e)[k]@ == id);
}

/// Whether some listed package has a dependency with this identifier.
pub open spec fn dep_of_some(crates: Seq<CrateData>, id: CrateIdV) -> bool {
    exists|ci: int, nm: Seq<char>|
        0 <= ci < crates.len() && #[trigger] crates[ci]@.deps.contains_key(nm)
            && crates[ci]@.deps[nm] == id
}

/// If an earlier prefix has no match and `j` matches, lookup yields entry
/// `j`.
proof fn lemma_find_at(s: Seq<CrateData>, id: CrateIdV, j: int)
    requires
        0 <= j < s.len(),
        s[j]@.crate_id == id,
        forall|q: int| 0 <= q < j ==> (#[trigger] s[q])@.crate_id != id,
    ensures
        spec_find_crate(s, id) == Some(s[j]),
    decreases j,
{
    if j > 0 {
        lemma_find_at(s.drop_first(), id, j - 1);
    }
}

/// If no entry matches, lookup fails.
proof fn lemma_find_none(s: Seq<CrateData>, id: CrateIdV)
    requires
        forall|q: int| 0 <= q < s.len() ==> (#[trigger] s[q])@.crate_id != id,
    ensures
        spec_find_crate(s, id) is None,
    decreases s.len(),
{
    if s.len() > 0 {
        lemma_find_none(s.drop_first(), id);
    }
}

/// The first index of a package with the given identifier.
fn find_crate_idx(crates: &Vec<CrateData>, id: &CrateId) -> (r: Option<usize>)
    ensures
        match r {
            Some(j) => j < crates@.len() && crates@[j as int]@.crate_id == id@ && spec_find_crate(
                crates@,
                id@,
            ) == Some(crates@[j as int]),
            None => spec_find_crate(crates@, id@) is None,
        },
{
    let n = crates.len();
    let mut i: usize = 0;
    while i < n
        invariant
            n == crates@.len(),
            i <= n,
            forall|q: int| 0 <= q < i ==> (#[trigger] crates@[q])@.crate_id != id@,
        decreases n - i,
    {
        if crates[i].crate_id.eq_id(id) {
            proof {
                lemma_find_at(crates@, id@, i as int);
            }
            return Some(i);
        }
        i += 1;
    }
    proof {
        lemma_find_none(crates@, id@);
    }
    None
}

/// The transitive dependencies of the target package, the target included:
/// the result starts at the target and holds no identifier twice; every
/// member past the target is one of some listed package's dependencies; and
/// where the target names a listed package, that package's direct
/// dependencies are all members.
#[verifier::loop_isolation(false)]
#[verifier::rlimit(100)]
pub fn transitive_dependencies(target: &CrateId, crates: &Vec<CrateData>) -> (r: Vec<CrateId>)
    requires
        forall|i: int| 0 <= i < crates@.len() ==> (#[trigger] crates@[i]).deps.wf(),
    ensures
        r@.len() > 0 && r@[0]@ == target@,
        forall|i: int, j: int| 0 <= i < j < r@.len() ==> (#[trigger] r@[i])@ != (#[trigger] r@[j])@,
        forall|i: int| 1 <= i < r@.len() ==> dep_of_some(crates@, (#[trigger] r@[i])@),
        spec_find_crate(crates@, target@) is Some ==> deps_in(
            spec_find_crate(crates@, target@)->Some_0,
            r@,
        ),
{
    let mut seen: Vec<CrateId> = Vec::new();
    seen.push(target.clone_id());
    let mut to_walk: Vec<CrateId> = Vec::new();
    to_walk.push(target.clone_id());
    let mut fuel = crates.len();
    if fuel < usize::MAX - 1 {
        fuel = fuel + 1;
    }
    let ghost mut target_done: bool = false;
    proof {
        assert(to_walk@[0]@ == target@);
    }
    while to_walk.len() > 0 && fuel > 0
        invariant
            seen@.len() > 0 && seen@[0]@ == target@,
            forall|i: int, j: int|
                0 <= i < j < seen@.len() ==> (#[trigger] seen@[i])@ != (#[trigger] seen@[j])@,
            forall|i: int| 1 <= i < seen@.len() ==> dep_of_some(crates@, (#[trigger] seen@[i])@),
            !target_done ==> to_walk@.len() == 1 && to_walk@[0]@ == target@ && fuel >= 1,
            target_done ==> (spec_find_crate(crates@, target@) is Some ==> deps_in(
                spec_find_crate(crates@, target@)->Some_0,
                seen@,
            )),
        decreases fuel,
    {
        fuel = fuel - 1;
        let ghost tw0 = to_walk@;
        let next = match to_walk.pop() {
            Some(x) => x,
            None => {
                break ;
            },
        };
        let is_target = next.eq_id(target);
        proof {
            assert(to_walk@ =~= tw0.drop_last());
            assert(next == tw0.last());
            if !target_done {
                assert(next@ == target@);
                assert(is_target);
            }
        }
        match find_crate_idx(crates, &next) {
            Some(ci) => {
                let cd = &crates[ci];
                let dn = cd.deps.len();
                let mut di: usize = 0;
                proof {
                    cd.deps.lemma_view_entries();
                }
                while di < dn
                    invariant
                        dn == cd.deps.seq_view().len(),
                        *cd == crates@[ci as int],
                        ci < crates@.len(),
                        di <= dn,
                        is_target ==> crates@[ci as int]@.crate_id == target@
                            && spec_find_crate(crates@, target@) == Some(crates@[ci as int]),
                        seen@.len() > 0 && seen@[0]@ == target@,
                        forall|i: int, j: int|
                            0 <= i < j < seen@.len() ==> (#[trigger] seen@[i])@ != (
                            #[trigger] seen@[j])@,
                        forall|i: int|
                            1 <= i < seen@.len() ==> dep_of_some(
                                crates@,
                                (#[trigger] seen@[i])@,
                            ),
                        forall|d: int|
                            0 <= d < di ==> id_in(seen@, (#[trigger] cd.deps.seq_view()[d]).1@),
                        target_done ==> (spec_find_crate(crates@, target@) is Some
                            ==> deps_in(spec_find_crate(crates@, target@)->Some_0, seen@)),
                    decreases dn - di,
                {
                    let dep = cd.deps.idx(di).1;
                    let mut have = false;
                    let sn = seen.len();
                    let mut si: usize = 0;
                    while si < sn
                        invariant
                            sn == seen@.len(),
                            si <= sn,
                            have ==> id_in(seen@, dep@),
                            !have ==> forall|q: int|
                                0 <= q < si ==> (#[trigger] seen@[q])@ != dep@,
                        decreases sn - si,
                    {
                        if seen[si].eq_id(dep) {
                            have = true;
                            proof {
                                assert(id_in(seen@, dep@)) by {
                                    assert(seen@[si as int]@ == dep@);
                                }
                            }
                            si = sn;
                        } else {
                            si += 1;
                        }
                    }
                    if !have {
                        let ghost seen0 = seen@;
                        let ghost key0 = cd.deps.seq_view()[di as int].0@;
                        proof {
                            assert(cd.deps@.contains_key(key0));
                            assert(cd.deps@[key0] == cd.deps.seq_view()[di as int].1);
                            assert(crates@[ci as int]@.deps.contains_key(key0));
                            assert(crates@[ci as int]@.deps[key0] == dep@);
                        }
                        seen.push(dep.clone_id());
                        to_walk.push(dep.clone_id());
                        proof {
                            assert(seen@ =~= seen0.push(seen@.last()));
                            assert(seen@.last()@ == dep@);
                            assert(dep_of_some(crates@, dep@)) by {
                                assert(crates@[ci as int]@.deps.contains_key(key0)
                                    && crates@[ci as int]@.deps[key0] == dep@);
                            }
                            assert forall|i: int| 1 <= i < seen@.len() implies dep_of_some(
                                crates@,
                                (#[trigger] seen@[i])@,
                            ) by {
                                if i < seen0.len() {
                                    assert(seen@[i] == seen0[i]);
                                } else {
                                    assert(seen@[i]@ == dep@);
                                }
                            }
                            assert forall|d: int| 0 <= d < di implies id_in(
                                seen@,
                                (#[trigger] cd.deps.seq_view()[d]).1@,
                            ) by {
                                lemma_id_in_push(seen0, seen@.last(), cd.deps.seq_view()[d].1@);
                            }
                            if spec_find_crate(crates@, target@) is Some && deps_in(
                                spec_find_crate(crates@, target@)->Some_0,
                                seen0,
                            ) {
                                let tcd = spec_find_crate(crates@, target@)->Some_0;
                                assert forall|nm: Seq<char>|
                                    #[trigger] tcd@.deps.contains_key(nm) implies id_in(
                                    seen@,
                                    tcd@.deps[nm],
                                ) by {
                                    lemma_id_in_push(seen0, seen@.last(), tcd@.deps[nm]);
                                }
                            }
                        }
                    }
                    di += 1;
                }
                proof {
                    if is_target {
                        assert(deps_in(crates@[ci as int], seen@)) by {
                            assert forall|nm: Seq<char>|
                                #[trigger] crates@[ci as int]@.deps.contains_key(
                                nm,
                            ) implies id_in(seen@, crates@[ci as int]@.deps[nm]) by {
                                let d = choose|d: int|
                                    0 <= d < cd.deps.seq_view().len()
                                        && #[trigger] cd.deps.seq_view()[d].0@ == nm;
                                assert(cd.deps@[nm] == cd.deps.seq_view()[d].1);
                                assert(crates@[ci as int]@.deps[nm] == cd.deps@[nm]@);
                            }
                        }
                    }
                    target_done = true;
                }
            },
            None => {
                proof {
                    if is_target {
                        assert(spec_find_crate(crates@, target@) is None);
                    }
                    target_done = true;
                }
            },
        }
    }
    seen
}

} // verus!