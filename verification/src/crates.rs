//! Per-package metadata as the resolver needs it: identifier, dependency
//! map, entry source file, feature flags, and language edition.

use vstd::prelude::*;

use crate::paths::{clone_path, CrateId, CrateIdV, path_view};
use crate::strmap::StrMap;

verus! {

/// The language edition a package declares.
#[derive(Clone, Copy, Debug, PartialEq, Eq, Structural)]
pub enum RustEdition {
    Rust2015,
    Rust2018,
}

/// Metadata for one package of the input graph.
pub struct CrateData {
    pub crate_id: CrateId,
    /// Map from the identifier a dependency is imported under to its package.
    pub deps: StrMap<CrateId>,
    pub is_proc_macro: bool,
    /// Path of the root source file, carried as text.
    pub entry: String,
    /// Path of the package manifest, carried as text.
    pub manifest_path: String,
    /// Enabled feature flags, opaque to the resolver.
    pub features: Vec<String>,
    pub rust_edition: RustEdition,
}

pub ghost struct CrateDataV {
    pub crate_id: CrateIdV,
    pub deps: Map<Seq<char>, CrateIdV>,
    pub is_proc_macro: bool,
    pub entry: Seq<char>,
    pub manifest_path: Seq<char>,
    pub features: Seq<Seq<char>>,
    pub rust_edition: RustEdition,
}

impl View for CrateData {
    type V = CrateDataV;

    open spec fn view(&self) -> CrateDataV {
        CrateDataV {
            crate_id: self.crate_id@,
            deps: self.deps@.map_values(|c: CrateId| c@),
            is_proc_macro: self.is_proc_macro,
            entry: self.entry@,
            manifest_path: self.manifest_path@,
            features: path_view(self.features@),
            rust_edition: self.rust_edition,
        }
    }
}

impl CrateData {
    /// A stand-in package for building inputs by hand: no dependencies,
    /// an empty entry path, the later edition.
    pub fn fake(crate_id: CrateId) -> (r: CrateData)
        ensures
            r.deps.wf(),
            r@.crate_id == crate_id@,
            r@.deps == Map::<Seq<char>, CrateIdV>::empty(),
            r@.rust_edition == RustEdition::Rust2018,
            r@.is_proc_macro == false,
            r@.features == Seq::<Seq<char>>::empty(),
            r@.entry == ("fake_file.rs")@,
            r@.manifest_path == Seq::<char>::empty(),
    {
        let r = CrateData {
            crate_id,
            deps: StrMap::new(),
            is_proc_macro: false,
            entry: ("fake_file.rs").to_owned(),
            manifest_path: String::new(),
            features: Vec::new(),
            rust_edition: RustEdition::Rust2018,
        };
        proof {
            assert(r@.deps =~= Map::<Seq<char>, CrateIdV>::empty());
            assert(r@.features =~= Seq::<Seq<char>>::empty());
        }
        r
    }

    /// Look a dependency up by the identifier it is imported under.
    pub fn dep_of(&self, name: &String) -> (r: Option<&CrateId>)
        requires
            self.deps.wf(),
        ensures
            match r {
                Some(c) => self@.deps.contains_key(name@) && c@ == self@.deps[name@],
                None => !self@.deps.contains_key(name@),
            },
    {
        let r = self.deps.get(name);
        proof {
            if self.deps@.contains_key(name@) {
                assert(self@.deps.contains_key(name@));
                assert(self@.deps[name@] == self.deps@[name@]@);
            }
        }
        r
    }

    /// Record that `name` imports the package `target`; a previous entry
    /// under the same name is replaced.
    pub fn set_dep(&mut self, name: String, target: CrateId)
        requires
            old(self).deps.wf(),
        ensures
            final(self).deps.wf(),
            final(self)@ == (CrateDataV {
                deps: old(self)@.deps.insert(name@, target@),
                ..old(self)@
            }),
    {
        let ghost tv = target@;
        let _ = self.deps.insert(name, target);
        proof {
            assert(final(self)@.deps =~= old(self)@.deps.insert(name@, tv));
        }
    }
}

} // verus!
