//! The walker: the per-package driver that discovers definitions, records
//! imports, resolves them to defining identities, propagates glob bindings
//! along back links, and interleaves declarative macro expansion, all as a
//! fixed point that parks what it cannot yet resolve.

use vstd::prelude::*;

use crate::attributes::{HasMetadata, Visibility, VisibilityV};
use crate::crates::CrateData;
use crate::database::{
    Binding, BindingV, can_bind, CrateDb, DatabaseError, Db, Namespace, NamespaceLookup,
    ns_vis_map, Priority,
};
use crate::items::{DeclarativeMacroItem, MacroItem, ModuleItem, SymbolItem, TypeItem};
use crate::lower::LowerError;
use crate::paths::{
    clone_path, CrateId, CrateIdV, Identity, IdentityV, is_prefix_of, Path, path_view,
};
use crate::pathmap::PathMap;
use crate::strmap::StrMap;
use crate::syntax::{SynItem, SynVis};
use crate::tokens::Tokens;

verus! {

/// Why one step of walking was abandoned; the walk itself continues.
#[derive(Clone, Copy, Debug, PartialEq, Eq, Structural)]
pub enum WalkError {
    /// A source file could not be read.
    Io,
    /// A source file could not be parsed.
    Parse,
    /// A path-override attribute could not be read; the submodule is skipped.
    MalformedPathAttribute,
    /// The file implied by a module declaration is missing; the submodule is
    /// skipped.
    ModuleNotFound,
    /// An external-dependency declaration names a package not in the graph.
    ExternCrateNotFound,
    /// A store operation failed; the item is skipped.
    Database(DatabaseError),
    /// Lowering one item failed; the item is dropped.
    Lower(LowerError),
    /// A deliberately skipped non-public item.
    NonPub,
}

/// Ephemeral per-scope resolution state, discarded when the package is
/// sealed.
pub struct ScopeInProgress {
    /// Scopes of this package that glob-import from this one, each with the
    /// visibility under which the re-export was made.
    pub back_links: Vec<(Vec<String>, Visibility)>,
    /// Names claimed by an explicit import, possibly not yet resolved; glob
    /// bindings never overwrite them.
    pub reserved: Vec<String>,
}

impl ScopeInProgress {
    pub fn new() -> (r: ScopeInProgress)
        ensures
            r.back_links@.len() == 0,
            r.reserved@.len() == 0,
    {
        ScopeInProgress { back_links: Vec::new(), reserved: Vec::new() }
    }
}

/// A parked import awaiting a later round of the fixed point.
pub struct WorkEntry {
    /// The scope the import was written in.
    pub module: Vec<String>,
    /// The visibility of the import.
    pub visibility: Visibility,
    /// The imported path.
    pub path: Path,
    /// Whether this is a glob import.
    pub glob: bool,
    /// The name an explicit import binds, after any rename.
    pub rename: Option<String>,
}

/// A parked macro invocation awaiting a resolvable definition.
pub struct UnexpandedItem {
    /// The scope the invocation stands in.
    pub module: Vec<String>,
    /// The invoked macro's path.
    pub mac_path: Path,
    /// The invocation's argument tokens.
    pub tokens: Tokens,
    /// The declarative macros textually in scope at the invocation site.
    pub textual: StrMap<DeclarativeMacroItem>,
}

/// Per-namespace prelude bindings: implicit names consulted when scope
/// lookup fails.
pub struct Prelude {
    pub types: StrMap<Binding>,
    pub symbols: StrMap<Binding>,
    pub macros: StrMap<Binding>,
    pub modules: StrMap<Binding>,
}

impl Prelude {
    pub open spec fn wf(&self) -> bool {
        self.types.wf() && self.symbols.wf() && self.macros.wf() && self.modules.wf()
    }

    pub open spec fn sel_map(&self, ns: Namespace) -> Map<Seq<char>, Binding> {
        match ns {
            Namespace::Type => self.types@,
            Namespace::Symbol => self.symbols@,
            Namespace::Macro => self.macros@,
            Namespace::Module => self.modules@,
        }
    }

    pub fn new() -> (r: Prelude)
        ensures
            r.wf(),
            forall|ns: Namespace| #[trigger] r.sel_map(ns) == Map::<Seq<char>, Binding>::empty(),
    {
        Prelude {
            types: StrMap::new(),
            symbols: StrMap::new(),
            macros: StrMap::new(),
            modules: StrMap::new(),
        }
    }
}

/// The binding-existence invariant of one namespace, over its type-erased
/// parts: every binding that points into this package names a defined path
/// of the same namespace, so targets are defining identities, never other
/// bindings' paths.
pub open spec fn targets_defined(
    bm: Map<Seq<Seq<char>>, BindingV>,
    idom: Set<Seq<Seq<char>>>,
    id: CrateIdV,
) -> bool {
    forall|k: Seq<Seq<char>>|
        #[trigger] bm.contains_key(k) && bm[k].absolute_target.crate_id == id ==> idom.contains(
            bm[k].absolute_target.path,
        )
}

/// The self-binding invariant of one namespace, over its type-erased parts:
/// every item defined at a path carries an explicit binding there, at the
/// item's own visibility, pointing at itself.
pub open spec fn self_bound(
    bm: Map<Seq<Seq<char>>, BindingV>,
    ivm: Map<Seq<Seq<char>>, VisibilityV>,
    id: CrateIdV,
) -> bool {
    forall|p: Seq<Seq<char>>|
        #[trigger] ivm.contains_key(p) ==> bm.contains_key(p) && bm[p] == (BindingV {
            absolute_target: IdentityV { crate_id: id, path: p },
            visibility: ivm[p],
            priority: Priority::Explicit,
        })
}

/// Both invariants of one namespace.
pub open spec fn ns_inv<I: HasMetadata>(
    ns: crate::database::CrateNamespace<I>,
    id: CrateIdV,
) -> bool {
    targets_defined(ns.bindings_map(), ns.items_map().dom(), id) && self_bound(
        ns.bindings_map(),
        ns_vis_map(ns),
        id,
    )
}

/// Both per-namespace store invariants, over all four namespaces.
pub open spec fn crate_store_inv(c: CrateDb) -> bool {
    &&& ns_inv(c.types, c.id())
    &&& ns_inv(c.symbols, c.id())
    &&& ns_inv(c.macros, c.id())
    &&& ns_inv(c.modules, c.id())
}

/// The walker for one package: the store being built, the ephemeral scope
/// state, the prelude, and the parked work.
pub struct Walker {
    /// The package being built.
    pub crate_: CrateDb,
    /// Ephemeral state for scopes still resolving.
    pub scopes: PathMap<ScopeInProgress>,
    /// The package's prelude bindings.
    pub prelude: Prelude,
    /// Imports that could not be resolved yet.
    pub work_list: Vec<WorkEntry>,
    /// Macro invocations that could not be expanded yet.
    pub unexpanded: Vec<UnexpandedItem>,
}

impl Walker {
    pub open spec fn wf(&self) -> bool {
        self.crate_.wf() && self.scopes.wf() && self.prelude.wf()
    }

    /// The whole in-progress store keeps the binding invariants, and every
    /// parked invocation carries a well-formed textual scope.
    pub open spec fn inv(&self) -> bool {
        &&& self.wf()
        &&& crate_store_inv(self.crate_)
        &&& forall|i: int|
            0 <= i < self.unexpanded@.len() ==> (#[trigger] self.unexpanded@[i]).textual.wf()
    }

    pub open spec fn id(&self) -> CrateIdV {
        self.crate_.id()
    }

    /// Create a walker for a package whose dependencies are already in the
    /// database. The scratch store starts empty: no items, no bindings, no
    /// scope state, no prelude, and no parked work.
    pub fn new(crate_data: CrateData) -> (r: Walker)
        requires
            crate_data.deps.wf(),
        ensures
            r.inv(),
            r.id() == crate_data.crate_id@,
            r.crate_.crate_data == crate_data,
            forall|n2: Namespace| #[trigger] ns_idom(r.crate_, n2) == Set::<Seq<Seq<char>>>::empty(),
            forall|n2: Namespace|
                #[trigger] ns_bmap(r.crate_, n2) == Map::<Seq<Seq<char>>, BindingV>::empty(),
            r.scopes@ == Map::<Seq<Seq<char>>, ScopeInProgress>::empty(),
            forall|n2: Namespace|
                #[trigger] prelude_bmap(r.prelude, n2) == Map::<Seq<char>, BindingV>::empty(),
            r.work_list@.len() == 0,
            r.unexpanded@.len() == 0,
    {
        let r = Walker {
            crate_: CrateDb::new(crate_data),
            scopes: PathMap::new(),
            prelude: Prelude::new(),
            work_list: Vec::new(),
            unexpanded: Vec::new(),
        };
        proof {
            assert forall|n2: Namespace| #[trigger] ns_idom(r.crate_, n2) == Set::<
                Seq<Seq<char>>,
            >::empty() by {
                assert(ns_idom(r.crate_, n2) =~= Set::<Seq<Seq<char>>>::empty());
            }
            assert forall|n2: Namespace| #[trigger] prelude_bmap(r.prelude, n2) == Map::<
                Seq<char>,
                BindingV,
            >::empty() by {
                assert(prelude_bmap(r.prelude, n2) =~= Map::<Seq<char>, BindingV>::empty());
            }
        }
        r
    }

    /// Seal the package and insert it into the database. The ephemeral scope
    /// state is discarded; what was sealed keeps the binding invariants.
    pub fn complete(self, db: &mut Db)
        requires
            self.inv(),
            old(db).wf(),
            old(db).spec_get(self.id()) is None,
        ensures
            final(db).wf(),
            final(db).spec_get(self.id()) == Some(self.crate_),
            crate_store_inv(final(db).spec_get(self.id())->Some_0),
            forall|id: CrateIdV|
                id != self.id() ==> final(db).spec_get(id) == old(db).spec_get(id),
    {
        let Walker { crate_, .. } = self;
        db.add_crate(crate_);
    }

    /// Add the root scope: the module item standing for the package root,
    /// which must carry the root's reserved name. On success the root's
    /// identity is returned, the anchor callers hang further paths on.
    pub fn add_root_scope(&mut self, item: ModuleItem) -> (r: Result<Identity, DatabaseError>)
        requires
            old(self).inv(),
            item@.name == ("{root}")@,
        ensures
            final(self).inv(),
            final(self).id() == old(self).id(),
            final(self).prelude == old(self).prelude,
            final(self).work_list == old(self).work_list,
            final(self).unexpanded == old(self).unexpanded,
            final(self).crate_.crate_data == old(self).crate_.crate_data,
            r is Ok <==> (!old(self).crate_.modules.items_map().contains_key(
                Seq::<Seq<char>>::empty(),
            ) && can_bind(
                old(self).crate_.modules.bindings_map(),
                Seq::<Seq<char>>::empty(),
                Priority::Explicit,
            )),
            r is Ok ==> final(self).crate_.modules.items_map() == old(
                self,
            ).crate_.modules.items_map().insert(Seq::<Seq<char>>::empty(), item)
                && final(self).crate_.modules.bindings_map() == old(
                self,
            ).crate_.modules.bindings_map().insert(
                Seq::<Seq<char>>::empty(),
                BindingV {
                    absolute_target: IdentityV {
                        crate_id: old(self).id(),
                        path: Seq::<Seq<char>>::empty(),
                    },
                    visibility: item@.metadata.visibility,
                    priority: Priority::Explicit,
                },
            ),
            r is Ok ==> r->Ok_0@ == (IdentityV {
                crate_id: old(self).id(),
                path: Seq::<Seq<char>>::empty(),
            }),
            r is Err ==> *final(self) == *old(self),
            r is Err ==> (r == Err::<Identity, DatabaseError>(DatabaseError::ItemAlreadyPresent)
                <==> old(self).crate_.modules.items_map().contains_key(
                Seq::<Seq<char>>::empty(),
            )),
            r is Err && r != Err::<Identity, DatabaseError>(DatabaseError::ItemAlreadyPresent) ==> r
                == Err::<Identity, DatabaseError>(DatabaseError::BindingAlreadyPresent),
    {
        let path: Vec<String> = Vec::new();
        let ghost pv = path_view(path@);
        proof {
            assert(pv =~= Seq::<Seq<char>>::empty());
        }
        let ghost itemg = item;
        let r = self.crate_.modules.add_item(path, item);
        match r {
            Ok(()) => {
                let spath: Vec<String> = Vec::new();
                let _ = self.scopes.insert(spath, ScopeInProgress::new());
                proof {
                    lemma_ns_inv_add_item(
                        old(self).crate_.modules,
                        self.crate_.modules,
                        old(self).id(),
                        pv,
                        itemg,
                    );
                }
                let root_path: Vec<String> = Vec::new();
                let root_id = Identity {
                    crate_id: self.crate_.crate_data.crate_id.clone_id(),
                    path: root_path,
                };
                proof {
                    assert(root_id@.path =~= Seq::<Seq<char>>::empty());
                }
                Ok(root_id)
            },
            Err(e) => Err(e),
        }
    }

    /// Add an item at `{containing_scope}::{name}`, with its self-binding,
    /// and propagate the new binding along the containing scope's back
    /// links: each linked scope that may see it, and has not reserved the
    /// name, receives a glob-priority copy of the defining identity,
    /// transitively. The containing scope must already be a module of this
    /// package.
    pub fn add<I: NamespaceLookup>(&mut self, containing_scope: &Vec<String>, item: I) -> (r:
        Result<Identity, DatabaseError>)
        requires
            old(self).inv(),
            I::sel(old(self).crate_).wf(),
        ensures
            final(self).inv(),
            final(self).id() == old(self).id(),
            final(self).scopes == old(self).scopes,
            final(self).prelude == old(self).prelude,
            final(self).work_list == old(self).work_list,
            final(self).unexpanded == old(self).unexpanded,
            final(self).crate_.crate_data == old(self).crate_.crate_data,
            I::spec_namespace() != Namespace::Type ==> final(self).crate_.types == old(
                self,
            ).crate_.types,
            I::spec_namespace() != Namespace::Symbol ==> final(self).crate_.symbols == old(
                self,
            ).crate_.symbols,
            I::spec_namespace() != Namespace::Macro ==> final(self).crate_.macros == old(
                self,
            ).crate_.macros,
            I::spec_namespace() != Namespace::Module ==> final(self).crate_.modules == old(
                self,
            ).crate_.modules,
            ({
                let pv = path_view(containing_scope@).push(item.spec_name());
                let tv = IdentityV { crate_id: old(self).id(), path: pv };
                let selfbv = BindingV {
                    absolute_target: tv,
                    visibility: item.spec_metadata().visibility,
                    priority: Priority::Explicit,
                };
                let nsb0 = ns_bmap(old(self).crate_, I::spec_namespace());
                let nsb1 = ns_bmap(final(self).crate_, I::spec_namespace());
                &&& r is Ok <==> (old(self).crate_.modules.items_map().contains_key(
                    path_view(containing_scope@),
                ) && !I::sel(old(self).crate_).items_map().contains_key(pv) && can_bind(
                    nsb0,
                    pv,
                    Priority::Explicit,
                ))
                &&& r is Ok ==> r->Ok_0@ == tv && I::sel(final(self).crate_).items_map()
                    == I::sel(old(self).crate_).items_map().insert(pv, item)
                    && nsb1.contains_key(pv) && nsb1[pv] == selfbv
                &&& r is Ok ==> forall|n2: Namespace, k: Seq<Seq<char>>|
                    #[trigger] ns_bmap(old(self).crate_, n2).contains_key(k) && !(n2
                        == I::spec_namespace() && k == pv) ==> ns_bmap(
                        final(self).crate_,
                        n2,
                    ).contains_key(k) && ns_bmap(final(self).crate_, n2)[k] == ns_bmap(
                        old(self).crate_,
                        n2,
                    )[k]
                &&& r is Ok ==> forall|n2: Namespace, k: Seq<Seq<char>>|
                    !ns_bmap(old(self).crate_, n2).contains_key(k) && #[trigger] ns_bmap(
                        final(self).crate_,
                        n2,
                    ).contains_key(k) && k != pv ==> n2 == I::spec_namespace() && ns_bmap(
                        final(self).crate_,
                        n2,
                    )[k].priority == Priority::Glob && ns_bmap(
                        final(self).crate_,
                        n2,
                    )[k].absolute_target == tv
                &&& r is Ok ==> forall|j: int|
                    0 <= j < scope_links(*old(self), path_view(containing_scope@)).len()
                        && spec_vis_allows(
                        #[trigger] scope_links(*old(self), path_view(containing_scope@))[j].1,
                        old(self).id(),
                        scope_links(*old(self), path_view(containing_scope@))[j].0,
                        true,
                    ) && !spec_reserved(
                        *old(self),
                        scope_links(*old(self), path_view(containing_scope@))[j].0,
                        item.spec_name(),
                    ) && old(self).crate_.modules.items_map().contains_key(
                        scope_links(*old(self), path_view(containing_scope@))[j].0,
                    ) && scope_links(*old(self), path_view(containing_scope@))[j].0
                        != path_view(containing_scope@) && !nsb0.contains_key(
                        scope_links(*old(self), path_view(containing_scope@))[j].0.push(
                            item.spec_name(),
                        ),
                    ) ==> nsb1.contains_key(
                        scope_links(*old(self), path_view(containing_scope@))[j].0.push(
                            item.spec_name(),
                        ),
                    ) && nsb1[scope_links(*old(self), path_view(containing_scope@))[j].0.push(
                        item.spec_name(),
                    )].priority == Priority::Glob && nsb1[scope_links(
                        *old(self),
                        path_view(containing_scope@),
                    )[j].0.push(item.spec_name())].absolute_target == tv
                &&& r is Err ==> *final(self) == *old(self)
                &&& r == Err::<Identity, DatabaseError>(DatabaseError::NoSuchScope) <==> !old(
                    self,
                ).crate_.modules.items_map().contains_key(path_view(containing_scope@))
                &&& r is Err && r != Err::<Identity, DatabaseError>(DatabaseError::NoSuchScope)
                    ==> (r == Err::<Identity, DatabaseError>(DatabaseError::ItemAlreadyPresent)
                    <==> I::sel(old(self).crate_).items_map().contains_key(pv))
                &&& r is Err && r != Err::<Identity, DatabaseError>(DatabaseError::NoSuchScope)
                    && r != Err::<Identity, DatabaseError>(DatabaseError::ItemAlreadyPresent)
                    ==> r == Err::<Identity, DatabaseError>(DatabaseError::BindingAlreadyPresent)
            }),
    {
        if self.crate_.modules.get_item(containing_scope).is_none() {
            return Err(DatabaseError::NoSuchScope);
        }
        let name = item.item_name().clone();
        let path = crate::paths::join_path(containing_scope, &name);
        let ghost pv = path_view(path@);
        let identity = Identity::new(&self.crate_.crate_data.crate_id, &path);
        let target = identity.clone_identity();
        let ghost itemg = item;
        proof {
            I::lemma_sel_wf(self.crate_);
            I::lemma_sel_is(self.crate_);
            assert(pv == path_view(containing_scope@).push(itemg.spec_name()));
        }
        let r = I::db_add_item(&mut self.crate_, path, item);
        match r {
            Ok(()) => {
                proof {
                    lemma_inv_add_item::<I>(old(self).crate_, self.crate_, pv, itemg);
                    I::lemma_sel_is(self.crate_);
                }
                let ghost w_mid = *self;
                let ns = I::namespace();
                proof {
                    lemma_ns_bmap_is::<I>(old(self).crate_);
                    lemma_ns_bmap_is::<I>(self.crate_);
                    assert(ns_idom(self.crate_, ns).contains(pv));
                    assert(ns_bmap(w_mid.crate_, ns) =~= ns_bmap(
                        old(self).crate_,
                        ns,
                    ).insert(
                        pv,
                        BindingV {
                            absolute_target: IdentityV { crate_id: old(self).id(), path: pv },
                            visibility: itemg.spec_metadata().visibility,
                            priority: Priority::Explicit,
                        },
                    ));
                    assert forall|n2: Namespace|
                        n2 != ns implies #[trigger] ns_bmap(w_mid.crate_, n2) == ns_bmap(
                        old(self).crate_,
                        n2,
                    ) by {}
                }
                let fuel: u64 = if self.scopes.len() < usize::MAX - 1 {
                    (self.scopes.len() + 1) as u64
                } else {
                    u64::MAX
                };
                self.propagate_binding(ns, containing_scope, &name, &target, fuel);
                proof {
                    let tv = target@;
                    I::lemma_sel_items_eq(w_mid.crate_, self.crate_);
                    assert(ns_bmap(w_mid.crate_, ns).contains_key(pv));
                    assert(ns_bmap(self.crate_, ns).contains_key(pv) && ns_bmap(
                        self.crate_,
                        ns,
                    )[pv] == ns_bmap(w_mid.crate_, ns)[pv]);
                    assert forall|n2: Namespace, k: Seq<Seq<char>>|
                        #[trigger] ns_bmap(old(self).crate_, n2).contains_key(k) && !(n2 == ns
                            && k == pv) implies ns_bmap(self.crate_, n2).contains_key(k)
                        && ns_bmap(self.crate_, n2)[k] == ns_bmap(old(self).crate_, n2)[k] by {
                        assert(ns_bmap(w_mid.crate_, n2).contains_key(k));
                        assert(ns_bmap(w_mid.crate_, n2)[k] == ns_bmap(old(self).crate_, n2)[k]);
                    }
                    assert forall|n2: Namespace, k: Seq<Seq<char>>|
                        !ns_bmap(old(self).crate_, n2).contains_key(k) && #[trigger] ns_bmap(
                            self.crate_,
                            n2,
                        ).contains_key(k) && k != pv implies n2 == ns && ns_bmap(
                        self.crate_,
                        n2,
                    )[k].priority == Priority::Glob && ns_bmap(
                        self.crate_,
                        n2,
                    )[k].absolute_target == tv by {
                        if ns_bmap(w_mid.crate_, n2).contains_key(k) {
                            assert(n2 == ns);
                            assert(ns_bmap(old(self).crate_, n2).contains_key(k));
                        }
                    }
                    let scv = path_view(containing_scope@);
                    let lv = scope_links(*old(self), scv);
                    assert(scope_links(w_mid, scv) == lv);
                    assert forall|j: int|
                        0 <= j < lv.len() && spec_vis_allows(
                            #[trigger] lv[j].1,
                            old(self).id(),
                            lv[j].0,
                            true,
                        ) && !spec_reserved(*old(self), lv[j].0, itemg.spec_name())
                            && old(self).crate_.modules.items_map().contains_key(lv[j].0)
                            && lv[j].0 != scv && !ns_bmap(
                            old(self).crate_,
                            ns,
                        ).contains_key(lv[j].0.push(itemg.spec_name())) implies ns_bmap(
                        self.crate_,
                        ns,
                    ).contains_key(lv[j].0.push(itemg.spec_name())) && ns_bmap(
                        self.crate_,
                        ns,
                    )[lv[j].0.push(itemg.spec_name())].priority == Priority::Glob && ns_bmap(
                        self.crate_,
                        ns,
                    )[lv[j].0.push(itemg.spec_name())].absolute_target == tv by {
                        let key = lv[j].0.push(itemg.spec_name());
                        assert(spec_reserved(w_mid, lv[j].0, itemg.spec_name()) == spec_reserved(
                            *old(self),
                            lv[j].0,
                            itemg.spec_name(),
                        ));
                        assert(ns_idom(w_mid.crate_, Namespace::Module).contains(lv[j].0));
                        assert(w_mid.crate_.modules.items_map().contains_key(lv[j].0));
                        assert(key.drop_last() =~= lv[j].0);
                        assert(pv.drop_last() =~= scv);
                        assert(key != pv);
                        assert(!ns_bmap(w_mid.crate_, ns).contains_key(key));
                    }
                }
                Ok(identity)
            },
            Err(e) => Err(e),
        }
    }

    /// Add a binding at `{containing_scope}::{name}`. The target need not
    /// lie in this package, but where it does, it must name a defined item,
    /// so that bindings always point at defining identities.
    pub fn add_binding<I: NamespaceLookup>(
        &mut self,
        containing_scope: &Vec<String>,
        name: &String,
        target: Identity,
        visibility: Visibility,
        priority: Priority,
    ) -> (r: Result<(), DatabaseError>)
        requires
            old(self).inv(),
            I::sel(old(self).crate_).wf(),
            target@.crate_id == old(self).id() ==> I::sel(
                old(self).crate_,
            ).items_map().contains_key(target@.path),
        ensures
            final(self).inv(),
            final(self).id() == old(self).id(),
            final(self).scopes == old(self).scopes,
            final(self).prelude == old(self).prelude,
            final(self).work_list == old(self).work_list,
            final(self).unexpanded == old(self).unexpanded,
            I::spec_namespace() != Namespace::Type ==> final(self).crate_.types == old(
                self,
            ).crate_.types,
            I::spec_namespace() != Namespace::Symbol ==> final(self).crate_.symbols == old(
                self,
            ).crate_.symbols,
            I::spec_namespace() != Namespace::Macro ==> final(self).crate_.macros == old(
                self,
            ).crate_.macros,
            I::spec_namespace() != Namespace::Module ==> final(self).crate_.modules == old(
                self,
            ).crate_.modules,
            final(self).crate_.crate_data == old(self).crate_.crate_data,
            ({
                let pv = path_view(containing_scope@).push(name@);
                &&& r is Ok <==> (old(self).crate_.modules.items_map().contains_key(
                    path_view(containing_scope@),
                ) && can_bind(I::sel(old(self).crate_).bindings_map(), pv, priority))
                &&& r is Ok ==> I::sel(final(self).crate_).bindings_map() == I::sel(
                    old(self).crate_,
                ).bindings_map().insert(
                    pv,
                    BindingV { absolute_target: target@, visibility: visibility@, priority },
                ) && I::sel(final(self).crate_).items_map() == I::sel(
                    old(self).crate_,
                ).items_map()
                &&& r is Err ==> *final(self) == *old(self)
                &&& r == Err::<(), DatabaseError>(DatabaseError::NoSuchScope) <==> !old(
                    self,
                ).crate_.modules.items_map().contains_key(path_view(containing_scope@))
                &&& r is Err && r != Err::<(), DatabaseError>(DatabaseError::NoSuchScope) ==> r
                    == Err::<(), DatabaseError>(DatabaseError::BindingAlreadyPresent)
            }),
    {
        if self.crate_.modules.get_item(containing_scope).is_none() {
            return Err(DatabaseError::NoSuchScope);
        }
        let path = crate::paths::join_path(containing_scope, name);
        let ghost pv = path_view(path@);
        let ghost bv = BindingV { absolute_target: target@, visibility: visibility@, priority };
        proof {
            I::lemma_sel_wf(self.crate_);
        }
        let r = I::db_add_binding(&mut self.crate_, path, target, visibility, priority);
        match r {
            Ok(()) => {
                proof {
                    lemma_inv_add_binding::<I>(old(self).crate_, self.crate_, pv, bv);
                }
                Ok(())
            },
            Err(e) => Err(e),
        }
    }
}

/// Inserting an item with its self-binding into one namespace preserves
/// that namespace's store invariants.
proof fn lemma_ns_inv_add_item<J: HasMetadata>(
    n0: crate::database::CrateNamespace<J>,
    n1: crate::database::CrateNamespace<J>,
    id: CrateIdV,
    pv: Seq<Seq<char>>,
    item: J,
)
    requires
        ns_inv(n0, id),
        n1.items_map() == n0.items_map().insert(pv, item),
        n1.bindings_map() == n0.bindings_map().insert(
            pv,
            BindingV {
                absolute_target: IdentityV { crate_id: id, path: pv },
                visibility: item.spec_metadata().visibility,
                priority: Priority::Explicit,
            },
        ),
    ensures
        ns_inv(n1, id),
{
    assert(ns_vis_map(n1) =~= ns_vis_map(n0).insert(pv, item.spec_metadata().visibility));
    assert forall|k: Seq<Seq<char>>|
        #[trigger] n1.bindings_map().contains_key(k)
            && n1.bindings_map()[k].absolute_target.crate_id == id implies n1.items_map(
    ).dom().contains(n1.bindings_map()[k].absolute_target.path) by {
        if k != pv {
            assert(n0.bindings_map().contains_key(k));
            assert(n1.bindings_map()[k] == n0.bindings_map()[k]);
        }
    }
    assert forall|p: Seq<Seq<char>>| #[trigger] ns_vis_map(n1).contains_key(p) implies n1
        .bindings_map().contains_key(p) && n1.bindings_map()[p] == (BindingV {
        absolute_target: IdentityV { crate_id: id, path: p },
        visibility: ns_vis_map(n1)[p],
        priority: Priority::Explicit,
    }) by {
        if p != pv {
            assert(ns_vis_map(n0).contains_key(p));
            assert(n1.bindings_map()[p] == n0.bindings_map()[p]);
            assert(ns_vis_map(n1)[p] == ns_vis_map(n0)[p]);
        }
    }
}

/// Adding a binding whose in-package target is defined preserves one
/// namespace's store invariants: an item's own path carries an explicit
/// binding, which an insertion can never displace.
proof fn lemma_ns_inv_add_binding<J: HasMetadata>(
    n0: crate::database::CrateNamespace<J>,
    n1: crate::database::CrateNamespace<J>,
    id: CrateIdV,
    pv: Seq<Seq<char>>,
    bv: BindingV,
)
    requires
        ns_inv(n0, id),
        can_bind(n0.bindings_map(), pv, bv.priority),
        bv.absolute_target.crate_id == id ==> n0.items_map().dom().contains(
            bv.absolute_target.path,
        ),
        n1.items_map() == n0.items_map(),
        n1.bindings_map() == n0.bindings_map().insert(pv, bv),
    ensures
        ns_inv(n1, id),
{
    assert(ns_vis_map(n1) == ns_vis_map(n0));
    assert forall|k: Seq<Seq<char>>|
        #[trigger] n1.bindings_map().contains_key(k)
            && n1.bindings_map()[k].absolute_target.crate_id == id implies n1.items_map(
    ).dom().contains(n1.bindings_map()[k].absolute_target.path) by {
        if k != pv {
            assert(n0.bindings_map().contains_key(k));
            assert(n1.bindings_map()[k] == n0.bindings_map()[k]);
        }
    }
    assert forall|p: Seq<Seq<char>>| #[trigger] ns_vis_map(n1).contains_key(p) implies n1
        .bindings_map().contains_key(p) && n1.bindings_map()[p] == (BindingV {
        absolute_target: IdentityV { crate_id: id, path: p },
        visibility: ns_vis_map(n1)[p],
        priority: Priority::Explicit,
    }) by {
        if p == pv {
            assert(ns_vis_map(n0).contains_key(pv));
            assert(n0.bindings_map().contains_key(pv));
            assert(n0.bindings_map()[pv].priority == Priority::Explicit);
            assert(!can_bind(n0.bindings_map(), pv, bv.priority));
        } else {
            assert(ns_vis_map(n0).contains_key(p));
            assert(n1.bindings_map()[p] == n0.bindings_map()[p]);
        }
    }
}

/// Lift the per-namespace add-item lemma over the whole store, for whichever
/// namespace the kind selects.
proof fn lemma_inv_add_item<I: NamespaceLookup>(c0: CrateDb, c1: CrateDb, pv: Seq<Seq<char>>, item: I)
    requires
        crate_store_inv(c0),
        c1.id() == c0.id(),
        I::spec_namespace() != Namespace::Type ==> c1.types == c0.types,
        I::spec_namespace() != Namespace::Symbol ==> c1.symbols == c0.symbols,
        I::spec_namespace() != Namespace::Macro ==> c1.macros == c0.macros,
        I::spec_namespace() != Namespace::Module ==> c1.modules == c0.modules,
        I::sel(c1).items_map() == I::sel(c0).items_map().insert(pv, item),
        I::sel(c1).bindings_map() == I::sel(c0).bindings_map().insert(
            pv,
            BindingV {
                absolute_target: IdentityV { crate_id: c0.id(), path: pv },
                visibility: item.spec_metadata().visibility,
                priority: Priority::Explicit,
            },
        ),
    ensures
        crate_store_inv(c1),
{
    I::lemma_sel_is(c0);
    I::lemma_sel_is(c1);
    lemma_ns_inv_add_item::<I>(I::sel(c0), I::sel(c1), c0.id(), pv, item);
    match I::spec_namespace() {
        Namespace::Type => {
            assert(ns_inv(c1.types, c1.id()));
        },
        Namespace::Symbol => {
            assert(ns_inv(c1.symbols, c1.id()));
        },
        Namespace::Macro => {
            assert(ns_inv(c1.macros, c1.id()));
        },
        Namespace::Module => {
            assert(ns_inv(c1.modules, c1.id()));
        },
    }
}

/// Lift the per-namespace add-binding lemma over the whole store.
proof fn lemma_inv_add_binding<I: NamespaceLookup>(
    c0: CrateDb,
    c1: CrateDb,
    pv: Seq<Seq<char>>,
    bv: BindingV,
)
    requires
        crate_store_inv(c0),
        c1.id() == c0.id(),
        I::spec_namespace() != Namespace::Type ==> c1.types == c0.types,
        I::spec_namespace() != Namespace::Symbol ==> c1.symbols == c0.symbols,
        I::spec_namespace() != Namespace::Macro ==> c1.macros == c0.macros,
        I::spec_namespace() != Namespace::Module ==> c1.modules == c0.modules,
        can_bind(I::sel(c0).bindings_map(), pv, bv.priority),
        bv.absolute_target.crate_id == c0.id() ==> I::sel(c0).items_map().dom().contains(
            bv.absolute_target.path,
        ),
        I::sel(c1).items_map() == I::sel(c0).items_map(),
        I::sel(c1).bindings_map() == I::sel(c0).bindings_map().insert(pv, bv),
    ensures
        crate_store_inv(c1),
{
    I::lemma_sel_is(c0);
    I::lemma_sel_is(c1);
    lemma_ns_inv_add_binding::<I>(I::sel(c0), I::sel(c1), c0.id(), pv, bv);
    match I::spec_namespace() {
        Namespace::Type => {
            assert(ns_inv(c1.types, c1.id()));
        },
        Namespace::Symbol => {
            assert(ns_inv(c1.symbols, c1.id()));
        },
        Namespace::Macro => {
            assert(ns_inv(c1.macros, c1.id()));
        },
        Namespace::Module => {
            assert(ns_inv(c1.modules, c1.id()));
        },
    }
}


/// The namespace-`ns` binding table of a package.
pub open spec fn ns_bmap(c: CrateDb, ns: Namespace) -> Map<Seq<Seq<char>>, BindingV> {
    match ns {
        Namespace::Type => c.types.bindings_map(),
        Namespace::Symbol => c.symbols.bindings_map(),
        Namespace::Macro => c.macros.bindings_map(),
        Namespace::Module => c.modules.bindings_map(),
    }
}

/// The package a resolution step continues in: the one being built, or a
/// finished one from the database.
pub open spec fn lookup_crate(db: Db, local: CrateDb, id: CrateIdV) -> Option<CrateDb> {
    if id == local.id() {
        Some(local)
    } else {
        db.spec_get(id)
    }
}

/// One chase down the remaining segments, starting at a known position:
/// intermediate segments are looked up as module bindings, the last in the
/// requested namespace, and each binding's absolute target is followed
/// directly, which is one dereference because bindings are stored collapsed.
pub open spec fn spec_resolve_steps(
    db: Db,
    local: CrateDb,
    cur_crate: CrateIdV,
    cur_path: Seq<Seq<char>>,
    segs: Seq<Seq<char>>,
    i: int,
    ns: Namespace,
) -> Option<IdentityV>
    decreases segs.len() - i,
{
    if i >= segs.len() {
        Some(IdentityV { crate_id: cur_crate, path: cur_path })
    } else {
        match lookup_crate(db, local, cur_crate) {
            None => None,
            Some(c) => {
                let use_ns = if i == segs.len() - 1 {
                    ns
                } else {
                    Namespace::Module
                };
                let bm = ns_bmap(c, use_ns);
                let key = cur_path.push(segs[i]);
                if bm.contains_key(key) {
                    spec_resolve_steps(
                        db,
                        local,
                        bm[key].absolute_target.crate_id,
                        bm[key].absolute_target.path,
                        segs,
                        i + 1,
                        ns,
                    )
                } else {
                    None
                }
            },
        }
    }
}

/// Resolution of a written path against a scope: `crate`, `super`, and
/// `self` restart at the root, the parent, and the scope itself; otherwise
/// the head is tried as a binding in the scope, then in the prelude, then as
/// a declared dependency. `None` means unresolved for now; the caller may
/// park or report.
pub open spec fn spec_resolve_from(
    db: Db,
    local: CrateDb,
    prelude_head: Map<Seq<char>, BindingV>,
    deps: Map<Seq<char>, CrateIdV>,
    scope: Seq<Seq<char>>,
    segs: Seq<Seq<char>>,
    ns: Namespace,
) -> Option<IdentityV> {
    if segs.len() == 0 {
        None
    } else if segs[0] == ("crate")@ {
        spec_resolve_steps(db, local, local.id(), Seq::empty(), segs, 1, ns)
    } else if segs[0] == ("super")@ {
        if scope.len() == 0 {
            None
        } else {
            spec_resolve_steps(db, local, local.id(), scope.drop_last(), segs, 1, ns)
        }
    } else if segs[0] == ("self")@ {
        spec_resolve_steps(db, local, local.id(), scope, segs, 1, ns)
    } else {
        let direct = spec_resolve_steps(db, local, local.id(), scope, segs, 0, ns);
        if direct is Some {
            direct
        } else if prelude_head.contains_key(segs[0]) {
            spec_resolve_steps(
                db,
                local,
                prelude_head[segs[0]].absolute_target.crate_id,
                prelude_head[segs[0]].absolute_target.path,
                segs,
                1,
                ns,
            )
        } else if deps.contains_key(segs[0]) {
            spec_resolve_steps(db, local, deps[segs[0]], Seq::empty(), segs, 1, ns)
        } else {
            None
        }
    }
}

/// Look a binding up in the given namespace of a package.
fn ns_get_binding<'a>(c: &'a CrateDb, ns: Namespace, path: &Vec<String>) -> (r: Option<
    &'a Binding,
>)
    requires
        c.wf(),
    ensures
        match r {
            Some(b) => ns_bmap(*c, ns).contains_key(path_view(path@)) && b@ == ns_bmap(*c, ns)[
                path_view(path@)],
            None => !ns_bmap(*c, ns).contains_key(path_view(path@)),
        },
{
    match ns {
        Namespace::Type => c.types.get_binding(path),
        Namespace::Symbol => c.symbols.get_binding(path),
        Namespace::Macro => c.macros.get_binding(path),
        Namespace::Module => c.modules.get_binding(path),
    }
}

impl Walker {
    /// One chase down the remaining segments of a path, from a known
    /// position.
    fn resolve_steps(
        &self,
        db: &Db,
        cur_crate: CrateId,
        cur_path: Vec<String>,
        segs: &Vec<String>,
        i: usize,
        ns: Namespace,
    ) -> (r: Option<Identity>)
        requires
            self.wf(),
            db.wf(),
            i <= segs@.len(),
        ensures
            (match r {
                Some(identity) => spec_resolve_steps(
                    *db,
                    self.crate_,
                    cur_crate@,
                    path_view(cur_path@),
                    path_view(segs@),
                    i as int,
                    ns,
                ) == Some(identity@),
                None => spec_resolve_steps(
                    *db,
                    self.crate_,
                    cur_crate@,
                    path_view(cur_path@),
                    path_view(segs@),
                    i as int,
                    ns,
                ) is None,
            }),
        decreases segs@.len() - i,
    {
        if i >= segs.len() {
            return Some(Identity { crate_id: cur_crate, path: cur_path });
        }
        let c: &CrateDb = if cur_crate.eq_id(&self.crate_.crate_data.crate_id) {
            &self.crate_
        } else {
            match db.get_crate(&cur_crate) {
                Some(c) => {
                    proof {
                        crate::database::lemma_crates_assoc_wf(db.crates@, cur_crate@);
                    }
                    c
                },
                None => {
                    return None;
                },
            }
        };
        let use_ns = if i == segs.len() - 1 {
            ns
        } else {
            Namespace::Module
        };
        let key = crate::paths::join_path(&cur_path, &segs[i]);
        proof {
            assert(path_view(key@) == path_view(cur_path@).push(path_view(segs@)[i as int]));
        }
        match ns_get_binding(c, use_ns, &key) {
            Some(b) => {
                let next_crate = b.absolute_target.crate_id.clone_id();
                let next_path = clone_path(&b.absolute_target.path);
                self.resolve_steps(db, next_crate, next_path, segs, i + 1, ns)
            },
            None => None,
        }
    }

    /// Resolve a written path against a scope of this package, through the
    /// database for targets in finished packages.
    pub fn resolve(
        &self,
        db: &Db,
        scope: &Vec<String>,
        path: &Path,
        ns: Namespace,
    ) -> (r: Option<Identity>)
        requires
            self.wf(),
            db.wf(),
        ensures
            ({
                let pre = prelude_bmap(
                    self.prelude,
                    if path@.len() == 1 {
                        ns
                    } else {
                        Namespace::Module
                    },
                );
                let deps = self.crate_.crate_data@.deps;
                match r {
                    Some(identity) => spec_resolve_from(
                        *db,
                        self.crate_,
                        pre,
                        deps,
                        path_view(scope@),
                        path@,
                        ns,
                    ) == Some(identity@),
                    None => spec_resolve_from(
                        *db,
                        self.crate_,
                        pre,
                        deps,
                        path_view(scope@),
                        path@,
                        ns,
                    ) is None,
                }
            }),
    {
        let segs = &path.segments;
        if segs.len() == 0 {
            return None;
        }
        let head = &segs[0];
        proof {
            assert(path@[0] == segs@[0]@);
        }
        if *head == ("crate").to_owned() {
            let root: Vec<String> = Vec::new();
            let r = self.resolve_steps(
                db,
                self.crate_.crate_data.crate_id.clone_id(),
                root,
                segs,
                1,
                ns,
            );
            proof {
                assert(path_view(Seq::<String>::empty()) =~= Seq::<Seq<char>>::empty());
            }
            r
        } else if *head == ("super").to_owned() {
            match crate::paths::parent_path(scope) {
                Some(parent) => self.resolve_steps(
                    db,
                    self.crate_.crate_data.crate_id.clone_id(),
                    parent,
                    segs,
                    1,
                    ns,
                ),
                None => None,
            }
        } else if *head == ("self").to_owned() {
            let here = clone_path(scope);
            self.resolve_steps(
                db,
                self.crate_.crate_data.crate_id.clone_id(),
                here,
                segs,
                1,
                ns,
            )
        } else {
            let here = clone_path(scope);
            let direct = self.resolve_steps(
                db,
                self.crate_.crate_data.crate_id.clone_id(),
                here,
                segs,
                0,
                ns,
            );
            if direct.is_some() {
                return direct;
            }
            let use_ns = if segs.len() == 1 {
                ns
            } else {
                Namespace::Module
            };
            match self.prelude_get(use_ns, head) {
                Some(b) => {
                    let next_crate = b.absolute_target.crate_id.clone_id();
                    let next_path = clone_path(&b.absolute_target.path);
                    self.resolve_steps(db, next_crate, next_path, segs, 1, ns)
                },
                None => {
                    match self.crate_.crate_data.dep_of(head) {
                        Some(dep) => {
                            let dep_id = dep.clone_id();
                            let root: Vec<String> = Vec::new();
                            let r = self.resolve_steps(db, dep_id, root, segs, 1, ns);
                            proof {
                                assert(path_view(Seq::<String>::empty())
                                    =~= Seq::<Seq<char>>::empty());
                            }
                            r
                        },
                        None => None,
                    }
                },
            }
        }
    }

    /// The prelude binding of a namespace under a name, if any.
    fn prelude_get(&self, ns: Namespace, name: &String) -> (r: Option<&Binding>)
        requires
            self.prelude.wf(),
        ensures
            match r {
                Some(b) => prelude_bmap(self.prelude, ns).contains_key(name@) && b@
                    == prelude_bmap(self.prelude, ns)[name@],
                None => !prelude_bmap(self.prelude, ns).contains_key(name@),
            },
    {
        let r = match ns {
            Namespace::Type => self.prelude.types.get(name),
            Namespace::Symbol => self.prelude.symbols.get(name),
            Namespace::Macro => self.prelude.macros.get(name),
            Namespace::Module => self.prelude.modules.get(name),
        };
        proof {
            if self.prelude.sel_map(ns).contains_key(name@) {
                assert(prelude_bmap(self.prelude, ns)[name@] == self.prelude.sel_map(ns)[name@]@);
            }
        }
        r
    }
}

/// The view-level prelude bindings of one namespace.
pub open spec fn prelude_bmap(p: Prelude, ns: Namespace) -> Map<Seq<char>, BindingV> {
    p.sel_map(ns).map_values(|b: Binding| b@)
}


/// The defined paths of one namespace of a package.
pub open spec fn ns_idom(c: CrateDb, ns: Namespace) -> Set<Seq<Seq<char>>> {
    match ns {
        Namespace::Type => c.types.items_map().dom(),
        Namespace::Symbol => c.symbols.items_map().dom(),
        Namespace::Macro => c.macros.items_map().dom(),
        Namespace::Module => c.modules.items_map().dom(),
    }
}

/// Whether a binding of visibility `v` is visible to a scope of the package
/// being built: public always, non-public only within the same package, and
/// a scope-restricted binding only below its scope.
pub open spec fn spec_vis_allows(
    v: VisibilityV,
    local_id: CrateIdV,
    viewer_scope: Seq<Seq<char>>,
    source_is_local: bool,
) -> bool {
    match v {
        VisibilityV::Pub => true,
        VisibilityV::NonPub => source_is_local,
        VisibilityV::InScope(id) => id.crate_id == local_id && is_prefix_of(
            id.path,
            viewer_scope,
        ),
    }
}

fn vis_allows(
    v: &Visibility,
    local_id: &CrateId,
    viewer_scope: &Vec<String>,
    source_is_local: bool,
) -> (r: bool)
    ensures
        r == spec_vis_allows(v@, local_id@, path_view(viewer_scope@), source_is_local),
{
    match v {
        Visibility::Pub => true,
        Visibility::NonPub => source_is_local,
        Visibility::InScope(id) => id.crate_id.eq_id(local_id) && crate::paths::path_is_prefix(
            &id.path,
            viewer_scope,
        ),
    }
}

impl Walker {
    /// Whether the path is a defined item of the namespace in the package
    /// being built.
    fn local_defined(&self, ns: Namespace, path: &Vec<String>) -> (r: bool)
        requires
            self.wf(),
        ensures
            r == ns_idom(self.crate_, ns).contains(path_view(path@)),
    {
        match ns {
            Namespace::Type => self.crate_.types.get_item(path).is_some(),
            Namespace::Symbol => self.crate_.symbols.get_item(path).is_some(),
            Namespace::Macro => self.crate_.macros.get_item(path).is_some(),
            Namespace::Module => self.crate_.modules.get_item(path).is_some(),
        }
    }

    /// Add a binding in the namespace given at run time; the target must be
    /// defined where it points into this package.
    pub fn add_binding_by(
        &mut self,
        ns: Namespace,
        containing_scope: &Vec<String>,
        name: &String,
        target: Identity,
        visibility: Visibility,
        priority: Priority,
    ) -> (r: Result<(), DatabaseError>)
        requires
            old(self).inv(),
            target@.crate_id == old(self).id() ==> ns_idom(old(self).crate_, ns).contains(
                target@.path,
            ),
        ensures
            final(self).inv(),
            final(self).id() == old(self).id(),
            final(self).scopes == old(self).scopes,
            final(self).prelude == old(self).prelude,
            final(self).work_list == old(self).work_list,
            final(self).unexpanded == old(self).unexpanded,
            final(self).crate_.crate_data == old(self).crate_.crate_data,
            final(self).crate_.types.items_map() == old(self).crate_.types.items_map(),
            final(self).crate_.symbols.items_map() == old(self).crate_.symbols.items_map(),
            final(self).crate_.macros.items_map() == old(self).crate_.macros.items_map(),
            final(self).crate_.modules.items_map() == old(self).crate_.modules.items_map(),
            ns != Namespace::Type ==> final(self).crate_.types == old(self).crate_.types,
            ns != Namespace::Symbol ==> final(self).crate_.symbols == old(self).crate_.symbols,
            ns != Namespace::Macro ==> final(self).crate_.macros == old(self).crate_.macros,
            ns != Namespace::Module ==> final(self).crate_.modules == old(self).crate_.modules,
            ({
                let pv = path_view(containing_scope@).push(name@);
                &&& r is Ok <==> (old(self).crate_.modules.items_map().contains_key(
                    path_view(containing_scope@),
                ) && can_bind(ns_bmap(old(self).crate_, ns), pv, priority))
                &&& r is Ok ==> ns_bmap(final(self).crate_, ns) == ns_bmap(
                    old(self).crate_,
                    ns,
                ).insert(
                    pv,
                    BindingV { absolute_target: target@, visibility: visibility@, priority },
                )
                &&& r is Err ==> *final(self) == *old(self)
                &&& r == Err::<(), DatabaseError>(DatabaseError::NoSuchScope) <==> !old(
                    self,
                ).crate_.modules.items_map().contains_key(path_view(containing_scope@))
                &&& r is Err && r != Err::<(), DatabaseError>(DatabaseError::NoSuchScope) ==> r
                    == Err::<(), DatabaseError>(DatabaseError::BindingAlreadyPresent)
                &&& forall|n2: Namespace|
                    n2 != ns ==> #[trigger] ns_bmap(final(self).crate_, n2) == ns_bmap(
                        old(self).crate_,
                        n2,
                    )
                &&& forall|n2: Namespace|
                    #[trigger] ns_idom(final(self).crate_, n2) == ns_idom(old(self).crate_, n2)
            }),
    {
        match ns {
            Namespace::Type => self.add_binding::<TypeItem>(
                containing_scope,
                name,
                target,
                visibility,
                priority,
            ),
            Namespace::Symbol => self.add_binding::<SymbolItem>(
                containing_scope,
                name,
                target,
                visibility,
                priority,
            ),
            Namespace::Macro => self.add_binding::<MacroItem>(
                containing_scope,
                name,
                target,
                visibility,
                priority,
            ),
            Namespace::Module => self.add_binding::<ModuleItem>(
                containing_scope,
                name,
                target,
                visibility,
                priority,
            ),
        }
    }

    /// Add a prelude binding of the namespace given at run time, visible
    /// only within this package.
    pub fn add_prelude_binding_by(
        &mut self,
        ns: Namespace,
        name: String,
        target: Identity,
    ) -> (r: Result<(), DatabaseError>)
        requires
            old(self).inv(),
        ensures
            final(self).inv(),
            final(self).crate_ == old(self).crate_,
            final(self).scopes == old(self).scopes,
            r is Ok <==> !prelude_bmap(old(self).prelude, ns).contains_key(name@),
            r is Err ==> r == Err::<(), DatabaseError>(DatabaseError::BindingAlreadyPresent)
                && *final(self) == *old(self),
            r is Ok ==> prelude_bmap(final(self).prelude, ns) == prelude_bmap(
                old(self).prelude,
                ns,
            ).insert(
                name@,
                BindingV {
                    absolute_target: target@,
                    visibility: VisibilityV::InScope(
                        IdentityV { crate_id: old(self).id(), path: Seq::empty() },
                    ),
                    priority: Priority::Explicit,
                },
            ),
            forall|n2: Namespace|
                n2 != ns ==> #[trigger] prelude_bmap(final(self).prelude, n2) == prelude_bmap(
                    old(self).prelude,
                    n2,
                ),
    {
        let present = match ns {
            Namespace::Type => self.prelude.types.get(&name).is_some(),
            Namespace::Symbol => self.prelude.symbols.get(&name).is_some(),
            Namespace::Macro => self.prelude.macros.get(&name).is_some(),
            Namespace::Module => self.prelude.modules.get(&name).is_some(),
        };
        if present {
            proof {
                assert(prelude_bmap(self.prelude, ns).contains_key(name@));
            }
            return Err(DatabaseError::BindingAlreadyPresent);
        }
        let root = Identity::root(&self.crate_.crate_data.crate_id);
        proof {
            assert(root@.path =~= Seq::<Seq<char>>::empty());
        }
        let b = Binding {
            absolute_target: target,
            visibility: Visibility::InScope(root),
            priority: Priority::Explicit,
        };
        let ghost bv = b@;
        match ns {
            Namespace::Type => {
                let _ = self.prelude.types.insert(name, b);
            },
            Namespace::Symbol => {
                let _ = self.prelude.symbols.insert(name, b);
            },
            Namespace::Macro => {
                let _ = self.prelude.macros.insert(name, b);
            },
            Namespace::Module => {
                let _ = self.prelude.modules.insert(name, b);
            },
        }
        proof {
            assert(prelude_bmap(self.prelude, ns) =~= prelude_bmap(old(self).prelude, ns).insert(
                name@,
                bv,
            ));
            assert forall|n2: Namespace| n2 != ns implies #[trigger] prelude_bmap(
                final(self).prelude,
                n2,
            ) == prelude_bmap(old(self).prelude, n2) by {}
        }
        Ok(())
    }

    /// Record that `linked` glob-imports from `source`: later additions to
    /// `source` also propagate to `linked`. Exactly this link is appended to
    /// the source scope's back links; every other scope's links and every
    /// reservation are untouched.
    #[verifier::loop_isolation(false)]
    pub fn add_back_link(
        &mut self,
        source: &Vec<String>,
        linked: &Vec<String>,
        visibility: Visibility,
    )
        requires
            old(self).inv(),
        ensures
            final(self).inv(),
            final(self).crate_ == old(self).crate_,
            final(self).prelude == old(self).prelude,
            final(self).work_list == old(self).work_list,
            final(self).unexpanded == old(self).unexpanded,
            scope_links(*final(self), path_view(source@)) == scope_links(
                *old(self),
                path_view(source@),
            ).push((path_view(linked@), visibility@)),
            forall|s: Seq<Seq<char>>|
                s != path_view(source@) ==> #[trigger] scope_links(*final(self), s)
                    == scope_links(*old(self), s),
            forall|s: Seq<Seq<char>>, n: Seq<char>|
                #[trigger] spec_reserved(*final(self), s, n) == spec_reserved(*old(self), s, n),
    {
        let ghost sv = path_view(source@);
        let mut entry = match self.scopes.get(source) {
            Some(e) => clone_scope_entry(e),
            None => ScopeInProgress::new(),
        };
        let ghost links0 = links_view(entry);
        let ghost res0 = path_view(entry.reserved@);
        proof {
            assert(links0 =~= scope_links(*old(self), sv));
        }
        entry.back_links.push((clone_path(linked), visibility));
        proof {
            assert(links_view(entry) =~= links0.push((path_view(linked@), visibility@)));
        }
        let _ = self.scopes.insert(clone_path(source), entry);
        proof {
            lemma_scope_state_after_insert(
                *old(self),
                *self,
                sv,
                links0.push((path_view(linked@), visibility@)),
                res0,
            );
            lemma_reserved_iff(*old(self), sv);
            assert forall|n: Seq<char>| #[trigger] spec_reserved(*self, sv, n) == spec_reserved(
                *old(self),
                sv,
                n,
            ) by {}
        }
    }

    /// Mark a name as claimed by an explicit import in a scope; glob
    /// bindings never overwrite it. Exactly this reservation is recorded;
    /// every other reservation and every back link are untouched.
    #[verifier::loop_isolation(false)]
    pub fn reserve_name(&mut self, scope: &Vec<String>, name: &String)
        requires
            old(self).inv(),
        ensures
            final(self).inv(),
            final(self).crate_ == old(self).crate_,
            final(self).prelude == old(self).prelude,
            final(self).work_list == old(self).work_list,
            final(self).unexpanded == old(self).unexpanded,
            spec_reserved(*final(self), path_view(scope@), name@),
            forall|s: Seq<Seq<char>>, n: Seq<char>|
                #[trigger] spec_reserved(*final(self), s, n) == (spec_reserved(*old(self), s, n)
                    || (s == path_view(scope@) && n == name@)),
            forall|s: Seq<Seq<char>>|
                #[trigger] scope_links(*final(self), s) == scope_links(*old(self), s),
    {
        let ghost sv = path_view(scope@);
        let mut entry = match self.scopes.get(scope) {
            Some(e) => clone_scope_entry(e),
            None => ScopeInProgress::new(),
        };
        let ghost links0 = links_view(entry);
        let ghost res0 = path_view(entry.reserved@);
        proof {
            assert(links0 =~= scope_links(*old(self), sv));
        }
        entry.reserved.push(name.clone());
        proof {
            assert(path_view(entry.reserved@) =~= res0.push(name@));
        }
        let _ = self.scopes.insert(clone_path(scope), entry);
        proof {
            lemma_scope_state_after_insert(*old(self), *self, sv, links0, res0.push(name@));
            lemma_reserved_iff(*old(self), sv);
            assert(res0.push(name@).contains(name@)) by {
                assert(res0.push(name@)[res0.len() as int] == name@);
            }
            assert forall|n: Seq<char>| #[trigger] spec_reserved(*self, sv, n) == (spec_reserved(
                *old(self),
                sv,
                n,
            ) || n == name@) by {
                if res0.push(name@).contains(n) {
                    let i = choose|i: int|
                        0 <= i < res0.push(name@).len() && res0.push(name@)[i] == n;
                    if i < res0.len() {
                        assert(res0.contains(n));
                    }
                }
                if res0.contains(n) {
                    let i = choose|i: int| 0 <= i < res0.len() && res0[i] == n;
                    assert(res0.push(name@)[i] == n);
                }
            }
        }
    }

    /// Whether a name is reserved by an explicit import in a scope.
    #[verifier::loop_isolation(false)]
    fn is_reserved(&self, scope: &Vec<String>, name: &String) -> (r: bool)
        requires
            self.wf(),
        ensures
            r == spec_reserved(*self, path_view(scope@), name@),
    {
        match self.scopes.get(scope) {
            Some(entry) => {
                let n = entry.reserved.len();
                let mut i: usize = 0;
                while i < n
                    invariant
                        n == entry.reserved@.len(),
                        i <= n,
                        forall|q: int| 0 <= q < i ==> #[trigger] entry.reserved@[q]@ != name@,
                    decreases n - i,
                {
                    if entry.reserved[i] == *name {
                        return true;
                    }
                    i += 1;
                }
                false
            },
            None => false,
        }
    }
}


/// The view of a scope's back links.
pub open spec fn links_view(e: ScopeInProgress) -> Seq<(Seq<Seq<char>>, VisibilityV)> {
    e.back_links@.map_values(|l: (Vec<String>, Visibility)| (path_view(l.0@), l.1@))
}

/// The back links recorded for a scope, if any.
pub open spec fn scope_links(w: Walker, s: Seq<Seq<char>>) -> Seq<(Seq<Seq<char>>, VisibilityV)> {
    if w.scopes@.contains_key(s) {
        links_view(w.scopes@[s])
    } else {
        Seq::empty()
    }
}

/// Whether a name is reserved by an explicit import in a scope.
pub open spec fn spec_reserved(w: Walker, s: Seq<Seq<char>>, n: Seq<char>) -> bool {
    w.scopes@.contains_key(s) && exists|i: int|
        0 <= i < w.scopes@[s].reserved@.len() && #[trigger] w.scopes@[s].reserved@[i]@ == n
}

/// Copy a scope's ephemeral state.
fn clone_scope_entry(e: &ScopeInProgress) -> (r: ScopeInProgress)
    ensures
        links_view(r) == links_view(*e),
        path_view(r.reserved@) == path_view(e.reserved@),
{
    let mut back_links: Vec<(Vec<String>, Visibility)> = Vec::new();
    let n = e.back_links.len();
    let mut i: usize = 0;
    while i < n
        invariant
            n == e.back_links@.len(),
            i <= n,
            back_links@.len() == i,
            forall|q: int|
                0 <= q < i ==> path_view(#[trigger] back_links@[q].0@) == path_view(
                    e.back_links@[q].0@,
                ) && back_links@[q].1@ == e.back_links@[q].1@,
        decreases n - i,
    {
        back_links.push((clone_path(&e.back_links[i].0), e.back_links[i].1.clone_vis()));
        i += 1;
    }
    let r = ScopeInProgress { back_links, reserved: clone_path(&e.reserved) };
    proof {
        assert(links_view(r) =~= links_view(*e));
    }
    r
}

/// After inserting an entry for scope `sv`, the scope state is the old one
/// with that scope's links and reservations replaced.
proof fn lemma_scope_state_after_insert(
    w0: Walker,
    w1: Walker,
    sv: Seq<Seq<char>>,
    links1: Seq<(Seq<Seq<char>>, VisibilityV)>,
    res1: Seq<Seq<char>>,
)
    requires
        w1.scopes@.contains_key(sv),
        links_view(w1.scopes@[sv]) == links1,
        path_view(w1.scopes@[sv].reserved@) == res1,
        w1.scopes@ == w0.scopes@.insert(sv, w1.scopes@[sv]),
    ensures
        scope_links(w1, sv) == links1,
        forall|s: Seq<Seq<char>>|
            s != sv ==> #[trigger] scope_links(w1, s) == scope_links(w0, s),
        forall|n: Seq<char>|
            #[trigger] spec_reserved(w1, sv, n) == res1.contains(n),
        forall|s: Seq<Seq<char>>, n: Seq<char>|
            s != sv ==> #[trigger] spec_reserved(w1, s, n) == spec_reserved(w0, s, n),
{
    assert forall|n: Seq<char>| #[trigger] spec_reserved(w1, sv, n) == res1.contains(n) by {
        if spec_reserved(w1, sv, n) {
            let i = choose|i: int|
                0 <= i < w1.scopes@[sv].reserved@.len() && #[trigger] w1.scopes@[sv].reserved@[i]@
                    == n;
            assert(res1[i] == n);
        }
        if res1.contains(n) {
            let i = choose|i: int| 0 <= i < res1.len() && res1[i] == n;
            assert(w1.scopes@[sv].reserved@[i]@ == n);
        }
    }
    assert forall|s: Seq<Seq<char>>, n: Seq<char>| s != sv implies #[trigger] spec_reserved(
        w1,
        s,
        n,
    ) == spec_reserved(w0, s, n) by {
        assert(w1.scopes@.contains_key(s) == w0.scopes@.contains_key(s));
        if w0.scopes@.contains_key(s) {
            assert(w1.scopes@[s] == w0.scopes@[s]);
        }
    }
}

/// A scope's reservations, read as a set of names.
proof fn lemma_reserved_iff(w: Walker, sv: Seq<Seq<char>>)
    ensures
        w.scopes@.contains_key(sv) ==> forall|n: Seq<char>|
            #[trigger] spec_reserved(w, sv, n) == path_view(w.scopes@[sv].reserved@).contains(n),
        !w.scopes@.contains_key(sv) ==> forall|n: Seq<char>| !#[trigger] spec_reserved(w, sv, n),
{
    if w.scopes@.contains_key(sv) {
        assert forall|n: Seq<char>| #[trigger] spec_reserved(w, sv, n) == path_view(
            w.scopes@[sv].reserved@,
        ).contains(n) by {
            if spec_reserved(w, sv, n) {
                let i = choose|i: int|
                    0 <= i < w.scopes@[sv].reserved@.len()
                        && #[trigger] w.scopes@[sv].reserved@[i]@ == n;
                assert(path_view(w.scopes@[sv].reserved@)[i] == n);
            }
            if path_view(w.scopes@[sv].reserved@).contains(n) {
                let i = choose|i: int|
                    0 <= i < path_view(w.scopes@[sv].reserved@).len() && path_view(
                        w.scopes@[sv].reserved@,
                    )[i] == n;
                assert(w.scopes@[sv].reserved@[i]@ == n);
            }
        }
    }
}

/// The runtime-namespace accessors agree with the kind's selector.
proof fn lemma_ns_bmap_is<I: NamespaceLookup>(c: CrateDb)
    ensures
        ns_bmap(c, I::spec_namespace()) == I::sel(c).bindings_map(),
        ns_idom(c, I::spec_namespace()) == I::sel(c).items_map().dom(),
{
    I::lemma_sel_is(c);
    match I::spec_namespace() {
        Namespace::Type => {},
        Namespace::Symbol => {},
        Namespace::Macro => {},
        Namespace::Module => {},
    }
}

/// Monotone binding growth composes across two steps of propagation.
proof fn lemma_mono_trans(wa: Walker, wb: Walker, wc: Walker, ns: Namespace, tv: IdentityV)
    requires
        forall|n2: Namespace, k: Seq<Seq<char>>|
            #[trigger] ns_bmap(wa.crate_, n2).contains_key(k) ==> ns_bmap(
                wb.crate_,
                n2,
            ).contains_key(k) && ns_bmap(wb.crate_, n2)[k] == ns_bmap(wa.crate_, n2)[k],
        forall|n2: Namespace, k: Seq<Seq<char>>|
            #[trigger] ns_bmap(wb.crate_, n2).contains_key(k) ==> ns_bmap(
                wc.crate_,
                n2,
            ).contains_key(k) && ns_bmap(wc.crate_, n2)[k] == ns_bmap(wb.crate_, n2)[k],
        forall|n2: Namespace, k: Seq<Seq<char>>|
            !ns_bmap(wa.crate_, n2).contains_key(k) && #[trigger] ns_bmap(
                wb.crate_,
                n2,
            ).contains_key(k) ==> n2 == ns && ns_bmap(wb.crate_, n2)[k].priority
                == Priority::Glob && ns_bmap(wb.crate_, n2)[k].absolute_target == tv,
        forall|n2: Namespace, k: Seq<Seq<char>>|
            !ns_bmap(wb.crate_, n2).contains_key(k) && #[trigger] ns_bmap(
                wc.crate_,
                n2,
            ).contains_key(k) ==> n2 == ns && ns_bmap(wc.crate_, n2)[k].priority
                == Priority::Glob && ns_bmap(wc.crate_, n2)[k].absolute_target == tv,
    ensures
        forall|n2: Namespace, k: Seq<Seq<char>>|
            #[trigger] ns_bmap(wa.crate_, n2).contains_key(k) ==> ns_bmap(
                wc.crate_,
                n2,
            ).contains_key(k) && ns_bmap(wc.crate_, n2)[k] == ns_bmap(wa.crate_, n2)[k],
        forall|n2: Namespace, k: Seq<Seq<char>>|
            !ns_bmap(wa.crate_, n2).contains_key(k) && #[trigger] ns_bmap(
                wc.crate_,
                n2,
            ).contains_key(k) ==> n2 == ns && ns_bmap(wc.crate_, n2)[k].priority
                == Priority::Glob && ns_bmap(wc.crate_, n2)[k].absolute_target == tv,
{
    assert forall|n2: Namespace, k: Seq<Seq<char>>|
        !ns_bmap(wa.crate_, n2).contains_key(k) && #[trigger] ns_bmap(
            wc.crate_,
            n2,
        ).contains_key(k) implies n2 == ns && ns_bmap(wc.crate_, n2)[k].priority
        == Priority::Glob && ns_bmap(wc.crate_, n2)[k].absolute_target == tv by {
        if ns_bmap(wb.crate_, n2).contains_key(k) {
            assert(ns_bmap(wc.crate_, n2)[k] == ns_bmap(wb.crate_, n2)[k]);
        }
    }
}

impl Walker {
    /// The back links of a scope, copied out for iteration.
    fn collect_links(&self, source: &Vec<String>) -> (r: Vec<(Vec<String>, Visibility)>)
        requires
            self.wf(),
        ensures
            r@.len() == scope_links(*self, path_view(source@)).len(),
            forall|q: int|
                0 <= q < r@.len() ==> path_view(#[trigger] r@[q].0@) == scope_links(
                    *self,
                    path_view(source@),
                )[q].0 && r@[q].1@ == scope_links(*self, path_view(source@))[q].1,
    {
        let ghost lv = scope_links(*self, path_view(source@));
        match self.scopes.get(source) {
            Some(entry) => {
                let mut out: Vec<(Vec<String>, Visibility)> = Vec::new();
                let n = entry.back_links.len();
                let mut i: usize = 0;
                proof {
                    assert(lv =~= links_view(*entry));
                    assert(lv.len() == entry.back_links@.len());
                }
                while i < n
                    invariant
                        self.wf(),
                        n == entry.back_links@.len(),
                        lv == links_view(*entry),
                        lv.len() == n,
                        i <= n,
                        out@.len() == i,
                        forall|q: int|
                            0 <= q < i ==> path_view(#[trigger] out@[q].0@) == lv[q].0
                                && out@[q].1@ == lv[q].1,
                    decreases n - i,
                {
                    out.push(
                        (clone_path(&entry.back_links[i].0), entry.back_links[i].1.clone_vis()),
                    );
                    proof {
                        assert(lv[i as int].0 == path_view(entry.back_links@[i as int].0@));
                        assert(lv[i as int].1 == entry.back_links@[i as int].1@);
                    }
                    i += 1;
                }
                out
            },
            None => {
                let out: Vec<(Vec<String>, Visibility)> = Vec::new();
                proof {
                    assert(lv.len() == 0);
                }
                out
            },
        }
    }

    /// Serve one back link: if the linked scope may see the binding and has
    /// not reserved the name, insert a glob-priority copy pointing at the
    /// same defining target, and let the copy propagate in turn while fuel
    /// lasts. Existing bindings are never overwritten.
    fn propagate_one(
        &mut self,
        ns: Namespace,
        lscope: &Vec<String>,
        lvis: &Visibility,
        name: &String,
        target: &Identity,
        fuel: u64,
    )
        requires
            old(self).inv(),
            target@.crate_id == old(self).id() ==> ns_idom(old(self).crate_, ns).contains(
                target@.path,
            ),
        ensures
            final(self).inv(),
            final(self).id() == old(self).id(),
            final(self).scopes == old(self).scopes,
            final(self).prelude == old(self).prelude,
            final(self).work_list == old(self).work_list,
            final(self).unexpanded == old(self).unexpanded,
            final(self).crate_.crate_data == old(self).crate_.crate_data,
            final(self).crate_.types.items_map() == old(self).crate_.types.items_map(),
            final(self).crate_.symbols.items_map() == old(self).crate_.symbols.items_map(),
            final(self).crate_.macros.items_map() == old(self).crate_.macros.items_map(),
            final(self).crate_.modules.items_map() == old(self).crate_.modules.items_map(),
            ns != Namespace::Type ==> final(self).crate_.types == old(self).crate_.types,
            ns != Namespace::Symbol ==> final(self).crate_.symbols == old(self).crate_.symbols,
            ns != Namespace::Macro ==> final(self).crate_.macros == old(self).crate_.macros,
            ns != Namespace::Module ==> final(self).crate_.modules == old(self).crate_.modules,
            forall|n2: Namespace|
                #[trigger] ns_idom(final(self).crate_, n2) == ns_idom(old(self).crate_, n2),
            forall|n2: Namespace, k: Seq<Seq<char>>|
                #[trigger] ns_bmap(old(self).crate_, n2).contains_key(k) ==> ns_bmap(
                    final(self).crate_,
                    n2,
                ).contains_key(k) && ns_bmap(final(self).crate_, n2)[k] == ns_bmap(
                    old(self).crate_,
                    n2,
                )[k],
            forall|n2: Namespace, k: Seq<Seq<char>>|
                !ns_bmap(old(self).crate_, n2).contains_key(k) && #[trigger] ns_bmap(
                    final(self).crate_,
                    n2,
                ).contains_key(k) ==> n2 == ns && ns_bmap(final(self).crate_, n2)[k].priority
                    == Priority::Glob && ns_bmap(final(self).crate_, n2)[k].absolute_target
                    == target@,
            spec_vis_allows(lvis@, old(self).id(), path_view(lscope@), true) && !spec_reserved(
                *old(self),
                path_view(lscope@),
                name@,
            ) && old(self).crate_.modules.items_map().contains_key(path_view(lscope@))
                && !ns_bmap(old(self).crate_, ns).contains_key(
                path_view(lscope@).push(name@),
            ) ==> ns_bmap(final(self).crate_, ns).contains_key(path_view(lscope@).push(name@))
                && ns_bmap(final(self).crate_, ns)[path_view(lscope@).push(name@)].priority
                == Priority::Glob && ns_bmap(final(self).crate_, ns)[path_view(lscope@).push(
                name@,
            )].absolute_target == target@,
        decreases fuel, 0int,
    {
        let ghost keyg = path_view(lscope@).push(name@);
        let allowed = vis_allows(lvis, &self.crate_.crate_data.crate_id, lscope, true);
        let reserved = self.is_reserved(lscope, name);
        if allowed && !reserved {
            let tgt = target.clone_identity();
            let vis2 = lvis.clone_vis();
            let r = self.add_binding_by(ns, lscope, name, tgt, vis2, Priority::Glob);
            if r.is_ok() {
                let ghost w_mid = *self;
                proof {
                    assert(ns_bmap(w_mid.crate_, ns).contains_key(keyg));
                    assert(ns_bmap(w_mid.crate_, ns)[keyg].priority == Priority::Glob);
                    assert(ns_bmap(w_mid.crate_, ns)[keyg].absolute_target == target@);
                }
                if fuel > 0 {
                    self.propagate_binding(ns, lscope, name, target, fuel - 1);
                    proof {
                        lemma_mono_trans(*old(self), w_mid, *self, ns, target@);
                        assert(ns_bmap(self.crate_, ns)[keyg] == ns_bmap(
                            w_mid.crate_,
                            ns,
                        )[keyg]);
                    }
                }
            }
        }
    }

    /// Propagate one new binding along the source scope's back links,
    /// transitively while fuel lasts. Existing bindings are never
    /// overwritten; every binding this adds is a glob-priority copy of the
    /// same defining target. Each linked scope that may see the binding and
    /// has not reserved the name receives its copy.
    #[verifier::loop_isolation(false)]
    pub fn propagate_binding(
        &mut self,
        ns: Namespace,
        source_scope: &Vec<String>,
        name: &String,
        target: &Identity,
        fuel: u64,
    )
        requires
            old(self).inv(),
            target@.crate_id == old(self).id() ==> ns_idom(old(self).crate_, ns).contains(
                target@.path,
            ),
        ensures
            final(self).inv(),
            final(self).id() == old(self).id(),
            final(self).scopes == old(self).scopes,
            final(self).prelude == old(self).prelude,
            final(self).work_list == old(self).work_list,
            final(self).unexpanded == old(self).unexpanded,
            final(self).crate_.crate_data == old(self).crate_.crate_data,
            final(self).crate_.types.items_map() == old(self).crate_.types.items_map(),
            final(self).crate_.symbols.items_map() == old(self).crate_.symbols.items_map(),
            final(self).crate_.macros.items_map() == old(self).crate_.macros.items_map(),
            final(self).crate_.modules.items_map() == old(self).crate_.modules.items_map(),
            ns != Namespace::Type ==> final(self).crate_.types == old(self).crate_.types,
            ns != Namespace::Symbol ==> final(self).crate_.symbols == old(self).crate_.symbols,
            ns != Namespace::Macro ==> final(self).crate_.macros == old(self).crate_.macros,
            ns != Namespace::Module ==> final(self).crate_.modules == old(self).crate_.modules,
            forall|n2: Namespace|
                #[trigger] ns_idom(final(self).crate_, n2) == ns_idom(old(self).crate_, n2),
            forall|n2: Namespace, k: Seq<Seq<char>>|
                #[trigger] ns_bmap(old(self).crate_, n2).contains_key(k) ==> ns_bmap(
                    final(self).crate_,
                    n2,
                ).contains_key(k) && ns_bmap(final(self).crate_, n2)[k] == ns_bmap(
                    old(self).crate_,
                    n2,
                )[k],
            forall|n2: Namespace, k: Seq<Seq<char>>|
                !ns_bmap(old(self).crate_, n2).contains_key(k) && #[trigger] ns_bmap(
                    final(self).crate_,
                    n2,
                ).contains_key(k) ==> n2 == ns && ns_bmap(final(self).crate_, n2)[k].priority
                    == Priority::Glob && ns_bmap(final(self).crate_, n2)[k].absolute_target
                    == target@,
            forall|j: int|
                0 <= j < scope_links(*old(self), path_view(source_scope@)).len() && spec_vis_allows(
                    #[trigger] scope_links(*old(self), path_view(source_scope@))[j].1,
                    old(self).id(),
                    scope_links(*old(self), path_view(source_scope@))[j].0,
                    true,
                ) && !spec_reserved(
                    *old(self),
                    scope_links(*old(self), path_view(source_scope@))[j].0,
                    name@,
                ) && old(self).crate_.modules.items_map().contains_key(
                    scope_links(*old(self), path_view(source_scope@))[j].0,
                ) && !ns_bmap(old(self).crate_, ns).contains_key(
                    scope_links(*old(self), path_view(source_scope@))[j].0.push(name@),
                ) ==> ns_bmap(final(self).crate_, ns).contains_key(
                    scope_links(*old(self), path_view(source_scope@))[j].0.push(name@),
                ) && ns_bmap(final(self).crate_, ns)[scope_links(
                    *old(self),
                    path_view(source_scope@),
                )[j].0.push(name@)].priority == Priority::Glob && ns_bmap(
                    final(self).crate_,
                    ns,
                )[scope_links(*old(self), path_view(source_scope@))[j].0.push(name@)].absolute_target
                    == target@,
        decreases fuel, 1int,
    {
        let ghost w0 = *self;
        let ghost lv = scope_links(*old(self), path_view(source_scope@));
        let links = self.collect_links(source_scope);
        let n = links.len();
        let mut i: usize = 0;
        while i < n
            invariant
                i <= n,
                self.inv(),
                self.id() == w0.id(),
                self.scopes == w0.scopes,
                self.prelude == w0.prelude,
                self.work_list == w0.work_list,
                self.unexpanded == w0.unexpanded,
                self.crate_.crate_data == w0.crate_.crate_data,
                self.crate_.types.items_map() == w0.crate_.types.items_map(),
                self.crate_.symbols.items_map() == w0.crate_.symbols.items_map(),
                self.crate_.macros.items_map() == w0.crate_.macros.items_map(),
                self.crate_.modules.items_map() == w0.crate_.modules.items_map(),
                ns != Namespace::Type ==> self.crate_.types == w0.crate_.types,
                ns != Namespace::Symbol ==> self.crate_.symbols == w0.crate_.symbols,
                ns != Namespace::Macro ==> self.crate_.macros == w0.crate_.macros,
                ns != Namespace::Module ==> self.crate_.modules == w0.crate_.modules,
                target@.crate_id == self.id() ==> ns_idom(self.crate_, ns).contains(
                    target@.path,
                ),
                forall|n2: Namespace|
                    #[trigger] ns_idom(self.crate_, n2) == ns_idom(w0.crate_, n2),
                forall|n2: Namespace, k: Seq<Seq<char>>|
                    #[trigger] ns_bmap(w0.crate_, n2).contains_key(k) ==> ns_bmap(
                        self.crate_,
                        n2,
                    ).contains_key(k) && ns_bmap(self.crate_, n2)[k] == ns_bmap(w0.crate_, n2)[k],
                forall|n2: Namespace, k: Seq<Seq<char>>|
                    !ns_bmap(w0.crate_, n2).contains_key(k) && #[trigger] ns_bmap(
                        self.crate_,
                        n2,
                    ).contains_key(k) ==> n2 == ns && ns_bmap(self.crate_, n2)[k].priority
                        == Priority::Glob && ns_bmap(self.crate_, n2)[k].absolute_target
                        == target@,
                forall|j: int|
                    0 <= j < i && spec_vis_allows(#[trigger] lv[j].1, w0.id(), lv[j].0, true)
                        && !spec_reserved(w0, lv[j].0, name@)
                        && w0.crate_.modules.items_map().contains_key(lv[j].0) && !ns_bmap(
                        w0.crate_,
                        ns,
                    ).contains_key(lv[j].0.push(name@)) ==> ns_bmap(
                        self.crate_,
                        ns,
                    ).contains_key(lv[j].0.push(name@)) && ns_bmap(self.crate_, ns)[lv[j].0.push(
                        name@,
                    )].priority == Priority::Glob && ns_bmap(self.crate_, ns)[lv[j].0.push(
                        name@,
                    )].absolute_target == target@,
            decreases n - i,
        {
            let ghost w_iter = *self;
            let (lscope, lvis) = (&links[i].0, &links[i].1);
            self.propagate_one(ns, lscope, lvis, name, target, fuel);
            proof {
                lemma_mono_trans(w0, w_iter, *self, ns, target@);
                assert forall|j: int|
                    0 <= j < i + 1 && spec_vis_allows(#[trigger] lv[j].1, w0.id(), lv[j].0, true)
                        && !spec_reserved(w0, lv[j].0, name@)
                        && w0.crate_.modules.items_map().contains_key(lv[j].0) && !ns_bmap(
                        w0.crate_,
                        ns,
                    ).contains_key(lv[j].0.push(name@)) implies ns_bmap(
                    self.crate_,
                    ns,
                ).contains_key(lv[j].0.push(name@)) && ns_bmap(self.crate_, ns)[lv[j].0.push(
                    name@,
                )].priority == Priority::Glob && ns_bmap(self.crate_, ns)[lv[j].0.push(
                    name@,
                )].absolute_target == target@ by {
                    let key = lv[j].0.push(name@);
                    if j < i {
                        assert(ns_bmap(w_iter.crate_, ns).contains_key(key));
                        assert(ns_bmap(self.crate_, ns)[key] == ns_bmap(w_iter.crate_, ns)[key]);
                    } else {
                        assert(path_view(lscope@) == lv[j].0 && lvis@ == lv[j].1);
                        assert(spec_vis_allows(lvis@, w_iter.id(), path_view(lscope@), true));
                        assert(spec_reserved(w_iter, path_view(lscope@), name@)
                            == spec_reserved(w0, path_view(lscope@), name@));
                        assert(ns_idom(w_iter.crate_, Namespace::Module)
                            == ns_idom(w0.crate_, Namespace::Module));
                        assert(w0.crate_.modules.items_map().contains_key(lv[j].0)
                            ==> w_iter.crate_.modules.items_map().contains_key(lv[j].0));
                        if ns_bmap(w_iter.crate_, ns).contains_key(key) {
                            assert(ns_bmap(w_iter.crate_, ns)[key].priority == Priority::Glob
                                && ns_bmap(w_iter.crate_, ns)[key].absolute_target == target@);
                            assert(ns_bmap(self.crate_, ns)[key] == ns_bmap(
                                w_iter.crate_,
                                ns,
                            )[key]);
                        }
                    }
                }
            }
            i += 1;
        }
    }
}



/// Whether `k` names an immediate child of the scope at `tp`.
pub open spec fn is_child_of(k: Seq<Seq<char>>, tp: Seq<Seq<char>>) -> bool {
    k.len() == tp.len() + 1 && k.take(tp.len() as int) == tp
}

/// A file-backed submodule the caller must load and walk.
pub struct ModRequest {
    /// The submodule's path in this package.
    pub module: Vec<String>,
    /// The submodule's name.
    pub name: String,
    /// The raw `path` override attribute, if one was written.
    pub path_override: Option<Tokens>,
}

/// Copy a textual macro scope.
pub fn clone_macro_scope(m: &StrMap<DeclarativeMacroItem>) -> (r: StrMap<DeclarativeMacroItem>)
    requires
        m.wf(),
    ensures
        r.wf(),
{
    let mut r: StrMap<DeclarativeMacroItem> = StrMap::new();
    let n = m.len();
    let mut i: usize = 0;
    while i < n
        invariant
            n == m.seq_view().len(),
            i <= n,
            r.wf(),
        decreases n - i,
    {
        let e = m.idx(i);
        let _ = r.insert(e.0.clone(), e.1.clone_macro());
        i += 1;
    }
    r
}

/// The children of a scope in one namespace of a package, each with its
/// binding, copied out for iteration.
fn collect_children(src: &CrateDb, ns: Namespace, tp: &Vec<String>) -> (r: Vec<(String, Binding)>)
    requires
        src.wf(),
    ensures
        forall|q: int|
            0 <= q < r@.len() ==> ns_bmap(*src, ns).contains_key(
                path_view(tp@).push(#[trigger] r@[q].0@),
            ) && r@[q].1@ == ns_bmap(*src, ns)[path_view(tp@).push(r@[q].0@)],
        r@.len() > 0 ==> exists|k: Seq<Seq<char>>|
            #[trigger] ns_bmap(*src, ns).contains_key(k) && is_child_of(k, path_view(tp@)),
{
    let pm = match ns {
        Namespace::Type => &src.types.bindings,
        Namespace::Symbol => &src.symbols.bindings,
        Namespace::Macro => &src.macros.bindings,
        Namespace::Module => &src.modules.bindings,
    };
    proof {
        pm.lemma_view_entries();
        assert(ns_bmap(*src, ns) =~= crate::database::bmap_view(pm@));
    }
    let mut out: Vec<(String, Binding)> = Vec::new();
    let n = pm.len();
    let mut i: usize = 0;
    while i < n
        invariant
            src.wf(),
            ns_bmap(*src, ns) == crate::database::bmap_view(pm@),
            pm == (match ns {
                Namespace::Type => &src.types.bindings,
                Namespace::Symbol => &src.symbols.bindings,
                Namespace::Macro => &src.macros.bindings,
                Namespace::Module => &src.modules.bindings,
            }),
            n == pm.seq_view().len(),
            i <= n,
            forall|q: int|
                0 <= q < out@.len() ==> ns_bmap(*src, ns).contains_key(
                    path_view(tp@).push(#[trigger] out@[q].0@),
                ) && out@[q].1@ == ns_bmap(*src, ns)[path_view(tp@).push(out@[q].0@)],
            out@.len() > 0 ==> exists|k: Seq<Seq<char>>|
                #[trigger] ns_bmap(*src, ns).contains_key(k) && is_child_of(k, path_view(tp@)),
        decreases n - i,
    {
        let e = pm.idx(i);
        let kpath = e.0;
        if kpath.len() > tp.len() && kpath.len() - tp.len() == 1 && crate::paths::path_is_prefix(
            tp,
            kpath,
        ) {
            let name = kpath[kpath.len() - 1].clone();
            proof {
                pm.lemma_view_entries();
                assert(path_view(kpath@) =~= path_view(tp@).push(name@));
                assert(is_child_of(path_view(kpath@), path_view(tp@)));
                assert(crate::database::bmap_view(pm@).contains_key(path_view(kpath@)));
                assert(crate::database::bmap_view(pm@)[path_view(kpath@)] == pm@[path_view(
                    kpath@,
                )]@);
            }
            out.push((name, e.1.clone_binding()));
        }
        i += 1;
    }
    out
}

impl Walker {
    /// Process a glob import: copy every visible binding of the target scope
    /// into the importing scope at glob priority, unless the name is
    /// reserved there, propagate each copy, and record a back link so later
    /// additions to the target scope also arrive here. A glob of a scope
    /// with no bindings adds no bindings and is no error.
    #[verifier::loop_isolation(false)]
    pub fn process_glob(
        &mut self,
        db: &Db,
        scope: &Vec<String>,
        vis: &Visibility,
        target: &Identity,
        fuel: u64,
    ) -> (r: Result<(), WalkError>)
        requires
            old(self).inv(),
            db.wf(),
        ensures
            final(self).inv(),
            final(self).id() == old(self).id(),
            final(self).prelude == old(self).prelude,
            final(self).work_list == old(self).work_list,
            final(self).unexpanded == old(self).unexpanded,
            final(self).crate_.crate_data == old(self).crate_.crate_data,
            r is Ok <==> lookup_crate(*db, old(self).crate_, target@.crate_id) is Some,
            r is Err ==> *final(self) == *old(self),
            ({
                let src = lookup_crate(*db, old(self).crate_, target@.crate_id);
                src is Some && (forall|n2: Namespace, k: Seq<Seq<char>>|
                    #[trigger] ns_bmap(src->Some_0, n2).contains_key(k) ==> !is_child_of(
                        k,
                        target@.path,
                    )) ==> r is Ok && (forall|n2: Namespace|
                    #[trigger] ns_bmap(final(self).crate_, n2) == ns_bmap(old(self).crate_, n2))
            }),
            r is Ok && target@.crate_id == old(self).id() ==> scope_links(
                *final(self),
                target@.path,
            ) == scope_links(*old(self), target@.path).push((path_view(scope@), vis@)) && (forall|
                s: Seq<Seq<char>>,
            |
                s != target@.path ==> #[trigger] scope_links(*final(self), s) == scope_links(
                    *old(self),
                    s,
                )) && (forall|s: Seq<Seq<char>>, n: Seq<char>|
                #[trigger] spec_reserved(*final(self), s, n) == spec_reserved(*old(self), s, n)),
            r is Ok && target@.crate_id != old(self).id() ==> final(self).scopes == old(
                self,
            ).scopes,
    {
        let source_is_local = target.crate_id.eq_id(&self.crate_.crate_data.crate_id);
        let mut kinds: Vec<Namespace> = Vec::new();
        kinds.push(Namespace::Type);
        kinds.push(Namespace::Symbol);
        kinds.push(Namespace::Macro);
        kinds.push(Namespace::Module);
        let ghost w0 = *self;
        let mut ki: usize = 0;
        while ki < kinds.len()
            invariant
                kinds@.len() == 4,
                ki <= kinds@.len(),
                self.inv(),
                db.wf(),
                self.id() == w0.id(),
                self.prelude == w0.prelude,
                self.scopes == w0.scopes,
                self.work_list == w0.work_list,
                self.unexpanded == w0.unexpanded,
                self.crate_.crate_data == w0.crate_.crate_data,
                ki == 0 ==> *self == w0,
                ki > 0 ==> lookup_crate(*db, w0.crate_, target@.crate_id) is Some,
                (lookup_crate(*db, w0.crate_, target@.crate_id) is Some && (forall|
                    n2: Namespace,
                    k: Seq<Seq<char>>,
                |
                    #[trigger] ns_bmap(
                        lookup_crate(*db, w0.crate_, target@.crate_id)->Some_0,
                        n2,
                    ).contains_key(k) ==> !is_child_of(k, target@.path))) ==> (forall|
                    n2: Namespace,
                |
                    #[trigger] ns_bmap(self.crate_, n2) == ns_bmap(w0.crate_, n2)),
            decreases kinds@.len() - ki,
        {
            let ns = kinds[ki];
            let ghost w_k = *self;
            let collected: Vec<(String, Binding)> = {
                let srcref: &CrateDb = if source_is_local {
                    &self.crate_
                } else {
                    match db.get_crate(&target.crate_id) {
                        Some(c) => {
                            proof {
                                crate::database::lemma_crates_assoc_wf(
                                    db.crates@,
                                    target@.crate_id,
                                );
                            }
                            c
                        },
                        None => {
                            proof {
                                assert(lookup_crate(*db, w0.crate_, target@.crate_id) is None);
                                assert(ki == 0);
                            }
                            return Err(WalkError::Database(DatabaseError::NoSuchScope));
                        },
                    }
                };
                collect_children(srcref, ns, &target.path)
            };
            let n = collected.len();
            let mut i: usize = 0;
            while i < n
                invariant
                    n == collected@.len(),
                    i <= n,
                    self.inv(),
                    db.wf(),
                    self.id() == w_k.id(),
                    self.prelude == w_k.prelude,
                    self.scopes == w_k.scopes,
                    self.work_list == w_k.work_list,
                    self.unexpanded == w_k.unexpanded,
                    self.crate_.crate_data == w_k.crate_.crate_data,
                    n == 0 ==> self.crate_ == w_k.crate_,
                decreases n - i,
            {
                let name = &collected[i].0;
                let b = &collected[i].1;
                let b_is_local = b.absolute_target.crate_id.eq_id(
                    &self.crate_.crate_data.crate_id,
                );
                let mut defined_ok = true;
                if b_is_local {
                    defined_ok = self.local_defined(ns, &b.absolute_target.path);
                }
                if defined_ok && vis_allows(
                    &b.visibility,
                    &self.crate_.crate_data.crate_id,
                    scope,
                    source_is_local,
                ) && !self.is_reserved(scope, name) {
                    let tgt = b.absolute_target.clone_identity();
                    let tgt2 = b.absolute_target.clone_identity();
                    let r2 = self.add_binding_by(
                        ns,
                        scope,
                        name,
                        tgt,
                        vis.clone_vis(),
                        Priority::Glob,
                    );
                    if r2.is_ok() {
                        self.propagate_binding(ns, scope, name, &tgt2, fuel);
                    }
                }
                i += 1;
            }
            proof {
                let srcopt = lookup_crate(*db, w0.crate_, target@.crate_id);
                if srcopt is Some && (forall|n2: Namespace, k: Seq<Seq<char>>|
                    #[trigger] ns_bmap(srcopt->Some_0, n2).contains_key(k) ==> !is_child_of(
                        k,
                        target@.path,
                    )) {
                    if collected@.len() > 0 {
                        if source_is_local {
                            assert(srcopt->Some_0 == w0.crate_);
                            assert(ns_bmap(w_k.crate_, ns) == ns_bmap(w0.crate_, ns));
                            let k = choose|k: Seq<Seq<char>>|
                                #[trigger] ns_bmap(w_k.crate_, ns).contains_key(k) && is_child_of(
                                    k,
                                    path_view(target.path@),
                                );
                            assert(ns_bmap(w0.crate_, ns).contains_key(k));
                        } else {
                            let k = choose|k: Seq<Seq<char>>|
                                #[trigger] ns_bmap(srcopt->Some_0, ns).contains_key(k)
                                    && is_child_of(k, path_view(target.path@));
                        }
                    }
                    assert(collected@.len() == 0);
                    assert(self.crate_ == w_k.crate_);
                }
            }
            ki += 1;
        }
        if source_is_local {
            self.add_back_link(&target.path, scope, vis.clone_vis());
        }
        proof {
            if source_is_local {
                assert(lookup_crate(*db, w0.crate_, target@.crate_id) is Some);
            }
        }
        Ok(())
    }

    /// Process one import. An explicit import reserves its name, resolves
    /// the path in every namespace, and binds what resolved; a glob import
    /// resolves its path to a scope and copies that scope's bindings. The
    /// result says whether anything was bound; an unresolved import is the
    /// caller's to park.
    #[verifier::loop_isolation(false)]
    pub fn process_use(
        &mut self,
        db: &Db,
        scope: &Vec<String>,
        visibility: &Visibility,
        upath: &Path,
        glob: bool,
        rename: &Option<String>,
        fuel: u64,
    ) -> (handled: bool)
        requires
            old(self).inv(),
            db.wf(),
        ensures
            final(self).inv(),
            final(self).id() == old(self).id(),
            final(self).prelude == old(self).prelude,
            final(self).work_list == old(self).work_list,
            final(self).unexpanded == old(self).unexpanded,
            final(self).crate_.crate_data == old(self).crate_.crate_data,
    {
        if glob {
            let resolved = self.resolve(db, scope, upath, Namespace::Module);
            match resolved {
                Some(identity) => {
                    let r = self.process_glob(db, scope, visibility, &identity, fuel);
                    r.is_ok()
                },
                None => false,
            }
        } else {
            let name: String = match rename {
                Some(n) => n.clone(),
                None => {
                    if upath.segments.len() == 0 {
                        return false;
                    }
                    upath.segments[upath.segments.len() - 1].clone()
                },
            };
            self.reserve_name(scope, &name);
            let mut kinds: Vec<Namespace> = Vec::new();
            kinds.push(Namespace::Type);
            kinds.push(Namespace::Symbol);
            kinds.push(Namespace::Macro);
            kinds.push(Namespace::Module);
            let mut handled = false;
            let mut ki: usize = 0;
            while ki < kinds.len()
                invariant
                    ki <= kinds@.len(),
                    self.inv(),
                    db.wf(),
                    self.id() == old(self).id(),
                    self.prelude == old(self).prelude,
                    self.work_list == old(self).work_list,
                    self.unexpanded == old(self).unexpanded,
                    self.crate_.crate_data == old(self).crate_.crate_data,
                decreases kinds@.len() - ki,
            {
                let ns = kinds[ki];
                match self.resolve(db, scope, upath, ns) {
                    Some(identity) => {
                        let ok_target = if identity.crate_id.eq_id(
                            &self.crate_.crate_data.crate_id,
                        ) {
                            self.local_defined(ns, &identity.path)
                        } else {
                            true
                        };
                        if ok_target {
                            let tgt2 = identity.clone_identity();
                            let r2 = self.add_binding_by(
                                ns,
                                scope,
                                &name,
                                identity,
                                visibility.clone_vis(),
                                Priority::Explicit,
                            );
                            if r2.is_ok() {
                                self.propagate_binding(ns, scope, &name, &tgt2, fuel);
                                handled = true;
                            }
                        }
                    },
                    None => {},
                }
                ki += 1;
            }
            handled
        }
    }
}


impl Walker {
    /// The current module's lowered visibility, used as the inheritance
    /// context for items written without a keyword.
    fn module_vis(&self, module: &Vec<String>) -> (r: Visibility)
        requires
            self.wf(),
    {
        match self.crate_.modules.get_item(module) {
            Some(m) => m.metadata.visibility.clone_vis(),
            None => Visibility::Pub,
        }
    }

    /// Walk one module's items in source order: lower and insert
    /// definitions, record and try imports, keep the textual macro scope,
    /// expand invocations that already resolve, and park the rest. File
    /// submodules come back as requests for the caller to load; `fuel`
    /// bounds the depth of module nesting and expansion.
    pub fn walk_items(
        &mut self,
        db: &Db,
        module: &Vec<String>,
        items: Vec<SynItem>,
        textual: &mut StrMap<DeclarativeMacroItem>,
        requests: &mut Vec<ModRequest>,
        fuel: u64,
    )
        requires
            old(self).inv(),
            db.wf(),
            old(textual).wf(),
        ensures
            final(self).inv(),
            final(self).id() == old(self).id(),
            final(textual).wf(),
            items@.len() == 0 ==> *final(self) == *old(self) && *final(textual) == *old(textual)
                && *final(requests) == *old(requests),
        decreases fuel, 1int,
    {
        let mod_vis = self.module_vis(module);
        let mut rest = items;
        while rest.len() > 0
            invariant
                self.inv(),
                db.wf(),
                self.id() == old(self).id(),
                textual.wf(),
                items@.len() == 0 ==> rest@.len() == 0,
                items@.len() == 0 ==> *self == *old(self) && *textual == *old(textual) && *requests
                    == *old(requests),
            decreases rest@.len(),
        {
            let it = rest.remove(0);
            self.walk_one(db, module, &mod_vis, it, textual, requests, fuel);
        }
    }

    /// Walk a single item.
    fn walk_one(
        &mut self,
        db: &Db,
        module: &Vec<String>,
        mod_vis: &Visibility,
        it: SynItem,
        textual: &mut StrMap<DeclarativeMacroItem>,
        requests: &mut Vec<ModRequest>,
        fuel: u64,
    )
        requires
            old(self).inv(),
            db.wf(),
            old(textual).wf(),
        ensures
            final(self).inv(),
            final(self).id() == old(self).id(),
            final(textual).wf(),
        decreases fuel, 0int,
    {
        match it {
            SynItem::Struct(st) => {
                match crate::lower::lower_struct(mod_vis, st) {
                    Ok(item) => {
                        let name = item.name.clone();
                        match self.add::<crate::items::TypeItem>(
                            module,
                            crate::items::TypeItem::Struct(item),
                        ) {
                            Ok(_) => {},
                            Err(_) => {},
                        }
                    },
                    Err(_) => {},
                }
            },
            SynItem::Enum(en) => {
                match crate::lower::lower_enum(mod_vis, en) {
                    Ok(item) => {
                        let name = item.name.clone();
                        match self.add::<crate::items::TypeItem>(
                            module,
                            crate::items::TypeItem::Enum(item),
                        ) {
                            Ok(_) => {},
                            Err(_) => {},
                        }
                    },
                    Err(_) => {},
                }
            },
            SynItem::Function(f) => {
                // non-public functions are deliberately skipped
                if f.vis == SynVis::Pub {
                    match crate::lower::lower_function_item(mod_vis, f) {
                        Ok(item) => {
                            let name = item.name.clone();
                            match self.add::<crate::items::SymbolItem>(
                                module,
                                crate::items::SymbolItem::Function(item),
                            ) {
                                Ok(identity) => {
                                    self.propagate_binding(
                                        Namespace::Symbol,
                                        module,
                                        &name,
                                        &identity,
                                        fuel,
                                    );
                                },
                                Err(_) => {},
                            }
                        },
                        Err(_) => {},
                    }
                }
            },
            SynItem::ModInline { vis, attrs, name, items, span } => {
                let md = crate::lower::lower_metadata(mod_vis, vis, attrs, span);
                let item = ModuleItem { name: name.clone(), metadata: md };
                match self.add::<ModuleItem>(module, item) {
                    Ok(identity) => {
                        if self.scopes.get(&identity.path).is_none() {
                            let _ = self.scopes.insert(
                                clone_path(&identity.path),
                                ScopeInProgress::new(),
                            );
                        }
                        if fuel > 0 {
                            let sub = clone_path(&identity.path);
                            self.walk_items(db, &sub, items, textual, requests, fuel - 1);
                        }
                    },
                    Err(_) => {},
                }
            },
            SynItem::ModFile { vis, attrs, name, path_override, span } => {
                let md = crate::lower::lower_metadata(mod_vis, vis, attrs, span);
                let item = ModuleItem { name: name.clone(), metadata: md };
                match self.add::<ModuleItem>(module, item) {
                    Ok(identity) => {
                        if self.scopes.get(&identity.path).is_none() {
                            let _ = self.scopes.insert(
                                clone_path(&identity.path),
                                ScopeInProgress::new(),
                            );
                        }
                        requests.push(
                            ModRequest { module: identity.path, name, path_override },
                        );
                    },
                    Err(_) => {},
                }
            },
            SynItem::Use { vis, attrs: _, path, glob, rename, span: _ } => {
                let v = crate::lower::lower_vis(mod_vis, vis);
                let handled = self.process_use(db, module, &v, &path, glob, &rename, fuel);
                if !handled {
                    self.work_list.push(
                        WorkEntry {
                            module: clone_path(module),
                            visibility: v,
                            path,
                            glob,
                            rename,
                        },
                    );
                }
            },
            SynItem::ExternDep { vis: _, attrs: _, name, rename, macro_use, span: _ } => {
                let dep = match self.crate_.crate_data.dep_of(&name) {
                    Some(d) => Some(d.clone_id()),
                    None => None,
                };
                match dep {
                    Some(dep_id) => {
                        match rename {
                            Some(rn) => {
                                // a declaration inside a submodule scopes its
                                // alias there; only the root one renames the
                                // dependency for the whole package
                                if module.len() == 0 {
                                    self.crate_.crate_data.set_dep(rn, dep_id.clone_id());
                                }
                            },
                            None => {},
                        }
                        if macro_use {
                            self.inject_macro_prelude(db, &dep_id);
                        }
                    },
                    None => {
                        // an unknown dependency: the declaration is skipped
                    },
                }
            },
            SynItem::MacroDef(def) => {
                let mut macro_export = false;
                let mut ai: usize = 0;
                while ai < def.attrs.len()
                    invariant
                        ai <= def.attrs@.len(),
                    decreases def.attrs@.len() - ai,
                {
                    if def.attrs[ai].is_named("macro_export") {
                        macro_export = true;
                    }
                    ai += 1;
                }
                let rules = crate::macros::split_rules(&def.body);
                let md = crate::lower::lower_metadata(
                    mod_vis,
                    SynVis::Inherited,
                    def.attrs,
                    def.span,
                );
                let item = DeclarativeMacroItem {
                    name: def.name.clone(),
                    metadata: md,
                    macro_export,
                    rules,
                };
                let _ = textual.insert(def.name.clone(), item.clone_macro());
                if macro_export {
                    let root: Vec<String> = Vec::new();
                    let _ = self.add::<MacroItem>(&root, MacroItem::Declarative(item));
                }
            },
            SynItem::MacroCall { path, tokens, span: _ } => {
                let mut expanded = false;
                match path.get_ident() {
                    Some(mname) => {
                        let produced: Option<Tokens> = match textual.get(mname) {
                            Some(def) => crate::macros::apply_macro(def, &tokens),
                            None => None,
                        };
                        match produced {
                            Some(toks) => {
                                if fuel > 0 {
                                    let (sub, leftover) = crate::macros::parse_items(&toks.toks);
                                    self.walk_items(db, module, sub, textual, requests, fuel - 1);
                                    // a partly understood expansion stays
                                    // parked, so the residual count reports it
                                    expanded = leftover == 0;
                                }
                            },
                            None => {},
                        }
                    },
                    None => {},
                }
                if !expanded {
                    let snapshot = clone_macro_scope(textual);
                    self.unexpanded.push(
                        UnexpandedItem {
                            module: clone_path(module),
                            mac_path: path,
                            tokens,
                            textual: snapshot,
                        },
                    );
                }
            },
            SynItem::Other { .. } => {
                // statics, constants, aliases, traits, impls, foreign
                // modules, and verbatim text are recognized and skipped
            },
        }
    }

    /// Bring in the implicit macro preludes: the exported macros of the
    /// dependencies imported as `std` and `core`, which the language makes
    /// visible without any `extern crate` declaration.
    pub fn inject_implicit_prelude(&mut self, db: &Db)
        requires
            old(self).inv(),
            db.wf(),
        ensures
            final(self).inv(),
            final(self).id() == old(self).id(),
    {
        let std_name: String = ("std").to_owned();
        let std_dep = match self.crate_.crate_data.dep_of(&std_name) {
            Some(d) => Some(d.clone_id()),
            None => None,
        };
        match std_dep {
            Some(d) => self.inject_macro_prelude(db, &d),
            None => {},
        }
        let core_name: String = ("core").to_owned();
        let core_dep = match self.crate_.crate_data.dep_of(&core_name) {
            Some(d) => Some(d.clone_id()),
            None => None,
        };
        match core_dep {
            Some(d) => self.inject_macro_prelude(db, &d),
            None => {},
        }
    }

    /// Bring a dependency's exported macros into this package's prelude.
    fn inject_macro_prelude(&mut self, db: &Db, dep: &CrateId)
        requires
            old(self).inv(),
            db.wf(),
        ensures
            final(self).inv(),
            final(self).id() == old(self).id(),
    {
        let found: Vec<(String, Identity)> = match db.get_crate(dep) {
            Some(c) => {
                proof {
                    crate::database::lemma_crates_assoc_wf(db.crates@, dep@);
                }
                let mut out: Vec<(String, Identity)> = Vec::new();
                let pm = &c.macros.items;
                let n = pm.len();
                let mut i: usize = 0;
                while i < n
                    invariant
                        n == pm.seq_view().len(),
                        i <= n,
                    decreases n - i,
                {
                    let e = pm.idx(i);
                    if e.0.len() == 1 {
                        let name = e.0[0].clone();
                        out.push((name, Identity::new(&c.crate_data.crate_id, e.0)));
                    }
                    i += 1;
                }
                out
            },
            None => Vec::new(),
        };
        let n = found.len();
        let mut i: usize = 0;
        while i < n
            invariant
                n == found@.len(),
                i <= n,
                self.inv(),
                self.id() == old(self).id(),
            decreases n - i,
        {
            let name = found[i].0.clone();
            let tgt = found[i].1.clone_identity();
            let _ = self.add_prelude_binding_by(Namespace::Macro, name, tgt);
            i += 1;
        }
    }

    /// One pass over the parked imports, in insertion order; any success is
    /// removed and may unblock others. The result says whether any entry
    /// resolved.
    pub fn process_work_list(&mut self, db: &Db, fuel: u64) -> (progress: bool)
        requires
            old(self).inv(),
            db.wf(),
        ensures
            final(self).inv(),
            final(self).id() == old(self).id(),
            final(self).prelude == old(self).prelude,
            final(self).unexpanded == old(self).unexpanded,
            final(self).crate_.crate_data == old(self).crate_.crate_data,
            !progress ==> final(self).work_list@.len() == old(self).work_list@.len(),
            old(self).work_list@.len() == 0 ==> progress == false,
    {
        let mut pending: Vec<WorkEntry> = Vec::new();
        core::mem::swap(&mut pending, &mut self.work_list);
        let mut progress = false;
        let mut rest = pending;
        while rest.len() > 0
            invariant
                self.inv(),
                db.wf(),
                self.id() == old(self).id(),
                self.prelude == old(self).prelude,
                self.unexpanded == old(self).unexpanded,
                self.crate_.crate_data == old(self).crate_.crate_data,
                !progress ==> self.work_list@.len() + rest@.len() == old(self).work_list@.len(),
                old(self).work_list@.len() == 0 ==> rest@.len() == 0 && progress == false,
            decreases rest@.len(),
        {
            let e = rest.remove(0);
            let handled = self.process_use(
                db,
                &e.module,
                &e.visibility,
                &e.path,
                e.glob,
                &e.rename,
                fuel,
            );
            if handled {
                progress = true;
            } else {
                self.work_list.push(e);
            }
        }
        progress
    }

    /// One pass over the parked macro invocations: expand those whose macro
    /// now resolves in their textual scope, walking what they produce. The
    /// result says whether any entry expanded.
    #[verifier::loop_isolation(false)]
    pub fn expand_macros(&mut self, db: &Db, requests: &mut Vec<ModRequest>, fuel: u64) -> (r:
        bool)
        requires
            old(self).inv(),
            db.wf(),
        ensures
            final(self).inv(),
            final(self).id() == old(self).id(),
            old(self).unexpanded@.len() == 0 ==> r == false && final(self).unexpanded@.len() == 0
                && final(self).work_list == old(self).work_list,
        decreases fuel,
    {
        let mut pending: Vec<UnexpandedItem> = Vec::new();
        core::mem::swap(&mut pending, &mut self.unexpanded);
        let mut progress = false;
        let mut rest = pending;
        proof {
            assert forall|q: int| 0 <= q < rest@.len() implies (#[trigger] rest@[q]).textual.wf()
                by {}
        }
        while rest.len() > 0
            invariant
                self.inv(),
                db.wf(),
                self.id() == old(self).id(),
                old(self).unexpanded@.len() == 0 ==> rest@.len() == 0,
                old(self).unexpanded@.len() == 0 ==> !progress && self.unexpanded@.len() == 0
                    && self.work_list == old(self).work_list,
                forall|q: int| 0 <= q < rest@.len() ==> (#[trigger] rest@[q]).textual.wf(),
            decreases rest@.len(),
        {
            let ghost rs0 = rest@;
            let mut e = rest.remove(0);
            proof {
                assert(e == rs0[0]);
                assert forall|q: int| 0 <= q < rest@.len() implies (#[trigger] rest@[q]).textual.wf() by {
                    assert(rest@[q] == rs0[q + 1]);
                }
            }
            let mut expanded = false;
            if fuel > 0 {
                match e.mac_path.get_ident() {
                    Some(mname) => {
                        let produced: Option<Tokens> = match e.textual.get(mname) {
                            Some(def) => crate::macros::apply_macro(def, &e.tokens),
                            None => None,
                        };
                        match produced {
                            Some(toks) => {
                                let (sub, leftover) = crate::macros::parse_items(&toks.toks);
                                self.walk_items(
                                    db,
                                    &e.module,
                                    sub,
                                    &mut e.textual,
                                    requests,
                                    fuel - 1,
                                );
                                expanded = leftover == 0;
                            },
                            None => {},
                        }
                    },
                    None => {},
                }
            }
            if expanded {
                progress = true;
            } else {
                self.unexpanded.push(e);
            }
        }
        progress
    }

    /// The resolver fixed point for one package: retry parked imports and
    /// expand what became expandable, round after round, until a whole round
    /// makes no progress or the round bound is hit. What remains parked at
    /// the end is reported as warnings, not errors.
    pub fn resolve_fixed_point(&mut self, db: &Db, requests: &mut Vec<ModRequest>, rounds: u64)
        requires
            old(self).inv(),
            db.wf(),
        ensures
            final(self).inv(),
            final(self).id() == old(self).id(),
            old(self).work_list@.len() == 0 && old(self).unexpanded@.len() == 0
                ==> final(self).work_list@.len() == 0 && final(self).unexpanded@.len() == 0,
        decreases rounds,
    {
        if rounds == 0 {
            return ;
        }
        let mut inner: u64 = rounds;
        let mut progress = false;
        while inner > 0
            invariant
                self.inv(),
                db.wf(),
                self.id() == old(self).id(),
                old(self).work_list@.len() == 0 && old(self).unexpanded@.len() == 0 ==> !progress
                    && self.work_list@.len() == 0 && self.unexpanded@.len() == 0,
            decreases inner,
        {
            let p = self.process_work_list(db, rounds);
            if p {
                progress = true;
            } else {
                inner = 1;
            }
            inner = inner - 1;
        }
        let p2 = self.expand_macros(db, requests, rounds);
        if progress || p2 {
            self.resolve_fixed_point(db, requests, rounds - 1);
        }
    }

    /// Residual parked imports and invocations at the end of a walk; these
    /// surface as warnings.
    pub fn residual_counts(&self) -> (r: (usize, usize))
        ensures
            r.0 == self.work_list@.len(),
            r.1 == self.unexpanded@.len(),
    {
        (self.work_list.len(), self.unexpanded.len())
    }
}

} // verus!
