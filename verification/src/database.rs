//! The item database: per-package namespaces holding items by their defining
//! relative path and bindings redirecting paths to absolute targets, plus the
//! store of finished packages and its query surface.

use vstd::prelude::*;

use crate::attributes::{HasMetadata, Visibility, VisibilityV};
use crate::crates::CrateData;
use crate::items::{MacroItem, ModuleItem, SymbolItem, TypeItem};
use crate::paths::{
    clone_path, CrateId, CrateIdV, Identity, IdentityV, is_prefix_of, path_view, segs_lt,
};
use crate::pathmap::PathMap;

verus! {

/// How a binding was introduced: by a glob import, or by a definition or
/// explicit import. An `Explicit` binding may displace a `Glob` binding at
/// the same path; any other second binding at an occupied path is an error.
#[derive(Clone, Copy, Debug, PartialEq, Eq, Structural)]
pub enum Priority {
    Glob,
    Explicit,
}

/// A name binding: a redirect from a relative path in some package to the
/// absolute identity of a definition.
#[derive(Clone, Debug, PartialEq)]
pub struct Binding {
    /// The defining identity of the bound item, never an intermediate
    /// re-export.
    pub absolute_target: Identity,
    /// The visibility of the binding itself, not of the item it names.
    pub visibility: Visibility,
    /// Whether a glob or an explicit form introduced the binding.
    pub priority: Priority,
}

pub ghost struct BindingV {
    pub absolute_target: IdentityV,
    pub visibility: VisibilityV,
    pub priority: Priority,
}

impl View for Binding {
    type V = BindingV;

    open spec fn view(&self) -> BindingV {
        BindingV {
            absolute_target: self.absolute_target@,
            visibility: self.visibility@,
            priority: self.priority,
        }
    }
}

impl Binding {
    pub fn clone_binding(&self) -> (r: Binding)
        ensures
            r@ == self@,
    {
        Binding {
            absolute_target: self.absolute_target.clone_identity(),
            visibility: self.visibility.clone_vis(),
            priority: self.priority,
        }
    }
}

/// The view of a binding table.
pub open spec fn bmap_view(m: Map<Seq<Seq<char>>, Binding>) -> Map<Seq<Seq<char>>, BindingV> {
    m.map_values(|b: Binding| b@)
}

/// The four disjoint name spaces; items in different namespaces may share a
/// name.
#[derive(Clone, Copy, Debug, PartialEq, Eq, Structural)]
pub enum Namespace {
    Type,
    Symbol,
    Macro,
    Module,
}

/// A failed database operation.
#[derive(Clone, Copy, Debug, PartialEq, Eq, Structural)]
pub enum DatabaseError {
    /// An item was already defined at the path.
    ItemAlreadyPresent,
    /// A binding already occupied the path with equal or higher priority.
    BindingAlreadyPresent,
    /// The named scope does not exist.
    NoSuchScope,
}

/// Whether a binding of priority `prio` may go in at `path`: the path is
/// vacant, or an explicit binding displaces a glob one.
pub open spec fn can_bind(
    bm: Map<Seq<Seq<char>>, BindingV>,
    path: Seq<Seq<char>>,
    prio: Priority,
) -> bool {
    !bm.contains_key(path) || (bm[path].priority == Priority::Glob && prio == Priority::Explicit)
}

/// One namespace of one package: the definitions of record, keyed by the
/// path where each was defined, and the binding table, keyed by the paths
/// names resolve through.
pub struct CrateNamespace<I> {
    pub crate_id: CrateId,
    pub items: PathMap<I>,
    pub bindings: PathMap<Binding>,
}

impl<I: HasMetadata> CrateNamespace<I> {
    /// The definitions of record.
    pub open spec fn items_map(&self) -> Map<Seq<Seq<char>>, I> {
        self.items@
    }

    /// The binding table, at the view level.
    pub open spec fn bindings_map(&self) -> Map<Seq<Seq<char>>, BindingV> {
        bmap_view(self.bindings@)
    }

    pub open spec fn wf(&self) -> bool {
        self.items.wf() && self.bindings.wf()
    }

    /// Create an empty namespace for the given package.
    pub fn new(crate_id: CrateId) -> (r: CrateNamespace<I>)
        ensures
            r.wf(),
            r.crate_id@ == crate_id@,
            r.items_map() == Map::<Seq<Seq<char>>, I>::empty(),
            r.bindings_map() == Map::<Seq<Seq<char>>, BindingV>::empty(),
    {
        let r = CrateNamespace { crate_id, items: PathMap::new(), bindings: PathMap::new() };
        proof {
            assert(r.bindings_map() =~= Map::<Seq<Seq<char>>, BindingV>::empty());
        }
        r
    }

    /// Add a binding. The target need not lie in this package. An explicit
    /// binding displaces a glob binding at the same path; any other occupied
    /// path is an error and the table is unchanged.
    pub fn add_binding(
        &mut self,
        path: Vec<String>,
        target: Identity,
        visibility: Visibility,
        priority: Priority,
    ) -> (r: Result<(), DatabaseError>)
        requires
            old(self).wf(),
        ensures
            final(self).wf(),
            final(self).crate_id == old(self).crate_id,
            final(self).items_map() == old(self).items_map(),
            r is Ok <==> can_bind(old(self).bindings_map(), path_view(path@), priority),
            r is Ok ==> final(self).bindings_map() == old(self).bindings_map().insert(
                path_view(path@),
                BindingV {
                    absolute_target: target@,
                    visibility: visibility@,
                    priority,
                },
            ),
            r is Err ==> r == Err::<(), DatabaseError>(DatabaseError::BindingAlreadyPresent)
                && *final(self) == *old(self),
    {
        let ghost pv = path_view(path@);
        let proceed: bool = match self.bindings.get(&path) {
            Some(existing) => {
                existing.priority == Priority::Glob && priority == Priority::Explicit
            },
            None => true,
        };
        if !proceed {
            proof {
                assert(!can_bind(old(self).bindings_map(), pv, priority));
            }
            return Err(DatabaseError::BindingAlreadyPresent);
        }
        let b = Binding { absolute_target: target, visibility, priority };
        let ghost bv = b@;
        let _ = self.bindings.insert(path, b);
        proof {
            assert(final(self).bindings_map() =~= old(self).bindings_map().insert(pv, bv));
        }
        Ok(())
    }

    /// Insert an item at its defining path and the self-binding that every
    /// defined item carries there. Fails, changing nothing, if the path
    /// already defines an item or carries a binding that an explicit one
    /// cannot displace.
    pub fn add_item(&mut self, path: Vec<String>, item: I) -> (r: Result<(), DatabaseError>)
        requires
            old(self).wf(),
        ensures
            final(self).wf(),
            final(self).crate_id == old(self).crate_id,
            r is Ok <==> (!old(self).items_map().contains_key(path_view(path@)) && can_bind(
                old(self).bindings_map(),
                path_view(path@),
                Priority::Explicit,
            )),
            r is Ok ==> final(self).items_map() == old(self).items_map().insert(
                path_view(path@),
                item,
            ) && final(self).bindings_map() == old(self).bindings_map().insert(
                path_view(path@),
                BindingV {
                    absolute_target: IdentityV {
                        crate_id: old(self).crate_id@,
                        path: path_view(path@),
                    },
                    visibility: item.spec_metadata().visibility,
                    priority: Priority::Explicit,
                },
            ),
            r is Err ==> *final(self) == *old(self) && (r
                == Err::<(), DatabaseError>(DatabaseError::ItemAlreadyPresent) <==> old(
                self,
            ).items_map().contains_key(path_view(path@))) && (r is Err && r != Err::<
                (),
                DatabaseError,
            >(DatabaseError::ItemAlreadyPresent) ==> r == Err::<(), DatabaseError>(
                DatabaseError::BindingAlreadyPresent,
            )),
    {
        let ghost pv = path_view(path@);
        if self.items.get(&path).is_some() {
            return Err(DatabaseError::ItemAlreadyPresent);
        }
        let occupied: bool = match self.bindings.get(&path) {
            Some(existing) => !(existing.priority == Priority::Glob),
            None => false,
        };
        if occupied {
            proof {
                assert(!can_bind(old(self).bindings_map(), pv, Priority::Explicit));
            }
            return Err(DatabaseError::BindingAlreadyPresent);
        }
        let target = Identity::new(&self.crate_id, &path);
        let visibility = item.metadata().visibility.clone_vis();
        let ghost itemg = item;
        let path2 = clone_path(&path);
        let _ = self.items.insert(path, item);
        let b = Binding { absolute_target: target, visibility, priority: Priority::Explicit };
        let ghost bv = b@;
        let _ = self.bindings.insert(path2, b);
        proof {
            assert(final(self).items_map() =~= old(self).items_map().insert(pv, itemg));
            assert(final(self).bindings_map() =~= old(self).bindings_map().insert(pv, bv));
        }
        Ok(())
    }

    /// The item defined at a path, if any.
    pub fn get_item(&self, path: &Vec<String>) -> (r: Option<&I>)
        requires
            self.wf(),
        ensures
            match r {
                Some(it) => self.items_map().contains_key(path_view(path@)) && *it
                    == self.items_map()[path_view(path@)],
                None => !self.items_map().contains_key(path_view(path@)),
            },
    {
        self.items.get(path)
    }

    /// The binding at a path, if any.
    pub fn get_binding(&self, path: &Vec<String>) -> (r: Option<&Binding>)
        requires
            self.wf(),
        ensures
            match r {
                Some(b) => self.bindings_map().contains_key(path_view(path@)) && b@
                    == self.bindings_map()[path_view(path@)],
                None => !self.bindings_map().contains_key(path_view(path@)),
            },
    {
        let r = self.bindings.get(path);
        proof {
            if self.bindings@.contains_key(path_view(path@)) {
                assert(self.bindings_map().contains_key(path_view(path@)));
                assert(self.bindings_map()[path_view(path@)] == self.bindings@[path_view(
                    path@,
                )]@);
            }
        }
        r
    }
}

/// Everything found within one package, by namespace.
pub struct CrateDb {
    /// The package's metadata.
    pub crate_data: CrateData,
    /// Types in the package.
    pub types: CrateNamespace<TypeItem>,
    /// Symbols in the package: functions, constants, statics.
    pub symbols: CrateNamespace<SymbolItem>,
    /// Macros in the package.
    pub macros: CrateNamespace<MacroItem>,
    /// Modules in the package, the root included.
    pub modules: CrateNamespace<ModuleItem>,
}

impl CrateDb {
    pub open spec fn wf(&self) -> bool {
        &&& self.crate_data.deps.wf()
        &&& self.types.wf()
        &&& self.symbols.wf()
        &&& self.macros.wf()
        &&& self.modules.wf()
        &&& self.types.crate_id@ == self.crate_data.crate_id@
        &&& self.symbols.crate_id@ == self.crate_data.crate_id@
        &&& self.macros.crate_id@ == self.crate_data.crate_id@
        &&& self.modules.crate_id@ == self.crate_data.crate_id@
    }

    /// The package's identifier, at the view level.
    pub open spec fn id(&self) -> CrateIdV {
        self.crate_data.crate_id@
    }

    /// Create an empty per-package database.
    pub fn new(crate_data: CrateData) -> (r: CrateDb)
        requires
            crate_data.deps.wf(),
        ensures
            r.wf(),
            r.crate_data == crate_data,
            r.types.items_map() == Map::<Seq<Seq<char>>, TypeItem>::empty(),
            r.types.bindings_map() == Map::<Seq<Seq<char>>, BindingV>::empty(),
            r.symbols.items_map() == Map::<Seq<Seq<char>>, SymbolItem>::empty(),
            r.symbols.bindings_map() == Map::<Seq<Seq<char>>, BindingV>::empty(),
            r.macros.items_map() == Map::<Seq<Seq<char>>, MacroItem>::empty(),
            r.macros.bindings_map() == Map::<Seq<Seq<char>>, BindingV>::empty(),
            r.modules.items_map() == Map::<Seq<Seq<char>>, ModuleItem>::empty(),
            r.modules.bindings_map() == Map::<Seq<Seq<char>>, BindingV>::empty(),
    {
        let types = CrateNamespace::new(crate_data.crate_id.clone_id());
        let symbols = CrateNamespace::new(crate_data.crate_id.clone_id());
        let macros = CrateNamespace::new(crate_data.crate_id.clone_id());
        let modules = CrateNamespace::new(crate_data.crate_id.clone_id());
        CrateDb { crate_data, types, symbols, macros, modules }
    }
}

/// The visibilities of a namespace's defined items, by defining path.
pub open spec fn ns_vis_map<I: HasMetadata>(ns: CrateNamespace<I>) -> Map<
    Seq<Seq<char>>,
    VisibilityV,
> {
    ns.items_map().map_values(|i: I| i.spec_metadata().visibility)
}

/// Per-kind access to the namespaces of a package database.
pub trait NamespaceLookup: HasMetadata + Sized + 'static {
    /// Which namespace this item kind lives in.
    spec fn spec_namespace() -> Namespace;

    /// The namespace of this kind within a package database.
    spec fn sel(db: CrateDb) -> CrateNamespace<Self>;

    /// A well-formed package database has well-formed namespaces of every
    /// kind, each carrying the package's identifier.
    proof fn lemma_sel_wf(db: CrateDb)
        requires
            db.wf(),
        ensures
            Self::sel(db).wf(),
            Self::sel(db).crate_id@ == db.id(),
    ;

    /// Item stores agree when every concrete item store agrees.
    proof fn lemma_sel_items_eq(c1: CrateDb, c2: CrateDb)
        requires
            c1.types.items_map() == c2.types.items_map(),
            c1.symbols.items_map() == c2.symbols.items_map(),
            c1.macros.items_map() == c2.macros.items_map(),
            c1.modules.items_map() == c2.modules.items_map(),
        ensures
            Self::sel(c1).items_map() == Self::sel(c2).items_map(),
    ;

    /// Which concrete namespace the selector picks, by kind, stated over
    /// the type-erased parts: the binding table, the set of defined paths,
    /// and the defined items' visibilities.
    proof fn lemma_sel_is(db: CrateDb)
        ensures
            Self::spec_namespace() == Namespace::Type ==> Self::sel(db).bindings_map()
                == db.types.bindings_map() && Self::sel(db).items_map().dom()
                == db.types.items_map().dom() && ns_vis_map(Self::sel(db)) == ns_vis_map(
                db.types,
            ),
            Self::spec_namespace() == Namespace::Symbol ==> Self::sel(db).bindings_map()
                == db.symbols.bindings_map() && Self::sel(db).items_map().dom()
                == db.symbols.items_map().dom() && ns_vis_map(Self::sel(db)) == ns_vis_map(
                db.symbols,
            ),
            Self::spec_namespace() == Namespace::Macro ==> Self::sel(db).bindings_map()
                == db.macros.bindings_map() && Self::sel(db).items_map().dom()
                == db.macros.items_map().dom() && ns_vis_map(Self::sel(db)) == ns_vis_map(
                db.macros,
            ),
            Self::spec_namespace() == Namespace::Module ==> Self::sel(db).bindings_map()
                == db.modules.bindings_map() && Self::sel(db).items_map().dom()
                == db.modules.items_map().dom() && ns_vis_map(Self::sel(db)) == ns_vis_map(
                db.modules,
            ),
    ;

    fn namespace() -> (r: Namespace)
        ensures
            r == Self::spec_namespace(),
    ;

    fn get_crate_namespace(db: &CrateDb) -> (r: &CrateNamespace<Self>)
        ensures
            *r == Self::sel(*db),
    ;

    /// Mutable access to an item of this kind at its defining path.
    fn db_get_item_mut<'a>(db: &'a mut CrateDb, path: &Vec<String>) -> (r: Option<&'a mut Self>)
        requires
            Self::sel(*old(db)).wf(),
        ensures
            r is Some <==> Self::sel(*old(db)).items_map().contains_key(path_view(path@)),
    ;

    /// Insert an item of this kind, with its self-binding, into the package
    /// being built.
    fn db_add_item(db: &mut CrateDb, path: Vec<String>, item: Self) -> (r: Result<
        (),
        DatabaseError,
    >)
        requires
            Self::sel(*old(db)).wf(),
        ensures
            Self::sel(*final(db)).wf(),
            Self::sel(*final(db)).crate_id == Self::sel(*old(db)).crate_id,
            final(db).crate_data == old(db).crate_data,
            old(db).wf() ==> final(db).wf(),
            Self::spec_namespace() != Namespace::Type ==> final(db).types == old(db).types,
            Self::spec_namespace() != Namespace::Symbol ==> final(db).symbols == old(db).symbols,
            Self::spec_namespace() != Namespace::Macro ==> final(db).macros == old(db).macros,
            Self::spec_namespace() != Namespace::Module ==> final(db).modules == old(db).modules,
            r is Ok <==> (!Self::sel(*old(db)).items_map().contains_key(path_view(path@))
                && can_bind(
                Self::sel(*old(db)).bindings_map(),
                path_view(path@),
                Priority::Explicit,
            )),
            r is Ok ==> Self::sel(*final(db)).items_map() == Self::sel(
                *old(db),
            ).items_map().insert(path_view(path@), item) && Self::sel(*final(db)).bindings_map()
                == Self::sel(*old(db)).bindings_map().insert(
                path_view(path@),
                BindingV {
                    absolute_target: IdentityV {
                        crate_id: Self::sel(*old(db)).crate_id@,
                        path: path_view(path@),
                    },
                    visibility: item.spec_metadata().visibility,
                    priority: Priority::Explicit,
                },
            ),
            r is Err ==> *final(db) == *old(db),
            r is Err ==> (r == Err::<(), DatabaseError>(DatabaseError::ItemAlreadyPresent)
                <==> Self::sel(*old(db)).items_map().contains_key(path_view(path@))),
            r is Err && r != Err::<(), DatabaseError>(DatabaseError::ItemAlreadyPresent) ==> r
                == Err::<(), DatabaseError>(DatabaseError::BindingAlreadyPresent),
    ;

    /// Add a binding of this kind's namespace to the package being built.
    fn db_add_binding(
        db: &mut CrateDb,
        path: Vec<String>,
        target: Identity,
        visibility: Visibility,
        priority: Priority,
    ) -> (r: Result<(), DatabaseError>)
        requires
            Self::sel(*old(db)).wf(),
        ensures
            Self::sel(*final(db)).wf(),
            Self::sel(*final(db)).crate_id == Self::sel(*old(db)).crate_id,
            final(db).crate_data == old(db).crate_data,
            old(db).wf() ==> final(db).wf(),
            Self::spec_namespace() != Namespace::Type ==> final(db).types == old(db).types,
            Self::spec_namespace() != Namespace::Symbol ==> final(db).symbols == old(db).symbols,
            Self::spec_namespace() != Namespace::Macro ==> final(db).macros == old(db).macros,
            Self::spec_namespace() != Namespace::Module ==> final(db).modules == old(db).modules,
            Self::sel(*final(db)).items_map() == Self::sel(*old(db)).items_map(),
            r is Ok <==> can_bind(
                Self::sel(*old(db)).bindings_map(),
                path_view(path@),
                priority,
            ),
            r is Ok ==> Self::sel(*final(db)).bindings_map() == Self::sel(
                *old(db),
            ).bindings_map().insert(
                path_view(path@),
                BindingV {
                    absolute_target: target@,
                    visibility: visibility@,
                    priority,
                },
            ),
            r is Err ==> r == Err::<(), DatabaseError>(DatabaseError::BindingAlreadyPresent)
                && *final(db) == *old(db),
    ;
}

impl NamespaceLookup for TypeItem {
    proof fn lemma_sel_wf(db: CrateDb) {
    }

    proof fn lemma_sel_is(db: CrateDb) {
    }

    proof fn lemma_sel_items_eq(c1: CrateDb, c2: CrateDb) {
    }

    open spec fn spec_namespace() -> Namespace {
        Namespace::Type
    }

    open spec fn sel(db: CrateDb) -> CrateNamespace<TypeItem> {
        db.types
    }

    fn namespace() -> (r: Namespace) {
        Namespace::Type
    }

    fn get_crate_namespace(db: &CrateDb) -> (r: &CrateNamespace<TypeItem>) {
        &db.types
    }

    fn db_get_item_mut<'a>(db: &'a mut CrateDb, path: &Vec<String>) -> (r: Option<
        &'a mut TypeItem,
    >) {
        db.types.items.get_mut(path)
    }

    fn db_add_item(db: &mut CrateDb, path: Vec<String>, item: TypeItem) -> (r: Result<
        (),
        DatabaseError,
    >) {
        db.types.add_item(path, item)
    }

    fn db_add_binding(
        db: &mut CrateDb,
        path: Vec<String>,
        target: Identity,
        visibility: Visibility,
        priority: Priority,
    ) -> (r: Result<(), DatabaseError>) {
        db.types.add_binding(path, target, visibility, priority)
    }
}

impl NamespaceLookup for SymbolItem {
    proof fn lemma_sel_wf(db: CrateDb) {
    }

    proof fn lemma_sel_is(db: CrateDb) {
    }

    proof fn lemma_sel_items_eq(c1: CrateDb, c2: CrateDb) {
    }

    open spec fn spec_namespace() -> Namespace {
        Namespace::Symbol
    }

    open spec fn sel(db: CrateDb) -> CrateNamespace<SymbolItem> {
        db.symbols
    }

    fn namespace() -> (r: Namespace) {
        Namespace::Symbol
    }

    fn get_crate_namespace(db: &CrateDb) -> (r: &CrateNamespace<SymbolItem>) {
        &db.symbols
    }

    fn db_get_item_mut<'a>(db: &'a mut CrateDb, path: &Vec<String>) -> (r: Option<
        &'a mut SymbolItem,
    >) {
        db.symbols.items.get_mut(path)
    }

    fn db_add_item(db: &mut CrateDb, path: Vec<String>, item: SymbolItem) -> (r: Result<
        (),
        DatabaseError,
    >) {
        db.symbols.add_item(path, item)
    }

    fn db_add_binding(
        db: &mut CrateDb,
        path: Vec<String>,
        target: Identity,
        visibility: Visibility,
        priority: Priority,
    ) -> (r: Result<(), DatabaseError>) {
        db.symbols.add_binding(path, target, visibility, priority)
    }
}

impl NamespaceLookup for MacroItem {
    proof fn lemma_sel_wf(db: CrateDb) {
    }

    proof fn lemma_sel_is(db: CrateDb) {
    }

    proof fn lemma_sel_items_eq(c1: CrateDb, c2: CrateDb) {
    }

    open spec fn spec_namespace() -> Namespace {
        Namespace::Macro
    }

    open spec fn sel(db: CrateDb) -> CrateNamespace<MacroItem> {
        db.macros
    }

    fn namespace() -> (r: Namespace) {
        Namespace::Macro
    }

    fn get_crate_namespace(db: &CrateDb) -> (r: &CrateNamespace<MacroItem>) {
        &db.macros
    }

    fn db_get_item_mut<'a>(db: &'a mut CrateDb, path: &Vec<String>) -> (r: Option<
        &'a mut MacroItem,
    >) {
        db.macros.items.get_mut(path)
    }

    fn db_add_item(db: &mut CrateDb, path: Vec<String>, item: MacroItem) -> (r: Result<
        (),
        DatabaseError,
    >) {
        db.macros.add_item(path, item)
    }

    fn db_add_binding(
        db: &mut CrateDb,
        path: Vec<String>,
        target: Identity,
        visibility: Visibility,
        priority: Priority,
    ) -> (r: Result<(), DatabaseError>) {
        db.macros.add_binding(path, target, visibility, priority)
    }
}

impl NamespaceLookup for ModuleItem {
    proof fn lemma_sel_wf(db: CrateDb) {
    }

    proof fn lemma_sel_is(db: CrateDb) {
    }

    proof fn lemma_sel_items_eq(c1: CrateDb, c2: CrateDb) {
    }

    open spec fn spec_namespace() -> Namespace {
        Namespace::Module
    }

    open spec fn sel(db: CrateDb) -> CrateNamespace<ModuleItem> {
        db.modules
    }

    fn namespace() -> (r: Namespace) {
        Namespace::Module
    }

    fn get_crate_namespace(db: &CrateDb) -> (r: &CrateNamespace<ModuleItem>) {
        &db.modules
    }

    fn db_get_item_mut<'a>(db: &'a mut CrateDb, path: &Vec<String>) -> (r: Option<
        &'a mut ModuleItem,
    >) {
        db.modules.items.get_mut(path)
    }

    fn db_add_item(db: &mut CrateDb, path: Vec<String>, item: ModuleItem) -> (r: Result<
        (),
        DatabaseError,
    >) {
        db.modules.add_item(path, item)
    }

    fn db_add_binding(
        db: &mut CrateDb,
        path: Vec<String>,
        target: Identity,
        visibility: Visibility,
        priority: Priority,
    ) -> (r: Result<(), DatabaseError>) {
        db.modules.add_binding(path, target, visibility, priority)
    }
}

impl CrateDb {
    /// The item of the given kind defined at a relative path.
    pub fn get_item<I: NamespaceLookup>(&self, path: &Vec<String>) -> (r: Option<&I>)
        requires
            I::sel(*self).wf(),
        ensures
            match r {
                Some(it) => I::sel(*self).items_map().contains_key(path_view(path@)) && *it
                    == I::sel(*self).items_map()[path_view(path@)],
                None => !I::sel(*self).items_map().contains_key(path_view(path@)),
            },
    {
        I::get_crate_namespace(self).get_item(path)
    }

    /// Mutable access to the item of the given kind at a relative path.
    pub fn get_item_mut<I: NamespaceLookup>(&mut self, path: &Vec<String>) -> (r: Option<
        &mut I,
    >)
        requires
            I::sel(*old(self)).wf(),
        ensures
            r is Some <==> I::sel(*old(self)).items_map().contains_key(path_view(path@)),
    {
        I::db_get_item_mut(self, path)
    }

    /// The binding of the given kind at a relative path.
    pub fn get_binding<I: NamespaceLookup>(&self, path: &Vec<String>) -> (r: Option<&Binding>)
        requires
            I::sel(*self).wf(),
        ensures
            match r {
                Some(b) => I::sel(*self).bindings_map().contains_key(path_view(path@)) && b@
                    == I::sel(*self).bindings_map()[path_view(path@)],
                None => !I::sel(*self).bindings_map().contains_key(path_view(path@)),
            },
    {
        I::get_crate_namespace(self).get_binding(path)
    }
}

/// Whether every module on the way down to `path` is externally visible: for
/// each nonempty prefix, the module binding is there and not `NonPub`. The
/// scope-restricted visibility of prelude bindings counts as visible here.
pub open spec fn spec_module_visible(
    modb: Map<Seq<Seq<char>>, BindingV>,
    path: Seq<Seq<char>>,
) -> bool {
    forall|k: int|
        1 <= k <= path.len() ==> #[trigger] modb.contains_key(path.take(k)) && !(modb[path.take(
            k,
        )].visibility is NonPub)
}

impl CrateDb {
    /// Walk from the root down to `path`: the first missing or `NonPub`
    /// module makes the whole subtree externally invisible.
    #[verifier::loop_isolation(false)]
    pub fn is_module_externally_visible(&self, path: &Vec<String>) -> (r: bool)
        requires
            self.modules.wf(),
        ensures
            r == spec_module_visible(self.modules.bindings_map(), path_view(path@)),
    {
        let ghost pv = path_view(path@);
        let mut cur: Vec<String> = Vec::new();
        let mut i: usize = 0;
        proof {
            assert(path_view(cur@) =~= pv.take(0));
        }
        while i < path.len()
            invariant
                i <= path@.len(),
                path_view(cur@) == pv.take(i as int),
                forall|k: int|
                    1 <= k <= i ==> #[trigger] self.modules.bindings_map().contains_key(
                        pv.take(k),
                    ) && !(self.modules.bindings_map()[pv.take(k)].visibility is NonPub),
            decreases path@.len() - i,
        {
            cur.push(path[i].clone());
            proof {
                assert(path_view(cur@) =~= pv.take(i + 1));
            }
            match self.modules.get_binding(&cur) {
                Some(b) => {
                    if b.visibility.is_non_pub() {
                        return false;
                    }
                },
                None => {
                    return false;
                },
            }
            i += 1;
        }
        proof {
            assert(pv.take(pv.len() as int) =~= pv);
        }
        true
    }
}

/// First-match lookup of a package by identifier.
pub open spec fn crates_assoc(s: Seq<(CrateId, CrateDb)>, id: CrateIdV) -> Option<CrateDb>
    decreases s.len(),
{
    if s.len() == 0 {
        None
    } else if s[0].0@ == id {
        Some(s[0].1)
    } else {
        crates_assoc(s.drop_first(), id)
    }
}

/// The database of every resolved package. Packages form a directed acyclic
/// graph; a package cannot be modified once added.
///
/// Well-formedness here is per entry: distinct identifiers, and each stored
/// package internally well formed. A package sealed through the walker also
/// satisfies the store invariant (its bindings into itself name defined
/// items, and every item carries its self-binding); that guarantee is stated
/// at the sealing call, not re-stated here, so a package inserted directly
/// by `add_crate` carries no such promise. A binding whose target lies in
/// another package is resolved by following it at lookup time; nothing in
/// this structure asserts that the far end exists.
pub struct Db {
    pub crates: Vec<(CrateId, CrateDb)>,
}

impl Db {
    /// The stored package for an identifier, if any.
    pub open spec fn spec_get(&self, id: CrateIdV) -> Option<CrateDb> {
        crates_assoc(self.crates@, id)
    }

    pub open spec fn wf(&self) -> bool {
        &&& forall|i: int, j: int|
            0 <= i < j < self.crates@.len() ==> self.crates@[i].0@ != self.crates@[j].0@
        &&& forall|i: int|
            0 <= i < self.crates@.len() ==> (#[trigger] self.crates@[i].1).wf()
                && self.crates@[i].1.id() == self.crates@[i].0@
    }

    /// Create an empty database.
    pub fn new() -> (r: Db)
        ensures
            r.wf(),
            forall|id: CrateIdV| r.spec_get(id) is None,
    {
        Db { crates: Vec::new() }
    }

    /// Look a package up by identifier.
    pub fn get_crate(&self, id: &CrateId) -> (r: Option<&CrateDb>)
        ensures
            match r {
                Some(db) => self.spec_get(id@) == Some(*db),
                None => self.spec_get(id@) is None,
            },
    {
        let n = self.crates.len();
        let mut i: usize = 0;
        proof {
            assert(self.crates@.skip(0) =~= self.crates@);
        }
        while i < n
            invariant
                n == self.crates@.len(),
                i <= n,
                crates_assoc(self.crates@, id@) == crates_assoc(
                    self.crates@.skip(i as int),
                    id@,
                ),
                forall|j: int| 0 <= j < i ==> self.crates@[j].0@ != id@,
            decreases n - i,
        {
            proof {
                assert(self.crates@.skip(i as int)[0] == self.crates@[i as int]);
            }
            if self.crates[i].0.eq_id(id) {
                return Some(&self.crates[i].1);
            }
            proof {
                assert(self.crates@.skip(i as int).drop_first() =~= self.crates@.skip(i + 1));
            }
            i += 1;
        }
        proof {
            assert(self.crates@.skip(n as int).len() == 0);
        }
        None
    }

    /// Add a finished package. The package should be finished resolving;
    /// once added it is never modified, so its identifier must be new.
    pub fn add_crate(&mut self, crate_db: CrateDb)
        requires
            old(self).wf(),
            crate_db.wf(),
            old(self).spec_get(crate_db.id()) is None,
        ensures
            final(self).wf(),
            final(self).spec_get(crate_db.id()) == Some(crate_db),
            forall|id: CrateIdV|
                id != crate_db.id() ==> final(self).spec_get(id) == old(self).spec_get(id),
    {
        let ghost s0 = self.crates@;
        let ghost newid = crate_db.id();
        let key = crate_db.crate_data.crate_id.clone_id();
        self.crates.push((key, crate_db));
        proof {
            let s1 = self.crates@;
            assert(s1 =~= s0.push(s1.last()));
            lemma_crates_push(s0, s1.last(), newid);
            assert forall|id: CrateIdV| id != newid implies final(self).spec_get(id) == old(
                self,
            ).spec_get(id) by {
                lemma_crates_push(s0, s1.last(), id);
            }
            assert forall|i: int, j: int| 0 <= i < j < s1.len() implies s1[i].0@ != s1[j].0@ by {
                if j == s1.len() - 1 {
                    if s1[i].0@ == newid {
                        lemma_crates_found(s0, i);
                    }
                }
            }
        }
    }
}

/// Appending a package with a fresh identifier adds exactly that entry.
proof fn lemma_crates_push(s: Seq<(CrateId, CrateDb)>, e: (CrateId, CrateDb), id: CrateIdV)
    requires
        crates_assoc(s, e.0@) is None,
    ensures
        e.0@ == id ==> crates_assoc(s.push(e), id) == Some(e.1),
        e.0@ != id ==> crates_assoc(s.push(e), id) == crates_assoc(s, id),
    decreases s.len(),
{
    if s.len() == 0 {
        assert(s.push(e)[0] == e);
        assert(s.push(e).drop_first() =~= Seq::<(CrateId, CrateDb)>::empty());
    } else {
        assert(s.push(e)[0] == s[0]);
        assert(s.push(e).drop_first() =~= s.drop_first().push(e));
        lemma_crates_push(s.drop_first(), e, id);
        if s[0].0@ == id {
            assert(crates_assoc(s.push(e), id) == Some(s[0].1));
            assert(crates_assoc(s, id) == Some(s[0].1));
        } else {
            assert(crates_assoc(s.push(e), id) == crates_assoc(s.push(e).drop_first(), id));
            assert(crates_assoc(s, id) == crates_assoc(s.drop_first(), id));
        }
    }
}

/// An entry's identifier is found by lookup.
proof fn lemma_crates_found(s: Seq<(CrateId, CrateDb)>, i: int)
    requires
        0 <= i < s.len(),
    ensures
        crates_assoc(s, s[i].0@) is Some,
    decreases i,
{
    if i > 0 && s[0].0@ != s[i].0@ {
        lemma_crates_found(s.drop_first(), i - 1);
    }
}

/// What a well-formed store hands back is itself well-formed and carries the
/// identifier it was looked up under.
pub proof fn lemma_crates_assoc_wf(s: Seq<(CrateId, CrateDb)>, id: CrateIdV)
    requires
        forall|i: int| 0 <= i < s.len() ==> (#[trigger] s[i].1).wf() && s[i].1.id() == s[i].0@,
        crates_assoc(s, id) is Some,
    ensures
        crates_assoc(s, id)->Some_0.wf(),
        crates_assoc(s, id)->Some_0.id() == id,
    decreases s.len(),
{
    if s.len() > 0 && s[0].0@ != id {
        assert forall|i: int| 0 <= i < s.drop_first().len() implies (#[trigger] s.drop_first()[i].1).wf()
            && s.drop_first()[i].1.id() == s.drop_first()[i].0@ by {
            assert(s.drop_first()[i] == s[i + 1]);
        }
        lemma_crates_assoc_wf(s.drop_first(), id);
    }
}

/// Whether the binding at `p` counts for external access: it is there, it is
/// public, and every module above it is externally visible.
pub open spec fn spec_eligible(
    bm: Map<Seq<Seq<char>>, BindingV>,
    modb: Map<Seq<Seq<char>>, BindingV>,
    p: Seq<Seq<char>>,
) -> bool {
    bm.contains_key(p) && bm[p].visibility is Pub && (p.len() == 0 || spec_module_visible(
        modb,
        p.drop_last(),
    ))
}

/// The access-path preference: shorter first, lexicographically smaller on a
/// tie. This is a strict order.
pub open spec fn rel_better(a: Seq<Seq<char>>, b: Seq<Seq<char>>) -> bool {
    a.len() < b.len() || (a.len() == b.len() && segs_lt(a, b))
}

/// The preference order is strict and total: exactly one of `a` before `b`,
/// equality, and `b` before `a` holds.
pub proof fn lemma_rel_better_trichotomy(a: Seq<Seq<char>>, b: Seq<Seq<char>>)
    ensures
        rel_better(a, b) || a == b || rel_better(b, a),
        rel_better(a, b) ==> a != b && !rel_better(b, a),
        a == b ==> !rel_better(a, b) && !rel_better(b, a),
{
    crate::paths::lemma_segs_lt_trichotomy(a, b);
}

pub proof fn lemma_rel_better_transitive(a: Seq<Seq<char>>, b: Seq<Seq<char>>, c: Seq<Seq<char>>)
    requires
        rel_better(a, b),
        rel_better(b, c),
    ensures
        rel_better(a, c),
{
    if a.len() == b.len() && b.len() == c.len() {
        crate::paths::lemma_segs_lt_transitive(a, b, c);
    }
}

/// Record an access path for a target: if the target is already listed, keep
/// the better of the two paths; otherwise append the pair.
#[verifier::loop_isolation(false)]
fn upsert_best(best: &mut Vec<(Vec<String>, Identity)>, rel: &Vec<String>, target: &Identity)
    ensures
        final(best)@.len() == old(best)@.len() || final(best)@.len() == old(best)@.len() + 1,
        forall|j: int|
            0 <= j < old(best)@.len() ==> #[trigger] final(best)@[j].1@ == old(best)@[j].1@,
        forall|j: int|
            0 <= j < old(best)@.len() ==> path_view(#[trigger] final(best)@[j].0@) == path_view(
                old(best)@[j].0@,
            ) || (final(best)@[j].1@ == target@ && path_view(final(best)@[j].0@) == path_view(
                rel@,
            ) && rel_better(path_view(rel@), path_view(old(best)@[j].0@))),
        final(best)@.len() == old(best)@.len() + 1 ==> path_view(
            final(best)@[old(best)@.len() as int].0@,
        ) == path_view(rel@) && final(best)@[old(best)@.len() as int].1@ == target@ && (forall|
            q: int,
        |
            0 <= q < old(best)@.len() ==> #[trigger] old(best)@[q].1@ != target@),
        exists|j: int|
            0 <= j < final(best)@.len() && #[trigger] final(best)@[j].1@ == target@
                && !rel_better(path_view(rel@), path_view(final(best)@[j].0@)),
        final(best)@.len() == old(best)@.len() ==> exists|j: int|
            0 <= j < old(best)@.len() && #[trigger] old(best)@[j].1@ == target@,
{
    let ghost relv = path_view(rel@);
    let n = best.len();
    let mut j: usize = 0;
    while j < n
        invariant
            n == best@.len(),
            j <= n,
            best@ == old(best)@,
            forall|q: int| 0 <= q < j ==> #[trigger] best@[q].1@ != target@,
        decreases n - j,
    {
        if best[j].1.eq_identity(target) {
            let ghost oldrel = path_view(best@[j as int].0@);
            let replace = rel.len() < best[j].0.len() || (rel.len() == best[j].0.len()
                && crate::paths::path_lt(rel, &best[j].0));
            proof {
                assert(replace == rel_better(relv, oldrel));
            }
            if replace {
                let newrel = clone_path(rel);
                let tgt = target.clone_identity();
                let ghost s0 = best@;
                let _prev = best.remove(j);
                best.insert(j, (newrel, tgt));
                proof {
                    assert(best@ =~= s0.update(j as int, best@[j as int]));
                    lemma_rel_better_trichotomy(relv, relv);
                    assert(best@[j as int].1@ == target@ && !rel_better(
                        relv,
                        path_view(best@[j as int].0@),
                    ));
                }
            } else {
                proof {
                    assert(!rel_better(relv, oldrel));
                    assert(best@[j as int].1@ == target@ && !rel_better(
                        relv,
                        path_view(best@[j as int].0@),
                    ));
                }
            }
            return ;
        }
        j += 1;
    }
    best.push((clone_path(rel), target.clone_identity()));
    proof {
        lemma_rel_better_trichotomy(relv, relv);
        assert(best@[n as int].1@ == target@ && !rel_better(
            relv,
            path_view(best@[n as int].0@),
        ));
    }
}

/// Whether an access pair occurs in a list of them.
pub open spec fn in_list(e: (Vec<String>, Identity), s: Seq<(Vec<String>, Identity)>) -> bool {
    exists|j: int| 0 <= j < s.len() && s[j] == e
}

/// Sort a list of access pairs by access path, lexicographically. The paths
/// must be pairwise distinct; the output holds exactly the input pairs.
#[verifier::loop_isolation(false)]
#[verifier::rlimit(80)]
fn sort_by_rel(list: Vec<(Vec<String>, Identity)>) -> (r: Vec<(Vec<String>, Identity)>)
    requires
        forall|i: int, j: int|
            0 <= i < j < list@.len() ==> path_view(#[trigger] list@[i].0@) != path_view(
                #[trigger] list@[j].0@,
            ),
    ensures
        r@.len() == list@.len(),
        forall|i: int| 0 <= i < r@.len() ==> in_list(#[trigger] r@[i], list@),
        forall|j: int| 0 <= j < list@.len() ==> in_list(#[trigger] list@[j], r@),
        forall|i: int, j: int|
            0 <= i < j < r@.len() ==> segs_lt(
                path_view(#[trigger] r@[i].0@),
                path_view(#[trigger] r@[j].0@),
            ),
{
    let ghost orig = list@;
    let mut rest = list;
    let mut sorted: Vec<(Vec<String>, Identity)> = Vec::new();
    proof {
        assert forall|i: int| 0 <= i < rest@.len() implies in_list(#[trigger] rest@[i], orig) by {
            assert(orig[i] == rest@[i]);
        }
        assert forall|j: int| 0 <= j < orig.len() implies in_list(#[trigger] orig[j], sorted@)
            || in_list(orig[j], rest@) by {
            assert(rest@[j] == orig[j]);
        }
    }
    while rest.len() > 0
        invariant
            sorted@.len() + rest@.len() == orig.len(),
            forall|i: int| 0 <= i < sorted@.len() ==> in_list(#[trigger] sorted@[i], orig),
            forall|i: int| 0 <= i < rest@.len() ==> in_list(#[trigger] rest@[i], orig),
            forall|j: int|
                0 <= j < orig.len() ==> in_list(#[trigger] orig[j], sorted@) || in_list(
                    orig[j],
                    rest@,
                ),
            forall|i: int, j: int|
                0 <= i < j < sorted@.len() ==> path_view(#[trigger] sorted@[i].0@) != path_view(
                    #[trigger] sorted@[j].0@,
                ),
            forall|i: int, j: int|
                0 <= i < j < rest@.len() ==> path_view(#[trigger] rest@[i].0@) != path_view(
                    #[trigger] rest@[j].0@,
                ),
            forall|i: int, j: int|
                0 <= i < sorted@.len() && 0 <= j < rest@.len() ==> path_view(
                    #[trigger] sorted@[i].0@,
                ) != path_view(#[trigger] rest@[j].0@),
            forall|i: int, j: int|
                0 <= i < j < sorted@.len() ==> segs_lt(
                    path_view(#[trigger] sorted@[i].0@),
                    path_view(#[trigger] sorted@[j].0@),
                ),
        decreases rest@.len(),
    {
        let ghost rs0 = rest@;
        let e = rest.remove(0);
        let ghost ev = path_view(e.0@);
        proof {
            assert(e == rs0[0]);
            assert(rest@ =~= rs0.drop_first());
        }
        let mut pos: usize = 0;
        while pos < sorted.len() && crate::paths::path_lt(&sorted[pos].0, &e.0)
            invariant
                pos <= sorted@.len(),
                forall|q: int| 0 <= q < pos ==> segs_lt(path_view(#[trigger] sorted@[q].0@), ev),
            decreases sorted@.len() - pos,
        {
            pos += 1;
        }
        proof {
            if pos < sorted@.len() {
                assert(!segs_lt(path_view(sorted@[pos as int].0@), ev));
                assert(path_view(sorted@[pos as int].0@) != ev);
                crate::paths::lemma_segs_lt_trichotomy(path_view(sorted@[pos as int].0@), ev);
                assert(segs_lt(ev, path_view(sorted@[pos as int].0@)));
            }
        }
        let ghost ss0 = sorted@;
        sorted.insert(pos, e);
        proof {
            let ss1 = sorted@;
            let rs1 = rest@;
            assert(ss1.len() == ss0.len() + 1);
            assert(ss1[pos as int] == e);
            assert forall|q: int| 0 <= q < pos implies ss1[q] == ss0[q] by {}
            assert forall|q: int| pos < q < ss1.len() implies ss1[q] == ss0[q - 1] by {}
            assert forall|q: int| 0 <= q < rs1.len() implies rs1[q] == rs0[q + 1] by {}
            assert forall|i: int| 0 <= i < ss1.len() implies in_list(
                #[trigger] ss1[i],
                orig,
            ) by {
                if i == pos {
                    assert(in_list(rs0[0], orig));
                } else if i < pos {
                    assert(in_list(ss0[i], orig));
                } else {
                    assert(in_list(ss0[i - 1], orig));
                }
            }
            assert forall|i: int| 0 <= i < rs1.len() implies in_list(
                #[trigger] rs1[i],
                orig,
            ) by {
                assert(in_list(rs0[i + 1], orig));
            }
            assert forall|jo: int| 0 <= jo < orig.len() implies in_list(
                #[trigger] orig[jo],
                ss1,
            ) || in_list(orig[jo], rs1) by {
                if in_list(orig[jo], ss0) {
                    let i = choose|i: int| 0 <= i < ss0.len() && ss0[i] == orig[jo];
                    if i < pos {
                        assert(ss1[i] == orig[jo]);
                    } else {
                        assert(ss1[i + 1] == orig[jo]);
                    }
                } else {
                    let i = choose|i: int| 0 <= i < rs0.len() && rs0[i] == orig[jo];
                    if i == 0 {
                        assert(ss1[pos as int] == orig[jo]);
                    } else {
                        assert(rs1[i - 1] == orig[jo]);
                    }
                }
            }
            assert forall|i: int, j: int| 0 <= i < j < ss1.len() implies path_view(
                #[trigger] ss1[i].0@,
            ) != path_view(#[trigger] ss1[j].0@) by {
                if j == pos {
                    assert(ss1[i] == ss0[i]);
                    assert(path_view(ss0[i].0@) != path_view(rs0[0].0@));
                } else if i == pos {
                    assert(ss1[j] == ss0[j - 1]);
                    assert(path_view(ss0[j - 1].0@) != path_view(rs0[0].0@));
                } else {
                    let i0: int = if i < pos { i } else { i - 1 };
                    let j0: int = if j < pos { j } else { j - 1 };
                    assert(ss1[i] == ss0[i0]);
                    assert(ss1[j] == ss0[j0]);
                }
            }
            assert forall|i: int, j: int| 0 <= i < j < rs1.len() implies path_view(
                #[trigger] rs1[i].0@,
            ) != path_view(#[trigger] rs1[j].0@) by {
                assert(rs1[i] == rs0[i + 1]);
                assert(rs1[j] == rs0[j + 1]);
            }
            assert forall|i: int, j: int|
                0 <= i < ss1.len() && 0 <= j < rs1.len() implies path_view(#[trigger] ss1[i].0@)
                != path_view(#[trigger] rs1[j].0@) by {
                assert(rs1[j] == rs0[j + 1]);
                if i == pos {
                    assert(path_view(rs0[0].0@) != path_view(rs0[j + 1].0@));
                } else {
                    let i0: int = if i < pos { i } else { i - 1 };
                    assert(ss1[i] == ss0[i0]);
                }
            }
            assert forall|i: int, j: int| 0 <= i < j < ss1.len() implies segs_lt(
                path_view(#[trigger] ss1[i].0@),
                path_view(#[trigger] ss1[j].0@),
            ) by {
                if i < pos && j == pos {
                } else if i == pos && j > pos {
                    if j - 1 > pos {
                        crate::paths::lemma_segs_lt_transitive(
                            ev,
                            path_view(ss0[pos as int].0@),
                            path_view(ss0[j - 1].0@),
                        );
                    }
                } else if i < pos && j > pos {
                }
            }
        }
    }
    sorted
}

impl Db {
    /// Everything externally reachable through one package, for one
    /// namespace: each public binding whose module chain is externally
    /// visible contributes its target; for each target the shortest, on a
    /// tie the lexicographically smallest, access path is chosen; and the
    /// list comes back sorted by access path, so equal inputs give
    /// byte-identical output.
    #[verifier::loop_isolation(false)]
    pub fn accessible_items<I: NamespaceLookup>(&self, crate_id: &CrateId) -> (r: Vec<
        (Vec<String>, Identity),
    >)
        requires
            self.wf(),
            self.spec_get(crate_id@) is Some,
        ensures
            ({
                let cdb = self.spec_get(crate_id@)->Some_0;
                let bm = I::sel(cdb).bindings_map();
                let modb = cdb.modules.bindings_map();
                &&& forall|i: int|
                    0 <= i < r@.len() ==> spec_eligible(bm, modb, path_view(#[trigger] r@[i].0@))
                        && bm[path_view(r@[i].0@)].absolute_target == r@[i].1@
                &&& forall|i: int, p: Seq<Seq<char>>|
                    0 <= i < r@.len() && #[trigger] spec_eligible(bm, modb, p)
                        && bm[p].absolute_target == #[trigger] r@[i].1@ ==> !rel_better(
                        p,
                        path_view(r@[i].0@),
                    )
                &&& forall|p: Seq<Seq<char>>|
                    #[trigger] spec_eligible(bm, modb, p) ==> exists|i: int|
                        0 <= i < r@.len() && r@[i].1@ == bm[p].absolute_target
                &&& forall|i: int, j: int|
                    0 <= i < j < r@.len() ==> segs_lt(
                        path_view(#[trigger] r@[i].0@),
                        path_view(#[trigger] r@[j].0@),
                    )
            }),
    {
        let cdb = self.get_crate(crate_id).unwrap();
        proof {
            lemma_crates_assoc_wf(self.crates@, crate_id@);
            I::lemma_sel_wf(*cdb);
        }
        let ns = I::get_crate_namespace(cdb);
        let ghost bm = ns.bindings_map();
        let ghost modb = cdb.modules.bindings_map();
        let ghost sv = ns.bindings.seq_view();
        proof {
            ns.bindings.lemma_view_entries();
        }

        let nb = ns.bindings.len();
        let mut best: Vec<(Vec<String>, Identity)> = Vec::new();
        let mut bi: usize = 0;
        while bi < nb
            invariant
                bi <= nb,
                forall|j: int|
                    0 <= j < best@.len() ==> spec_eligible(
                        bm,
                        modb,
                        path_view(#[trigger] best@[j].0@),
                    ) && bm[path_view(best@[j].0@)].absolute_target == best@[j].1@,
                forall|j: int, k: int|
                    0 <= j < k < best@.len() ==> #[trigger] best@[j].1@ != #[trigger] best@[k].1@,
                forall|j: int, k: int|
                    0 <= j < best@.len() && 0 <= k < bi && spec_eligible(
                        bm,
                        modb,
                        path_view(#[trigger] sv[k].0@),
                    ) && bm[path_view(sv[k].0@)].absolute_target == #[trigger] best@[j].1@
                        ==> !rel_better(path_view(sv[k].0@), path_view(best@[j].0@)),
                forall|k: int|
                    0 <= k < bi && spec_eligible(bm, modb, path_view(#[trigger] sv[k].0@))
                        ==> exists|j: int|
                        0 <= j < best@.len() && #[trigger] best@[j].1@ == bm[path_view(
                            sv[k].0@,
                        )].absolute_target,
            decreases nb - bi,
        {
            let e = ns.bindings.idx(bi);
            let ghost pv = path_view(e.0@);
            proof {
                assert(sv[bi as int].0 == e.0 && sv[bi as int].1 == e.1);
                assert(bm.contains_key(pv) && bm[pv] == e.1@);
            }
            let is_elig: bool;
            if e.1.visibility.is_pub() {
                match crate::paths::parent_path(e.0) {
                    Some(par) => {
                        is_elig = cdb.is_module_externally_visible(&par);
                        proof {
                            assert(path_view(par@) == pv.drop_last());
                            assert(is_elig == spec_eligible(bm, modb, pv));
                        }
                    },
                    None => {
                        is_elig = true;
                        proof {
                            assert(pv.len() == 0);
                            assert(spec_eligible(bm, modb, pv));
                        }
                    },
                }
            } else {
                is_elig = false;
                proof {
                    assert(!spec_eligible(bm, modb, pv));
                }
            }
            if is_elig {
                let ghost b0 = best@;
                upsert_best(&mut best, e.0, &e.1.absolute_target);
                proof {
                    let b1 = best@;
                    let tv = e.1@.absolute_target;
                    assert(bm[pv].absolute_target == tv);
                    // soundness carries over: kept entries are unchanged,
                    // improved entries now name this binding
                    assert forall|j: int| 0 <= j < b1.len() implies spec_eligible(
                        bm,
                        modb,
                        path_view(#[trigger] b1[j].0@),
                    ) && bm[path_view(b1[j].0@)].absolute_target == b1[j].1@ by {
                        if j < b0.len() {
                            if path_view(b1[j].0@) == path_view(b0[j].0@) {
                                assert(b1[j].1@ == b0[j].1@);
                            } else {
                                assert(path_view(b1[j].0@) == pv && b1[j].1@ == tv);
                            }
                        } else {
                            assert(path_view(b1[j].0@) == pv && b1[j].1@ == tv);
                        }
                    }
                    // targets stay pairwise distinct
                    assert forall|j: int, k2: int| 0 <= j < k2 < b1.len() implies #[trigger] b1[j].1@
                        != #[trigger] b1[k2].1@ by {
                        if k2 < b0.len() {
                            assert(b1[j].1@ == b0[j].1@ && b1[k2].1@ == b0[k2].1@);
                        } else {
                            assert(b1[j].1@ == b0[j].1@ && b1[k2].1@ == tv);
                            assert(b0[j].1@ != tv);
                        }
                    }
                    // chosen paths stay minimal among the processed bindings
                    assert forall|j: int, k: int|
                        0 <= j < b1.len() && 0 <= k < bi + 1 && spec_eligible(
                            bm,
                            modb,
                            path_view(#[trigger] sv[k].0@),
                        ) && bm[path_view(sv[k].0@)].absolute_target
                            == #[trigger] b1[j].1@ implies !rel_better(
                        path_view(sv[k].0@),
                        path_view(b1[j].0@),
                    ) by {
                        let pk = path_view(sv[k].0@);
                        if j < b0.len() {
                            assert(b1[j].1@ == b0[j].1@);
                            if path_view(b1[j].0@) == path_view(b0[j].0@) {
                                if k < bi {
                                } else {
                                    assert(pk == pv);
                                    if b1[j].1@ == tv {
                                        let jj = choose|jj: int|
                                            0 <= jj < b1.len() && #[trigger] b1[jj].1@ == tv
                                                && !rel_better(pv, path_view(b1[jj].0@));
                                        assert(jj == j);
                                    }
                                }
                            } else {
                                assert(b1[j].1@ == tv && path_view(b1[j].0@) == pv && rel_better(
                                    pv,
                                    path_view(b0[j].0@),
                                ));
                                if k < bi {
                                    if rel_better(pk, pv) {
                                        lemma_rel_better_transitive(
                                            pk,
                                            pv,
                                            path_view(b0[j].0@),
                                        );
                                    }
                                } else {
                                    assert(pk == pv);
                                    lemma_rel_better_trichotomy(pv, pv);
                                }
                            }
                        } else {
                            assert(path_view(b1[j].0@) == pv && b1[j].1@ == tv);
                            if k < bi {
                                // this target was absent before, so no
                                // earlier binding can name it
                                let jj = choose|jj: int|
                                    0 <= jj < b0.len() && #[trigger] b0[jj].1@ == bm[path_view(
                                        sv[k].0@,
                                    )].absolute_target;
                                assert(false);
                            } else {
                                assert(pk == pv);
                                lemma_rel_better_trichotomy(pv, pv);
                            }
                        }
                    }
                    // every processed target is listed
                    assert forall|k: int|
                        0 <= k < bi + 1 && spec_eligible(
                            bm,
                            modb,
                            path_view(#[trigger] sv[k].0@),
                        ) implies exists|j: int|
                        0 <= j < b1.len() && #[trigger] b1[j].1@ == bm[path_view(
                            sv[k].0@,
                        )].absolute_target by {
                        if k < bi {
                            let j = choose|j: int|
                                0 <= j < b0.len() && #[trigger] b0[j].1@ == bm[path_view(
                                    sv[k].0@,
                                )].absolute_target;
                            assert(b1[j].1@ == b0[j].1@);
                        } else {
                            let j = choose|j: int|
                                0 <= j < b1.len() && #[trigger] b1[j].1@ == tv && !rel_better(
                                    pv,
                                    path_view(b1[j].0@),
                                );
                            assert(b1[j].1@ == bm[pv].absolute_target);
                        }
                    }
                }
            } else {
                proof {
                    assert(!spec_eligible(bm, modb, path_view(sv[bi as int].0@)));
                }
            }
            bi += 1;
        }
        proof {
            // every eligible path names some processed entry, so minimality
            // and completeness extend from entries to all paths
            assert forall|j: int, p: Seq<Seq<char>>|
                0 <= j < best@.len() && #[trigger] spec_eligible(bm, modb, p)
                    && bm[p].absolute_target == #[trigger] best@[j].1@ implies !rel_better(
                p,
                path_view(best@[j].0@),
            ) by {
                let k = choose|k: int|
                    0 <= k < sv.len() && path_view(#[trigger] sv[k].0@) == p;
            }
            assert forall|p: Seq<Seq<char>>|
                #[trigger] spec_eligible(bm, modb, p) implies exists|j: int|
                0 <= j < best@.len() && #[trigger] best@[j].1@ == bm[p].absolute_target by {
                let k = choose|k: int|
                    0 <= k < sv.len() && path_view(#[trigger] sv[k].0@) == p;
            }
            // access paths are distinct because their targets are
            assert forall|i: int, j: int| 0 <= i < j < best@.len() implies path_view(
                #[trigger] best@[i].0@,
            ) != path_view(#[trigger] best@[j].0@) by {}
        }
        let ghost bestv = best@;
        let r = sort_by_rel(best);
        proof {
            assert forall|i: int| 0 <= i < r@.len() implies spec_eligible(
                bm,
                modb,
                path_view(#[trigger] r@[i].0@),
            ) && bm[path_view(r@[i].0@)].absolute_target == r@[i].1@ by {
                assert(in_list(r@[i], bestv));
                let j = choose|j: int| 0 <= j < bestv.len() && bestv[j] == r@[i];
            }
            assert forall|i: int, p: Seq<Seq<char>>|
                0 <= i < r@.len() && #[trigger] spec_eligible(bm, modb, p)
                    && bm[p].absolute_target == #[trigger] r@[i].1@ implies !rel_better(
                p,
                path_view(r@[i].0@),
            ) by {
                assert(in_list(r@[i], bestv));
                let j = choose|j: int| 0 <= j < bestv.len() && bestv[j] == r@[i];
            }
            assert forall|p: Seq<Seq<char>>|
                #[trigger] spec_eligible(bm, modb, p) implies exists|i: int|
                0 <= i < r@.len() && r@[i].1@ == bm[p].absolute_target by {
                let j = choose|j: int|
                    0 <= j < bestv.len() && #[trigger] bestv[j].1@ == bm[p].absolute_target;
                assert(in_list(bestv[j], r@));
                let i = choose|i: int| 0 <= i < r@.len() && r@[i] == bestv[j];
            }
        }
        r
    }
}


/// A non-public intermediate module makes its entire subtree externally
/// invisible: no binding whose path lies strictly below such a module is
/// eligible for external access, whatever the leaf's own visibility.
pub proof fn lemma_nonpub_subtree(
    bm: Map<Seq<Seq<char>>, BindingV>,
    modb: Map<Seq<Seq<char>>, BindingV>,
    m: Seq<Seq<char>>,
)
    requires
        m.len() >= 1,
        modb.contains_key(m),
        modb[m].visibility is NonPub,
    ensures
        forall|p: Seq<Seq<char>>|
            p.len() > m.len() && is_prefix_of(m, #[trigger] p.drop_last()) ==> !spec_eligible(
                bm,
                modb,
                p,
            ),
{
    assert forall|p: Seq<Seq<char>>|
        p.len() > m.len() && is_prefix_of(m, #[trigger] p.drop_last()) implies !spec_eligible(
        bm,
        modb,
        p,
    ) by {
        let par = p.drop_last();
        assert(par.take(m.len() as int) == m);
        if spec_module_visible(modb, par) {
            assert(modb.contains_key(par.take(m.len() as int)) && !(modb[par.take(
                m.len() as int,
            )].visibility is NonPub));
        }
    }
}

/// Once a path carries an explicit binding, no later binding goes in at the
/// same path, glob or explicit: the first explicit binding remains.
pub proof fn lemma_explicit_is_final(
    bm: Map<Seq<Seq<char>>, BindingV>,
    key: Seq<Seq<char>>,
    prio: Priority,
)
    requires
        bm.contains_key(key),
        bm[key].priority == Priority::Explicit,
    ensures
        !can_bind(bm, key, prio),
{
}

/// A glob binding at a vacant path is itself displaceable: an explicit
/// binding at the same name goes in and wins, and the query afterwards
/// yields the explicit target.
pub proof fn lemma_glob_then_explicit(
    bm0: Map<Seq<Seq<char>>, BindingV>,
    key: Seq<Seq<char>>,
    g: BindingV,
    e: BindingV,
)
    requires
        !bm0.contains_key(key),
        g.priority == Priority::Glob,
        e.priority == Priority::Explicit,
    ensures
        can_bind(bm0, key, Priority::Glob),
        bm0.insert(key, g)[key] == g,
        can_bind(bm0.insert(key, g), key, Priority::Explicit),
        bm0.insert(key, g).insert(key, e)[key] == e,
        bm0.insert(key, g).insert(key, e)[key].absolute_target == e.absolute_target,
{
}

} // verus!
