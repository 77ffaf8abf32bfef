//! Typed definitions held by the database: structures, enumerations,
//! functions with signatures, modules, and declarative macros, together with
//! their spec-level views.

use vstd::prelude::*;

use crate::attributes::{
    attrs_view, HasMetadata, Metadata, MetadataV, opt_str_view,
};
use crate::paths::{Path, path_view};
use crate::tokens::{TokenV, Tokens};

verus! {

broadcast use vstd::seq::axiom_seq_index_decreases;

/// Generic parameters, by name: lifetimes and type parameters.
#[derive(Clone, Debug, PartialEq)]
pub struct GenericParams {
    pub lifetimes: Vec<String>,
    pub type_params: Vec<String>,
}

pub ghost struct GenericParamsV {
    pub lifetimes: Seq<Seq<char>>,
    pub type_params: Seq<Seq<char>>,
}

impl View for GenericParams {
    type V = GenericParamsV;

    open spec fn view(&self) -> GenericParamsV {
        GenericParamsV {
            lifetimes: path_view(self.lifetimes@),
            type_params: path_view(self.type_params@),
        }
    }
}

impl GenericParams {
    pub open spec fn spec_is_empty(&self) -> bool {
        self@.lifetimes.len() == 0 && self@.type_params.len() == 0
    }

    pub fn is_empty(&self) -> (r: bool)
        ensures
            r == self.spec_is_empty(),
    {
        self.lifetimes.len() == 0 && self.type_params.len() == 0
    }

    pub fn clone_gp(&self) -> (r: GenericParams)
        ensures
            r@ == self@,
    {
        GenericParams {
            lifetimes: crate::paths::clone_path(&self.lifetimes),
            type_params: crate::paths::clone_path(&self.type_params),
        }
    }
}

impl Default for GenericParams {
    /// Empty generic parameters.
    fn default() -> (r: GenericParams)
        ensures
            r@.lifetimes.len() == 0,
            r@.type_params.len() == 0,
    {
        GenericParams { lifetimes: Vec::new(), type_params: Vec::new() }
    }
}

/// Whether a struct or variant has named fields, tuple fields, or none.
#[derive(Clone, Copy, Debug, PartialEq, Eq, Structural)]
pub enum StructKind {
    Named,
    Tuple,
    Unit,
}

/// The layout requested by a `repr` attribute.
#[derive(Clone, Debug, PartialEq)]
pub enum Repr {
    Rust,
    C,
    Transparent,
    Packed,
    /// An enum held together with an integer outer tag.
    IntOuterTag(String),
}

pub ghost enum ReprV {
    Rust,
    C,
    Transparent,
    Packed,
    IntOuterTag(Seq<char>),
}

impl View for Repr {
    type V = ReprV;

    open spec fn view(&self) -> ReprV {
        match self {
            Repr::Rust => ReprV::Rust,
            Repr::C => ReprV::C,
            Repr::Transparent => ReprV::Transparent,
            Repr::Packed => ReprV::Packed,
            Repr::IntOuterTag(s) => ReprV::IntOuterTag(s@),
        }
    }
}

/// A derive applied to a type, by the path of the derived trait.
#[derive(Clone, Debug, PartialEq)]
pub struct Derive {
    pub path: Path,
}

impl View for Derive {
    type V = Seq<Seq<char>>;

    open spec fn view(&self) -> Seq<Seq<char>> {
        self.path@
    }
}

/// Metadata specific to type items: layout and derives.
#[derive(Clone, Debug, PartialEq)]
pub struct TypeMetadata {
    pub repr: Repr,
    pub derives: Vec<Derive>,
}

pub ghost struct TypeMetadataV {
    pub repr: ReprV,
    pub derives: Seq<Seq<Seq<char>>>,
}

impl View for TypeMetadata {
    type V = TypeMetadataV;

    open spec fn view(&self) -> TypeMetadataV {
        TypeMetadataV {
            repr: self.repr@,
            derives: self.derives@.map_values(|d: Derive| d@),
        }
    }
}

impl Default for TypeMetadata {
    /// The default layout with no derives.
    fn default() -> (r: TypeMetadata)
        ensures
            r@.repr == ReprV::Rust,
            r@.derives.len() == 0,
    {
        TypeMetadata { repr: Repr::Rust, derives: Vec::new() }
    }
}

/// The inherent impl attached to a type; carried for symmetry with the rest
/// of the item model.
#[derive(Clone, Copy, Debug, PartialEq, Eq, Structural)]
pub struct InherentImpl {}

/// A type as it appears in a field, argument, or return position.
pub enum Type {
    Path(PathType),
    Reference { lifetime: Option<String>, mut_: bool, inner: Box<Type> },
    Tuple(Vec<Type>),
    /// A type this model does not interpret, kept as tokens.
    Opaque(Tokens),
}

/// A path type with its type parameters.
pub struct PathType {
    pub path: Path,
    pub params: Vec<Type>,
}

pub ghost enum TypeV {
    Path(PathTypeV),
    Reference { lifetime: Option<Seq<char>>, mut_: bool, inner: Box<TypeV> },
    Tuple(Seq<TypeV>),
    Opaque(Seq<TokenV>),
}

pub ghost struct PathTypeV {
    pub path: Seq<Seq<char>>,
    pub params: Seq<TypeV>,
}

pub open spec fn type_view(t: Type) -> TypeV
    decreases t,
{
    match t {
        Type::Path(pt) => TypeV::Path(
            PathTypeV { path: pt.path@, params: types_view(pt.params@) },
        ),
        Type::Reference { lifetime, mut_, inner } => TypeV::Reference {
            lifetime: opt_str_view(lifetime),
            mut_,
            inner: Box::new(type_view(*inner)),
        },
        Type::Tuple(ts) => TypeV::Tuple(types_view(ts@)),
        Type::Opaque(tk) => TypeV::Opaque(tk@),
    }
}

pub open spec fn types_view(s: Seq<Type>) -> Seq<TypeV>
    decreases s,
{
    if s.len() == 0 {
        Seq::empty()
    } else {
        types_view(s.drop_last()).push(type_view(s.last()))
    }
}

pub proof fn lemma_types_view_len(s: Seq<Type>)
    ensures
        types_view(s).len() == s.len(),
    decreases s,
{
    if s.len() > 0 {
        lemma_types_view_len(s.drop_last());
    }
}

pub proof fn lemma_types_view_index(s: Seq<Type>, i: int)
    requires
        0 <= i < s.len(),
    ensures
        types_view(s).len() == s.len(),
        types_view(s)[i] == type_view(s[i]),
    decreases s,
{
    lemma_types_view_len(s);
    if i < s.len() - 1 {
        lemma_types_view_index(s.drop_last(), i);
    }
}

impl View for Type {
    type V = TypeV;

    open spec fn view(&self) -> TypeV {
        type_view(*self)
    }
}

impl Type {
    /// The unit type, used where a function declares no return type.
    pub fn void() -> (r: Type)
        ensures
            r@ == TypeV::Tuple(Seq::<TypeV>::empty()),
    {
        let r = Type::Tuple(Vec::new());
        proof {
            assert(types_view(Seq::<Type>::empty()) =~= Seq::<TypeV>::empty());
        }
        r
    }

    pub open spec fn spec_is_void(&self) -> bool {
        self@ matches TypeV::Tuple(ts) && ts.len() == 0
    }

    /// Whether this is the unit type.
    pub fn is_void(&self) -> (r: bool)
        ensures
            r == self.spec_is_void(),
    {
        match self {
            Type::Tuple(ts) => {
                let r = ts.len() == 0;
                proof {
                    lemma_types_view_len(ts@);
                }
                r
            },
            _ => false,
        }
    }
}

/// One field of a struct or enum variant; tuple fields are named by their
/// stringified index.
pub struct StructField {
    pub name: String,
    pub metadata: Metadata,
    pub type_: Type,
}

pub ghost struct StructFieldV {
    pub name: Seq<char>,
    pub metadata: MetadataV,
    pub type_: TypeV,
}

impl View for StructField {
    type V = StructFieldV;

    open spec fn view(&self) -> StructFieldV {
        StructFieldV { name: self.name@, metadata: self.metadata@, type_: self.type_@ }
    }
}

/// The views of a field list.
pub open spec fn fields_view(s: Seq<StructField>) -> Seq<StructFieldV> {
    s.map_values(|f: StructField| f@)
}

/// A structure definition.
pub struct StructItem {
    pub name: String,
    pub metadata: Metadata,
    pub type_metadata: TypeMetadata,
    pub generics: GenericParams,
    pub kind: StructKind,
    pub fields: Vec<StructField>,
    pub inherent_impl: InherentImpl,
}

pub ghost struct StructItemV {
    pub name: Seq<char>,
    pub metadata: MetadataV,
    pub type_metadata: TypeMetadataV,
    pub generics: GenericParamsV,
    pub kind: StructKind,
    pub fields: Seq<StructFieldV>,
}

impl View for StructItem {
    type V = StructItemV;

    open spec fn view(&self) -> StructItemV {
        StructItemV {
            name: self.name@,
            metadata: self.metadata@,
            type_metadata: self.type_metadata@,
            generics: self.generics@,
            kind: self.kind,
            fields: fields_view(self.fields@),
        }
    }
}

/// One variant of an enumeration, a miniature structure.
pub struct EnumVariant {
    pub name: String,
    pub metadata: Metadata,
    pub kind: StructKind,
    pub fields: Vec<StructField>,
}

pub ghost struct EnumVariantV {
    pub name: Seq<char>,
    pub metadata: MetadataV,
    pub kind: StructKind,
    pub fields: Seq<StructFieldV>,
}

impl View for EnumVariant {
    type V = EnumVariantV;

    open spec fn view(&self) -> EnumVariantV {
        EnumVariantV {
            name: self.name@,
            metadata: self.metadata@,
            kind: self.kind,
            fields: fields_view(self.fields@),
        }
    }
}

/// The views of a variant list.
pub open spec fn variants_view(s: Seq<EnumVariant>) -> Seq<EnumVariantV> {
    s.map_values(|v: EnumVariant| v@)
}

/// An enumeration definition.
pub struct EnumItem {
    pub name: String,
    pub metadata: Metadata,
    pub type_metadata: TypeMetadata,
    pub generics: GenericParams,
    pub variants: Vec<EnumVariant>,
    pub inherent_impl: InherentImpl,
}

pub ghost struct EnumItemV {
    pub name: Seq<char>,
    pub metadata: MetadataV,
    pub type_metadata: TypeMetadataV,
    pub generics: GenericParamsV,
    pub variants: Seq<EnumVariantV>,
}

impl View for EnumItem {
    type V = EnumItemV;

    open spec fn view(&self) -> EnumItemV {
        EnumItemV {
            name: self.name@,
            metadata: self.metadata@,
            type_metadata: self.type_metadata@,
            generics: self.generics@,
            variants: variants_view(self.variants@),
        }
    }
}

/// The calling convention of a function.
#[derive(Clone, Debug, PartialEq)]
pub enum Abi {
    Rust,
    C,
    Other(String),
}

pub ghost enum AbiV {
    Rust,
    C,
    Other(Seq<char>),
}

impl View for Abi {
    type V = AbiV;

    open spec fn view(&self) -> AbiV {
        match self {
            Abi::Rust => AbiV::Rust,
            Abi::C => AbiV::C,
            Abi::Other(s) => AbiV::Other(s@),
        }
    }
}

/// How a function takes its receiver, if it takes one.
#[derive(Clone, Debug, PartialEq)]
pub enum Receiver {
    NoSelf,
    ConsumeSelf,
    RefSelf { lifetime: Option<String>, mut_: bool },
}

pub ghost enum ReceiverV {
    NoSelf,
    ConsumeSelf,
    RefSelf { lifetime: Option<Seq<char>>, mut_: bool },
}

impl View for Receiver {
    type V = ReceiverV;

    open spec fn view(&self) -> ReceiverV {
        match self {
            Receiver::NoSelf => ReceiverV::NoSelf,
            Receiver::ConsumeSelf => ReceiverV::ConsumeSelf,
            Receiver::RefSelf { lifetime, mut_ } => ReceiverV::RefSelf {
                lifetime: opt_str_view(*lifetime),
                mut_: *mut_,
            },
        }
    }
}

/// One named argument of a function.
pub struct FunctionArg {
    pub name: String,
    pub type_: Type,
}

pub ghost struct FunctionArgV {
    pub name: Seq<char>,
    pub type_: TypeV,
}

impl View for FunctionArg {
    type V = FunctionArgV;

    open spec fn view(&self) -> FunctionArgV {
        FunctionArgV { name: self.name@, type_: self.type_@ }
    }
}

/// The views of an argument list.
pub open spec fn args_view(s: Seq<FunctionArg>) -> Seq<FunctionArgV> {
    s.map_values(|a: FunctionArg| a@)
}

/// A function signature.
pub struct Signature {
    pub abi: Abi,
    pub args: Vec<FunctionArg>,
    pub generics: GenericParams,
    pub is_async: bool,
    pub is_const: bool,
    pub is_unsafe: bool,
    pub receiver: Receiver,
    pub ret: Type,
    pub variadic: bool,
}

pub ghost struct SignatureV {
    pub abi: AbiV,
    pub args: Seq<FunctionArgV>,
    pub generics: GenericParamsV,
    pub is_async: bool,
    pub is_const: bool,
    pub is_unsafe: bool,
    pub receiver: ReceiverV,
    pub ret: TypeV,
    pub variadic: bool,
}

impl View for Signature {
    type V = SignatureV;

    open spec fn view(&self) -> SignatureV {
        SignatureV {
            abi: self.abi@,
            args: args_view(self.args@),
            generics: self.generics@,
            is_async: self.is_async,
            is_const: self.is_const,
            is_unsafe: self.is_unsafe,
            receiver: self.receiver@,
            ret: self.ret@,
            variadic: self.variadic,
        }
    }
}

/// Metadata specific to symbols: linkage attributes.
#[derive(Clone, Debug, PartialEq)]
pub struct SymbolMetadata {
    pub no_mangle: bool,
    pub export_name: Option<String>,
    pub link_section: Option<String>,
}

pub ghost struct SymbolMetadataV {
    pub no_mangle: bool,
    pub export_name: Option<Seq<char>>,
    pub link_section: Option<Seq<char>>,
}

impl View for SymbolMetadata {
    type V = SymbolMetadataV;

    open spec fn view(&self) -> SymbolMetadataV {
        SymbolMetadataV {
            no_mangle: self.no_mangle,
            export_name: opt_str_view(self.export_name),
            link_section: opt_str_view(self.link_section),
        }
    }
}

/// A function definition.
pub struct FunctionItem {
    pub name: String,
    pub metadata: Metadata,
    pub symbol_metadata: SymbolMetadata,
    pub signature: Signature,
}

pub ghost struct FunctionItemV {
    pub name: Seq<char>,
    pub metadata: MetadataV,
    pub symbol_metadata: SymbolMetadataV,
    pub signature: SignatureV,
}

impl View for FunctionItem {
    type V = FunctionItemV;

    open spec fn view(&self) -> FunctionItemV {
        FunctionItemV {
            name: self.name@,
            metadata: self.metadata@,
            symbol_metadata: self.symbol_metadata@,
            signature: self.signature@,
        }
    }
}

/// A module: a scope with metadata.
pub struct ModuleItem {
    pub name: String,
    pub metadata: Metadata,
}

pub ghost struct ModuleItemV {
    pub name: Seq<char>,
    pub metadata: MetadataV,
}

impl View for ModuleItem {
    type V = ModuleItemV;

    open spec fn view(&self) -> ModuleItemV {
        ModuleItemV { name: self.name@, metadata: self.metadata@ }
    }
}

impl ModuleItem {
    pub fn new(name: &str, metadata: Metadata) -> (r: ModuleItem)
        ensures
            r@.name == name@,
            r@.metadata == metadata@,
    {
        ModuleItem { name: name.to_owned(), metadata }
    }

    pub fn clone_mod(&self) -> (r: ModuleItem)
        ensures
            r@ == self@,
    {
        ModuleItem { name: self.name.clone(), metadata: self.metadata.clone_meta() }
    }
}

/// One rewrite rule of a declarative macro: a pattern and a template.
pub struct MacroRule {
    pub pattern: Tokens,
    pub template: Tokens,
}

pub ghost struct MacroRuleV {
    pub pattern: Seq<TokenV>,
    pub template: Seq<TokenV>,
}

impl View for MacroRule {
    type V = MacroRuleV;

    open spec fn view(&self) -> MacroRuleV {
        MacroRuleV { pattern: self.pattern@, template: self.template@ }
    }
}

impl MacroRule {
    pub fn clone_rule(&self) -> (r: MacroRule)
        ensures
            r@ == self@,
    {
        MacroRule { pattern: self.pattern.clone_toks(), template: self.template.clone_toks() }
    }
}

/// The views of a rule list.
pub open spec fn rules_view(s: Seq<MacroRule>) -> Seq<MacroRuleV> {
    s.map_values(|r: MacroRule| r@)
}

/// A declarative, pattern-based macro definition.
pub struct DeclarativeMacroItem {
    pub name: String,
    pub metadata: Metadata,
    pub macro_export: bool,
    pub rules: Vec<MacroRule>,
}

pub ghost struct DeclarativeMacroItemV {
    pub name: Seq<char>,
    pub metadata: MetadataV,
    pub macro_export: bool,
    pub rules: Seq<MacroRuleV>,
}

impl View for DeclarativeMacroItem {
    type V = DeclarativeMacroItemV;

    open spec fn view(&self) -> DeclarativeMacroItemV {
        DeclarativeMacroItemV {
            name: self.name@,
            metadata: self.metadata@,
            macro_export: self.macro_export,
            rules: rules_view(self.rules@),
        }
    }
}

impl DeclarativeMacroItem {
    pub fn clone_macro(&self) -> (r: DeclarativeMacroItem)
        ensures
            r@ == self@,
    {
        let mut rules: Vec<MacroRule> = Vec::new();
        let mut i: usize = 0;
        while i < self.rules.len()
            invariant
                i <= self.rules.len(),
                rules@.len() == i,
                forall|j: int| 0 <= j < i ==> rules@[j]@ == self.rules@[j]@,
            decreases self.rules.len() - i,
        {
            rules.push(self.rules[i].clone_rule());
            i += 1;
        }
        let r = DeclarativeMacroItem {
            name: self.name.clone(),
            metadata: self.metadata.clone_meta(),
            macro_export: self.macro_export,
            rules,
        };
        proof {
            assert(rules_view(r.rules@) =~= rules_view(self.rules@));
        }
        r
    }
}

/// An entry of the type namespace.
pub enum TypeItem {
    Struct(StructItem),
    Enum(EnumItem),
}

pub ghost enum TypeItemV {
    Struct(StructItemV),
    Enum(EnumItemV),
}

impl View for TypeItem {
    type V = TypeItemV;

    open spec fn view(&self) -> TypeItemV {
        match self {
            TypeItem::Struct(s) => TypeItemV::Struct(s@),
            TypeItem::Enum(e) => TypeItemV::Enum(e@),
        }
    }
}

/// An entry of the symbol namespace.
pub enum SymbolItem {
    Function(FunctionItem),
}

pub ghost enum SymbolItemV {
    Function(FunctionItemV),
}

impl View for SymbolItem {
    type V = SymbolItemV;

    open spec fn view(&self) -> SymbolItemV {
        match self {
            SymbolItem::Function(f) => SymbolItemV::Function(f@),
        }
    }
}

/// An entry of the macro namespace.
pub enum MacroItem {
    Declarative(DeclarativeMacroItem),
}

pub ghost enum MacroItemV {
    Declarative(DeclarativeMacroItemV),
}

impl View for MacroItem {
    type V = MacroItemV;

    open spec fn view(&self) -> MacroItemV {
        match self {
            MacroItem::Declarative(m) => MacroItemV::Declarative(m@),
        }
    }
}

/// The metadata of a type item's view.
pub open spec fn type_item_metadata(v: TypeItemV) -> MetadataV {
    match v {
        TypeItemV::Struct(s) => s.metadata,
        TypeItemV::Enum(e) => e.metadata,
    }
}

/// The name of a type item's view.
pub open spec fn type_item_name(v: TypeItemV) -> Seq<char> {
    match v {
        TypeItemV::Struct(s) => s.name,
        TypeItemV::Enum(e) => e.name,
    }
}

impl HasMetadata for TypeItem {
    open spec fn spec_metadata(&self) -> MetadataV {
        type_item_metadata(self@)
    }

    open spec fn spec_name(&self) -> Seq<char> {
        type_item_name(self@)
    }

    fn metadata(&self) -> (r: &Metadata) {
        match self {
            TypeItem::Struct(s) => &s.metadata,
            TypeItem::Enum(e) => &e.metadata,
        }
    }

    fn item_name(&self) -> (r: &String) {
        match self {
            TypeItem::Struct(s) => &s.name,
            TypeItem::Enum(e) => &e.name,
        }
    }
}

impl HasMetadata for SymbolItem {
    open spec fn spec_metadata(&self) -> MetadataV {
        match self@ {
            SymbolItemV::Function(f) => f.metadata,
        }
    }

    open spec fn spec_name(&self) -> Seq<char> {
        match self@ {
            SymbolItemV::Function(f) => f.name,
        }
    }

    fn metadata(&self) -> (r: &Metadata) {
        match self {
            SymbolItem::Function(f) => &f.metadata,
        }
    }

    fn item_name(&self) -> (r: &String) {
        match self {
            SymbolItem::Function(f) => &f.name,
        }
    }
}

impl HasMetadata for MacroItem {
    open spec fn spec_metadata(&self) -> MetadataV {
        match self@ {
            MacroItemV::Declarative(m) => m.metadata,
        }
    }

    open spec fn spec_name(&self) -> Seq<char> {
        match self@ {
            MacroItemV::Declarative(m) => m.name,
        }
    }

    fn metadata(&self) -> (r: &Metadata) {
        match self {
            MacroItem::Declarative(m) => &m.metadata,
        }
    }

    fn item_name(&self) -> (r: &String) {
        match self {
            MacroItem::Declarative(m) => &m.name,
        }
    }
}

impl HasMetadata for ModuleItem {
    open spec fn spec_metadata(&self) -> MetadataV {
        self@.metadata
    }

    open spec fn spec_name(&self) -> Seq<char> {
        self@.name
    }

    fn metadata(&self) -> (r: &Metadata) {
        &self.metadata
    }

    fn item_name(&self) -> (r: &String) {
        &self.name
    }
}

} // verus!
