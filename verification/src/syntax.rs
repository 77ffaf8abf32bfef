//! The parsed input consumed by the walker: a typed tree of items as an
//! external parser hands them over, with attributes, visibility, generics,
//! and spans, but nothing resolved.

use vstd::prelude::*;

use crate::attributes::{Attribute, AttributeV, attrs_view, opt_str_view, Span, SpanV};
use crate::items::{GenericParams, GenericParamsV};
use crate::paths::Path;
use crate::tokens::{TokenV, Tokens};

verus! {

broadcast use vstd::seq::axiom_seq_index_decreases;

/// Visibility as written: `pub`, nothing, or some restricted form.
#[derive(Clone, Copy, Debug, PartialEq, Eq, Structural)]
pub enum SynVis {
    Pub,
    Inherited,
    Other,
}

/// A type as written in source.
pub enum SynType {
    Path { path: Path, params: Vec<SynType> },
    Reference { lifetime: Option<String>, mut_: bool, inner: Box<SynType> },
    Tuple(Vec<SynType>),
    /// A macro in type position.
    Macro(Tokens),
    /// Any other form, kept as tokens.
    Opaque(Tokens),
}

pub ghost enum SynTypeV {
    Path { path: Seq<Seq<char>>, params: Seq<SynTypeV> },
    Reference { lifetime: Option<Seq<char>>, mut_: bool, inner: Box<SynTypeV> },
    Tuple(Seq<SynTypeV>),
    Macro(Seq<TokenV>),
    Opaque(Seq<TokenV>),
}

pub open spec fn syn_type_view(t: SynType) -> SynTypeV
    decreases t,
{
    match t {
        SynType::Path { path, params } => SynTypeV::Path {
            path: path@,
            params: syn_types_view(params@),
        },
        SynType::Reference { lifetime, mut_, inner } => SynTypeV::Reference {
            lifetime: opt_str_view(lifetime),
            mut_,
            inner: Box::new(syn_type_view(*inner)),
        },
        SynType::Tuple(ts) => SynTypeV::Tuple(syn_types_view(ts@)),
        SynType::Macro(tk) => SynTypeV::Macro(tk@),
        SynType::Opaque(tk) => SynTypeV::Opaque(tk@),
    }
}

pub open spec fn syn_types_view(s: Seq<SynType>) -> Seq<SynTypeV>
    decreases s,
{
    if s.len() == 0 {
        Seq::empty()
    } else {
        syn_types_view(s.drop_last()).push(syn_type_view(s.last()))
    }
}

pub proof fn lemma_syn_types_view_len(s: Seq<SynType>)
    ensures
        syn_types_view(s).len() == s.len(),
    decreases s,
{
    if s.len() > 0 {
        lemma_syn_types_view_len(s.drop_last());
    }
}

pub proof fn lemma_syn_types_view_index(s: Seq<SynType>, i: int)
    requires
        0 <= i < s.len(),
    ensures
        syn_types_view(s).len() == s.len(),
        syn_types_view(s)[i] == syn_type_view(s[i]),
    decreases s,
{
    lemma_syn_types_view_len(s);
    if i < s.len() - 1 {
        lemma_syn_types_view_index(s.drop_last(), i);
    }
}

impl View for SynType {
    type V = SynTypeV;

    open spec fn view(&self) -> SynTypeV {
        syn_type_view(*self)
    }
}

/// One field as written.
pub struct SynField {
    pub vis: SynVis,
    pub attrs: Vec<Attribute>,
    pub name: Option<String>,
    pub ty: SynType,
    pub span: Span,
}

pub ghost struct SynFieldV {
    pub vis: SynVis,
    pub attrs: Seq<AttributeV>,
    pub name: Option<Seq<char>>,
    pub ty: SynTypeV,
    pub span: SpanV,
}

impl View for SynField {
    type V = SynFieldV;

    open spec fn view(&self) -> SynFieldV {
        SynFieldV {
            vis: self.vis,
            attrs: attrs_view(self.attrs@),
            name: opt_str_view(self.name),
            ty: self.ty@,
            span: self.span@,
        }
    }
}

/// The views of a field list.
pub open spec fn syn_fields_view(s: Seq<SynField>) -> Seq<SynFieldV> {
    s.map_values(|f: SynField| f@)
}

/// The field list of a struct or variant, tagged by its shape.
pub enum SynFields {
    Named(Vec<SynField>),
    Unnamed(Vec<SynField>),
    Unit,
}

pub ghost enum SynFieldsV {
    Named(Seq<SynFieldV>),
    Unnamed(Seq<SynFieldV>),
    Unit,
}

impl View for SynFields {
    type V = SynFieldsV;

    open spec fn view(&self) -> SynFieldsV {
        match self {
            SynFields::Named(fs) => SynFieldsV::Named(syn_fields_view(fs@)),
            SynFields::Unnamed(fs) => SynFieldsV::Unnamed(syn_fields_view(fs@)),
            SynFields::Unit => SynFieldsV::Unit,
        }
    }
}

/// A structure as written.
pub struct SynStruct {
    pub vis: SynVis,
    pub attrs: Vec<Attribute>,
    pub name: String,
    pub generics: GenericParams,
    pub fields: SynFields,
    pub span: Span,
}

pub ghost struct SynStructV {
    pub vis: SynVis,
    pub attrs: Seq<AttributeV>,
    pub name: Seq<char>,
    pub generics: GenericParamsV,
    pub fields: SynFieldsV,
    pub span: SpanV,
}

impl View for SynStruct {
    type V = SynStructV;

    open spec fn view(&self) -> SynStructV {
        SynStructV {
            vis: self.vis,
            attrs: attrs_view(self.attrs@),
            name: self.name@,
            generics: self.generics@,
            fields: self.fields@,
            span: self.span@,
        }
    }
}

/// One enum variant as written.
pub struct SynVariant {
    pub attrs: Vec<Attribute>,
    pub name: String,
    pub fields: SynFields,
    pub span: Span,
}

pub ghost struct SynVariantV {
    pub attrs: Seq<AttributeV>,
    pub name: Seq<char>,
    pub fields: SynFieldsV,
    pub span: SpanV,
}

impl View for SynVariant {
    type V = SynVariantV;

    open spec fn view(&self) -> SynVariantV {
        SynVariantV {
            attrs: attrs_view(self.attrs@),
            name: self.name@,
            fields: self.fields@,
            span: self.span@,
        }
    }
}

/// The views of a variant list.
pub open spec fn syn_variants_view(s: Seq<SynVariant>) -> Seq<SynVariantV> {
    s.map_values(|v: SynVariant| v@)
}

/// An enumeration as written.
pub struct SynEnum {
    pub vis: SynVis,
    pub attrs: Vec<Attribute>,
    pub name: String,
    pub generics: GenericParams,
    pub variants: Vec<SynVariant>,
    pub span: Span,
}

pub ghost struct SynEnumV {
    pub vis: SynVis,
    pub attrs: Seq<AttributeV>,
    pub name: Seq<char>,
    pub generics: GenericParamsV,
    pub variants: Seq<SynVariantV>,
    pub span: SpanV,
}

impl View for SynEnum {
    type V = SynEnumV;

    open spec fn view(&self) -> SynEnumV {
        SynEnumV {
            vis: self.vis,
            attrs: attrs_view(self.attrs@),
            name: self.name@,
            generics: self.generics@,
            variants: syn_variants_view(self.variants@),
            span: self.span@,
        }
    }
}

/// One input of a function signature as written.
pub enum SynArg {
    /// `self`, taken by value.
    SelfOwned,
    /// `&self` or `&mut self`, with an optional lifetime.
    SelfRef { lifetime: Option<String>, mut_: bool },
    /// An ordinary `name: type` input; a pattern other than a plain name is
    /// recorded as no name.
    Typed { name: Option<String>, ty: SynType },
    /// An input the parser handed over in a shape this model does not carry.
    Malformed(Tokens),
}

pub ghost enum SynArgV {
    SelfOwned,
    SelfRef { lifetime: Option<Seq<char>>, mut_: bool },
    Typed { name: Option<Seq<char>>, ty: SynTypeV },
    Malformed(Seq<TokenV>),
}

impl View for SynArg {
    type V = SynArgV;

    open spec fn view(&self) -> SynArgV {
        match self {
            SynArg::SelfOwned => SynArgV::SelfOwned,
            SynArg::SelfRef { lifetime, mut_ } => SynArgV::SelfRef {
                lifetime: opt_str_view(*lifetime),
                mut_: *mut_,
            },
            SynArg::Typed { name, ty } => SynArgV::Typed {
                name: opt_str_view(*name),
                ty: syn_type_view(*ty),
            },
            SynArg::Malformed(t) => SynArgV::Malformed(t@),
        }
    }
}

/// The views of an input list.
pub open spec fn syn_args_view(s: Seq<SynArg>) -> Seq<SynArgV> {
    s.map_values(|a: SynArg| a@)
}

/// A function signature as written. `abi` is absent for a plain function,
/// `Some(None)` for a bare `extern` marker, and `Some(Some(name))` for an
/// explicit convention string.
pub struct SynSignature {
    pub name: String,
    pub inputs: Vec<SynArg>,
    pub variadic: bool,
    pub output: Option<SynType>,
    pub is_unsafe: bool,
    pub is_async: bool,
    pub is_const: bool,
    pub abi: Option<Option<String>>,
    pub generics: GenericParams,
}

pub ghost struct SynSignatureV {
    pub name: Seq<char>,
    pub inputs: Seq<SynArgV>,
    pub variadic: bool,
    pub output: Option<SynTypeV>,
    pub is_unsafe: bool,
    pub is_async: bool,
    pub is_const: bool,
    pub abi: Option<Option<Seq<char>>>,
    pub generics: GenericParamsV,
}

impl View for SynSignature {
    type V = SynSignatureV;

    open spec fn view(&self) -> SynSignatureV {
        SynSignatureV {
            name: self.name@,
            inputs: syn_args_view(self.inputs@),
            variadic: self.variadic,
            output: match self.output {
                Some(t) => Some(syn_type_view(t)),
                None => None,
            },
            is_unsafe: self.is_unsafe,
            is_async: self.is_async,
            is_const: self.is_const,
            abi: match self.abi {
                Some(Some(s)) => Some(Some(s@)),
                Some(None) => Some(None),
                None => None,
            },
            generics: self.generics@,
        }
    }
}

/// A function as written.
pub struct SynFunction {
    pub vis: SynVis,
    pub attrs: Vec<Attribute>,
    pub sig: SynSignature,
    pub span: Span,
}

pub ghost struct SynFunctionV {
    pub vis: SynVis,
    pub attrs: Seq<AttributeV>,
    pub sig: SynSignatureV,
    pub span: SpanV,
}

impl View for SynFunction {
    type V = SynFunctionV;

    open spec fn view(&self) -> SynFunctionV {
        SynFunctionV {
            vis: self.vis,
            attrs: attrs_view(self.attrs@),
            sig: self.sig@,
            span: self.span@,
        }
    }
}

/// A declarative, rule-based macro definition as written. The body holds the
/// still-unsplit rule list.
pub struct SynMacroDef {
    pub attrs: Vec<Attribute>,
    pub name: String,
    pub body: Tokens,
    pub span: Span,
}

pub ghost struct SynMacroDefV {
    pub attrs: Seq<AttributeV>,
    pub name: Seq<char>,
    pub body: Seq<TokenV>,
    pub span: SpanV,
}

impl View for SynMacroDef {
    type V = SynMacroDefV;

    open spec fn view(&self) -> SynMacroDefV {
        SynMacroDefV {
            attrs: attrs_view(self.attrs@),
            name: self.name@,
            body: self.body@,
            span: self.span@,
        }
    }
}

/// The kinds of item this model records but the resolver deliberately skips.
#[derive(Clone, Copy, Debug, PartialEq, Eq, Structural)]
pub enum OtherKind {
    Const,
    Static,
    TypeAlias,
    Union,
    Trait,
    TraitAlias,
    Impl,
    ForeignMod,
    Verbatim,
}

/// One item of a parsed module.
pub enum SynItem {
    Struct(SynStruct),
    Enum(SynEnum),
    Function(SynFunction),
    /// A module with its body written inline.
    ModInline {
        vis: SynVis,
        attrs: Vec<Attribute>,
        name: String,
        items: Vec<SynItem>,
        span: Span,
    },
    /// A module whose body lives in another file, with an optional raw
    /// `path` override.
    ModFile {
        vis: SynVis,
        attrs: Vec<Attribute>,
        name: String,
        path_override: Option<Tokens>,
        span: Span,
    },
    /// An import: `use path` or `use path::*`, optionally renamed.
    Use {
        vis: SynVis,
        attrs: Vec<Attribute>,
        path: Path,
        glob: bool,
        rename: Option<String>,
        span: Span,
    },
    /// An external-dependency declaration, optionally renamed, optionally
    /// pulling the dependency's macros in.
    ExternDep {
        vis: SynVis,
        attrs: Vec<Attribute>,
        name: String,
        rename: Option<String>,
        macro_use: bool,
        span: Span,
    },
    MacroDef(SynMacroDef),
    /// A macro invocation at item position.
    MacroCall { path: Path, tokens: Tokens, span: Span },
    /// Anything else, recorded with its kind, visibility, and name.
    Other { kind: OtherKind, vis: SynVis, name: Option<String>, span: Span },
}

pub ghost enum SynItemV {
    Struct(SynStructV),
    Enum(SynEnumV),
    Function(SynFunctionV),
    ModInline {
        vis: SynVis,
        attrs: Seq<AttributeV>,
        name: Seq<char>,
        items: Seq<SynItemV>,
        span: SpanV,
    },
    ModFile {
        vis: SynVis,
        attrs: Seq<AttributeV>,
        name: Seq<char>,
        path_override: Option<Seq<TokenV>>,
        span: SpanV,
    },
    Use {
        vis: SynVis,
        attrs: Seq<AttributeV>,
        path: Seq<Seq<char>>,
        glob: bool,
        rename: Option<Seq<char>>,
        span: SpanV,
    },
    ExternDep {
        vis: SynVis,
        attrs: Seq<AttributeV>,
        name: Seq<char>,
        rename: Option<Seq<char>>,
        macro_use: bool,
        span: SpanV,
    },
    MacroDef(SynMacroDefV),
    MacroCall { path: Seq<Seq<char>>, tokens: Seq<TokenV>, span: SpanV },
    Other { kind: OtherKind, vis: SynVis, name: Option<Seq<char>>, span: SpanV },
}

pub open spec fn syn_item_view(it: SynItem) -> SynItemV
    decreases it,
{
    match it {
        SynItem::Struct(s) => SynItemV::Struct(s@),
        SynItem::Enum(e) => SynItemV::Enum(e@),
        SynItem::Function(f) => SynItemV::Function(f@),
        SynItem::ModInline { vis, attrs, name, items, span } => SynItemV::ModInline {
            vis,
            attrs: attrs_view(attrs@),
            name: name@,
            items: syn_items_view(items@),
            span: span@,
        },
        SynItem::ModFile { vis, attrs, name, path_override, span } => SynItemV::ModFile {
            vis,
            attrs: attrs_view(attrs@),
            name: name@,
            path_override: match path_override {
                Some(t) => Some(t@),
                None => None,
            },
            span: span@,
        },
        SynItem::Use { vis, attrs, path, glob, rename, span } => SynItemV::Use {
            vis,
            attrs: attrs_view(attrs@),
            path: path@,
            glob,
            rename: opt_str_view(rename),
            span: span@,
        },
        SynItem::ExternDep { vis, attrs, name, rename, macro_use, span } => SynItemV::ExternDep {
            vis,
            attrs: attrs_view(attrs@),
            name: name@,
            rename: opt_str_view(rename),
            macro_use,
            span: span@,
        },
        SynItem::MacroDef(d) => SynItemV::MacroDef(d@),
        SynItem::MacroCall { path, tokens, span } => SynItemV::MacroCall {
            path: path@,
            tokens: tokens@,
            span: span@,
        },
        SynItem::Other { kind, vis, name, span } => SynItemV::Other {
            kind,
            vis,
            name: opt_str_view(name),
            span: span@,
        },
    }
}

pub open spec fn syn_items_view(s: Seq<SynItem>) -> Seq<SynItemV>
    decreases s,
{
    if s.len() == 0 {
        Seq::empty()
    } else {
        syn_items_view(s.drop_last()).push(syn_item_view(s.last()))
    }
}

pub proof fn lemma_syn_items_view_len(s: Seq<SynItem>)
    ensures
        syn_items_view(s).len() == s.len(),
    decreases s,
{
    if s.len() > 0 {
        lemma_syn_items_view_len(s.drop_last());
    }
}

pub proof fn lemma_syn_items_view_index(s: Seq<SynItem>, i: int)
    requires
        0 <= i < s.len(),
    ensures
        syn_items_view(s).len() == s.len(),
        syn_items_view(s)[i] == syn_item_view(s[i]),
    decreases s,
{
    lemma_syn_items_view_len(s);
    if i < s.len() - 1 {
        lemma_syn_items_view_index(s.drop_last(), i);
    }
}

impl View for SynItem {
    type V = SynItemV;

    open spec fn view(&self) -> SynItemV {
        syn_item_view(*self)
    }
}

} // verus!
