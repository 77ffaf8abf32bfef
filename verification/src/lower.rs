//! Lowering: the mapping from parsed syntax to database items. Each
//! function's result is pinned by an exact spec-level statement of the same
//! mapping, over views.

use vstd::prelude::*;

use crate::attributes::{
    Attribute, AttributeV, attrs_view, Deprecation, DeprecationV, Meta, MetaInner, MetaInnerV,
    MetaV, Metadata, MetadataV, opt_str_view, Span, spec_attr_path, Visibility, VisibilityV,
};
use crate::items::{
    Abi, AbiV, args_view, Derive, fields_view, FunctionArg, FunctionArgV, FunctionItem,
    FunctionItemV, EnumItem, EnumItemV, EnumVariant, EnumVariantV, GenericParams, InherentImpl,
    Receiver, ReceiverV, Repr, ReprV, Signature, SignatureV, StructField, StructFieldV,
    StructItem, StructItemV, StructKind, SymbolMetadata, SymbolMetadataV, Type, type_view, TypeV,
    TypeMetadata, TypeMetadataV, PathType, PathTypeV, types_view, variants_view,
};
use crate::paths::Path;
use crate::syntax::{
    syn_args_view, syn_fields_view, syn_item_view, syn_type_view, syn_types_view,
    syn_variants_view, SynArg, SynArgV, SynEnum, SynEnumV, SynField, SynFieldV, SynFields,
    SynFieldsV, SynFunction, SynFunctionV, SynSignature, SynSignatureV, SynStruct, SynStructV,
    SynType, SynTypeV, SynVariant, SynVariantV, SynVis,
};
use crate::tokens::{dec_str, render_toks, Token, TokenV, Tokens, u64_to_string};

verus! {

broadcast use vstd::seq::axiom_seq_index_decreases;

/// Why lowering one item was abandoned. Siblings are unaffected.
#[derive(Clone, Copy, Debug, PartialEq, Eq, Structural)]
pub enum LowerError {
    /// An attribute did not have the shape its name demands.
    MalformedAttribute,
    /// A function input was not a receiver or a `name: type` pair.
    MalformedFunctionArg,
    /// A macro stood in type position.
    TypePositionMacro,
}

/// The visibility an item lowers to: the keyword where one is written, the
/// containing module's visibility where none is.
pub open spec fn spec_lower_vis(mod_vis: VisibilityV, v: SynVis) -> VisibilityV {
    match v {
        SynVis::Pub => VisibilityV::Pub,
        SynVis::Inherited => mod_vis,
        SynVis::Other => VisibilityV::NonPub,
    }
}

pub fn lower_vis(mod_vis: &Visibility, v: SynVis) -> (r: Visibility)
    ensures
        r@ == spec_lower_vis(mod_vis@, v),
{
    match v {
        SynVis::Pub => Visibility::Pub,
        SynVis::Inherited => mod_vis.clone_vis(),
        SynVis::Other => Visibility::NonPub,
    }
}

/// The string a literal token list stands for: the value of a lone string
/// literal, the rendered text otherwise.
pub open spec fn spec_extract_string(lit: Seq<TokenV>) -> Seq<char> {
    if lit.len() == 1 && lit[0] is Str {
        lit[0]->Str_0
    } else {
        render_toks(lit)
    }
}

pub fn extract_string(t: &Tokens) -> (r: String)
    ensures
        r@ == spec_extract_string(t@),
{
    if t.toks.len() == 1 {
        if let Token::Str(s) = &t.toks[0] {
            proof {
                assert(t@[0] == t.toks@[0]@);
            }
            return s.clone();
        }
    }
    proof {
        assert(t@.len() == t.toks@.len());
        if t@.len() == 1 {
            assert(t@[0] == t.toks@[0]@);
        }
    }
    t.to_text()
}

/// The string carried by a `doc`, `must_use`, or similar assigned attribute;
/// an attribute of another shape counts as empty.
pub open spec fn spec_assigned_string(a: AttributeV) -> Seq<char> {
    match a {
        AttributeV::Meta(MetaV::Assign { literal, .. }) => spec_extract_string(literal),
        _ => Seq::empty(),
    }
}

/// Documentation accumulated over an attribute list: the values of `doc`
/// attributes in order, joined with newlines.
pub open spec fn spec_docs(attrs: Seq<AttributeV>) -> Option<Seq<char>>
    decreases attrs.len(),
{
    if attrs.len() == 0 {
        None
    } else {
        let rest = spec_docs(attrs.drop_last());
        if spec_attr_path(attrs.last()) == seq![("doc")@] {
            let v = spec_assigned_string(attrs.last());
            match rest {
                None => Some(v),
                Some(p) => Some(p + seq!['\n'] + v),
            }
        } else {
            rest
        }
    }
}

/// The value of the last `must_use` attribute, if any.
pub open spec fn spec_must_use(attrs: Seq<AttributeV>) -> Option<Seq<char>>
    decreases attrs.len(),
{
    if attrs.len() == 0 {
        None
    } else if spec_attr_path(attrs.last()) == seq![("must_use")@] {
        Some(spec_assigned_string(attrs.last()))
    } else {
        spec_must_use(attrs.drop_last())
    }
}

/// The `since`/`note` pair read off one `deprecated` argument list; later
/// assignments win.
pub open spec fn spec_dep_args(args: Seq<MetaInnerV>) -> DeprecationV
    decreases args.len(),
{
    if args.len() == 0 {
        DeprecationV { since: None, note: None }
    } else {
        let d = spec_dep_args(args.drop_last());
        match args.last() {
            MetaInnerV::Meta(MetaV::Assign { path, literal }) => {
                if path == seq![("since")@] {
                    DeprecationV { since: Some(spec_extract_string(literal)), note: d.note }
                } else if path == seq![("note")@] {
                    DeprecationV { since: d.since, note: Some(spec_extract_string(literal)) }
                } else {
                    d
                }
            },
            _ => d,
        }
    }
}

/// The deprecation read off one `deprecated` attribute.
pub open spec fn spec_dep_of(a: AttributeV) -> DeprecationV {
    match a {
        AttributeV::Meta(MetaV::Call { args, .. }) => spec_dep_args(args),
        _ => DeprecationV { since: None, note: None },
    }
}

/// The deprecation of the last `deprecated` attribute, if any.
pub open spec fn spec_deprecated(attrs: Seq<AttributeV>) -> Option<DeprecationV>
    decreases attrs.len(),
{
    if attrs.len() == 0 {
        None
    } else if spec_attr_path(attrs.last()) == seq![("deprecated")@] {
        Some(spec_dep_of(attrs.last()))
    } else {
        spec_deprecated(attrs.drop_last())
    }
}

/// Whether an attribute is claimed by metadata lowering rather than kept.
pub open spec fn spec_is_claimed(a: AttributeV) -> bool {
    spec_attr_path(a) == seq![("doc")@] || spec_attr_path(a) == seq![("must_use")@]
        || spec_attr_path(a) == seq![("deprecated")@]
}

/// The attributes metadata lowering leaves in the bag, in order.
pub open spec fn spec_extras(attrs: Seq<AttributeV>) -> Seq<AttributeV>
    decreases attrs.len(),
{
    if attrs.len() == 0 {
        Seq::empty()
    } else {
        let rest = spec_extras(attrs.drop_last());
        if spec_is_claimed(attrs.last()) {
            rest
        } else {
            rest.push(attrs.last())
        }
    }
}

/// The metadata an attribute list and visibility lower to.
pub open spec fn spec_lower_metadata(
    mod_vis: VisibilityV,
    vis: SynVis,
    attrs: Seq<AttributeV>,
    span: crate::attributes::SpanV,
) -> MetadataV {
    MetadataV {
        visibility: spec_lower_vis(mod_vis, vis),
        docs: spec_docs(attrs),
        must_use: spec_must_use(attrs),
        deprecated: spec_deprecated(attrs),
        extra_attributes: spec_extras(attrs),
        span,
    }
}

fn dep_of_attr(a: &Attribute) -> (r: Deprecation)
    ensures
        r@ == spec_dep_of(a@),
{
    match a {
        Attribute::Meta(Meta::Call { args, .. }) => {
            let ghost argsv = crate::attributes::metainners_view(args@);
            let mut since: Option<String> = None;
            let mut note: Option<String> = None;
            let mut i: usize = 0;
            proof {
                crate::attributes::lemma_metainners_view_len(args@);
                assert(argsv.take(0) =~= Seq::<MetaInnerV>::empty());
            }
            while i < args.len()
                invariant
                    argsv == crate::attributes::metainners_view(args@),
                    argsv.len() == args@.len(),
                    i <= args.len(),
                    (DeprecationV {
                        since: opt_str_view(since),
                        note: opt_str_view(note),
                    }) == spec_dep_args(argsv.take(i as int)),
                decreases args.len() - i,
            {
                proof {
                    crate::attributes::lemma_metainners_view_index(args@, i as int);
                    assert(argsv.take(i + 1).drop_last() =~= argsv.take(i as int));
                    assert(argsv.take(i + 1).last() == argsv[i as int]);
                }
                match &args[i] {
                    MetaInner::Meta(Meta::Assign { path, literal }) => {
                        let seg = path.get_ident();
                        match seg {
                            Some(seg) => {
                                proof {
                                    if path@.len() == 1 {
                                        if path@[0] == ("since")@ {
                                            assert(path@ =~= seq![("since")@]);
                                        }
                                        if path@[0] == ("note")@ {
                                            assert(path@ =~= seq![("note")@]);
                                        }
                                    }
                                }
                                if *seg == ("since").to_owned() {
                                    since = Some(extract_string(literal));
                                } else if *seg == ("note").to_owned() {
                                    note = Some(extract_string(literal));
                                } else {
                                    proof {
                                        assert(path@ != seq![("since")@]);
                                        assert(path@ != seq![("note")@]);
                                    }
                                }
                            },
                            None => {
                                proof {
                                    assert(path@.len() != 1);
                                    assert(path@ != seq![("since")@]);
                                    assert(path@ != seq![("note")@]);
                                }
                            },
                        }
                    },
                    _ => {},
                }
                i += 1;
            }
            proof {
                assert(argsv.take(args@.len() as int) =~= argsv);
            }
            Deprecation { since, note }
        },
        _ => Deprecation { since: None, note: None },
    }
}

/// Lower visibility and attributes to item metadata. `mod_vis` is the
/// containing module's visibility, inherited by items without a keyword.
pub fn lower_metadata(
    mod_vis: &Visibility,
    vis: SynVis,
    attrs: Vec<Attribute>,
    span: Span,
) -> (r: Metadata)
    ensures
        r@ == spec_lower_metadata(mod_vis@, vis, attrs_view(attrs@), span@),
{
    let ghost a0 = attrs_view(attrs@);
    let mut attrs = attrs;
    let mut docs: Option<String> = None;
    let mut must_use: Option<String> = None;
    let mut deprecated: Option<Deprecation> = None;
    let mut extras: Vec<Attribute> = Vec::new();
    let mut i: usize = 0;
    proof {
        assert(a0.take(0) =~= Seq::<AttributeV>::empty());
        assert(attrs_view(extras@) =~= spec_extras(a0.take(0)));
    }
    while i < attrs.len()
        invariant
            a0 == attrs_view(attrs@),
            a0.len() == attrs@.len(),
            i <= attrs.len(),
            opt_str_view(docs) == spec_docs(a0.take(i as int)),
            opt_str_view(must_use) == spec_must_use(a0.take(i as int)),
            (match deprecated {
                Some(d) => Some(d@),
                None => None,
            }) == spec_deprecated(a0.take(i as int)),
            attrs_view(extras@) == spec_extras(a0.take(i as int)),
        decreases attrs.len() - i,
    {
        let a = &attrs[i];
        proof {
            assert(a0[i as int] == attrs@[i as int]@);
            assert(a0.take(i + 1).drop_last() =~= a0.take(i as int));
            assert(a0.take(i + 1).last() == a0[i as int]);
        }
        let is_doc = a.is_named("doc");
        let is_mu = a.is_named("must_use");
        let is_dep = a.is_named("deprecated");
        if is_doc {
            let v = match a {
                Attribute::Meta(Meta::Assign { literal, .. }) => extract_string(literal),
                _ => String::new(),
            };
            match docs {
                Some(prev) => {
                    let mut joined = prev;
                    joined.push('\n');
                    joined.push_str(v.as_str());
                    proof {
                        assert(joined@ =~= spec_docs(a0.take(i as int))->Some_0 + seq!['\n']
                            + spec_assigned_string(a0[i as int]));
                    }
                    docs = Some(joined);
                },
                None => {
                    docs = Some(v);
                },
            }
        }
        if is_mu {
            let v = match a {
                Attribute::Meta(Meta::Assign { literal, .. }) => extract_string(literal),
                _ => String::new(),
            };
            must_use = Some(v);
        }
        if is_dep {
            deprecated = Some(dep_of_attr(a));
        }
        if !is_doc && !is_mu && !is_dep {
            let owned = crate::attributes::clone_attribute(a);
            extras.push(owned);
            proof {
                assert(attrs_view(extras@) =~= spec_extras(a0.take(i + 1)));
            }
        }
        i += 1;
    }
    proof {
        assert(a0.take(attrs@.len() as int) =~= a0);
    }
    Metadata {
        visibility: lower_vis(mod_vis, vis),
        docs,
        must_use,
        deprecated,
        extra_attributes: extras,
        span,
    }
}

/// The names of the integer types an enum's outer tag may use.
pub open spec fn spec_is_int_ident(s: Seq<char>) -> bool {
    s == ("i8")@ || s == ("i16")@ || s == ("i32")@ || s == ("i64")@ || s == ("i128")@ || s == (
    "isize")@ || s == ("u8")@ || s == ("u16")@ || s == ("u32")@ || s == ("u64")@ || s == ("u128")@
        || s == ("usize")@
}

fn is_int_ident(s: &String) -> (r: bool)
    ensures
        r == spec_is_int_ident(s@),
{
    *s == ("i8").to_owned() || *s == ("i16").to_owned() || *s == ("i32").to_owned() || *s == (
    "i64").to_owned() || *s == ("i128").to_owned() || *s == ("isize").to_owned() || *s == (
    "u8").to_owned() || *s == ("u16").to_owned() || *s == ("u32").to_owned() || *s == (
    "u64").to_owned() || *s == ("u128").to_owned() || *s == ("usize").to_owned()
}

/// One `repr` argument applied to the running layout value.
pub open spec fn spec_repr_step(state: ReprV, arg: MetaInnerV) -> ReprV {
    match arg {
        MetaInnerV::Meta(MetaV::Path(p)) => {
            if p == seq![("C")@] {
                ReprV::C
            } else if p == seq![("transparent")@] {
                ReprV::Transparent
            } else if p == seq![("packed")@] {
                ReprV::Packed
            } else if p.len() == 1 && spec_is_int_ident(p[0]) {
                ReprV::IntOuterTag(p[0])
            } else {
                state
            }
        },
        _ => state,
    }
}

/// The layout read off one `repr` argument list, in order.
pub open spec fn spec_repr_args(state: ReprV, args: Seq<MetaInnerV>) -> ReprV
    decreases args.len(),
{
    if args.len() == 0 {
        state
    } else {
        spec_repr_step(spec_repr_args(state, args.drop_last()), args.last())
    }
}

/// The layout after one attribute: `repr` calls apply, all else is ignored.
pub open spec fn spec_repr_attr(state: ReprV, a: AttributeV) -> ReprV {
    if spec_attr_path(a) == seq![("repr")@] {
        match a {
            AttributeV::Meta(MetaV::Call { args, .. }) => spec_repr_args(state, args),
            _ => state,
        }
    } else {
        state
    }
}

/// The layout read off an attribute bag.
pub open spec fn spec_repr(attrs: Seq<AttributeV>) -> ReprV
    decreases attrs.len(),
{
    if attrs.len() == 0 {
        ReprV::Rust
    } else {
        spec_repr_attr(spec_repr(attrs.drop_last()), attrs.last())
    }
}

/// The derive paths listed by one `derive` argument list, in order.
pub open spec fn spec_derive_args(args: Seq<MetaInnerV>) -> Seq<Seq<Seq<char>>>
    decreases args.len(),
{
    if args.len() == 0 {
        Seq::empty()
    } else {
        let rest = spec_derive_args(args.drop_last());
        match args.last() {
            MetaInnerV::Meta(MetaV::Path(p)) => rest.push(p),
            _ => rest,
        }
    }
}

/// The derives contributed by one attribute.
pub open spec fn spec_derives_attr(a: AttributeV) -> Seq<Seq<Seq<char>>> {
    if spec_attr_path(a) == seq![("derive")@] {
        match a {
            AttributeV::Meta(MetaV::Call { args, .. }) => spec_derive_args(args),
            _ => Seq::empty(),
        }
    } else {
        Seq::empty()
    }
}

/// All derive paths read off an attribute bag, in order.
pub open spec fn spec_derives(attrs: Seq<AttributeV>) -> Seq<Seq<Seq<char>>>
    decreases attrs.len(),
{
    if attrs.len() == 0 {
        Seq::empty()
    } else {
        spec_derives(attrs.drop_last()) + spec_derives_attr(attrs.last())
    }
}

/// Whether type-metadata extraction claims an attribute.
pub open spec fn spec_type_claimed(a: AttributeV) -> bool {
    spec_attr_path(a) == seq![("repr")@] || spec_attr_path(a) == seq![("derive")@]
}

/// The attribute bag left after type-metadata extraction.
pub open spec fn spec_extras_after_type(attrs: Seq<AttributeV>) -> Seq<AttributeV>
    decreases attrs.len(),
{
    if attrs.len() == 0 {
        Seq::empty()
    } else {
        let rest = spec_extras_after_type(attrs.drop_last());
        if spec_type_claimed(attrs.last()) {
            rest
        } else {
            rest.push(attrs.last())
        }
    }
}

fn derives_of_args(args: &Vec<MetaInner>) -> (r: Vec<Derive>)
    ensures
        r@.map_values(|d: Derive| d@) == spec_derive_args(
            crate::attributes::metainners_view(args@),
        ),
{
    let ghost argsv = crate::attributes::metainners_view(args@);
    let mut r: Vec<Derive> = Vec::new();
    let mut i: usize = 0;
    proof {
        crate::attributes::lemma_metainners_view_len(args@);
        assert(argsv.take(0) =~= Seq::<MetaInnerV>::empty());
        assert(r@.map_values(|d: Derive| d@) =~= spec_derive_args(argsv.take(0)));
    }
    while i < args.len()
        invariant
            argsv == crate::attributes::metainners_view(args@),
            argsv.len() == args@.len(),
            i <= args.len(),
            r@.map_values(|d: Derive| d@) == spec_derive_args(argsv.take(i as int)),
        decreases args.len() - i,
    {
        proof {
            crate::attributes::lemma_metainners_view_index(args@, i as int);
            assert(argsv.take(i + 1).drop_last() =~= argsv.take(i as int));
            assert(argsv.take(i + 1).last() == argsv[i as int]);
        }
        match &args[i] {
            MetaInner::Meta(Meta::Path(p)) => {
                r.push(Derive { path: p.clone_pth() });
                proof {
                    assert(r@.map_values(|d: Derive| d@) =~= spec_derive_args(argsv.take(i + 1)));
                }
            },
            _ => {},
        }
        i += 1;
    }
    proof {
        assert(argsv.take(args@.len() as int) =~= argsv);
    }
    r
}

/// Pull `repr` and derives out of the metadata's attribute bag into typed
/// type metadata; the bag keeps everything else.
pub fn extract_type_metadata(md: &mut Metadata) -> (r: TypeMetadata)
    ensures
        r@.repr == spec_repr(old(md)@.extra_attributes),
        r@.derives == spec_derives(old(md)@.extra_attributes),
        final(md)@ == (MetadataV {
            extra_attributes: spec_extras_after_type(old(md)@.extra_attributes),
            ..old(md)@
        }),
{
    let ghost a0 = attrs_view(md.extra_attributes@);
    let mut old_attrs: Vec<Attribute> = Vec::new();
    core::mem::swap(&mut old_attrs, &mut md.extra_attributes);
    let mut kept: Vec<Attribute> = Vec::new();
    let mut repr = Repr::Rust;
    let mut derives: Vec<Derive> = Vec::new();
    let mut i: usize = 0;
    proof {
        assert(a0.take(0) =~= Seq::<AttributeV>::empty());
        assert(attrs_view(kept@) =~= spec_extras_after_type(a0.take(0)));
        assert(derives@.map_values(|d: Derive| d@) =~= spec_derives(a0.take(0)));
    }
    while i < old_attrs.len()
        invariant
            a0 == attrs_view(old_attrs@),
            a0.len() == old_attrs@.len(),
            i <= old_attrs.len(),
            repr@ == spec_repr(a0.take(i as int)),
            derives@.map_values(|d: Derive| d@) == spec_derives(a0.take(i as int)),
            attrs_view(kept@) == spec_extras_after_type(a0.take(i as int)),
        decreases old_attrs.len() - i,
    {
        let a = &old_attrs[i];
        proof {
            assert(a0[i as int] == old_attrs@[i as int]@);
            assert(a0.take(i + 1).drop_last() =~= a0.take(i as int));
            assert(a0.take(i + 1).last() == a0[i as int]);
        }
        let is_repr = a.is_named("repr");
        let is_derive = a.is_named("derive");
        if is_repr {
            match a {
                Attribute::Meta(Meta::Call { args, .. }) => {
                    let ghost argsv = crate::attributes::metainners_view(args@);
                    let mut j: usize = 0;
                    proof {
                        crate::attributes::lemma_metainners_view_len(args@);
                        assert(argsv.take(0) =~= Seq::<MetaInnerV>::empty());
                    }
                    while j < args.len()
                        invariant
                            argsv == crate::attributes::metainners_view(args@),
                            argsv.len() == args@.len(),
                            j <= args.len(),
                            repr@ == spec_repr_args(spec_repr(a0.take(i as int)), argsv.take(
                                j as int,
                            )),
                        decreases args.len() - j,
                    {
                        proof {
                            crate::attributes::lemma_metainners_view_index(args@, j as int);
                            assert(argsv.take(j + 1).drop_last() =~= argsv.take(j as int));
                            assert(argsv.take(j + 1).last() == argsv[j as int]);
                        }
                        match &args[j] {
                            MetaInner::Meta(Meta::Path(p)) => {
                                match p.get_ident() {
                                    Some(seg) => {
                                        proof {
                                            if p@.len() == 1 {
                                                if p@[0] == ("C")@ {
                                                    assert(p@ =~= seq![("C")@]);
                                                }
                                                if p@[0] == ("transparent")@ {
                                                    assert(p@ =~= seq![("transparent")@]);
                                                }
                                                if p@[0] == ("packed")@ {
                                                    assert(p@ =~= seq![("packed")@]);
                                                }
                                            }
                                        }
                                        if *seg == ("C").to_owned() {
                                            repr = Repr::C;
                                        } else if *seg == ("transparent").to_owned() {
                                            repr = Repr::Transparent;
                                        } else if *seg == ("packed").to_owned() {
                                            repr = Repr::Packed;
                                        } else if is_int_ident(seg) {
                                            repr = Repr::IntOuterTag(seg.clone());
                                        } else {
                                            proof {
                                                assert(p@ != seq![("C")@]);
                                                assert(p@ != seq![("transparent")@]);
                                                assert(p@ != seq![("packed")@]);
                                            }
                                        }
                                    },
                                    None => {
                                        proof {
                                            assert(p@.len() != 1);
                                            assert(p@ != seq![("C")@]);
                                            assert(p@ != seq![("transparent")@]);
                                            assert(p@ != seq![("packed")@]);
                                        }
                                    },
                                }
                            },
                            _ => {},
                        }
                        j += 1;
                    }
                    proof {
                        assert(argsv.take(args@.len() as int) =~= argsv);
                    }
                },
                _ => {},
            }
        }
        if is_derive {
            match a {
                Attribute::Meta(Meta::Call { args, .. }) => {
                    let mut more = derives_of_args(args);
                    let ghost d_before = derives@;
                    let ghost more_v = more@;
                    derives.append(&mut more);
                    proof {
                        assert(derives@ =~= d_before + more_v);
                        assert(derives@.map_values(|d: Derive| d@) =~= d_before.map_values(
                            |d: Derive| d@,
                        ) + more_v.map_values(|d: Derive| d@));
                        assert(derives@.map_values(|d: Derive| d@) =~= spec_derives(a0.take(i + 1)));
                    }
                },
                _ => {
                    proof {
                        assert(derives@.map_values(|d: Derive| d@) =~= spec_derives(a0.take(i + 1)));
                    }
                },
            }
        }
        if !is_derive {
            proof {
                assert(derives@.map_values(|d: Derive| d@) =~= spec_derives(a0.take(i + 1)));
            }
        }
        if !is_repr && !is_derive {
            kept.push(crate::attributes::clone_attribute(a));
            proof {
                assert(attrs_view(kept@) =~= spec_extras_after_type(a0.take(i + 1)));
            }
        }
        i += 1;
    }
    proof {
        assert(a0.take(old_attrs@.len() as int) =~= a0);
    }
    md.extra_attributes = kept;
    TypeMetadata { repr, derives }
}

/// Symbol metadata read off an attribute bag: the presence of `no_mangle`.
pub open spec fn spec_no_mangle(attrs: Seq<AttributeV>) -> bool
    decreases attrs.len(),
{
    if attrs.len() == 0 {
        false
    } else {
        spec_no_mangle(attrs.drop_last()) || spec_attr_path(attrs.last()) == seq![("no_mangle")@]
    }
}

/// The value of the last assigned attribute of the given name, if any.
pub open spec fn spec_assigned(attrs: Seq<AttributeV>, name: Seq<char>) -> Option<Seq<char>>
    decreases attrs.len(),
{
    if attrs.len() == 0 {
        None
    } else if spec_attr_path(attrs.last()) == seq![name] {
        Some(spec_assigned_string(attrs.last()))
    } else {
        spec_assigned(attrs.drop_last(), name)
    }
}

/// Whether symbol-metadata extraction claims an attribute.
pub open spec fn spec_symbol_claimed(a: AttributeV) -> bool {
    spec_attr_path(a) == seq![("no_mangle")@] || spec_attr_path(a) == seq![("export_name")@]
        || spec_attr_path(a) == seq![("link_section")@]
}

/// The attribute bag left after symbol-metadata extraction.
pub open spec fn spec_extras_after_symbol(attrs: Seq<AttributeV>) -> Seq<AttributeV>
    decreases attrs.len(),
{
    if attrs.len() == 0 {
        Seq::empty()
    } else {
        let rest = spec_extras_after_symbol(attrs.drop_last());
        if spec_symbol_claimed(attrs.last()) {
            rest
        } else {
            rest.push(attrs.last())
        }
    }
}

/// Pull linkage attributes out of the metadata's attribute bag into typed
/// symbol metadata; the bag keeps everything else.
pub fn extract_symbol_metadata(md: &mut Metadata) -> (r: SymbolMetadata)
    ensures
        r@.no_mangle == spec_no_mangle(old(md)@.extra_attributes),
        r@.export_name == spec_assigned(old(md)@.extra_attributes, ("export_name")@),
        r@.link_section == spec_assigned(old(md)@.extra_attributes, ("link_section")@),
        final(md)@ == (MetadataV {
            extra_attributes: spec_extras_after_symbol(old(md)@.extra_attributes),
            ..old(md)@
        }),
{
    let ghost a0 = attrs_view(md.extra_attributes@);
    let mut old_attrs: Vec<Attribute> = Vec::new();
    core::mem::swap(&mut old_attrs, &mut md.extra_attributes);
    let mut kept: Vec<Attribute> = Vec::new();
    let mut no_mangle = false;
    let mut export_name: Option<String> = None;
    let mut link_section: Option<String> = None;
    let mut i: usize = 0;
    proof {
        assert(a0.take(0) =~= Seq::<AttributeV>::empty());
        assert(attrs_view(kept@) =~= spec_extras_after_symbol(a0.take(0)));
    }
    while i < old_attrs.len()
        invariant
            a0 == attrs_view(old_attrs@),
            a0.len() == old_attrs@.len(),
            i <= old_attrs.len(),
            no_mangle == spec_no_mangle(a0.take(i as int)),
            opt_str_view(export_name) == spec_assigned(a0.take(i as int), ("export_name")@),
            opt_str_view(link_section) == spec_assigned(a0.take(i as int), ("link_section")@),
            attrs_view(kept@) == spec_extras_after_symbol(a0.take(i as int)),
        decreases old_attrs.len() - i,
    {
        let a = &old_attrs[i];
        proof {
            assert(a0[i as int] == old_attrs@[i as int]@);
            assert(a0.take(i + 1).drop_last() =~= a0.take(i as int));
            assert(a0.take(i + 1).last() == a0[i as int]);
        }
        let is_nm = a.is_named("no_mangle");
        let is_en = a.is_named("export_name");
        let is_ls = a.is_named("link_section");
        if is_nm {
            no_mangle = true;
        }
        if is_en {
            let v = match a {
                Attribute::Meta(Meta::Assign { literal, .. }) => extract_string(literal),
                _ => String::new(),
            };
            export_name = Some(v);
        }
        if is_ls {
            let v = match a {
                Attribute::Meta(Meta::Assign { literal, .. }) => extract_string(literal),
                _ => String::new(),
            };
            link_section = Some(v);
        }
        if !is_nm && !is_en && !is_ls {
            kept.push(crate::attributes::clone_attribute(a));
            proof {
                assert(attrs_view(kept@) =~= spec_extras_after_symbol(a0.take(i + 1)));
            }
        }
        i += 1;
    }
    proof {
        assert(a0.take(old_attrs@.len() as int) =~= a0);
    }
    md.extra_attributes = kept;
    SymbolMetadata { no_mangle, export_name, link_section }
}

/// A lowering result at the view level.
pub open spec fn res_view<T: View>(r: Result<T, LowerError>) -> Result<T::V, LowerError> {
    match r {
        Ok(v) => Ok(v@),
        Err(e) => Err(e),
    }
}

/// The type a written type lowers to; a macro in type position is an error.
pub open spec fn spec_lower_type(t: SynTypeV) -> Result<TypeV, LowerError>
    decreases t,
{
    match t {
        SynTypeV::Path { path, params } => match spec_lower_types(params) {
            Ok(ps) => Ok(TypeV::Path(PathTypeV { path, params: ps })),
            Err(e) => Err(e),
        },
        SynTypeV::Reference { lifetime, mut_, inner } => match spec_lower_type(*inner) {
            Ok(t2) => Ok(TypeV::Reference { lifetime, mut_, inner: Box::new(t2) }),
            Err(e) => Err(e),
        },
        SynTypeV::Tuple(ts) => match spec_lower_types(ts) {
            Ok(ps) => Ok(TypeV::Tuple(ps)),
            Err(e) => Err(e),
        },
        SynTypeV::Macro(_) => Err(LowerError::TypePositionMacro),
        SynTypeV::Opaque(tk) => Ok(TypeV::Opaque(tk)),
    }
}

/// Types lowered in order; the first error wins.
pub open spec fn spec_lower_types(s: Seq<SynTypeV>) -> Result<Seq<TypeV>, LowerError>
    decreases s,
{
    if s.len() == 0 {
        Ok(Seq::empty())
    } else {
        match spec_lower_types(s.drop_last()) {
            Err(e) => Err(e),
            Ok(acc) => match spec_lower_type(s.last()) {
                Ok(t) => Ok(acc.push(t)),
                Err(e) => Err(e),
            },
        }
    }
}

proof fn lemma_lower_types_err_mono(s: Seq<SynTypeV>, i: int, j: int)
    requires
        0 <= i <= j <= s.len(),
        spec_lower_types(s.take(i)) is Err,
    ensures
        spec_lower_types(s.take(j)) == spec_lower_types(s.take(i)),
    decreases j - i,
{
    if j > i {
        lemma_lower_types_err_mono(s, i, j - 1);
        assert(s.take(j).drop_last() =~= s.take(j - 1));
    }
}

/// Lower one written type.
pub fn lower_type(t: &SynType) -> (r: Result<Type, LowerError>)
    ensures
        res_view(r) == spec_lower_type(t@),
    decreases *t,
{
    match t {
        SynType::Path { path, params } => {
            let ghost pv = syn_types_view(params@);
            let mut out: Vec<Type> = Vec::new();
            let mut i: usize = 0;
            proof {
                crate::syntax::lemma_syn_types_view_len(params@);
                assert(pv.take(0) =~= Seq::<SynTypeV>::empty());
                assert(types_view(out@) =~= Seq::<TypeV>::empty());
            }
            while i < params.len()
                invariant
                    *t == (SynType::Path { path: *path, params: *params }),
                    pv == syn_types_view(params@),
                    pv.len() == params@.len(),
                    i <= params.len(),
                    spec_lower_types(pv.take(i as int)) == Ok::<Seq<TypeV>, LowerError>(types_view(out@)),
                decreases params.len() - i,
            {
                proof {
                    assert(decreases_to!(*t => t->Path_params));
                    assert(t->Path_params == *params);
                    assert(decreases_to!(*params => params@));
                    assert(decreases_to!(params@ => params@[i as int]));
                    assert(decreases_to!(*t => params@[i as int]));
                    crate::syntax::lemma_syn_types_view_index(params@, i as int);
                    assert(pv.take(i + 1).drop_last() =~= pv.take(i as int));
                    assert(pv.take(i + 1).last() == pv[i as int]);
                }
                match lower_type(&params[i]) {
                    Ok(ty) => {
                        let ghost before = out@;
                        out.push(ty);
                        proof {
                            assert(types_view(out@) =~= types_view(before).push(
                                out@.last()@,
                            )) by {
                                crate::items::lemma_types_view_index(out@, out@.len() - 1);
                                assert forall|k: int| 0 <= k < before.len() implies types_view(
                                    out@,
                                )[k] == types_view(before)[k] by {
                                    crate::items::lemma_types_view_index(out@, k);
                                    crate::items::lemma_types_view_index(before, k);
                                }
                                crate::items::lemma_types_view_len(out@);
                                crate::items::lemma_types_view_len(before);
                            }
                        }
                    },
                    Err(e) => {
                        proof {
                            lemma_lower_types_err_mono(pv, i + 1, pv.len() as int);
                            assert(pv.take(pv.len() as int) =~= pv);
                        }
                        return Err(e);
                    },
                }
                i += 1;
            }
            proof {
                assert(pv.take(params@.len() as int) =~= pv);
            }
            Ok(Type::Path(PathType { path: path.clone_pth(), params: out }))
        },
        SynType::Reference { lifetime, mut_, inner } => {
            proof {
                assert(decreases_to!(*t => t->Reference_inner));
            }
            match lower_type(inner) {
                Ok(t2) => Ok(
                    Type::Reference {
                        lifetime: crate::attributes::clone_opt_string(lifetime),
                        mut_: *mut_,
                        inner: Box::new(t2),
                    },
                ),
                Err(e) => Err(e),
            }
        },
        SynType::Tuple(ts) => {
            let ghost pv = syn_types_view(ts@);
            let mut out: Vec<Type> = Vec::new();
            let mut i: usize = 0;
            proof {
                crate::syntax::lemma_syn_types_view_len(ts@);
                assert(pv.take(0) =~= Seq::<SynTypeV>::empty());
                assert(types_view(out@) =~= Seq::<TypeV>::empty());
            }
            while i < ts.len()
                invariant
                    *t == SynType::Tuple(*ts),
                    pv == syn_types_view(ts@),
                    pv.len() == ts@.len(),
                    i <= ts.len(),
                    spec_lower_types(pv.take(i as int)) == Ok::<Seq<TypeV>, LowerError>(types_view(out@)),
                decreases ts.len() - i,
            {
                proof {
                    assert(decreases_to!(*t => t->Tuple_0));
                    assert(t->Tuple_0 == *ts);
                    assert(decreases_to!(*ts => ts@));
                    assert(decreases_to!(ts@ => ts@[i as int]));
                    assert(decreases_to!(*t => ts@[i as int]));
                    crate::syntax::lemma_syn_types_view_index(ts@, i as int);
                    assert(pv.take(i + 1).drop_last() =~= pv.take(i as int));
                    assert(pv.take(i + 1).last() == pv[i as int]);
                }
                match lower_type(&ts[i]) {
                    Ok(ty) => {
                        let ghost before = out@;
                        out.push(ty);
                        proof {
                            assert(types_view(out@) =~= types_view(before).push(
                                out@.last()@,
                            )) by {
                                crate::items::lemma_types_view_index(out@, out@.len() - 1);
                                assert forall|k: int| 0 <= k < before.len() implies types_view(
                                    out@,
                                )[k] == types_view(before)[k] by {
                                    crate::items::lemma_types_view_index(out@, k);
                                    crate::items::lemma_types_view_index(before, k);
                                }
                                crate::items::lemma_types_view_len(out@);
                                crate::items::lemma_types_view_len(before);
                            }
                        }
                    },
                    Err(e) => {
                        proof {
                            lemma_lower_types_err_mono(pv, i + 1, pv.len() as int);
                            assert(pv.take(pv.len() as int) =~= pv);
                        }
                        return Err(e);
                    },
                }
                i += 1;
            }
            proof {
                assert(pv.take(ts@.len() as int) =~= pv);
            }
            Ok(Type::Tuple(out))
        },
        SynType::Macro(_) => Err(LowerError::TypePositionMacro),
        SynType::Opaque(tk) => Ok(Type::Opaque(tk.clone_toks())),
    }
}

/// The field list behind a written field set.
pub open spec fn spec_fields_list(f: SynFieldsV) -> Seq<SynFieldV> {
    match f {
        SynFieldsV::Named(fs) => fs,
        SynFieldsV::Unnamed(fs) => fs,
        SynFieldsV::Unit => Seq::empty(),
    }
}

/// The shape tag of a written field set.
pub open spec fn spec_kind_of(f: SynFieldsV) -> StructKind {
    match f {
        SynFieldsV::Named(_) => StructKind::Named,
        SynFieldsV::Unnamed(_) => StructKind::Tuple,
        SynFieldsV::Unit => StructKind::Unit,
    }
}

fn fields_list(f: SynFields) -> (r: Vec<SynField>)
    ensures
        syn_fields_view(r@) == spec_fields_list(f@),
{
    match f {
        SynFields::Named(fs) => fs,
        SynFields::Unnamed(fs) => fs,
        SynFields::Unit => {
            let r: Vec<SynField> = Vec::new();
            proof {
                assert(syn_fields_view(r@) =~= Seq::<SynFieldV>::empty());
            }
            r
        },
    }
}

fn kind_of(f: &SynFields) -> (r: StructKind)
    ensures
        r == spec_kind_of(f@),
{
    match f {
        SynFields::Named(_) => StructKind::Named,
        SynFields::Unnamed(_) => StructKind::Tuple,
        SynFields::Unit => StructKind::Unit,
    }
}

/// A field's stored name: the written one, or the stringified index of a
/// tuple field.
pub open spec fn spec_field_name(name: Option<Seq<char>>, idx: int) -> Seq<char> {
    match name {
        Some(n) => n,
        None => dec_str(idx),
    }
}

/// One field lowered, at its position in the list.
pub open spec fn spec_lower_field(
    mod_vis: VisibilityV,
    f: SynFieldV,
    idx: int,
) -> Result<StructFieldV, LowerError> {
    match spec_lower_type(f.ty) {
        Ok(t) => Ok(
            StructFieldV {
                name: spec_field_name(f.name, idx),
                metadata: spec_lower_metadata(mod_vis, f.vis, f.attrs, f.span),
                type_: t,
            },
        ),
        Err(e) => Err(e),
    }
}

/// Fields lowered in order; the first error wins.
pub open spec fn spec_lower_fields(
    mod_vis: VisibilityV,
    s: Seq<SynFieldV>,
) -> Result<Seq<StructFieldV>, LowerError>
    decreases s.len(),
{
    if s.len() == 0 {
        Ok(Seq::empty())
    } else {
        match spec_lower_fields(mod_vis, s.drop_last()) {
            Err(e) => Err(e),
            Ok(acc) => match spec_lower_field(mod_vis, s.last(), s.len() - 1) {
                Ok(f) => Ok(acc.push(f)),
                Err(e) => Err(e),
            },
        }
    }
}

proof fn lemma_lower_fields_err_mono(mod_vis: VisibilityV, s: Seq<SynFieldV>, i: int, j: int)
    requires
        0 <= i <= j <= s.len(),
        spec_lower_fields(mod_vis, s.take(i)) is Err,
    ensures
        spec_lower_fields(mod_vis, s.take(j)) == spec_lower_fields(mod_vis, s.take(i)),
    decreases j - i,
{
    if j > i {
        lemma_lower_fields_err_mono(mod_vis, s, i, j - 1);
        assert(s.take(j).drop_last() =~= s.take(j - 1));
    }
}

/// Lower a field list; tuple fields take their index as name. One malformed
/// field type aborts this list but not its siblings elsewhere.
#[verifier::loop_isolation(false)]
pub fn lower_fields(mod_vis: &Visibility, fields: Vec<SynField>) -> (r: Result<
    Vec<StructField>,
    LowerError,
>)
    ensures
        (match r {
            Ok(fs) => spec_lower_fields(mod_vis@, syn_fields_view(fields@)) == Ok::<
                Seq<StructFieldV>,
                LowerError,
            >(fields_view(fs@)),
            Err(e) => spec_lower_fields(mod_vis@, syn_fields_view(fields@)) == Err::<
                Seq<StructFieldV>,
                LowerError,
            >(e),
        }),
{
    let ghost v0 = syn_fields_view(fields@);
    let mut fields = fields;
    let mut out: Vec<StructField> = Vec::new();
    let mut i: usize = 0;
    let n = fields.len();
    proof {
        assert(v0.take(0) =~= Seq::<SynFieldV>::empty());
        assert(fields_view(out@) =~= Seq::<StructFieldV>::empty());
        assert(syn_fields_view(fields@).skip(0) =~= syn_fields_view(fields@));
    }
    while i < n
        invariant
            n == v0.len(),
            i <= n,
            fields@.len() == n - i,
            syn_fields_view(fields@) == v0.skip(i as int),
            spec_lower_fields(mod_vis@, v0.take(i as int)) == Ok::<
                Seq<StructFieldV>,
                LowerError,
            >(fields_view(out@)),
        decreases n - i,
    {
        let ghost ps = fields@;
        let ghost pre = syn_fields_view(fields@);
        let f = fields.remove(0);
        let ghost fv = f@;
        proof {
            assert(fv == pre[0]);
            assert(fv == v0.skip(i as int)[0]);
            assert(fv == v0[i as int]);
            assert(fields@ =~= ps.drop_first());
            assert(syn_fields_view(fields@) =~= syn_fields_view(ps).skip(1));
            assert(v0.skip(i as int).skip(1) =~= v0.skip(i + 1));
            assert(syn_fields_view(fields@) == v0.skip(i + 1));
            assert(v0.take(i + 1).drop_last() =~= v0.take(i as int));
            assert(v0.take(i + 1).last() == v0[i as int]);
        }
        let SynField { vis, attrs, name, ty, span } = f;
        let ty2 = match lower_type(&ty) {
            Ok(t) => t,
            Err(e) => {
                proof {
                    assert(fv.ty == ty@);
                    assert(spec_lower_field(mod_vis@, v0[i as int], i as int) == Err::<
                        StructFieldV,
                        LowerError,
                    >(e));
                    assert(spec_lower_fields(mod_vis@, v0.take(i + 1)) == Err::<
                        Seq<StructFieldV>,
                        LowerError,
                    >(e));
                    lemma_lower_fields_err_mono(mod_vis@, v0, i + 1, v0.len() as int);
                    assert(v0.take(v0.len() as int) =~= v0);
                }
                return Err(e);
            },
        };
        let fname = match name {
            Some(nm) => nm,
            None => u64_to_string(i as u64),
        };
        let md = lower_metadata(mod_vis, vis, attrs, span);
        let ghost before = out@;
        out.push(StructField { name: fname, metadata: md, type_: ty2 });
        proof {
            assert(fields_view(out@) =~= fields_view(before).push(out@.last()@));
        }
        i += 1;
    }
    proof {
        assert(v0.take(v0.len() as int) =~= v0);
    }
    Ok(out)
}

/// The receiver of a signature: the last written `self` input, if any. A
/// parser only ever yields a receiver in first position, where this agrees
/// with taking the first input; scanning the whole list keeps the mapping
/// total on inputs no parser produces.
pub open spec fn spec_receiver(s: Seq<SynArgV>) -> ReceiverV
    decreases s.len(),
{
    if s.len() == 0 {
        ReceiverV::NoSelf
    } else {
        match s.last() {
            SynArgV::SelfOwned => ReceiverV::ConsumeSelf,
            SynArgV::SelfRef { lifetime, mut_ } => ReceiverV::RefSelf { lifetime, mut_ },
            _ => spec_receiver(s.drop_last()),
        }
    }
}

/// An argument's stored name: the written one, or an underscore for a
/// pattern this model does not carry.
pub open spec fn spec_arg_name(name: Option<Seq<char>>) -> Seq<char> {
    match name {
        Some(n) => n,
        None => ("_")@,
    }
}

/// The first `i` inputs lowered to arguments: receivers are pulled out, the
/// trailing input of a variadic signature is dropped, and anything else that
/// is not `name: type` is an error.
pub open spec fn spec_args_aux(s: Seq<SynArgV>, variadic: bool, i: int) -> Result<
    Seq<FunctionArgV>,
    LowerError,
>
    decreases i,
{
    if i <= 0 {
        Ok(Seq::empty())
    } else {
        match spec_args_aux(s, variadic, i - 1) {
            Err(e) => Err(e),
            Ok(acc) => match s[i - 1] {
                SynArgV::SelfOwned => Ok(acc),
                SynArgV::SelfRef { .. } => Ok(acc),
                _ => {
                    if variadic && i - 1 == s.len() - 1 {
                        Ok(acc)
                    } else {
                        match s[i - 1] {
                            SynArgV::Malformed(_) => Err(LowerError::MalformedFunctionArg),
                            SynArgV::Typed { name, ty } => match spec_lower_type(ty) {
                                Ok(t) => Ok(
                                    acc.push(FunctionArgV { name: spec_arg_name(name), type_: t }),
                                ),
                                Err(e) => Err(e),
                            },
                            _ => Ok(acc),
                        }
                    }
                },
            },
        }
    }
}

proof fn lemma_args_err_mono(s: Seq<SynArgV>, variadic: bool, i: int, j: int)
    requires
        0 <= i <= j,
        spec_args_aux(s, variadic, i) is Err,
    ensures
        spec_args_aux(s, variadic, j) == spec_args_aux(s, variadic, i),
    decreases j - i,
{
    if j > i {
        lemma_args_err_mono(s, variadic, i, j - 1);
    }
}

/// The calling convention a written marker lowers to.
pub open spec fn spec_abi(a: Option<Option<Seq<char>>>) -> AbiV {
    match a {
        None => AbiV::Rust,
        Some(None) => AbiV::C,
        Some(Some(s)) => if s == ("Rust")@ {
            AbiV::Rust
        } else if s == ("C")@ {
            AbiV::C
        } else {
            AbiV::Other(s)
        },
    }
}

/// The signature a written signature lowers to.
pub open spec fn spec_lower_signature(sv: SynSignatureV) -> Result<SignatureV, LowerError> {
    match spec_args_aux(sv.inputs, sv.variadic, sv.inputs.len() as int) {
        Err(e) => Err(e),
        Ok(args) => {
            let ret = match sv.output {
                Some(t) => spec_lower_type(t),
                None => Ok(TypeV::Tuple(Seq::empty())),
            };
            match ret {
                Err(e) => Err(e),
                Ok(ret) => Ok(
                    SignatureV {
                        abi: spec_abi(sv.abi),
                        args,
                        generics: sv.generics,
                        is_async: sv.is_async,
                        is_const: sv.is_const,
                        is_unsafe: sv.is_unsafe,
                        receiver: spec_receiver(sv.inputs),
                        ret,
                        variadic: sv.variadic,
                    },
                ),
            }
        },
    }
}

/// Lower a function signature: extract the receiver, drop the trailing
/// variadic input, lower each argument and the return type, and read the
/// calling convention off the `extern` marker.
#[verifier::loop_isolation(false)]
pub fn lower_signature(sig: SynSignature) -> (r: Result<Signature, LowerError>)
    ensures
        res_view(r) == spec_lower_signature(sig@),
{
    let ghost sv = sig@;
    let SynSignature {
        name: _,
        inputs,
        variadic,
        output,
        is_unsafe,
        is_async,
        is_const,
        abi,
        generics,
    } = sig;
    let ghost iv = syn_args_view(inputs@);
    let n = inputs.len();
    proof {
        assert(iv == sv.inputs);
        assert(variadic == sv.variadic);
    }

    let mut receiver = Receiver::NoSelf;
    let mut i: usize = 0;
    proof {
        assert(iv.take(0) =~= Seq::<SynArgV>::empty());
    }
    while i < n
        invariant
            n == inputs@.len(),
            iv == syn_args_view(inputs@),
            iv.len() == n,
            i <= n,
            receiver@ == spec_receiver(iv.take(i as int)),
        decreases n - i,
    {
        proof {
            assert(iv[i as int] == inputs@[i as int]@);
            assert(iv.take(i + 1).drop_last() =~= iv.take(i as int));
            assert(iv.take(i + 1).last() == iv[i as int]);
        }
        match &inputs[i] {
            SynArg::SelfOwned => {
                receiver = Receiver::ConsumeSelf;
            },
            SynArg::SelfRef { lifetime, mut_ } => {
                receiver = Receiver::RefSelf {
                    lifetime: crate::attributes::clone_opt_string(lifetime),
                    mut_: *mut_,
                };
            },
            _ => {},
        }
        i += 1;
    }
    proof {
        assert(iv.take(n as int) =~= iv);
    }

    let mut args: Vec<FunctionArg> = Vec::new();
    let mut i: usize = 0;
    proof {
        assert(args_view(args@) =~= Seq::<FunctionArgV>::empty());
    }
    while i < n
        invariant
            n == inputs@.len(),
            iv == syn_args_view(inputs@),
            iv.len() == n,
            i <= n,
            spec_args_aux(iv, variadic, i as int) == Ok::<Seq<FunctionArgV>, LowerError>(
                args_view(args@),
            ),
        decreases n - i,
    {
        proof {
            assert(iv[i as int] == inputs@[i as int]@);
        }
        match &inputs[i] {
            SynArg::SelfOwned => {},
            SynArg::SelfRef { .. } => {},
            SynArg::Malformed(_) => {
                if variadic && i == n - 1 {
                } else {
                    proof {
                        lemma_args_err_mono(iv, variadic, i + 1, iv.len() as int);
                        assert(spec_lower_signature(sv) == Err::<SignatureV, LowerError>(
                            LowerError::MalformedFunctionArg,
                        ));
                    }
                    return Err(LowerError::MalformedFunctionArg);
                }
            },
            SynArg::Typed { name, ty } => {
                if variadic && i == n - 1 {
                } else {
                    match lower_type(ty) {
                        Ok(t2) => {
                            let aname = match name {
                                Some(nm) => nm.clone(),
                                None => ("_").to_owned(),
                            };
                            let ghost before = args@;
                            args.push(FunctionArg { name: aname, type_: t2 });
                            proof {
                                assert(args_view(args@) =~= args_view(before).push(
                                    args@.last()@,
                                ));
                            }
                        },
                        Err(e) => {
                            proof {
                                lemma_args_err_mono(iv, variadic, i + 1, iv.len() as int);
                                assert(spec_lower_signature(sv) == Err::<SignatureV, LowerError>(
                                    e,
                                ));
                            }
                            return Err(e);
                        },
                    }
                }
            },
        }
        i += 1;
    }

    let ret = match &output {
        Some(t) => match lower_type(t) {
            Ok(t2) => t2,
            Err(e) => {
                proof {
                    assert(spec_lower_signature(sv) == Err::<SignatureV, LowerError>(e));
                }
                return Err(e);
            },
        },
        None => Type::void(),
    };

    let abi2 = match &abi {
        None => Abi::Rust,
        Some(None) => Abi::C,
        Some(Some(s)) => {
            if *s == ("Rust").to_owned() {
                Abi::Rust
            } else if *s == ("C").to_owned() {
                Abi::C
            } else {
                Abi::Other(s.clone())
            }
        },
    };

    Ok(
        Signature {
            abi: abi2,
            args,
            generics,
            is_async,
            is_const,
            is_unsafe,
            receiver,
            ret,
            variadic,
        },
    )
}

/// The struct item a written structure lowers to.
pub open spec fn spec_lower_struct(mod_vis: VisibilityV, sv: SynStructV) -> Result<
    StructItemV,
    LowerError,
> {
    let md0 = spec_lower_metadata(mod_vis, sv.vis, sv.attrs, sv.span);
    let md = MetadataV { extra_attributes: spec_extras_after_type(md0.extra_attributes), ..md0 };
    let tm = TypeMetadataV {
        repr: spec_repr(md0.extra_attributes),
        derives: spec_derives(md0.extra_attributes),
    };
    match spec_lower_fields(mod_vis, spec_fields_list(sv.fields)) {
        Ok(fs) => Ok(
            StructItemV {
                name: sv.name,
                metadata: md,
                type_metadata: tm,
                generics: sv.generics,
                kind: spec_kind_of(sv.fields),
                fields: fs,
            },
        ),
        Err(e) => Err(e),
    }
}

/// Lower a structure.
pub fn lower_struct(mod_vis: &Visibility, s: SynStruct) -> (r: Result<StructItem, LowerError>)
    ensures
        res_view(r) == spec_lower_struct(mod_vis@, s@),
{
    let SynStruct { vis, attrs, name, generics, fields, span } = s;
    let mut md = lower_metadata(mod_vis, vis, attrs, span);
    let tm = extract_type_metadata(&mut md);
    let kind = kind_of(&fields);
    let fs = match lower_fields(mod_vis, fields_list(fields)) {
        Ok(fs) => fs,
        Err(e) => {
            return Err(e);
        },
    };
    Ok(
        StructItem {
            name,
            metadata: md,
            type_metadata: tm,
            generics,
            kind,
            fields: fs,
            inherent_impl: InherentImpl {  },
        },
    )
}

/// One variant lowered; a variant's metadata takes the enum's own declared
/// visibility, so a variant is never more visible than its enum.
pub open spec fn spec_lower_variant(
    mod_vis: VisibilityV,
    evis: SynVis,
    v: SynVariantV,
) -> Result<EnumVariantV, LowerError> {
    match spec_lower_fields(mod_vis, spec_fields_list(v.fields)) {
        Ok(fs) => Ok(
            EnumVariantV {
                name: v.name,
                metadata: spec_lower_metadata(mod_vis, evis, v.attrs, v.span),
                kind: spec_kind_of(v.fields),
                fields: fs,
            },
        ),
        Err(e) => Err(e),
    }
}

/// Variants lowered in order; the first error wins.
pub open spec fn spec_lower_variants(
    mod_vis: VisibilityV,
    evis: SynVis,
    s: Seq<SynVariantV>,
) -> Result<Seq<EnumVariantV>, LowerError>
    decreases s.len(),
{
    if s.len() == 0 {
        Ok(Seq::empty())
    } else {
        match spec_lower_variants(mod_vis, evis, s.drop_last()) {
            Err(e) => Err(e),
            Ok(acc) => match spec_lower_variant(mod_vis, evis, s.last()) {
                Ok(v) => Ok(acc.push(v)),
                Err(e) => Err(e),
            },
        }
    }
}

proof fn lemma_lower_variants_err_mono(
    mod_vis: VisibilityV,
    evis: SynVis,
    s: Seq<SynVariantV>,
    i: int,
    j: int,
)
    requires
        0 <= i <= j <= s.len(),
        spec_lower_variants(mod_vis, evis, s.take(i)) is Err,
    ensures
        spec_lower_variants(mod_vis, evis, s.take(j)) == spec_lower_variants(
            mod_vis,
            evis,
            s.take(i),
        ),
    decreases j - i,
{
    if j > i {
        lemma_lower_variants_err_mono(mod_vis, evis, s, i, j - 1);
        assert(s.take(j).drop_last() =~= s.take(j - 1));
    }
}

/// The enum item a written enumeration lowers to.
pub open spec fn spec_lower_enum(mod_vis: VisibilityV, ev: SynEnumV) -> Result<
    EnumItemV,
    LowerError,
> {
    let md0 = spec_lower_metadata(mod_vis, ev.vis, ev.attrs, ev.span);
    let md = MetadataV { extra_attributes: spec_extras_after_type(md0.extra_attributes), ..md0 };
    let tm = TypeMetadataV {
        repr: spec_repr(md0.extra_attributes),
        derives: spec_derives(md0.extra_attributes),
    };
    match spec_lower_variants(mod_vis, ev.vis, ev.variants) {
        Ok(vs) => Ok(
            EnumItemV {
                name: ev.name,
                metadata: md,
                type_metadata: tm,
                generics: ev.generics,
                variants: vs,
            },
        ),
        Err(e) => Err(e),
    }
}

/// Lower an enumeration; each variant is lowered as a miniature structure.
#[verifier::loop_isolation(false)]
pub fn lower_enum(mod_vis: &Visibility, e: SynEnum) -> (r: Result<EnumItem, LowerError>)
    ensures
        res_view(r) == spec_lower_enum(mod_vis@, e@),
{
    let SynEnum { vis, attrs, name, generics, variants, span } = e;
    let mut md = lower_metadata(mod_vis, vis, attrs, span);
    let tm = extract_type_metadata(&mut md);

    let ghost ev = e@;
    let ghost v0 = syn_variants_view(variants@);
    let mut variants = variants;
    let mut out: Vec<EnumVariant> = Vec::new();
    let mut i: usize = 0;
    let n = variants.len();
    proof {
        assert(v0.take(0) =~= Seq::<SynVariantV>::empty());
        assert(variants_view(out@) =~= Seq::<EnumVariantV>::empty());
        assert(syn_variants_view(variants@).skip(0) =~= syn_variants_view(variants@));
    }
    while i < n
        invariant
            n == v0.len(),
            i <= n,
            variants@.len() == n - i,
            syn_variants_view(variants@) == v0.skip(i as int),
            vis == ev.vis,
            spec_lower_variants(mod_vis@, vis, v0.take(i as int)) == Ok::<
                Seq<EnumVariantV>,
                LowerError,
            >(variants_view(out@)),
        decreases n - i,
    {
        let ghost ps = variants@;
        let ghost pre = syn_variants_view(variants@);
        let v = variants.remove(0);
        let ghost vv = v@;
        proof {
            assert(vv == pre[0]);
            assert(vv == v0.skip(i as int)[0]);
            assert(vv == v0[i as int]);
            assert(variants@ =~= ps.drop_first());
            assert(syn_variants_view(variants@) =~= syn_variants_view(ps).skip(1));
            assert(v0.skip(i as int).skip(1) =~= v0.skip(i + 1));
            assert(syn_variants_view(variants@) == v0.skip(i + 1));
            assert(v0.take(i + 1).drop_last() =~= v0.take(i as int));
            assert(v0.take(i + 1).last() == v0[i as int]);
        }
        let SynVariant { attrs: vattrs, name: vname, fields: vfields, span: vspan } = v;
        let vkind = kind_of(&vfields);
        let vfs = match lower_fields(mod_vis, fields_list(vfields)) {
            Ok(fs) => fs,
            Err(err) => {
                proof {
                    lemma_lower_variants_err_mono(mod_vis@, vis, v0, i + 1, v0.len() as int);
                    assert(v0.take(v0.len() as int) =~= v0);
                }
                return Err(err);
            },
        };
        let vmd = lower_metadata(mod_vis, vis, vattrs, vspan);
        let ghost before = out@;
        out.push(EnumVariant { name: vname, metadata: vmd, kind: vkind, fields: vfs });
        proof {
            assert(variants_view(out@) =~= variants_view(before).push(out@.last()@));
        }
        i += 1;
    }
    proof {
        assert(v0.take(v0.len() as int) =~= v0);
    }
    Ok(
        EnumItem {
            name,
            metadata: md,
            type_metadata: tm,
            generics,
            variants: out,
            inherent_impl: InherentImpl {  },
        },
    )
}

/// The function item a written function lowers to.
pub open spec fn spec_lower_function_item(mod_vis: VisibilityV, fv: SynFunctionV) -> Result<
    FunctionItemV,
    LowerError,
> {
    let md0 = spec_lower_metadata(mod_vis, fv.vis, fv.attrs, fv.span);
    let md = MetadataV {
        extra_attributes: spec_extras_after_symbol(md0.extra_attributes),
        ..md0
    };
    let sm = SymbolMetadataV {
        no_mangle: spec_no_mangle(md0.extra_attributes),
        export_name: spec_assigned(md0.extra_attributes, ("export_name")@),
        link_section: spec_assigned(md0.extra_attributes, ("link_section")@),
    };
    match spec_lower_signature(fv.sig) {
        Ok(sg) => Ok(
            FunctionItemV { name: fv.sig.name, metadata: md, symbol_metadata: sm, signature: sg },
        ),
        Err(e) => Err(e),
    }
}

/// Lower a function item.
pub fn lower_function_item(mod_vis: &Visibility, f: SynFunction) -> (r: Result<
    FunctionItem,
    LowerError,
>)
    ensures
        res_view(r) == spec_lower_function_item(mod_vis@, f@),
{
    let SynFunction { vis, attrs, sig, span } = f;
    let mut md = lower_metadata(mod_vis, vis, attrs, span);
    let sm = extract_symbol_metadata(&mut md);
    let name = sig.name.clone();
    let signature = match lower_signature(sig) {
        Ok(sg) => sg,
        Err(e) => {
            return Err(e);
        },
    };
    Ok(FunctionItem { name, metadata: md, symbol_metadata: sm, signature })
}

} // verus!
