//! Item metadata: visibility, documentation, deprecation, and uninterpreted
//! extra attributes, each either a structured meta form or an opaque token
//! bag.

use vstd::prelude::*;

use crate::paths::{Identity, IdentityV, Path};
use crate::tokens::{TokenV, Tokens};

verus! {

broadcast use vstd::seq::axiom_seq_index_decreases;

/// A source position: file plus line and column of the item.
#[derive(Clone, Debug, PartialEq)]
pub struct Span {
    pub file: String,
    pub line: u64,
    pub column: u64,
}

pub ghost struct SpanV {
    pub file: Seq<char>,
    pub line: u64,
    pub column: u64,
}

impl View for Span {
    type V = SpanV;

    open spec fn view(&self) -> SpanV {
        SpanV { file: self.file@, line: self.line, column: self.column }
    }
}

impl Span {
    pub fn new(file: &str, line: u64, column: u64) -> (r: Span)
        ensures
            r@ == (SpanV { file: file@, line, column }),
    {
        Span { file: file.to_owned(), line, column }
    }

    pub fn clone_span(&self) -> (r: Span)
        ensures
            r@ == self@,
    {
        Span { file: self.file.clone(), line: self.line, column: self.column }
    }
}

/// Visibility of an item or binding: public, non-public, or restricted to the
/// subtree below a given identity.
#[derive(Clone, Debug, PartialEq)]
pub enum Visibility {
    Pub,
    NonPub,
    InScope(Identity),
}

pub ghost enum VisibilityV {
    Pub,
    NonPub,
    InScope(IdentityV),
}

impl View for Visibility {
    type V = VisibilityV;

    open spec fn view(&self) -> VisibilityV {
        match self {
            Visibility::Pub => VisibilityV::Pub,
            Visibility::NonPub => VisibilityV::NonPub,
            Visibility::InScope(id) => VisibilityV::InScope(id@),
        }
    }
}

impl Visibility {
    pub fn is_pub(&self) -> (r: bool)
        ensures
            r == (self@ is Pub),
    {
        match self {
            Visibility::Pub => true,
            _ => false,
        }
    }

    pub fn is_non_pub(&self) -> (r: bool)
        ensures
            r == (self@ is NonPub),
    {
        match self {
            Visibility::NonPub => true,
            _ => false,
        }
    }

    pub fn clone_vis(&self) -> (r: Visibility)
        ensures
            r@ == self@,
    {
        match self {
            Visibility::Pub => Visibility::Pub,
            Visibility::NonPub => Visibility::NonPub,
            Visibility::InScope(id) => Visibility::InScope(id.clone_identity()),
        }
    }
}

/// A deprecation notice, with optional version and note.
#[derive(Clone, Debug, PartialEq)]
pub struct Deprecation {
    pub since: Option<String>,
    pub note: Option<String>,
}

pub ghost struct DeprecationV {
    pub since: Option<Seq<char>>,
    pub note: Option<Seq<char>>,
}

/// The view of an optional string.
pub open spec fn opt_str_view(o: Option<String>) -> Option<Seq<char>> {
    match o {
        Some(s) => Some(s@),
        None => None,
    }
}

impl View for Deprecation {
    type V = DeprecationV;

    open spec fn view(&self) -> DeprecationV {
        DeprecationV { since: opt_str_view(self.since), note: opt_str_view(self.note) }
    }
}

/// A structured attribute body: a path, a path with an assigned literal, or a
/// path applied to arguments.
pub enum Meta {
    Path(Path),
    Assign { path: Path, literal: Tokens },
    Call { path: Path, args: Vec<MetaInner> },
}

/// One argument of a `Meta::Call`.
pub enum MetaInner {
    Meta(Meta),
    Literal(Tokens),
}

pub ghost enum MetaV {
    Path(Seq<Seq<char>>),
    Assign { path: Seq<Seq<char>>, literal: Seq<TokenV> },
    Call { path: Seq<Seq<char>>, args: Seq<MetaInnerV> },
}

pub ghost enum MetaInnerV {
    Meta(MetaV),
    Literal(Seq<TokenV>),
}

pub open spec fn meta_view(m: Meta) -> MetaV
    decreases m,
{
    match m {
        Meta::Path(p) => MetaV::Path(p@),
        Meta::Assign { path, literal } => MetaV::Assign { path: path@, literal: literal@ },
        Meta::Call { path, args } => MetaV::Call {
            path: path@,
            args: metainners_view(args@),
        },
    }
}

pub open spec fn metainners_view(s: Seq<MetaInner>) -> Seq<MetaInnerV>
    decreases s,
{
    if s.len() == 0 {
        Seq::empty()
    } else {
        metainners_view(s.drop_last()).push(metainner_view(s.last()))
    }
}

pub open spec fn metainner_view(mi: MetaInner) -> MetaInnerV
    decreases mi,
{
    match mi {
        MetaInner::Meta(m) => MetaInnerV::Meta(meta_view(m)),
        MetaInner::Literal(t) => MetaInnerV::Literal(t@),
    }
}

pub proof fn lemma_metainners_view_len(s: Seq<MetaInner>)
    ensures
        metainners_view(s).len() == s.len(),
    decreases s,
{
    if s.len() > 0 {
        lemma_metainners_view_len(s.drop_last());
    }
}

pub proof fn lemma_metainners_view_index(s: Seq<MetaInner>, i: int)
    requires
        0 <= i < s.len(),
    ensures
        metainners_view(s).len() == s.len(),
        metainners_view(s)[i] == metainner_view(s[i]),
    decreases s,
{
    lemma_metainners_view_len(s);
    if i < s.len() - 1 {
        lemma_metainners_view_index(s.drop_last(), i);
    }
}

impl View for Meta {
    type V = MetaV;

    open spec fn view(&self) -> MetaV {
        meta_view(*self)
    }
}

impl View for MetaInner {
    type V = MetaInnerV;

    open spec fn view(&self) -> MetaInnerV {
        metainner_view(*self)
    }
}

/// An attribute: a structured meta form where one parses, otherwise an opaque
/// token bag under a path.
pub enum Attribute {
    Meta(Meta),
    Other { path: Path, input: Tokens },
}

pub ghost enum AttributeV {
    Meta(MetaV),
    Other { path: Seq<Seq<char>>, input: Seq<TokenV> },
}

impl View for Attribute {
    type V = AttributeV;

    open spec fn view(&self) -> AttributeV {
        match self {
            Attribute::Meta(m) => AttributeV::Meta(meta_view(*m)),
            Attribute::Other { path, input } => AttributeV::Other {
                path: path.view(),
                input: input.view(),
            },
        }
    }
}

/// The views of an attribute list.
pub open spec fn attrs_view(s: Seq<Attribute>) -> Seq<AttributeV> {
    s.map_values(|a: Attribute| a@)
}

/// The path a meta form is headed by.
pub open spec fn spec_meta_path(m: MetaV) -> Seq<Seq<char>> {
    match m {
        MetaV::Path(p) => p,
        MetaV::Assign { path, .. } => path,
        MetaV::Call { path, .. } => path,
    }
}

/// The path an attribute is headed by.
pub open spec fn spec_attr_path(a: AttributeV) -> Seq<Seq<char>> {
    match a {
        AttributeV::Meta(m) => spec_meta_path(m),
        AttributeV::Other { path, .. } => path,
    }
}

impl Meta {
    /// The path this meta form is headed by.
    pub fn path(&self) -> (r: &Path)
        ensures
            r@ == spec_meta_path(self@),
    {
        match self {
            Meta::Path(p) => p,
            Meta::Assign { path, .. } => path,
            Meta::Call { path, .. } => path,
        }
    }
}

impl Attribute {
    /// The path this attribute is headed by.
    pub fn path(&self) -> (r: &Path)
        ensures
            r@ == spec_attr_path(self@),
    {
        match self {
            Attribute::Meta(m) => m.path(),
            Attribute::Other { path, .. } => path,
        }
    }

    /// Whether this attribute names exactly the one-segment path `s`.
    pub fn is_named(&self, s: &str) -> (r: bool)
        ensures
            r == (spec_attr_path(self@) == seq![s@]),
    {
        let p = self.path();
        match p.get_ident() {
            Some(seg) => {
                let r = *seg == s.to_owned();
                proof {
                    if seg@ == s@ {
                        assert(p@ =~= seq![s@]);
                    } else {
                        assert(p@[0] != seq![s@][0]);
                    }
                }
                r
            },
            None => {
                proof {
                    assert(p@.len() != seq![s@].len());
                }
                false
            },
        }
    }
}

/// Metadata common to every item: visibility, documentation, the `must_use`
/// note, deprecation, uninterpreted extra attributes, and the source span.
pub struct Metadata {
    pub visibility: Visibility,
    pub docs: Option<String>,
    pub must_use: Option<String>,
    pub deprecated: Option<Deprecation>,
    pub extra_attributes: Vec<Attribute>,
    pub span: Span,
}

pub ghost struct MetadataV {
    pub visibility: VisibilityV,
    pub docs: Option<Seq<char>>,
    pub must_use: Option<Seq<char>>,
    pub deprecated: Option<DeprecationV>,
    pub extra_attributes: Seq<AttributeV>,
    pub span: SpanV,
}

impl View for Metadata {
    type V = MetadataV;

    open spec fn view(&self) -> MetadataV {
        MetadataV {
            visibility: self.visibility@,
            docs: opt_str_view(self.docs),
            must_use: opt_str_view(self.must_use),
            deprecated: match self.deprecated {
                Some(d) => Some(d@),
                None => None,
            },
            extra_attributes: attrs_view(self.extra_attributes@),
            span: self.span@,
        }
    }
}

impl Metadata {
    /// A public metadata value with an empty span, for building inputs by
    /// hand.
    pub fn fake() -> (r: Metadata)
        ensures
            r@.visibility == VisibilityV::Pub,
            r@.docs is None,
            r@.must_use is None,
            r@.deprecated is None,
            r@.extra_attributes == Seq::<AttributeV>::empty(),
    {
        let r = Metadata {
            visibility: Visibility::Pub,
            docs: None,
            must_use: None,
            deprecated: None,
            extra_attributes: Vec::new(),
            span: Span::new("", 0, 0),
        };
        proof {
            assert(attrs_view(Seq::<Attribute>::empty()) =~= Seq::<AttributeV>::empty());
        }
        r
    }
}

/// Every database item exposes its metadata and its name.
pub trait HasMetadata {
    /// The metadata of this item, at the spec level.
    spec fn spec_metadata(&self) -> MetadataV;

    /// The name of this item, at the spec level.
    spec fn spec_name(&self) -> Seq<char>;

    fn metadata(&self) -> (r: &Metadata)
        ensures
            r@ == self.spec_metadata(),
    ;

    fn item_name(&self) -> (r: &String)
        ensures
            r@ == self.spec_name(),
    ;
}

pub fn clone_opt_string(o: &Option<String>) -> (r: Option<String>)
    ensures
        opt_str_view(r) == opt_str_view(*o),
{
    match o {
        Some(s) => Some(s.clone()),
        None => None,
    }
}

impl Deprecation {
    pub fn clone_dep(&self) -> (r: Deprecation)
        ensures
            r@ == self@,
    {
        Deprecation { since: clone_opt_string(&self.since), note: clone_opt_string(&self.note) }
    }
}

pub fn clone_meta(m: &Meta) -> (r: Meta)
    ensures
        meta_view(r) == meta_view(*m),
    decreases *m,
{
    match m {
        Meta::Path(p) => Meta::Path(p.clone_pth()),
        Meta::Assign { path, literal } => Meta::Assign {
            path: path.clone_pth(),
            literal: literal.clone_toks(),
        },
        Meta::Call { path, args } => {
            let mut out: Vec<MetaInner> = Vec::new();
            let mut i: usize = 0;
            while i < args.len()
                invariant
                    i <= args.len(),
                    out@.len() == i,
                    *m == (Meta::Call { path: *path, args: *args }),
                    forall|j: int|
                        0 <= j < i ==> metainner_view(#[trigger] out@[j]) == metainner_view(
                            args@[j],
                        ),
                decreases args@.len() - i,
            {
                proof {
                    assert(decreases_to!(*m => m->Call_args));
                    assert(m->Call_args == *args);
                    assert(decreases_to!(*args => args@));
                    assert(decreases_to!(args@ => args@[i as int]));
                    assert(decreases_to!(*m => args@[i as int]));
                }
                let c = clone_metainner(&args[i]);
                out.push(c);
                i += 1;
            }
            let r = Meta::Call { path: path.clone_pth(), args: out };
            proof {
                lemma_metainners_view_len(out@);
                lemma_metainners_view_len(args@);
                assert forall|j: int| 0 <= j < out@.len() implies metainners_view(out@)[j]
                    == metainners_view(args@)[j] by {
                    lemma_metainners_view_index(out@, j);
                    lemma_metainners_view_index(args@, j);
                }
                assert(metainners_view(out@) =~= metainners_view(args@));
            }
            r
        },
    }
}

pub fn clone_metainner(mi: &MetaInner) -> (r: MetaInner)
    ensures
        metainner_view(r) == metainner_view(*mi),
    decreases *mi,
{
    match mi {
        MetaInner::Meta(m) => MetaInner::Meta(clone_meta(m)),
        MetaInner::Literal(t) => MetaInner::Literal(t.clone_toks()),
    }
}

pub fn clone_attribute(a: &Attribute) -> (r: Attribute)
    ensures
        r@ == a@,
{
    match a {
        Attribute::Meta(m) => Attribute::Meta(clone_meta(m)),
        Attribute::Other { path, input } => Attribute::Other {
            path: path.clone_pth(),
            input: input.clone_toks(),
        },
    }
}

pub fn clone_attributes(s: &Vec<Attribute>) -> (r: Vec<Attribute>)
    ensures
        attrs_view(r@) == attrs_view(s@),
{
    let mut r: Vec<Attribute> = Vec::new();
    let mut i: usize = 0;
    while i < s.len()
        invariant
            i <= s.len(),
            r@.len() == i,
            forall|j: int| 0 <= j < i ==> r@[j]@ == s@[j]@,
        decreases s.len() - i,
    {
        r.push(clone_attribute(&s[i]));
        i += 1;
    }
    proof {
        assert(attrs_view(r@) =~= attrs_view(s@));
    }
    r
}

impl Metadata {
    pub fn clone_meta(&self) -> (r: Metadata)
        ensures
            r@ == self@,
    {
        Metadata {
            visibility: self.visibility.clone_vis(),
            docs: clone_opt_string(&self.docs),
            must_use: clone_opt_string(&self.must_use),
            deprecated: match &self.deprecated {
                Some(d) => Some(d.clone_dep()),
                None => None,
            },
            extra_attributes: clone_attributes(&self.extra_attributes),
            span: self.span.clone_span(),
        }
    }
}

} // verus!
