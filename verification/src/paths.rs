//! Canonical names: package identifiers, relative paths, absolute identities,
//! and the orders used to make query output deterministic.

use vstd::prelude::*;

verus! {

/// Relies on std's `String::push`: appends the given character to the end of
/// the string.
pub assume_specification[ String::push ](s: &mut String, ch: char)
    ensures
        final(s)@ == old(s)@.push(ch),
;

/// Relies on std's `String::push_str`: appends the given string slice to the
/// end of the string.
pub assume_specification[ String::push_str ](s: &mut String, other: &str)
    ensures
        final(s)@ == old(s)@ + other@,
;

/// A package identifier as a pair of character sequences.
pub ghost struct CrateIdV {
    pub name: Seq<char>,
    pub version: Seq<char>,
}

/// A package identifier: a package name together with its version.
/// Hyphens in names are normalized to underscores before a name is used as an
/// identifier segment (see [`normalize_crate_name`]).
#[derive(Clone, Debug, PartialEq)]
pub struct CrateId {
    pub name: String,
    pub version: String,
}

impl View for CrateId {
    type V = CrateIdV;

    open spec fn view(&self) -> CrateIdV {
        CrateIdV { name: self.name@, version: self.version@ }
    }
}

impl CrateId {
    pub fn new(name: &str, version: &str) -> (r: CrateId)
        ensures
            r@.name == name@,
            r@.version == version@,
    {
        CrateId { name: name.to_owned(), version: version.to_owned() }
    }

    pub fn eq_id(&self, other: &CrateId) -> (r: bool)
        ensures
            r == (self@ == other@),
    {
        let r = self.name == other.name && self.version == other.version;
        proof {
            if self.name@ == other.name@ && self.version@ == other.version@ {
                assert(self@ == other@);
            }
        }
        r
    }

    pub fn clone_id(&self) -> (r: CrateId)
        ensures
            r@ == self@,
    {
        CrateId { name: self.name.clone(), version: self.version.clone() }
    }
}

/// The sequence of character sequences a segment list denotes.
pub open spec fn path_view(p: Seq<String>) -> Seq<Seq<char>> {
    p.map_values(|s: String| s@)
}

/// Segment-by-segment equality of two relative paths.
pub fn path_eq(a: &Vec<String>, b: &Vec<String>) -> (r: bool)
    ensures
        r == (path_view(a@) == path_view(b@)),
{
    if a.len() != b.len() {
        assert(path_view(a@).len() != path_view(b@).len());
        return false;
    }
    let n = a.len();
    let mut i: usize = 0;
    while i < n
        invariant
            n == a.len() == b.len(),
            i <= n,
            forall|j: int| 0 <= j < i ==> a@[j]@ == b@[j]@,
        decreases n - i,
    {
        if a[i] != b[i] {
            assert(path_view(a@)[i as int] != path_view(b@)[i as int]);
            return false;
        }
        i += 1;
    }
    proof {
        assert(path_view(a@) =~= path_view(b@));
    }
    true
}

/// A copy of a segment list with the same view.
pub fn clone_path(p: &Vec<String>) -> (r: Vec<String>)
    ensures
        path_view(r@) == path_view(p@),
{
    let mut r: Vec<String> = Vec::new();
    let mut i: usize = 0;
    while i < p.len()
        invariant
            i <= p.len(),
            r.len() == i,
            forall|j: int| 0 <= j < i ==> r@[j]@ == p@[j]@,
        decreases p.len() - i,
    {
        r.push(p[i].clone());
        i += 1;
    }
    proof {
        assert(path_view(r@) =~= path_view(p@));
    }
    r
}

/// The path `p` extended by one trailing segment.
pub fn join_path(p: &Vec<String>, seg: &String) -> (r: Vec<String>)
    ensures
        path_view(r@) == path_view(p@).push(seg@),
{
    let mut r = clone_path(p);
    r.push(seg.clone());
    proof {
        assert(path_view(r@) =~= path_view(p@).push(seg@));
    }
    r
}

/// The path `p` without its last segment, or `None` at the root.
pub fn parent_path(p: &Vec<String>) -> (r: Option<Vec<String>>)
    ensures
        p@.len() == 0 ==> r is None,
        p@.len() > 0 ==> r is Some && path_view(r->Some_0@) == path_view(p@).drop_last(),
{
    if p.len() == 0 {
        return None;
    }
    let mut r: Vec<String> = Vec::new();
    let n = p.len() - 1;
    let mut i: usize = 0;
    while i < n
        invariant
            n < p.len(),
            i <= n,
            r.len() == i,
            forall|j: int| 0 <= j < i ==> r@[j]@ == p@[j]@,
        decreases n - i,
    {
        r.push(p[i].clone());
        i += 1;
    }
    proof {
        assert(path_view(r@) =~= path_view(p@).drop_last());
    }
    Some(r)
}

/// Whether `a` is a (non-strict) prefix of `b`.
pub open spec fn is_prefix_of(a: Seq<Seq<char>>, b: Seq<Seq<char>>) -> bool {
    a.len() <= b.len() && a == b.take(a.len() as int)
}

/// Prefix test on segment lists.
pub fn path_is_prefix(a: &Vec<String>, b: &Vec<String>) -> (r: bool)
    ensures
        r == is_prefix_of(path_view(a@), path_view(b@)),
{
    if a.len() > b.len() {
        return false;
    }
    let n = a.len();
    let mut i: usize = 0;
    while i < n
        invariant
            n == a.len(),
            n <= b.len(),
            i <= n,
            forall|j: int| 0 <= j < i ==> a@[j]@ == b@[j]@,
        decreases n - i,
    {
        if a[i] != b[i] {
            assert(path_view(a@)[i as int] != path_view(b@).take(n as int)[i as int]);
            return false;
        }
        i += 1;
    }
    proof {
        assert(path_view(a@) =~= path_view(b@).take(n as int));
    }
    true
}

/// An absolute path: a package identifier plus a relative path. Items are
/// keyed in the database by the identity of their definition site.
#[derive(Clone, Debug, PartialEq)]
pub struct Identity {
    pub crate_id: CrateId,
    pub path: Vec<String>,
}

pub ghost struct IdentityV {
    pub crate_id: CrateIdV,
    pub path: Seq<Seq<char>>,
}

impl View for Identity {
    type V = IdentityV;

    open spec fn view(&self) -> IdentityV {
        IdentityV { crate_id: self.crate_id@, path: path_view(self.path@) }
    }
}

impl Identity {
    /// The root identity of a package: its identifier with the empty path.
    pub fn root(crate_id: &CrateId) -> (r: Identity)
        ensures
            r@.crate_id == crate_id@,
            r@.path == Seq::<Seq<char>>::empty(),
    {
        let r = Identity { crate_id: crate_id.clone_id(), path: Vec::new() };
        proof {
            assert(path_view(Seq::<String>::empty()) =~= Seq::<Seq<char>>::empty());
        }
        r
    }

    pub fn new(crate_id: &CrateId, path: &Vec<String>) -> (r: Identity)
        ensures
            r@.crate_id == crate_id@,
            r@.path == path_view(path@),
    {
        Identity { crate_id: crate_id.clone_id(), path: clone_path(path) }
    }

    pub fn eq_identity(&self, other: &Identity) -> (r: bool)
        ensures
            r == (self@ == other@),
    {
        let r = self.crate_id.eq_id(&other.crate_id) && path_eq(&self.path, &other.path);
        proof {
            if self.crate_id@ == other.crate_id@ && path_view(self.path@) == path_view(
                other.path@,
            ) {
                assert(self@ == other@);
            }
        }
        r
    }

    pub fn clone_identity(&self) -> (r: Identity)
        ensures
            r@ == self@,
    {
        Identity { crate_id: self.crate_id.clone_id(), path: clone_path(&self.path) }
    }

    /// This identity extended by one trailing segment.
    pub fn join(&self, seg: &String) -> (r: Identity)
        ensures
            r@.crate_id == self@.crate_id,
            r@.path == self@.path.push(seg@),
    {
        Identity { crate_id: self.crate_id.clone_id(), path: join_path(&self.path, seg) }
    }
}

/// Strict lexicographic order on character sequences, by code point, with a
/// proper prefix ordered first.
pub open spec fn chars_lt(a: Seq<char>, b: Seq<char>) -> bool
    decreases a.len(),
{
    if a.len() == 0 {
        b.len() > 0
    } else if b.len() == 0 {
        false
    } else if a[0] != b[0] {
        a[0] < b[0]
    } else {
        chars_lt(a.drop_first(), b.drop_first())
    }
}

/// Strict lexicographic order on segment sequences, segment-wise by
/// [`chars_lt`], with a proper prefix ordered first.
pub open spec fn segs_lt(a: Seq<Seq<char>>, b: Seq<Seq<char>>) -> bool
    decreases a.len(),
{
    if a.len() == 0 {
        b.len() > 0
    } else if b.len() == 0 {
        false
    } else if a[0] != b[0] {
        chars_lt(a[0], b[0])
    } else {
        segs_lt(a.drop_first(), b.drop_first())
    }
}

/// Exactly one of `chars_lt(a, b)`, `a == b`, `chars_lt(b, a)` holds.
pub proof fn lemma_chars_lt_trichotomy(a: Seq<char>, b: Seq<char>)
    ensures
        chars_lt(a, b) || a == b || chars_lt(b, a),
        chars_lt(a, b) ==> a != b && !chars_lt(b, a),
        a == b ==> !chars_lt(a, b) && !chars_lt(b, a),
    decreases a.len(),
{
    if a.len() == 0 && b.len() == 0 {
        assert(a =~= b);
    } else if a.len() == 0 {
        assert(chars_lt(a, b));
    } else if b.len() == 0 {
        assert(chars_lt(b, a));
    } else if a[0] != b[0] {
    } else {
        lemma_chars_lt_trichotomy(a.drop_first(), b.drop_first());
        if a.drop_first() == b.drop_first() {
            assert forall|i: int| 0 <= i < a.len() implies a[i] == b[i] by {
                if i > 0 {
                    assert(a[i] == a.drop_first()[i - 1]);
                    assert(b[i] == b.drop_first()[i - 1]);
                }
            }
            assert(a =~= b);
        } else {
            assert(a != b);
        }
    }
}

pub proof fn lemma_chars_lt_transitive(a: Seq<char>, b: Seq<char>, c: Seq<char>)
    requires
        chars_lt(a, b),
        chars_lt(b, c),
    ensures
        chars_lt(a, c),
    decreases a.len(),
{
    if a.len() == 0 {
    } else {
        if a[0] == b[0] {
            if b[0] == c[0] {
                lemma_chars_lt_transitive(a.drop_first(), b.drop_first(), c.drop_first());
            }
        } else {
            if b[0] != c[0] {
            }
        }
    }
}

/// Exactly one of `segs_lt(a, b)`, `a == b`, `segs_lt(b, a)` holds.
pub proof fn lemma_segs_lt_trichotomy(a: Seq<Seq<char>>, b: Seq<Seq<char>>)
    ensures
        segs_lt(a, b) || a == b || segs_lt(b, a),
        segs_lt(a, b) ==> a != b && !segs_lt(b, a),
        a == b ==> !segs_lt(a, b) && !segs_lt(b, a),
    decreases a.len(),
{
    if a.len() == 0 && b.len() == 0 {
        assert(a =~= b);
    } else if a.len() == 0 {
        assert(segs_lt(a, b));
    } else if b.len() == 0 {
        assert(segs_lt(b, a));
    } else if a[0] != b[0] {
        lemma_chars_lt_trichotomy(a[0], b[0]);
    } else {
        lemma_segs_lt_trichotomy(a.drop_first(), b.drop_first());
        if a.drop_first() == b.drop_first() {
            assert forall|i: int| 0 <= i < a.len() implies a[i] == b[i] by {
                if i > 0 {
                    assert(a[i] == a.drop_first()[i - 1]);
                    assert(b[i] == b.drop_first()[i - 1]);
                }
            }
            assert(a =~= b);
        } else {
            assert(a != b);
        }
    }
}

pub proof fn lemma_segs_lt_transitive(a: Seq<Seq<char>>, b: Seq<Seq<char>>, c: Seq<Seq<char>>)
    requires
        segs_lt(a, b),
        segs_lt(b, c),
    ensures
        segs_lt(a, c),
    decreases a.len(),
{
    if a.len() == 0 {
    } else {
        if a[0] == b[0] {
            if b[0] == c[0] {
                lemma_segs_lt_transitive(a.drop_first(), b.drop_first(), c.drop_first());
            }
        } else {
            if b[0] != c[0] {
                lemma_chars_lt_trichotomy(a[0], b[0]);
                lemma_chars_lt_trichotomy(b[0], c[0]);
                if a[0] != c[0] {
                    lemma_chars_lt_transitive(a[0], b[0], c[0]);
                }
            }
        }
    }
}

/// Lexicographic comparison of two strings; `r` says whether `a` is strictly
/// first.
pub fn str_lt(a: &String, b: &String) -> (r: bool)
    ensures
        r == chars_lt(a@, b@),
{
    let alen = a.as_str().unicode_len();
    let blen = b.as_str().unicode_len();
    let mut i: usize = 0;
    proof {
        assert(a@.skip(0) =~= a@);
        assert(b@.skip(0) =~= b@);
        assert(a@.take(0) =~= b@.take(0));
    }
    loop
        invariant
            alen == a@.len(),
            blen == b@.len(),
            i <= alen,
            i <= blen,
            a@.take(i as int) == b@.take(i as int),
            chars_lt(a@, b@) == chars_lt(a@.skip(i as int), b@.skip(i as int)),
        decreases alen - i,
    {
        if i >= alen {
            assert(a@.skip(i as int).len() == 0);
            return blen > i;
        }
        if i >= blen {
            assert(b@.skip(i as int).len() == 0);
            return false;
        }
        let ca = a.as_str().get_char(i);
        let cb = b.as_str().get_char(i);
        proof {
            assert(a@.skip(i as int)[0] == a@[i as int]);
            assert(b@.skip(i as int)[0] == b@[i as int]);
        }
        if ca != cb {
            return ca < cb;
        }
        proof {
            assert(a@.skip(i as int).drop_first() =~= a@.skip(i + 1));
            assert(b@.skip(i as int).drop_first() =~= b@.skip(i + 1));
            assert(a@.take(i + 1) =~= a@.take(i as int).push(a@[i as int]));
            assert(b@.take(i + 1) =~= b@.take(i as int).push(b@[i as int]));
        }
        i += 1;
    }
}

/// Lexicographic comparison of two segment lists; `r` says whether `a` is
/// strictly first.
pub fn path_lt(a: &Vec<String>, b: &Vec<String>) -> (r: bool)
    ensures
        r == segs_lt(path_view(a@), path_view(b@)),
{
    let mut i: usize = 0;
    proof {
        assert(path_view(a@).skip(0) =~= path_view(a@));
        assert(path_view(b@).skip(0) =~= path_view(b@));
        assert(path_view(a@).take(0) =~= path_view(b@).take(0));
    }
    loop
        invariant
            i <= a.len(),
            i <= b.len(),
            path_view(a@).take(i as int) == path_view(b@).take(i as int),
            segs_lt(path_view(a@), path_view(b@)) == segs_lt(
                path_view(a@).skip(i as int),
                path_view(b@).skip(i as int),
            ),
        decreases a.len() - i,
    {
        if i >= a.len() {
            assert(path_view(a@).skip(i as int).len() == 0);
            return b.len() > i;
        }
        if i >= b.len() {
            assert(path_view(b@).skip(i as int).len() == 0);
            return false;
        }
        proof {
            assert(path_view(a@).skip(i as int)[0] == path_view(a@)[i as int]);
            assert(path_view(b@).skip(i as int)[0] == path_view(b@)[i as int]);
        }
        if a[i] != b[i] {
            proof {
                lemma_chars_lt_trichotomy(a@[i as int]@, b@[i as int]@);
            }
            return str_lt(&a[i], &b[i]);
        }
        proof {
            assert(path_view(a@).skip(i as int).drop_first() =~= path_view(a@).skip(i + 1));
            assert(path_view(b@).skip(i as int).drop_first() =~= path_view(b@).skip(i + 1));
            assert(path_view(a@).take(i + 1) =~= path_view(a@).take(i as int).push(
                path_view(a@)[i as int],
            ));
            assert(path_view(b@).take(i + 1) =~= path_view(b@).take(i as int).push(
                path_view(b@)[i as int],
            ));
        }
        i += 1;
    }
}

/// A package name with every hyphen replaced by an underscore, the form a
/// name takes when used as an identifier segment.
pub open spec fn normalized_name(s: Seq<char>) -> Seq<char> {
    s.map_values(|c: char| if c == '-' { '_' } else { c })
}

/// Normalize a package name for use as an identifier segment.
pub fn normalize_crate_name(name: &String) -> (r: String)
    ensures
        r@ == normalized_name(name@),
{
    let n = name.as_str().unicode_len();
    let mut r = String::new();
    let mut i: usize = 0;
    while i < n
        invariant
            n == name@.len(),
            i <= n,
            r@ == normalized_name(name@).take(i as int),
        decreases n - i,
    {
        let c = name.as_str().get_char(i);
        if c == '-' {
            r.push('_');
        } else {
            r.push(c);
        }
        proof {
            assert(r@ =~= normalized_name(name@).take(i + 1));
        }
        i += 1;
    }
    proof {
        assert(normalized_name(name@).take(n as int) =~= normalized_name(name@));
    }
    r
}

/// A possibly-unresolved path as written in source: a plain list of
/// identifier segments.
#[derive(Clone, Debug, PartialEq)]
pub struct Path {
    pub segments: Vec<String>,
}

impl View for Path {
    type V = Seq<Seq<char>>;

    open spec fn view(&self) -> Seq<Seq<char>> {
        path_view(self.segments@)
    }
}

impl Path {
    /// A path of a single segment.
    pub fn fake(seg: &str) -> (r: Path)
        ensures
            r@ == seq![seg@],
    {
        let mut segments: Vec<String> = Vec::new();
        segments.push(seg.to_owned());
        let r = Path { segments };
        proof {
            assert(r@ =~= seq![seg@]);
        }
        r
    }

    /// A path of a single, owned segment.
    pub fn ident(seg: String) -> (r: Path)
        ensures
            r@ == seq![seg@],
    {
        let ghost s = seg@;
        let mut segments: Vec<String> = Vec::new();
        segments.push(seg);
        let r = Path { segments };
        proof {
            assert(r@ =~= seq![s]);
        }
        r
    }

    pub fn clone_pth(&self) -> (r: Path)
        ensures
            r@ == self@,
    {
        Path { segments: clone_path(&self.segments) }
    }

    pub fn eq_path(&self, other: &Path) -> (r: bool)
        ensures
            r == (self@ == other@),
    {
        path_eq(&self.segments, &other.segments)
    }

    /// The single segment of a one-segment path.
    pub fn get_ident(&self) -> (r: Option<&String>)
        ensures
            self@.len() == 1 ==> r is Some && r->Some_0@ == self@[0],
            self@.len() != 1 ==> r is None,
    {
        if self.segments.len() == 1 {
            Some(&self.segments[0])
        } else {
            None
        }
    }
}

} // verus!
