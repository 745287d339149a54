//! Semantic versions: what they are made of and which of two is the newer.
use vstd::prelude::*;

use crate::text::{lemma_pieces_nonempty, pieces};

verus! {

/// What a version says.
pub ghost struct VersionView {
    pub major: u64,
    pub minor: u64,
    pub patch: u64,
    pub pre: Seq<char>,
    pub build: Seq<char>,
}

/// A decimal digit.
pub open spec fn digit(c: char) -> bool {
    '0' <= c && c <= '9'
}

/// A character that identifiers are made of.
pub open spec fn identifier_char(c: char) -> bool {
    digit(c) || ('A' <= c && c <= 'Z') || ('a' <= c && c <= 'z') || c == '-'
}

/// An identifier of digits only.
pub open spec fn numeric(id: Seq<char>) -> bool {
    forall|i: int| 0 <= i < id.len() ==> digit(#[trigger] id[i])
}

/// An identifier: not empty, and of the right characters.
pub open spec fn identifier(id: Seq<char>) -> bool {
    id.len() > 0 && forall|i: int| 0 <= i < id.len() ==> identifier_char(#[trigger] id[i])
}

/// Build metadata: nothing, or identifiers with dots between them.
pub open spec fn valid_build(text: Seq<char>) -> bool {
    text.len() == 0 || forall|i: int|
        0 <= i < pieces(text, '.').len() ==> identifier(#[trigger] pieces(text, '.')[i])
}

/// A pre-release label: as build metadata, but no number in it has a leading zero.
pub open spec fn valid_prerelease(text: Seq<char>) -> bool {
    valid_build(text) && forall|i: int|
        0 <= i < pieces(text, '.').len() && numeric(#[trigger] pieces(text, '.')[i]) ==> pieces(
            text,
            '.',
        )[i].len() <= 1 || pieces(text, '.')[i][0] != '0'
}

/// Both labels of the version are well formed.
pub open spec fn valid_version(v: VersionView) -> bool {
    valid_prerelease(v.pre) && valid_build(v.build)
}

/// `a` comes before `b` in the order of dictionaries, `less` being the order of the letters.
pub open spec fn lexicographic<T>(a: Seq<T>, b: Seq<T>, less: spec_fn(T, T) -> bool) -> bool {
    exists|k: int| decides_at(a, b, less, k)
}

/// `a` and `b` agree before position `k`, and there `a` ends or has the lesser letter.
pub open spec fn decides_at<T>(
    a: Seq<T>,
    b: Seq<T>,
    less: spec_fn(T, T) -> bool,
    k: int,
) -> bool {
    &&& 0 <= k <= a.len()
    &&& k < b.len()
    &&& a.take(k) == b.take(k)
    &&& k == a.len() || less(a[k], b[k])
}

/// The order of characters.
pub open spec fn char_less() -> spec_fn(char, char) -> bool {
    |a: char, b: char| a < b
}

/// A number without its leading zeros.
pub open spec fn significant(id: Seq<char>) -> Seq<char>
    decreases id.len(),
{
    if id.len() > 0 && id[0] == '0' {
        significant(id.drop_first())
    } else {
        id
    }
}

/// The order of numbers: by value, then by the count of leading zeros.
pub open spec fn number_less(a: Seq<char>, b: Seq<char>) -> bool {
    let x = significant(a);
    let y = significant(b);
    if x.len() != y.len() {
        x.len() < y.len()
    } else if x != y {
        lexicographic(x, y, char_less())
    } else {
        a.len() < b.len()
    }
}

/// The order of identifiers: numbers by value and before all others, the others by their
/// characters.
pub open spec fn identifier_less() -> spec_fn(Seq<char>, Seq<char>) -> bool {
    |a: Seq<char>, b: Seq<char>|
        if numeric(a) && numeric(b) {
            number_less(a, b)
        } else if numeric(a) || numeric(b) {
            numeric(a)
        } else {
            lexicographic(a, b, char_less())
        }
}

/// The order of labels: that of their dot-separated identifiers.
pub open spec fn label_less(a: Seq<char>, b: Seq<char>) -> bool {
    lexicographic(pieces(a, '.'), pieces(b, '.'), identifier_less())
}

/// The order of pre-release labels: a version that has one comes before the release.
pub open spec fn prerelease_less(a: Seq<char>, b: Seq<char>) -> bool {
    a.len() > 0 && (b.len() == 0 || label_less(a, b))
}

/// `a` is older than `b`.
pub open spec fn version_less(a: VersionView, b: VersionView) -> bool {
    if a.major != b.major {
        a.major < b.major
    } else if a.minor != b.minor {
        a.minor < b.minor
    } else if a.patch != b.patch {
        a.patch < b.patch
    } else if a.pre != b.pre {
        prerelease_less(a.pre, b.pre)
    } else {
        label_less(a.build, b.build)
    }
}

/// `a` is `b` or older than it.
pub open spec fn version_le(a: VersionView, b: VersionView) -> bool {
    a == b || version_less(a, b)
}

/// A number in decimal notation.
pub open spec fn decimal(n: nat) -> Seq<char>
    decreases n,
{
    let last = (48 + n % 10) as char;
    if n < 10 {
        seq![last]
    } else {
        decimal(n / 10).push(last)
    }
}

/// The usual notation of a version: `1.2.3-alpha.1+build`.
pub open spec fn version_text(v: VersionView) -> Seq<char> {
    decimal(v.major as nat) + "."@ + decimal(v.minor as nat) + "."@ + decimal(v.patch as nat) + (
    if v.pre.len() > 0 {
        "-"@ + v.pre
    } else {
        ""@
    }) + (if v.build.len() > 0 {
        "+"@ + v.build
    } else {
        ""@
    })
}

/// `semver::Prerelease::new`: whether it takes the text, which it does for the dot-separated
/// identifiers that its documentation describes, and for the empty text.
#[verifier::external_body]
fn prerelease_accepted(text: &str) -> (accepted: bool)
    ensures
        accepted == valid_prerelease(text@),
{
    semver::Prerelease::new(text).is_ok()
}

/// `semver::BuildMetadata::new`: whether it takes the text, which it does for the
/// dot-separated identifiers that its documentation describes, and for the empty text.
#[verifier::external_body]
fn build_accepted(text: &str) -> (accepted: bool)
    ensures
        accepted == valid_build(text@),
{
    semver::BuildMetadata::new(text).is_ok()
}

/// `<=` of `semver::Version`, on the versions with these numbers and labels: the total order
/// that its documentation describes. Valid labels are what its constructors take.
#[verifier::external_body]
fn semver_le(a: &Version, b: &Version) -> (le: bool)
    requires
        valid_version(a@),
        valid_version(b@),
    ensures
        le == version_le(a@, b@),
{
    let mut left = semver::Version::new(a.major, a.minor, a.patch);
    left.pre = semver::Prerelease::new(&a.pre).unwrap();
    left.build = semver::BuildMetadata::new(&a.build).unwrap();
    let mut right = semver::Version::new(b.major, b.minor, b.patch);
    right.pre = semver::Prerelease::new(&b.pre).unwrap();
    right.build = semver::BuildMetadata::new(&b.build).unwrap();
    left <= right
}

/// The `Display` of `semver::Version`, for the version with these numbers and labels: the
/// numbers in decimal notation with dots between them, then each label that is not empty
/// behind its sign.
#[verifier::external_body]
fn semver_text(v: &Version) -> (text: String)
    requires
        valid_version(v@),
    ensures
        text@ == version_text(v@),
{
    let mut version = semver::Version::new(v.major, v.minor, v.patch);
    version.pre = semver::Prerelease::new(&v.pre).unwrap();
    version.build = semver::BuildMetadata::new(&v.build).unwrap();
    version.to_string()
}

/// A semantic version. Both of its labels are always well formed.
#[derive(Debug, PartialEq, Eq)]
pub struct Version {
    major: u64,
    minor: u64,
    patch: u64,
    pre: String,
    build: String,
}

impl View for Version {
    type V = VersionView;

    closed spec fn view(&self) -> VersionView {
        VersionView {
            major: self.major,
            minor: self.minor,
            patch: self.patch,
            pre: self.pre@,
            build: self.build@,
        }
    }
}

impl Clone for Version {
    fn clone(&self) -> (copy: Self)
        ensures
            copy == *self,
    {
        proof {
            use_type_invariant(self);
        }
        Version {
            major: self.major,
            minor: self.minor,
            patch: self.patch,
            pre: self.pre.clone(),
            build: self.build.clone(),
        }
    }
}

impl Version {
    #[verifier::type_invariant]
    spec fn well_formed(self) -> bool {
        valid_version(self@)
    }

    /// The release with these numbers.
    pub fn new(major: u64, minor: u64, patch: u64) -> (v: Self)
        ensures
            v@ == (VersionView { major, minor, patch, pre: Seq::empty(), build: Seq::empty() }),
    {
        proof {
            assert(pieces(Seq::empty(), '.') =~= seq![Seq::<char>::empty()]);
        }
        Version { major, minor, patch, pre: String::new(), build: String::new() }
    }

    /// The version with these numbers, pre-release label and build metadata. A label that is
    /// not well formed makes none.
    pub fn with_labels(major: u64, minor: u64, patch: u64, pre: &str, build: &str) -> (v: Option<
        Self,
    >)
        ensures
            v is Some <==> valid_prerelease(pre@) && valid_build(build@),
            v matches Some(v) ==> v@ == (VersionView {
                major,
                minor,
                patch,
                pre: pre@,
                build: build@,
            }),
    {
        if prerelease_accepted(pre) && build_accepted(build) {
            Some(Version { major, minor, patch, pre: pre.to_owned(), build: build.to_owned() })
        } else {
            None
        }
    }

    /// Whether this version is `other` or older.
    pub fn is_at_most(&self, other: &Version) -> (le: bool)
        ensures
            le == version_le(self@, other@),
    {
        proof {
            use_type_invariant(self);
            use_type_invariant(other);
        }
        semver_le(self, other)
    }

    /// The first number.
    pub fn major(&self) -> (n: u64)
        ensures
            n == self@.major,
    {
        self.major
    }

    /// The second number.
    pub fn minor(&self) -> (n: u64)
        ensures
            n == self@.minor,
    {
        self.minor
    }

    /// The third number.
    pub fn patch(&self) -> (n: u64)
        ensures
            n == self@.patch,
    {
        self.patch
    }

    /// The pre-release label; empty for a release.
    pub fn pre(&self) -> (text: &str)
        ensures
            text@ == self@.pre,
    {
        self.pre.as_str()
    }

    /// The build metadata; empty where there is none.
    pub fn build(&self) -> (text: &str)
        ensures
            text@ == self@.build,
    {
        self.build.as_str()
    }

    /// The usual notation of the version.
    pub fn to_text(&self) -> (text: String)
        ensures
            text@ == version_text(self@),
    {
        proof {
            use_type_invariant(self);
        }
        semver_text(self)
    }
}

/// `less` is a strict total order.
pub open spec fn strict_total<T>(less: spec_fn(T, T) -> bool) -> bool {
    &&& forall|a: T| !#[trigger] less(a, a)
    &&& forall|a: T, b: T, c: T| #[trigger] less(a, b) && #[trigger] less(b, c) ==> less(a, c)
    &&& forall|a: T, b: T| a == b || #[trigger] less(a, b) || less(b, a)
}

/// Sequences that agree so far agree on each shorter stretch.
proof fn lemma_agree<T>(a: Seq<T>, b: Seq<T>, k: int, j: int)
    requires
        0 <= j <= k <= a.len(),
        k <= b.len(),
        a.take(k) == b.take(k),
    ensures
        a.take(j) == b.take(j),
        j < k ==> a[j] == b[j],
{
    assert(a.take(j) =~= a.take(k).take(j));
    assert(b.take(j) =~= b.take(k).take(j));
    if j < k {
        assert(a[j] == a.take(k)[j]);
        assert(b[j] == b.take(k)[j]);
    }
}

/// No sequence comes before itself.
proof fn lemma_lexicographic_irreflexive<T>(a: Seq<T>, less: spec_fn(T, T) -> bool)
    requires
        strict_total(less),
    ensures
        !lexicographic(a, a, less),
{
}

/// What comes before what comes before a third comes before the third.
proof fn lemma_lexicographic_transitive<T>(
    a: Seq<T>,
    b: Seq<T>,
    c: Seq<T>,
    less: spec_fn(T, T) -> bool,
)
    requires
        strict_total(less),
        lexicographic(a, b, less),
        lexicographic(b, c, less),
    ensures
        lexicographic(a, c, less),
{
    let j = choose|k: int| decides_at(a, b, less, k);
    let k = choose|k: int| decides_at(b, c, less, k);
    if j < k {
        lemma_agree(b, c, k, j);
        assert(decides_at(a, c, less, j));
    } else if k < j {
        lemma_agree(a, b, j, k);
        assert(decides_at(a, c, less, k));
    } else {
        assert(decides_at(a, c, less, k));
    }
}

/// Of two different sequences one comes before the other.
proof fn lemma_lexicographic_total<T>(a: Seq<T>, b: Seq<T>, less: spec_fn(T, T) -> bool)
    requires
        strict_total(less),
    ensures
        a == b || lexicographic(a, b, less) || lexicographic(b, a, less),
{
    if a != b {
        let k = first_difference(a, b);
        lemma_first_difference(a, b);
        if k == a.len() {
            assert(decides_at(a, b, less, k));
        } else if k == b.len() {
            assert(decides_at(b, a, less, k));
        } else if less(a[k], b[k]) {
            assert(decides_at(a, b, less, k));
        } else {
            assert(decides_at(b, a, less, k));
        }
    }
}

/// How long the sequences agree.
spec fn first_difference<T>(a: Seq<T>, b: Seq<T>) -> int
    decreases a.len(),
{
    if a.len() == 0 || b.len() == 0 || a[0] != b[0] {
        0
    } else {
        1 + first_difference(a.drop_first(), b.drop_first())
    }
}

proof fn lemma_first_difference<T>(a: Seq<T>, b: Seq<T>)
    ensures
        0 <= first_difference(a, b) <= a.len(),
        first_difference(a, b) <= b.len(),
        a.take(first_difference(a, b)) == b.take(first_difference(a, b)),
        a != b ==> ({
            let k = first_difference(a, b);
            (k < a.len() || k < b.len()) && (k < a.len() && k < b.len() ==> a[k] != b[k])
        }),
    decreases a.len(),
{
    let k = first_difference(a, b);
    if a.len() == 0 || b.len() == 0 || a[0] != b[0] {
        assert(a.take(0) =~= b.take(0));
        if a.len() == 0 && b.len() == 0 {
            assert(a =~= b);
        }
    } else {
        let x = a.drop_first();
        let y = b.drop_first();
        lemma_first_difference(x, y);
        assert(a =~= seq![a[0]] + x);
        assert(b =~= seq![b[0]] + y);
        assert(a.take(k) =~= seq![a[0]] + x.take(k - 1));
        assert(b.take(k) =~= seq![b[0]] + y.take(k - 1));
    }
}

/// Dictionary order is a strict total order where that of the letters is.
proof fn lemma_lexicographic_strict_total<T>(less: spec_fn(T, T) -> bool)
    requires
        strict_total(less),
    ensures
        strict_total(|a: Seq<T>, b: Seq<T>| lexicographic(a, b, less)),
{
    let order = |a: Seq<T>, b: Seq<T>| lexicographic(a, b, less);
    assert forall|a: Seq<T>| !#[trigger] order(a, a) by {
        lemma_lexicographic_irreflexive(a, less);
    }
    assert forall|a: Seq<T>, b: Seq<T>, c: Seq<T>| #[trigger] order(a, b) && #[trigger] order(
        b,
        c,
    ) implies order(a, c) by {
        lemma_lexicographic_transitive(a, b, c, less);
    }
    assert forall|a: Seq<T>, b: Seq<T>| a == b || #[trigger] order(a, b) || order(b, a) by {
        lemma_lexicographic_total(a, b, less);
    }
}

/// What is left of a number without its leading zeros is the end of it, and only zeros went.
proof fn lemma_significant(id: Seq<char>)
    ensures
        significant(id).len() <= id.len(),
        id.skip(id.len() - significant(id).len()) == significant(id),
        forall|i: int| 0 <= i < id.len() - significant(id).len() ==> id[i] == '0',
    decreases id.len(),
{
    if id.len() > 0 && id[0] == '0' {
        let rest = id.drop_first();
        lemma_significant(rest);
        let n = id.len() - significant(id).len();
        assert(id.skip(n) =~= rest.skip(n - 1));
        assert forall|i: int| 0 <= i < n implies id[i] == '0' by {
            if i > 0 {
                assert(rest[i - 1] == '0');
            }
        }
    } else {
        assert(id.skip(0) =~= id);
    }
}

/// The order of identifiers is a strict total order.
proof fn lemma_identifier_order()
    ensures
        strict_total(identifier_less()),
{
    let chars = char_less();
    let order = |a: Seq<char>, b: Seq<char>| lexicographic(a, b, chars);
    lemma_lexicographic_strict_total(chars);
    let less = identifier_less();
    assert forall|a: Seq<char>| !#[trigger] less(a, a) by {
        assert(!order(a, a));
    }
    assert forall|a: Seq<char>, b: Seq<char>, c: Seq<char>| #[trigger] less(a, b)
        && #[trigger] less(b, c) implies less(a, c) by {
        if numeric(a) && numeric(b) && numeric(c) {
            let (x, y, z) = (significant(a), significant(b), significant(c));
            assert(order(x, y) && order(y, z) ==> order(x, z));
            assert(!order(x, x));
            if x == z && x.len() == y.len() && x != y {
                assert(order(x, y) && order(y, x));
            }
        } else if !numeric(a) && !numeric(b) && !numeric(c) {
            assert(order(a, b) && order(b, c));
        }
    }
    assert forall|a: Seq<char>, b: Seq<char>| a == b || #[trigger] less(a, b) || less(b, a) by {
        let (x, y) = (significant(a), significant(b));
        assert(x == y || order(x, y) || order(y, x));
        assert(a == b || order(a, b) || order(b, a));
        if numeric(a) && numeric(b) && x == y && a.len() == b.len() {
            lemma_significant(a);
            lemma_significant(b);
            let n = a.len() - x.len();
            assert(a =~= a.take(n) + a.skip(n));
            assert(b =~= b.take(n) + b.skip(n));
            assert(a.take(n) =~= b.take(n));
        }
    }
}

/// The pieces of a text tell the text.
proof fn lemma_pieces_injective(a: Seq<char>, b: Seq<char>, sep: char)
    requires
        pieces(a, sep) == pieces(b, sep),
    ensures
        a == b,
    decreases a.len(),
{
    if a.len() > 0 {
        lemma_pieces_nonempty(a.drop_last(), sep);
    }
    if b.len() > 0 {
        lemma_pieces_nonempty(b.drop_last(), sep);
    }
    let p = pieces(a, sep);
    let q = pieces(b, sep);
    if a.len() == 0 && b.len() == 0 {
        assert(a =~= b);
    } else if a.len() == 0 {
        assert(p.len() == 1 && p.last().len() == 0);
    } else if b.len() == 0 {
        assert(q.len() == 1 && q.last().len() == 0);
    } else {
        let x = pieces(a.drop_last(), sep);
        let y = pieces(b.drop_last(), sep);
        if a.last() == sep {
            assert(p.last().len() == 0);
            assert(b.last() == sep);
            assert(x =~= p.drop_last());
            assert(y =~= q.drop_last());
        } else {
            assert(p.last().len() > 0);
            assert(b.last() != sep);
            assert(p.last().drop_last() =~= x.last());
            assert(q.last().drop_last() =~= y.last());
            assert(p.drop_last() =~= x.drop_last());
            assert(q.drop_last() =~= y.drop_last());
            assert(p.last().last() == a.last());
            assert(x =~= x.drop_last().push(x.last()));
            assert(y =~= y.drop_last().push(y.last()));
        }
        lemma_pieces_injective(a.drop_last(), b.drop_last(), sep);
        assert(a =~= a.drop_last().push(a.last()));
        assert(b =~= b.drop_last().push(b.last()));
    }
}

/// The order of labels is total, and no label comes before itself.
proof fn lemma_label_order(a: Seq<char>, b: Seq<char>, c: Seq<char>)
    ensures
        !label_less(a, a),
        label_less(a, b) && label_less(b, c) ==> label_less(a, c),
        a == b || label_less(a, b) || label_less(b, a),
{
    let less = identifier_less();
    lemma_identifier_order();
    lemma_lexicographic_irreflexive(pieces(a, '.'), less);
    if label_less(a, b) && label_less(b, c) {
        lemma_lexicographic_transitive(pieces(a, '.'), pieces(b, '.'), pieces(c, '.'), less);
    }
    lemma_lexicographic_total(pieces(a, '.'), pieces(b, '.'), less);
    if pieces(a, '.') == pieces(b, '.') {
        lemma_pieces_injective(a, b, '.');
    }
}

/// Versions are totally ordered: each is at most itself, of two at least one is at most the
/// other, and both only where they are the same.
pub proof fn versions_are_totally_ordered(a: VersionView, b: VersionView)
    ensures
        version_le(a, a),
        version_le(a, b) || version_le(b, a),
        version_le(a, b) && version_le(b, a) ==> a == b,
{
    lemma_label_order(a.pre, b.pre, a.pre);
    lemma_label_order(b.pre, a.pre, b.pre);
    lemma_label_order(a.build, b.build, a.build);
    lemma_label_order(b.build, a.build, b.build);
    assert(a.pre.len() == 0 && b.pre.len() == 0 ==> a.pre =~= b.pre);
}

/// A version that is at most one that is at most a third is at most the third.
pub proof fn version_order_is_transitive(a: VersionView, b: VersionView, c: VersionView)
    requires
        version_le(a, b),
        version_le(b, c),
    ensures
        version_le(a, c),
{
    lemma_label_order(a.pre, b.pre, c.pre);
    lemma_label_order(a.pre, b.pre, a.pre);
    lemma_label_order(a.build, b.build, c.build);
}

} // verus!
