//! How versions are ordered and written, stated on their numbers and identifiers.
use vstd::prelude::*;

use crate::text::pieces;
use crate::version::{
    char_less, decides_at, decimal, identifier_less, label_less, lexicographic, numeric,
    prerelease_less, significant, version_le, version_text, versions_are_totally_ordered,
    VersionView,
};

verus! {

/// An identifier is a number exactly where all of its characters are digits.
pub proof fn a_number_is_all_digits(id: Seq<char>)
    ensures
        numeric(id) <==> forall|i: int| 0 <= i < id.len() ==> '0' <= #[trigger] id[i] && id[i]
            <= '9',
{
}

/// Of two numbers without a zero in front the shorter one is lower, and of two that are as long
/// the one whose first differing digit is; a mere zero is lower than either, and a number than
/// what is none. What is no number is ordered by its first differing character, or comes first
/// where it is all there is of the other.
pub proof fn identifiers_are_ordered(a: Seq<char>, b: Seq<char>, k: int)
    requires
        a.len() > 0,
        b.len() > 0,
    ensures
        numeric(a) && numeric(b) && a[0] != '0' && b[0] != '0' && a.len() < b.len()
            ==> identifier_less()(a, b),
        numeric(a) && numeric(b) && a[0] != '0' && b[0] != '0' && a.len() == b.len() && 0 <= k
            < a.len() && a.take(k) == b.take(k) && a[k] < b[k] ==> identifier_less()(a, b),
        numeric(b) && b[0] != '0' && a == seq!['0'] ==> identifier_less()(a, b),
        numeric(a) && !numeric(b) ==> identifier_less()(a, b) && !identifier_less()(b, a),
        !numeric(a) && !numeric(b) && 0 <= k <= a.len() && k < b.len() && a.take(k) == b.take(k)
            && (k == a.len() || a[k] < b[k]) ==> identifier_less()(a, b),
{
    let x = significant(a);
    let y = significant(b);
    if 0 <= k <= a.len() && k < b.len() && a.take(k) == b.take(k) && (k == a.len() || a[k] < b[k]) {
        assert(decides_at(a, b, char_less(), k));
        assert(lexicographic(a, b, char_less()));
        if k < a.len() {
            assert(a != b);
        }
    }
    if a == seq!['0'] {
        let rest = a.drop_first();
        assert(significant(rest) == rest);
        assert(x.len() == 0);
    }
}

/// Of two pre-releases of one version, the one whose first differing identifier is lower is older.
pub proof fn the_first_differing_identifier_decides(a: VersionView, b: VersionView, k: int)
    requires
        a.major == b.major && a.minor == b.minor && a.patch == b.patch,
        a.pre.len() > 0,
        b.pre.len() > 0,
        0 <= k < pieces(a.pre, '.').len(),
        k < pieces(b.pre, '.').len(),
        pieces(a.pre, '.').take(k) == pieces(b.pre, '.').take(k),
        pieces(a.pre, '.')[k] != pieces(b.pre, '.')[k],
        identifier_less()(pieces(a.pre, '.')[k], pieces(b.pre, '.')[k]),
    ensures
        version_le(a, b),
        !version_le(b, a),
{
    let (x, y) = (pieces(a.pre, '.'), pieces(b.pre, '.'));
    assert(decides_at(x, y, identifier_less(), k));
    assert(label_less(a.pre, b.pre));
    assert(prerelease_less(a.pre, b.pre));
    assert(x != y);
    versions_are_totally_ordered(a, b);
}

/// Two versions that differ in their build labels alone are ordered by the first identifier in
/// which these differ.
pub proof fn builds_are_ordered_like_labels(a: VersionView, b: VersionView, k: int)
    requires
        a.major == b.major && a.minor == b.minor && a.patch == b.patch,
        a.pre == b.pre,
        0 <= k <= pieces(a.build, '.').len(),
        k < pieces(b.build, '.').len(),
        pieces(a.build, '.').take(k) == pieces(b.build, '.').take(k),
        k < pieces(a.build, '.').len() ==> pieces(a.build, '.')[k] != pieces(b.build, '.')[k]
            && identifier_less()(pieces(a.build, '.')[k], pieces(b.build, '.')[k]),
    ensures
        version_le(a, b),
        !version_le(b, a),
{
    let (x, y) = (pieces(a.build, '.'), pieces(b.build, '.'));
    assert(decides_at(x, y, identifier_less(), k));
    assert(label_less(a.build, b.build));
    assert(x != y);
    versions_are_totally_ordered(a, b);
}

/// The number that a text of digits writes.
pub open spec fn number_read(text: Seq<char>) -> int
    decreases text.len(),
{
    if text.len() == 0 {
        0
    } else {
        10 * number_read(text.drop_last()) + (text.last() as u32 - '0' as u32)
    }
}

/// A number is written in digits, without a zero in front of others, and is read again as itself.
pub proof fn a_number_is_written_in_decimal(n: nat)
    ensures
        number_read(decimal(n)) == n,
        decimal(n).len() > 0,
        forall|i: int|
            0 <= i < decimal(n).len() ==> '0' <= #[trigger] decimal(n)[i] && decimal(n)[i] <= '9',
        decimal(n).len() > 1 ==> decimal(n)[0] != '0',
        n > 0 ==> decimal(n)[0] != '0',
    decreases n,
{
    let last = (48 + n % 10) as char;
    assert(last as u32 == 48 + n % 10);
    if n < 10 {
        assert(decimal(n).drop_last() =~= Seq::<char>::empty());
        assert(number_read(decimal(n).drop_last()) == 0);
    } else {
        a_number_is_written_in_decimal(n / 10);
        assert(decimal(n).drop_last() =~= decimal(n / 10));
        assert(decimal(n)[0] == decimal(n / 10)[0]);
    }
}

/// A version is written with its three numbers, a dot between each, and behind them its labels,
/// where it has them: the pre-release behind a hyphen, the build behind a plus.
pub proof fn a_version_is_written_with_its_labels(v: VersionView)
    ensures
        ({
            let numbers = decimal(v.major as nat) + seq!['.'] + decimal(v.minor as nat) + seq!['.']
                + decimal(v.patch as nat);
            &&& v.pre.len() == 0 && v.build.len() == 0 ==> version_text(v) == numbers
            &&& v.pre.len() > 0 && v.build.len() == 0 ==> version_text(v) == numbers + seq!['-']
                + v.pre
            &&& v.pre.len() == 0 && v.build.len() > 0 ==> version_text(v) == numbers + seq!['+']
                + v.build
            &&& v.pre.len() > 0 && v.build.len() > 0 ==> version_text(v) == numbers + seq!['-']
                + v.pre + seq!['+'] + v.build
        }),
{
    reveal_strlit(".");
    reveal_strlit("-");
    reveal_strlit("+");
    reveal_strlit("");
    assert("."@ =~= seq!['.']);
    assert("-"@ =~= seq!['-']);
    assert("+"@ =~= seq!['+']);
    assert(""@ =~= Seq::<char>::empty());
    let numbers = decimal(v.major as nat) + seq!['.'] + decimal(v.minor as nat) + seq!['.']
        + decimal(v.patch as nat);
    if v.pre.len() == 0 && v.build.len() == 0 {
        assert(version_text(v) =~= numbers);
    } else if v.build.len() == 0 {
        assert(version_text(v) =~= numbers + seq!['-'] + v.pre);
    } else if v.pre.len() == 0 {
        assert(version_text(v) =~= numbers + seq!['+'] + v.build);
    } else {
        assert(version_text(v) =~= numbers + seq!['-'] + v.pre + seq!['+'] + v.build);
    }
}

} // verus!
