//! Terrain-profile parsing: byte-level utilities.
//!
//! A profile is ASCII text: a header line, then comma-separated rows of
//! a bearing angle, an optional boundary value, and pairs of pixel
//! offsets and labels.  Numbers are unsigned decimals parsed to
//! fixed-point thousandths; the integer part may have at most thirteen
//! digits and the fraction is truncated to thousandths.

use vstd::prelude::*;
use vstd::slice::{slice_subrange, slice_to_vec};

verus! {

/// The number of integer digits a parsed number may have.
pub const MAX_INT_DIGITS: usize = 13;

/// The index of the first `sep` in `s`, or the length when absent.
pub open spec fn spec_find(s: Seq<u8>, sep: u8) -> int
    decreases s.len(),
{
    if s.len() == 0 {
        0
    } else if s[0] == sep {
        0
    } else {
        1 + spec_find(s.drop_first(), sep)
    }
}

/// `spec_find` is the first occurrence: in bounds, at a `sep` when in
/// range, with none before it.
pub proof fn lemma_find_first(s: Seq<u8>, sep: u8)
    ensures
        0 <= spec_find(s, sep) <= s.len(),
        spec_find(s, sep) < s.len() ==> s[spec_find(s, sep)] == sep,
        forall|k: int| 0 <= k < spec_find(s, sep) ==> s[k] != sep,
    decreases s.len(),
{
    if s.len() > 0 && s[0] != sep {
        lemma_find_first(s.drop_first(), sep);
        assert(forall|k: int|
            1 <= k < spec_find(s, sep) ==> s[k] == s.drop_first()[k - 1] && s.drop_first()[k - 1]
                != sep);
    }
}

/// Any index that is the first occurrence is `spec_find`.
pub proof fn lemma_find_unique(s: Seq<u8>, sep: u8, i: int)
    requires
        0 <= i <= s.len(),
        i < s.len() ==> s[i] == sep,
        forall|k: int| 0 <= k < i ==> s[k] != sep,
    ensures
        spec_find(s, sep) == i,
    decreases s.len(),
{
    if s.len() > 0 && s[0] != sep {
        assert(forall|k: int|
            0 <= k < i - 1 ==> s.drop_first()[k] == s[k + 1] && s[k + 1] != sep);
        lemma_find_unique(s.drop_first(), sep, i - 1);
    }
}

/// The pieces of `s` between occurrences of `sep`, in order; a string
/// without `sep` is one piece, so there is always at least one.
pub open spec fn spec_split(s: Seq<u8>, sep: u8) -> Seq<Seq<u8>>
    decreases s.len(),
{
    let i = spec_find(s, sep);
    if i < 0 || i >= s.len() {
        seq![s]
    } else {
        seq![s.subrange(0, i)] + spec_split(s.subrange(i + 1, s.len() as int), sep)
    }
}

/// The views of a sequence of byte vectors.
pub open spec fn spec_views(cols: Seq<Vec<u8>>) -> Seq<Seq<u8>> {
    cols.map_values(|v: Vec<u8>| v@)
}

/// The index of the first `sep` at or after `from`, or the length.
fn find_byte(s: &[u8], from: usize, sep: u8) -> (r: usize)
    requires
        from <= s@.len(),
    ensures
        from <= r <= s@.len(),
        r - from == spec_find(s@.subrange(from as int, s@.len() as int), sep),
        r < s@.len() ==> s@[r as int] == sep,
        forall|k: int| from <= k < r ==> s@[k] != sep,
{
    let n = s.len();
    let mut i = from;
    while i < n
        invariant
            from <= i <= n,
            n == s@.len(),
            forall|k: int| from <= k < i ==> s@[k] != sep,
        decreases n - i,
    {
        if *vstd::slice::slice_index_get(s, i) == sep {
            proof {
                let suffix = s@.subrange(from as int, n as int);
                assert(suffix[i - from] == s@[i as int]);
                assert(forall|k: int|
                    0 <= k < i - from ==> suffix[k] == s@[k + from] && s@[k + from] != sep);
                lemma_find_unique(suffix, sep, i - from);
            }
            return i;
        }
        i = i + 1;
    }
    proof {
        let suffix = s@.subrange(from as int, n as int);
        assert(forall|k: int|
            0 <= k < n - from ==> suffix[k] == s@[k + from] && s@[k + from] != sep);
        lemma_find_unique(suffix, sep, (n - from) as int);
    }
    n
}

/// Splits `s` into the pieces between occurrences of `sep`.
pub fn split_bytes(s: &[u8], sep: u8) -> (cols: Vec<Vec<u8>>)
    ensures
        spec_views(cols@) == spec_split(s@, sep),
{
    let n = s.len();
    let mut cols: Vec<Vec<u8>> = Vec::new();
    let mut pos: usize = 0;
    proof {
        assert(s@.subrange(0, n as int) =~= s@);
        assert(spec_views(cols@) =~= Seq::<Seq<u8>>::empty());
        assert(Seq::<Seq<u8>>::empty() + spec_split(s@, sep) =~= spec_split(s@, sep));
    }
    loop
        invariant_except_break
            pos <= n,
            n == s@.len(),
            spec_split(s@, sep) == spec_views(cols@) + spec_split(
                s@.subrange(pos as int, n as int),
                sep,
            ),
        ensures
            spec_views(cols@) == spec_split(s@, sep),
        decreases n - pos,
    {
        let ghost opos = pos as int;
        let ghost old_views = spec_views(cols@);
        let ghost rest = s@.subrange(opos, n as int);
        let e = find_byte(s, pos, sep);
        proof {
            assert(rest.subrange(0, e - opos) =~= s@.subrange(opos, e as int));
        }
        let piece = slice_to_vec(slice_subrange(s, pos, e));
        cols.push(piece);
        proof {
            assert(spec_views(cols@) =~= old_views + seq![piece@]);
        }
        if e == n {
            proof {
                assert(spec_split(rest, sep) == seq![rest]);
                assert(piece@ == rest);
                assert(old_views + seq![rest] =~= spec_views(cols@));
            }
            break;
        }
        pos = e + 1;
        proof {
            let tail = s@.subrange(pos as int, n as int);
            assert(rest.subrange(e - opos + 1, rest.len() as int) =~= tail);
            assert(spec_split(rest, sep) == seq![piece@] + spec_split(tail, sep));
            assert(old_views + (seq![piece@] + spec_split(tail, sep)) =~= (old_views + seq![
                piece@,
            ]) + spec_split(tail, sep));
        }
    }
    cols
}

/// Whether `b` is an ASCII decimal digit.
pub open spec fn spec_is_digit(b: u8) -> bool {
    48 <= b <= 57
}

/// The value of a string of decimal digits; `None` when any byte is
/// not a digit.  The empty string has value zero.
pub open spec fn spec_digits_value(s: Seq<u8>) -> Option<int>
    decreases s.len(),
{
    if s.len() == 0 {
        Some(0)
    } else if !spec_is_digit(s.last()) {
        None
    } else {
        match spec_digits_value(s.drop_last()) {
            None => None,
            Some(v) => Some(v * 10 + (s.last() - 48)),
        }
    }
}

/// A digit string has a value exactly when every byte is a digit, and
/// the value is bounded by the number of digits.
pub proof fn lemma_digits_value(s: Seq<u8>)
    ensures
        (spec_digits_value(s) is Some) <==> (forall|k: int|
            0 <= k < s.len() ==> spec_is_digit(#[trigger] s[k])),
        spec_digits_value(s) matches Some(v) ==> 0 <= v < pow10(s.len() as nat),
    decreases s.len(),
{
    if s.len() > 0 {
        lemma_digits_value(s.drop_last());
        assert(forall|k: int| 0 <= k < s.len() - 1 ==> s.drop_last()[k] == s[k]);
        if spec_digits_value(s) is Some {
            assert(spec_is_digit(s[s.len() - 1]));
        }
        if forall|k: int| 0 <= k < s.len() ==> spec_is_digit(#[trigger] s[k]) {
            assert(spec_is_digit(s.last()));
        }
    }
}

/// Ten to the `n`th power.
pub open spec fn pow10(n: nat) -> int
    decreases n,
{
    if n == 0 {
        1
    } else {
        10 * pow10((n - 1) as nat)
    }
}

/// The powers of ten a three-digit fraction can need.
pub proof fn lemma_pow10_small()
    ensures
        pow10(0) == 1,
        pow10(1) == 10,
        pow10(2) == 100,
        pow10(3) == 1000,
{
    assert(pow10(0) == 1);
    assert(pow10(1) == 10);
    assert(pow10(2) == 100);
    assert(pow10(3) == 1000);
}

/// The largest value `MAX_INT_DIGITS` digits can spell, plus one.
pub proof fn lemma_pow10_13()
    ensures
        pow10(13) == 10_000_000_000_000,
{
    assert(pow10(0) == 1);
    assert(pow10(1) == 10);
    assert(pow10(2) == 100);
    assert(pow10(3) == 1000);
    assert(pow10(4) == 10000);
    assert(pow10(5) == 100000);
    assert(pow10(6) == 1000000);
    assert(pow10(7) == 10000000);
    assert(pow10(8) == 100000000);
    assert(pow10(9) == 1000000000);
    assert(pow10(10) == 10000000000);
    assert(pow10(11) == 100000000000);
    assert(pow10(12) == 1000000000000);
    assert(pow10(13) == 10000000000000);
}

/// `pow10` grows with its argument.
pub proof fn lemma_pow10_le(a: nat, b: nat)
    requires
        a <= b,
    ensures
        0 < pow10(a) <= pow10(b),
    decreases b,
{
    if a < b {
        lemma_pow10_le(a, (b - 1) as nat);
    } else if a == b && a > 0 {
        lemma_pow10_le((a - 1) as nat, (b - 1) as nat);
    }
}

/// The value of a digit string of at most `MAX_INT_DIGITS` digits;
/// `None` when it is longer or holds a non-digit.
pub fn parse_digits(v: &[u8]) -> (r: Option<u64>)
    ensures
        match r {
            Some(x) => v@.len() <= MAX_INT_DIGITS && spec_digits_value(v@) == Some(x as int),
            None => v@.len() > MAX_INT_DIGITS || spec_digits_value(v@) is None,
        },
{
    let n = v.len();
    if n > MAX_INT_DIGITS {
        return None;
    }
    proof {
        lemma_pow10_le(v@.len() as nat, 13);
        lemma_pow10_13();
    }
    let mut acc: u64 = 0;
    let mut i: usize = 0;
    while i < n
        invariant
            0 <= i <= n,
            n == v@.len(),
            n <= MAX_INT_DIGITS,
            spec_digits_value(v@.subrange(0, i as int)) == Some(acc as int),
            acc < pow10(i as nat),
            pow10(n as nat) <= pow10(13),
            pow10(13) == 10_000_000_000_000,
        decreases n - i,
    {
        let b = *vstd::slice::slice_index_get(v, i);
        if b < 48 || b > 57 {
            proof {
                lemma_digits_value(v@);
            }
            return None;
        }
        proof {
            lemma_pow10_le((i + 1) as nat, n as nat);
            assert(v@.subrange(0, i + 1).drop_last() =~= v@.subrange(0, i as int));
            assert(v@.subrange(0, i + 1).last() == v@[i as int]);
        }
        acc = acc * 10 + ((b - 48) as u64);
        i = i + 1;
    }
    proof {
        assert(v@.subrange(0, n as int) =~= v@);
    }
    Some(acc)
}

/// Whether `b` is a space or a horizontal tab.
pub open spec fn spec_is_space(b: u8) -> bool {
    b == 32 || b == 9
}

/// The first index at or after `i` that is not a space.
pub open spec fn spec_trim_from(s: Seq<u8>, i: int) -> int
    decreases s.len() - i,
{
    if 0 <= i < s.len() && spec_is_space(s[i]) {
        spec_trim_from(s, i + 1)
    } else {
        i
    }
}

/// The last bound at or before `j` with no space just before it.
pub open spec fn spec_trim_upto(s: Seq<u8>, j: int) -> int
    decreases j,
{
    if 0 < j <= s.len() && spec_is_space(s[j - 1]) {
        spec_trim_upto(s, j - 1)
    } else {
        j
    }
}

/// `s` with leading and trailing spaces and tabs removed.
pub open spec fn spec_trim(s: Seq<u8>) -> Seq<u8> {
    let a = spec_trim_from(s, 0);
    let b = spec_trim_upto(s, s.len() as int);
    if a >= b {
        Seq::empty()
    } else {
        s.subrange(a, b)
    }
}

/// `v` with leading and trailing spaces and tabs removed.
pub fn trim_bytes(v: &[u8]) -> (r: Vec<u8>)
    ensures
        r@ == spec_trim(v@),
{
    let n = v.len();
    let mut a: usize = 0;
    loop
        invariant_except_break
            0 <= a <= n,
            n == v@.len(),
            spec_trim_from(v@, 0) == spec_trim_from(v@, a as int),
        ensures
            0 <= a <= n,
            n == v@.len(),
            spec_trim_from(v@, 0) == a,
        decreases n - a,
    {
        if a < n {
            let c = *vstd::slice::slice_index_get(v, a);
            if c == 32 || c == 9 {
                a = a + 1;
            } else {
                proof {
                    assert(spec_trim_from(v@, a as int) == a);
                }
                break;
            }
        } else {
            proof {
                assert(spec_trim_from(v@, a as int) == a);
            }
            break;
        }
    }
    let mut b: usize = n;
    loop
        invariant_except_break
            0 <= b <= n,
            n == v@.len(),
            spec_trim_upto(v@, n as int) == spec_trim_upto(v@, b as int),
        ensures
            0 <= b <= n,
            n == v@.len(),
            spec_trim_upto(v@, n as int) == b,
        decreases b,
    {
        if b > 0 {
            let c = *vstd::slice::slice_index_get(v, b - 1);
            if c == 32 || c == 9 {
                b = b - 1;
            } else {
                proof {
                    assert(spec_trim_upto(v@, b as int) == b);
                }
                break;
            }
        } else {
            proof {
                assert(spec_trim_upto(v@, b as int) == b);
            }
            break;
        }
    }
    if a >= b {
        let r: Vec<u8> = Vec::new();
        proof {
            assert(r@ =~= spec_trim(v@));
        }
        r
    } else {
        let r = slice_to_vec(slice_subrange(v, a, b));
        r
    }
}

/// The thousandths contributed by a fraction's first three digits.
pub open spec fn spec_frac_milli(fp: Seq<u8>) -> int {
    let f3 = if fp.len() >= 3 {
        fp.subrange(0, 3)
    } else {
        fp
    };
    match spec_digits_value(f3) {
        None => 0,
        Some(v) => if f3.len() == 0 {
            0
        } else if f3.len() == 1 {
            v * 100
        } else if f3.len() == 2 {
            v * 10
        } else {
            v
        },
    }
}

/// An unsigned decimal — digits with at most one point and at least
/// one digit, the integer part at most `MAX_INT_DIGITS` digits long —
/// read as fixed-point thousandths, the fraction truncated.
pub open spec fn spec_parse_milli(s: Seq<u8>) -> Option<int> {
    let dot = spec_find(s, 46);
    if dot < 0 {
        None
    } else if dot >= s.len() {
        if s.len() == 0 || s.len() > MAX_INT_DIGITS {
            None
        } else {
            match spec_digits_value(s) {
                None => None,
                Some(v) => Some(v * 1000),
            }
        }
    } else {
        let ip = s.subrange(0, dot);
        let fp = s.subrange(dot + 1, s.len() as int);
        if ip.len() + fp.len() == 0 || ip.len() > MAX_INT_DIGITS {
            None
        } else {
            match (spec_digits_value(ip), spec_digits_value(fp)) {
                (Some(iv), Some(fv)) => Some(iv * 1000 + spec_frac_milli(fp)),
                _ => None,
            }
        }
    }
}

/// An optional leading minus sign, then an unsigned decimal, read as
/// fixed-point thousandths.
pub open spec fn spec_parse_milli_signed(s: Seq<u8>) -> Option<int> {
    if s.len() > 0 && s[0] == 45 {
        match spec_parse_milli(s.drop_first()) {
            None => None,
            Some(v) => Some(-v),
        }
    } else {
        spec_parse_milli(s)
    }
}

/// Every parsed unsigned decimal lies under eleven times ten to the
/// fifteenth, so scaled conversions stay in range.
pub proof fn lemma_parse_milli_bound(s: Seq<u8>)
    ensures
        spec_parse_milli(s) matches Some(v) ==> 0 <= v < 10_000_000_000_001_000,
{
    let dot = spec_find(s, 46);
    lemma_find_first(s, 46);
    lemma_pow10_13();
    if spec_parse_milli(s) is Some {
        if dot >= s.len() {
            lemma_digits_value(s);
            lemma_pow10_le(s.len() as nat, 13);
        } else {
            let ip = s.subrange(0, dot);
            let fp = s.subrange(dot + 1, s.len() as int);
            lemma_digits_value(ip);
            lemma_pow10_le(ip.len() as nat, 13);
            let f3 = if fp.len() >= 3 {
                fp.subrange(0, 3)
            } else {
                fp
            };
            lemma_digits_value(f3);
            lemma_pow10_small();
        }
    }
}

/// Whether every byte of `v` is a decimal digit.
fn all_digits(v: &[u8]) -> (r: bool)
    ensures
        r == (spec_digits_value(v@) is Some),
{
    let n = v.len();
    let mut i: usize = 0;
    while i < n
        invariant
            0 <= i <= n,
            n == v@.len(),
            forall|k: int| 0 <= k < i ==> spec_is_digit(#[trigger] v@[k]),
        decreases n - i,
    {
        let b = *vstd::slice::slice_index_get(v, i);
        if b < 48 || b > 57 {
            proof {
                lemma_digits_value(v@);
            }
            return false;
        }
        i = i + 1;
    }
    proof {
        lemma_digits_value(v@);
    }
    true
}

/// Reads an unsigned decimal as fixed-point thousandths.
pub fn parse_milli(v: &[u8]) -> (r: Option<u64>)
    ensures
        match spec_parse_milli(v@) {
            Some(x) => r matches Some(u) && u == x,
            None => r is None,
        },
{
    proof {
        lemma_parse_milli_bound(v@);
        assert(v@.subrange(0, v@.len() as int) =~= v@);
    }
    let n = v.len();
    let dot = find_byte(v, 0, 46);
    if dot == n {
        if n == 0 || n > MAX_INT_DIGITS {
            return None;
        }
        match parse_digits(v) {
            None => None,
            Some(iv) => {
                proof {
                    lemma_digits_value(v@);
                    lemma_pow10_le(v@.len() as nat, 13);
                    lemma_pow10_13();
                }
                Some(iv * 1000)
            },
        }
    } else {
        let ip = slice_subrange(v, 0, dot);
        let fp = slice_subrange(v, dot + 1, n);
        if (ip.len() == 0 && fp.len() == 0) || ip.len() > MAX_INT_DIGITS {
            return None;
        }
        match parse_digits(ip) {
            None => None,
            Some(iv) => {
                if !all_digits(fp) {
                    return None;
                }
                proof {
                    lemma_digits_value(ip@);
                    lemma_pow10_le(ip@.len() as nat, 13);
                    lemma_pow10_13();
                }
                let f3len: usize = if fp.len() >= 3 {
                    3
                } else {
                    fp.len()
                };
                let f3 = slice_subrange(fp, 0, f3len);
                proof {
                    if fp@.len() < 3 {
                        assert(f3@ =~= fp@);
                    }
                    lemma_digits_value(f3@);
                    lemma_pow10_small();
                }
                let fm: u64 = match parse_digits(f3) {
                    None => 0,
                    Some(fv) => {
                        if f3len == 0 {
                            0
                        } else if f3len == 1 {
                            fv * 100
                        } else if f3len == 2 {
                            fv * 10
                        } else {
                            fv
                        }
                    },
                };
                Some(iv * 1000 + fm)
            },
        }
    }
}

/// Reads a decimal with an optional leading minus sign as fixed-point
/// thousandths.
pub fn parse_milli_signed(v: &[u8]) -> (r: Option<i64>)
    ensures
        match spec_parse_milli_signed(v@) {
            Some(x) => r matches Some(u) && u == x,
            None => r is None,
        },
{
    proof {
        if v@.len() > 0 && v@[0] == 45 {
            lemma_parse_milli_bound(v@.drop_first());
        } else {
            lemma_parse_milli_bound(v@);
        }
    }
    let n = v.len();
    if n > 0 && *vstd::slice::slice_index_get(v, 0) == 45 {
        let rest = slice_subrange(v, 1, n);
        proof {
            assert(rest@ =~= v@.drop_first());
        }
        match parse_milli(rest) {
            None => None,
            Some(u) => Some(-(u as i64)),
        }
    } else {
        match parse_milli(v) {
            None => None,
            Some(u) => Some(u as i64),
        }
    }
}

} // verus!
