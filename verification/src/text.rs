//! Byte-level text helpers: ASCII case folding, substring search, and
//! numeric parsing. Device identifiers and user-supplied input-source
//! strings are matched through these.

use vstd::prelude::*;
use vstd::string::StringSliceAdditionalSpecFns;

verus! {

/// Lower-cased view of a byte sequence.
pub open spec fn lower_seq(s: Seq<u8>) -> Seq<u8> {
    s.map_values(|b: u8| lower_byte(b))
}

/// ASCII lower-casing of one byte.
pub open spec fn lower_byte(b: u8) -> u8 {
    if 65 <= b && b <= 90 {
        (b + 32) as u8
    } else {
        b
    }
}

/// ASCII-lower-cases every byte; bytes outside `A`..`Z` pass unchanged.
pub fn ascii_lower(v: &[u8]) -> (r: Vec<u8>)
    ensures
        r@.len() == v@.len(),
        forall|i: int| 0 <= i < v@.len() ==> r@[i] == lower_byte(v@[i]),
{
    let mut r: Vec<u8> = Vec::new();
    let mut i: usize = 0;
    while i < v.len()
        invariant
            i <= v@.len(),
            r@.len() == i,
            forall|k: int| 0 <= k < i ==> r@[k] == lower_byte(v@[k]),
        decreases v@.len() - i,
    {
        let b = v[i];
        if 65 <= b && b <= 90 {
            r.push(b + 32);
        } else {
            r.push(b);
        }
        i = i + 1;
    }
    r
}

/// `n` occurs in `h` starting at offset `i`.
pub open spec fn seq_contains_at(h: Seq<u8>, n: Seq<u8>, i: int) -> bool {
    &&& 0 <= i
    &&& i + n.len() <= h.len()
    &&& h.subrange(i, i + n.len()) == n
}

/// `n` occurs somewhere in `h`; the empty sequence occurs everywhere.
pub open spec fn seq_contains(h: Seq<u8>, n: Seq<u8>) -> bool {
    exists|i: int| seq_contains_at(h, n, i)
}

/// Does `needle` occur in `hay` starting at `i`?
fn matches_at(hay: &[u8], needle: &[u8], i: usize) -> (r: bool)
    requires
        i + needle@.len() <= hay@.len(),
        hay@.len() <= usize::MAX,
    ensures
        r == seq_contains_at(hay@, needle@, i as int),
{
    let mut j: usize = 0;
    while j < needle.len()
        invariant
            j <= needle@.len(),
            i + needle@.len() <= hay@.len(),
            hay@.len() <= usize::MAX,
            forall|k: int| 0 <= k < j ==> hay@[i + k] == needle@[k],
        decreases needle@.len() - j,
    {
        if hay[i + j] != needle[j] {
            assert(hay@.subrange(i as int, i + needle@.len())[j as int] != needle@[j as int]);
            return false;
        }
        j = j + 1;
    }
    assert(hay@.subrange(i as int, i + needle@.len()) =~= needle@);
    true
}

/// Substring search over bytes.
pub fn contains_bytes(hay: &[u8], needle: &[u8]) -> (r: bool)
    ensures
        r == seq_contains(hay@, needle@),
{
    if needle.len() > hay.len() {
        assert(forall|i: int| !seq_contains_at(hay@, needle@, i));
        return false;
    }
    let last = hay.len() - needle.len();
    let mut i: usize = 0;
    loop
        invariant
            needle@.len() <= hay@.len() <= usize::MAX,
            last == hay@.len() - needle@.len(),
            0 <= i <= last,
            forall|k: int| 0 <= k < i ==> !seq_contains_at(hay@, needle@, k),
        decreases last - i,
    {
        if matches_at(hay, needle, i) {
            assert(seq_contains_at(hay@, needle@, i as int));
            return true;
        }
        if i == last {
            assert forall|k: int| !seq_contains_at(hay@, needle@, k) by {
                if 0 <= k <= last {
                    assert(!seq_contains_at(hay@, needle@, k));
                }
            }
            return false;
        }
        i = i + 1;
    }
}

/// Byte-wise equality of two slices.
pub fn bytes_eq(a: &[u8], b: &[u8]) -> (r: bool)
    ensures
        r == (a@ == b@),
{
    if a.len() != b.len() {
        assert(a@ != b@);
        return false;
    }
    let mut i: usize = 0;
    while i < a.len()
        invariant
            i <= a@.len(),
            a@.len() == b@.len(),
            forall|k: int| 0 <= k < i ==> a@[k] == b@[k],
        decreases a@.len() - i,
    {
        if a[i] != b[i] {
            assert(a@ != b@);
            return false;
        }
        i = i + 1;
    }
    assert(a@ =~= b@);
    true
}

/// Is `b` a decimal digit?
pub open spec fn is_dec_digit(b: u8) -> bool {
    48 <= b && b <= 57
}

/// Value of a decimal digit string, most significant byte first.
pub open spec fn dec_val(s: Seq<u8>) -> int
    decreases s.len(),
{
    if s.len() == 0 {
        0
    } else {
        dec_val(s.drop_last()) * 10 + (s.last() as int - 48)
    }
}

/// Is `b` a hexadecimal digit?
pub open spec fn is_hex_digit(b: u8) -> bool {
    ||| 48 <= b && b <= 57
    ||| 97 <= b && b <= 102
    ||| 65 <= b && b <= 70
}

/// Value of one hexadecimal digit.
pub open spec fn hex_digit_val(b: u8) -> int {
    if 48 <= b && b <= 57 {
        b as int - 48
    } else if 97 <= b && b <= 102 {
        b as int - 87
    } else {
        b as int - 55
    }
}

/// Value of a hexadecimal digit string, most significant byte first.
pub open spec fn hex_val(s: Seq<u8>) -> int
    decreases s.len(),
{
    if s.len() == 0 {
        0
    } else {
        hex_val(s.drop_last()) * 16 + hex_digit_val(s.last())
    }
}

proof fn lemma_dec_val_nonneg(s: Seq<u8>)
    requires
        forall|i: int| 0 <= i < s.len() ==> is_dec_digit(#[trigger] s[i]),
    ensures
        dec_val(s) >= 0,
    decreases s.len(),
{
    if s.len() > 0 {
        lemma_dec_val_nonneg(s.drop_last());
    }
}

proof fn lemma_hex_val_nonneg(s: Seq<u8>)
    requires
        forall|i: int| 0 <= i < s.len() ==> is_hex_digit(#[trigger] s[i]),
    ensures
        hex_val(s) >= 0,
    decreases s.len(),
{
    if s.len() > 0 {
        lemma_hex_val_nonneg(s.drop_last());
    }
}

proof fn lemma_dec_val_grows(s: Seq<u8>, i: int)
    requires
        forall|k: int| 0 <= k < s.len() ==> is_dec_digit(#[trigger] s[k]),
        0 <= i <= s.len(),
    ensures
        dec_val(s.subrange(0, i)) <= dec_val(s),
    decreases s.len() - i,
{
    if i == s.len() {
        assert(s.subrange(0, i) =~= s);
    } else {
        let t = s.subrange(0, i + 1);
        assert(t.drop_last() =~= s.subrange(0, i));
        lemma_dec_val_nonneg(s.subrange(0, i));
        assert(dec_val(s.subrange(0, i)) <= dec_val(t));
        lemma_dec_val_grows(s, i + 1);
    }
}

proof fn lemma_hex_val_grows(s: Seq<u8>, i: int)
    requires
        forall|k: int| 0 <= k < s.len() ==> is_hex_digit(#[trigger] s[k]),
        0 <= i <= s.len(),
    ensures
        hex_val(s.subrange(0, i)) <= hex_val(s),
    decreases s.len() - i,
{
    if i == s.len() {
        assert(s.subrange(0, i) =~= s);
    } else {
        let t = s.subrange(0, i + 1);
        assert(t.drop_last() =~= s.subrange(0, i));
        lemma_hex_val_nonneg(s.subrange(0, i));
        assert(hex_val(s.subrange(0, i)) <= hex_val(t));
        lemma_hex_val_grows(s, i + 1);
    }
}

/// Parses an unsigned decimal number. Returns the value exactly when the
/// whole string is a non-empty run of decimal digits whose value fits.
pub fn parse_u32_dec(s: &[u8]) -> (r: Option<u32>)
    ensures
        r is Some <==> s@.len() > 0 && (forall|i: int|
            0 <= i < s@.len() ==> is_dec_digit(#[trigger] s@[i])) && dec_val(s@) <= u32::MAX,
        r is Some ==> r->0 == dec_val(s@),
{
    if s.len() == 0 {
        return None;
    }
    let mut acc: u32 = 0;
    let mut i: usize = 0;
    while i < s.len()
        invariant
            i <= s@.len(),
            s@.len() > 0,
            forall|k: int| 0 <= k < i ==> is_dec_digit(#[trigger] s@[k]),
            acc == dec_val(s@.subrange(0, i as int)),
        decreases s@.len() - i,
    {
        let b = s[i];
        if !(48 <= b && b <= 57) {
            return None;
        }
        let d = (b - 48) as u32;
        let shifted = match acc.checked_mul(10) {
            Some(x) => x,
            None => {
                proof {
                    assert(s@.subrange(0, i + 1).drop_last() =~= s@.subrange(0, i as int));
                    assert(dec_val(s@.subrange(0, i + 1)) > u32::MAX);
                    if forall|k: int| 0 <= k < s@.len() ==> is_dec_digit(#[trigger] s@[k]) {
                        lemma_dec_val_grows(s@, i + 1);
                    }
                }
                return None;
            },
        };
        let next = match shifted.checked_add(d) {
            Some(x) => x,
            None => {
                proof {
                    assert(s@.subrange(0, i + 1).drop_last() =~= s@.subrange(0, i as int));
                    assert(dec_val(s@.subrange(0, i + 1)) > u32::MAX);
                    if forall|k: int| 0 <= k < s@.len() ==> is_dec_digit(#[trigger] s@[k]) {
                        lemma_dec_val_grows(s@, i + 1);
                    }
                }
                return None;
            },
        };
        proof {
            assert(s@.subrange(0, i + 1).drop_last() =~= s@.subrange(0, i as int));
        }
        acc = next;
        i = i + 1;
    }
    assert(s@.subrange(0, i as int) =~= s@);
    Some(acc)
}

/// Parses an unsigned hexadecimal number (without a `0x` prefix). Returns
/// the value exactly when the whole string is a non-empty run of hex
/// digits whose value fits.
pub fn parse_u32_hex(s: &[u8]) -> (r: Option<u32>)
    ensures
        r is Some <==> s@.len() > 0 && (forall|i: int|
            0 <= i < s@.len() ==> is_hex_digit(#[trigger] s@[i])) && hex_val(s@) <= u32::MAX,
        r is Some ==> r->0 == hex_val(s@),
{
    if s.len() == 0 {
        return None;
    }
    let mut acc: u32 = 0;
    let mut i: usize = 0;
    while i < s.len()
        invariant
            i <= s@.len(),
            s@.len() > 0,
            forall|k: int| 0 <= k < i ==> is_hex_digit(#[trigger] s@[k]),
            acc == hex_val(s@.subrange(0, i as int)),
        decreases s@.len() - i,
    {
        let b = s[i];
        let d: u32 = if 48 <= b && b <= 57 {
            (b - 48) as u32
        } else if 97 <= b && b <= 102 {
            (b - 87) as u32
        } else if 65 <= b && b <= 70 {
            (b - 55) as u32
        } else {
            return None;
        };
        let shifted = match acc.checked_mul(16) {
            Some(x) => x,
            None => {
                proof {
                    assert(s@.subrange(0, i + 1).drop_last() =~= s@.subrange(0, i as int));
                    assert(hex_val(s@.subrange(0, i + 1)) > u32::MAX);
                    if forall|k: int| 0 <= k < s@.len() ==> is_hex_digit(#[trigger] s@[k]) {
                        lemma_hex_val_grows(s@, i + 1);
                    }
                }
                return None;
            },
        };
        let next = match shifted.checked_add(d) {
            Some(x) => x,
            None => {
                proof {
                    assert(s@.subrange(0, i + 1).drop_last() =~= s@.subrange(0, i as int));
                    assert(hex_val(s@.subrange(0, i + 1)) > u32::MAX);
                    if forall|k: int| 0 <= k < s@.len() ==> is_hex_digit(#[trigger] s@[k]) {
                        lemma_hex_val_grows(s@, i + 1);
                    }
                }
                return None;
            },
        };
        proof {
            assert(s@.subrange(0, i + 1).drop_last() =~= s@.subrange(0, i as int));
        }
        acc = next;
        i = i + 1;
    }
    assert(s@.subrange(0, i as int) =~= s@);
    Some(acc)
}

/// The prefix of `s` before its first `stop` element; `s` itself when
/// `stop` does not occur.
pub open spec fn prefix_to<T>(s: Seq<T>, stop: T) -> Seq<T>
    decreases s.len(),
{
    if s.len() == 0 {
        Seq::empty()
    } else if s.first() == stop {
        Seq::empty()
    } else {
        seq![s.first()] + prefix_to(s.drop_first(), stop)
    }
}

/// What follows the first `stop` element of `s`; empty when `stop` does
/// not occur.
pub open spec fn rest_after<T>(s: Seq<T>, stop: T) -> Seq<T>
    decreases s.len(),
{
    if s.len() == 0 {
        Seq::empty()
    } else if s.first() == stop {
        s.drop_first()
    } else {
        rest_after(s.drop_first(), stop)
    }
}

/// `prefix_to` is the subrange before the first occurrence.
pub proof fn lemma_prefix_to_at<T>(s: Seq<T>, stop: T, i: int)
    requires
        0 <= i <= s.len(),
        forall|k: int| 0 <= k < i ==> s[k] != stop,
        i == s.len() || s[i] == stop,
    ensures
        prefix_to(s, stop) == s.subrange(0, i),
    decreases s.len(),
{
    if s.len() == 0 {
        assert(prefix_to(s, stop) =~= s.subrange(0, i));
    } else if i == 0 {
        assert(prefix_to(s, stop) =~= s.subrange(0, 0));
    } else {
        lemma_prefix_to_at(s.drop_first(), stop, i - 1);
        assert(s.drop_first().subrange(0, i - 1) =~= s.subrange(1, i));
        assert(prefix_to(s, stop) =~= s.subrange(0, i));
    }
}

/// `rest_after` is the suffix past the first occurrence.
pub proof fn lemma_rest_after_at<T>(s: Seq<T>, stop: T, i: int)
    requires
        0 <= i < s.len(),
        forall|k: int| 0 <= k < i ==> s[k] != stop,
        s[i] == stop,
    ensures
        rest_after(s, stop) == s.subrange(i + 1, s.len() as int),
    decreases s.len(),
{
    if i == 0 {
        assert(rest_after(s, stop) =~= s.subrange(1, s.len() as int));
    } else {
        lemma_rest_after_at(s.drop_first(), stop, i - 1);
        assert(s.drop_first().subrange(i, s.drop_first().len() as int) =~= s.subrange(
            i + 1,
            s.len() as int,
        ));
    }
}

/// Decimal digits of a number, most significant first; negative values
/// render as a single zero.
pub open spec fn spec_dec_digits(n: int) -> Seq<u8>
    decreases n,
{
    if n < 10 {
        seq![(48 + (if n >= 0 { n } else { 0 })) as u8]
    } else {
        spec_dec_digits(n / 10).push((48 + n % 10) as u8)
    }
}

/// Every rendered digit is an ASCII digit.
pub proof fn lemma_dec_digits_ascii(n: int)
    ensures
        forall|i: int|
            0 <= i < spec_dec_digits(n).len() ==> 48 <= #[trigger] spec_dec_digits(n)[i] <= 57,
    decreases n,
{
    if n >= 10 {
        lemma_dec_digits_ascii(n / 10);
        assert forall|i: int| 0 <= i < spec_dec_digits(n).len() implies 48
            <= #[trigger] spec_dec_digits(n)[i] <= 57 by {
            if i < spec_dec_digits(n / 10).len() {
                assert(spec_dec_digits(n)[i] == spec_dec_digits(n / 10)[i]);
            }
        }
    }
}

/// Renders a number in decimal, most significant digit first.
pub fn dec_digits_u64(n: u64) -> (r: Vec<u8>)
    ensures
        r@ == spec_dec_digits(n as int),
    decreases n,
{
    if n < 10 {
        let mut v: Vec<u8> = Vec::new();
        v.push(48 + (n as u8));
        proof {
            assert(v@ =~= spec_dec_digits(n as int));
        }
        v
    } else {
        let mut v = dec_digits_u64(n / 10);
        v.push(48 + ((n % 10) as u8));
        proof {
            assert(v@ =~= spec_dec_digits(n as int));
        }
        v
    }
}

/// Appends a byte slice.
pub fn push_bytes(v: &mut Vec<u8>, w: &[u8])
    ensures
        final(v)@ == old(v)@ + w@,
{
    let mut i: usize = 0;
    while i < w.len()
        invariant
            i <= w@.len(),
            v@ =~= old(v)@ + w@.subrange(0, i as int),
        decreases w@.len() - i,
    {
        v.push(w[i]);
        i = i + 1;
    }
    proof {
        assert(w@.subrange(0, w@.len() as int) =~= w@);
    }
}

/// Appends a string's UTF-8 bytes.
pub fn push_str_bytes(v: &mut Vec<u8>, s: &str)
    ensures
        final(v)@ == old(v)@ + s.spec_bytes(),
{
    push_bytes(v, s.as_bytes());
}

/// What `String::from_utf8_lossy` yields for a byte sequence; the
/// result depends on the bytes alone.
pub uninterp spec fn utf8_lossy_of(s: Seq<u8>) -> Seq<char>;

/// Relies on String::from_utf8_lossy: decodes UTF-8, replacing invalid
/// sequences, as a function of the bytes alone; ASCII bytes decode to
/// themselves.
#[verifier::external_body]
pub(crate) fn utf8_lossy(v: &Vec<u8>) -> (r: String)
    ensures
        r@ == utf8_lossy_of(v@),
        (forall|i: int| 0 <= i < v@.len() ==> v@[i] < 128) ==> r@ == v@.map_values(
            |b: u8| b as char,
        ),
{
    String::from_utf8_lossy(v).into_owned()
}

/// Is `b` ASCII whitespace (space, tab, carriage return, line feed)?
pub open spec fn is_ascii_ws(b: u8) -> bool {
    b == 32 || b == 9 || b == 13 || b == 10
}

/// `s` without its leading ASCII whitespace.
pub open spec fn skip_ws(s: Seq<u8>) -> Seq<u8>
    decreases s.len(),
{
    if s.len() == 0 {
        Seq::empty()
    } else if is_ascii_ws(s.first()) {
        skip_ws(s.drop_first())
    } else {
        s
    }
}

/// `skip_ws` is the suffix past the leading whitespace run.
pub proof fn lemma_skip_ws_at(s: Seq<u8>, i: int)
    requires
        0 <= i <= s.len(),
        forall|k: int| 0 <= k < i ==> is_ascii_ws(#[trigger] s[k]),
        i == s.len() || !is_ascii_ws(s[i]),
    ensures
        skip_ws(s) == s.subrange(i, s.len() as int),
    decreases s.len(),
{
    if i == 0 {
        assert(skip_ws(s) =~= s.subrange(0, s.len() as int));
    } else {
        lemma_skip_ws_at(s.drop_first(), i - 1);
        assert(s.drop_first().subrange(i - 1, s.drop_first().len() as int) =~= s.subrange(
            i,
            s.len() as int,
        ));
    }
}

/// Without an occurrence of `stop`, nothing follows it.
pub proof fn lemma_rest_after_none<T>(s: Seq<T>, stop: T)
    requires
        forall|k: int| 0 <= k < s.len() ==> s[k] != stop,
    ensures
        rest_after(s, stop) == Seq::<T>::empty(),
    decreases s.len(),
{
    if s.len() > 0 {
        lemma_rest_after_none(s.drop_first(), stop);
    }
}

/// Position of the first occurrence of `b`, if any.
pub fn find_byte(v: &[u8], b: u8) -> (r: Option<usize>)
    ensures
        r is Some ==> 0 <= r->0 < v@.len() && v@[r->0 as int] == b && (forall|k: int|
            0 <= k < r->0 ==> v@[k] != b),
        r is None ==> forall|k: int| 0 <= k < v@.len() ==> v@[k] != b,
{
    let mut i: usize = 0;
    while i < v.len()
        invariant
            i <= v@.len(),
            forall|k: int| 0 <= k < i ==> v@[k] != b,
        decreases v@.len() - i,
    {
        if v[i] == b {
            return Some(i);
        }
        i = i + 1;
    }
    None
}

/// Cuts a byte buffer at its first occurrence of `stop`.
pub fn trim_at_byte(v: &[u8], stop: u8) -> (r: Vec<u8>)
    ensures
        r@ == prefix_to(v@, stop),
{
    let mut i: usize = 0;
    while i < v.len() && v[i] != stop
        invariant
            i <= v@.len(),
            forall|k: int| 0 <= k < i ==> v@[k] != stop,
        decreases v@.len() - i,
    {
        i = i + 1;
    }
    let mut r: Vec<u8> = Vec::new();
    let mut j: usize = 0;
    while j < i
        invariant
            i <= v@.len(),
            j <= i,
            r@ =~= v@.subrange(0, j as int),
        decreases i - j,
    {
        r.push(v[j]);
        j = j + 1;
    }
    proof {
        lemma_prefix_to_at(v@, stop, i as int);
    }
    r
}

} // verus!
