//! Byte-level text utilities shared by the protocol parsers and the
//! access-control matcher.
//!
//! String matching throughout the crate is specified over the UTF-8
//! bytes of the strings involved (`str::spec_bytes`), which is exactly
//! the semantics of `str` comparison and slicing in Rust.

use vstd::prelude::*;

verus! {

/// True when `p` is a prefix of `s`.
pub open spec fn seq_starts_with(s: Seq<u8>, p: Seq<u8>) -> bool {
    p.len() <= s.len() && s.subrange(0, p.len() as int) == p
}

/// True when `p` is a suffix of `s`.
pub open spec fn seq_ends_with(s: Seq<u8>, p: Seq<u8>) -> bool {
    p.len() <= s.len() && s.subrange(s.len() - p.len(), s.len() as int) == p
}

pub fn bytes_eq(a: &[u8], b: &[u8]) -> (r: bool)
    ensures
        r == (a@ == b@),
{
    if a.len() != b.len() {
        proof {
            assert(a@.len() != b@.len());
        }
        return false;
    }
    let mut i: usize = 0;
    while i < a.len()
        invariant
            i <= a.len(),
            a.len() == b.len(),
            forall|j: int| 0 <= j < i ==> a@[j] == b@[j],
        decreases a.len() - i,
    {
        if a[i] != b[i] {
            return false;
        }
        i += 1;
    }
    proof {
        assert(a@ =~= b@);
    }
    true
}

pub fn starts_with(s: &[u8], p: &[u8]) -> (r: bool)
    ensures
        r == seq_starts_with(s@, p@),
{
    if p.len() > s.len() {
        return false;
    }
    let mut i: usize = 0;
    while i < p.len()
        invariant
            i <= p.len(),
            p.len() <= s.len(),
            forall|j: int| 0 <= j < i ==> s@[j] == p@[j],
        decreases p.len() - i,
    {
        if s[i] != p[i] {
            proof {
                assert(s@.subrange(0, p@.len() as int)[i as int] != p@[i as int]);
            }
            return false;
        }
        i += 1;
    }
    proof {
        assert(s@.subrange(0, p@.len() as int) =~= p@);
    }
    true
}

pub fn ends_with(s: &[u8], p: &[u8]) -> (r: bool)
    ensures
        r == seq_ends_with(s@, p@),
{
    if p.len() > s.len() {
        return false;
    }
    let off: usize = s.len() - p.len();
    let mut i: usize = 0;
    while i < p.len()
        invariant
            i <= p.len(),
            p.len() <= s.len(),
            off == s.len() - p.len(),
            forall|j: int| 0 <= j < i ==> s@[off + j] == p@[j],
        decreases p.len() - i,
    {
        if s[off + i] != p[i] {
            proof {
                assert(s@.subrange(s@.len() - p@.len(), s@.len() as int)[i as int]
                    != p@[i as int]);
            }
            return false;
        }
        i += 1;
    }
    proof {
        assert(s@.subrange(s@.len() - p@.len(), s@.len() as int) =~= p@);
    }
    true
}

/// The UTF-8 bytes of a character sequence; string matching in this
/// crate is specified over these, which is how `str` comparison and
/// slicing behave in Rust.
pub open spec fn chars_bytes(s: Seq<char>) -> Seq<u8> {
    vstd::utf8::encode_utf8(s)
}

/// Equality of two string slices, specified over their views.
pub fn str_eq(a: &str, b: &str) -> (r: bool)
    ensures
        r == (a@ == b@),
{
    let r = bytes_eq(a.as_bytes(), b.as_bytes());
    proof {
        if r {
            vstd::utf8::encode_utf8_decode_utf8(a@);
            vstd::utf8::encode_utf8_decode_utf8(b@);
        }
    }
    r
}

/// Index of the first occurrence of `b` at or after `i`, or the length
/// of `s` when `b` does not occur there.
pub open spec fn spec_find_from(s: Seq<u8>, b: u8, i: int) -> int
    decreases s.len() - i,
{
    if i < s.len() {
        if s[i] == b {
            i
        } else {
            spec_find_from(s, b, i + 1)
        }
    } else {
        s.len() as int
    }
}

pub fn find_idx(s: &[u8], b: u8) -> (r: usize)
    ensures
        r == spec_find_from(s@, b, 0),
        r <= s@.len(),
{
    let mut j: usize = 0;
    while j < s.len() && s[j] != b
        invariant
            j <= s@.len(),
            spec_find_from(s@, b, 0) == spec_find_from(s@, b, j as int),
        decreases s@.len() - j,
    {
        j += 1;
    }
    j
}

/// Whether `b` occurs in `s`.
pub open spec fn seq_contains_byte(s: Seq<u8>, b: u8) -> bool {
    exists|k: int| 0 <= k < s.len() && s[k] == b
}

pub fn contains_byte(s: &[u8], b: u8) -> (r: bool)
    ensures
        r == seq_contains_byte(s@, b),
{
    let mut i: usize = 0;
    while i < s.len()
        invariant
            i <= s@.len(),
            forall|k: int| 0 <= k < i ==> s@[k] != b,
        decreases s@.len() - i,
    {
        if s[i] == b {
            return true;
        }
        i += 1;
    }
    false
}

/// Index of the last occurrence of `b` in `s`, or -1 when there is
/// none.
pub open spec fn spec_rfind(s: Seq<u8>, b: u8) -> int
    decreases s.len(),
{
    if s.len() == 0 {
        -1
    } else if s.last() == b {
        s.len() - 1
    } else {
        spec_rfind(s.drop_last(), b)
    }
}

pub fn rfind_idx(s: &[u8], b: u8) -> (r: Option<usize>)
    ensures
        match r {
            Some(i) => spec_rfind(s@, b) == i && i < s@.len(),
            None => spec_rfind(s@, b) == -1,
        },
{
    let mut i: usize = s.len();
    proof {
        assert(s@.take(s@.len() as int) =~= s@);
    }
    while i > 0
        invariant
            i <= s@.len(),
            spec_rfind(s@, b) == spec_rfind(s@.take(i as int), b),
        decreases i,
    {
        let ghost pre = s@.take(i as int);
        proof {
            assert(pre.drop_last() =~= s@.take(i - 1));
            assert(pre.last() == s@[i - 1]);
        }
        if s[i - 1] == b {
            return Some(i - 1);
        }
        i -= 1;
    }
    None
}

/// ASCII lower-casing of one byte.
pub open spec fn lower_byte(b: u8) -> u8 {
    if 65 <= b <= 90 {
        (b + 32) as u8
    } else {
        b
    }
}

pub fn to_lower_byte(b: u8) -> (r: u8)
    ensures
        r == lower_byte(b),
{
    if 65 <= b && b <= 90 {
        b + 32
    } else {
        b
    }
}

/// True when `a` and `b` are equal after ASCII lower-casing.
pub open spec fn seq_eq_ignore_ascii_case(a: Seq<u8>, b: Seq<u8>) -> bool {
    a.map_values(|x: u8| lower_byte(x)) == b.map_values(|x: u8| lower_byte(x))
}

pub fn eq_ignore_ascii_case(a: &[u8], b: &[u8]) -> (r: bool)
    ensures
        r == seq_eq_ignore_ascii_case(a@, b@),
{
    let ghost la = a@.map_values(|x: u8| lower_byte(x));
    let ghost lb = b@.map_values(|x: u8| lower_byte(x));
    if a.len() != b.len() {
        proof {
            assert(la.len() != lb.len());
        }
        return false;
    }
    let mut i: usize = 0;
    while i < a.len()
        invariant
            i <= a.len(),
            a.len() == b.len(),
            la == a@.map_values(|x: u8| lower_byte(x)),
            lb == b@.map_values(|x: u8| lower_byte(x)),
            forall|j: int| 0 <= j < i ==> la[j] == lb[j],
        decreases a.len() - i,
    {
        if to_lower_byte(a[i]) != to_lower_byte(b[i]) {
            proof {
                assert(la[i as int] != lb[i as int]);
            }
            return false;
        }
        i += 1;
    }
    proof {
        assert(la =~= lb);
    }
    true
}

/// True when `s` starts with `p`, comparing ASCII case-insensitively.
pub open spec fn seq_starts_with_ignore_case(s: Seq<u8>, p: Seq<u8>) -> bool {
    seq_starts_with(s.map_values(|x: u8| lower_byte(x)), p.map_values(|x: u8| lower_byte(x)))
}

pub fn starts_with_ignore_case(s: &[u8], p: &[u8]) -> (r: bool)
    ensures
        r == seq_starts_with_ignore_case(s@, p@),
{
    let ghost ls = s@.map_values(|x: u8| lower_byte(x));
    let ghost lp = p@.map_values(|x: u8| lower_byte(x));
    if p.len() > s.len() {
        return false;
    }
    let mut i: usize = 0;
    while i < p.len()
        invariant
            i <= p.len(),
            p.len() <= s.len(),
            ls == s@.map_values(|x: u8| lower_byte(x)),
            lp == p@.map_values(|x: u8| lower_byte(x)),
            forall|j: int| 0 <= j < i ==> ls[j] == lp[j],
        decreases p.len() - i,
    {
        if to_lower_byte(s[i]) != to_lower_byte(p[i]) {
            proof {
                assert(ls.subrange(0, lp.len() as int)[i as int] != lp[i as int]);
            }
            return false;
        }
        i += 1;
    }
    proof {
        assert(ls.subrange(0, lp.len() as int) =~= lp);
    }
    true
}

/// ASCII whitespace, as the HTTP request-line tokenizer understands it.
pub open spec fn is_ws(b: u8) -> bool {
    b == 32 || b == 9 || b == 10 || b == 13 || b == 11 || b == 12
}

pub fn is_ws_byte(b: u8) -> (r: bool)
    ensures
        r == is_ws(b),
{
    b == 32 || b == 9 || b == 10 || b == 13 || b == 11 || b == 12
}

/// Index of the first non-whitespace byte at or after `i`.
pub open spec fn spec_skip_ws(s: Seq<u8>, i: int) -> int
    decreases s.len() - i,
{
    if i < s.len() && is_ws(s[i]) {
        spec_skip_ws(s, i + 1)
    } else {
        i
    }
}

/// Index just past the token (maximal non-whitespace run) starting at `i`.
pub open spec fn spec_token_end(s: Seq<u8>, i: int) -> int
    decreases s.len() - i,
{
    if i < s.len() && !is_ws(s[i]) {
        spec_token_end(s, i + 1)
    } else {
        i
    }
}

pub fn skip_ws(s: &[u8], i: usize) -> (r: usize)
    requires
        i <= s@.len(),
    ensures
        r == spec_skip_ws(s@, i as int),
        i <= r <= s@.len(),
{
    let mut j: usize = i;
    while j < s.len() && is_ws_byte(s[j])
        invariant
            i <= j <= s@.len(),
            spec_skip_ws(s@, i as int) == spec_skip_ws(s@, j as int),
        decreases s@.len() - j,
    {
        j += 1;
    }
    j
}

pub fn token_end(s: &[u8], i: usize) -> (r: usize)
    requires
        i <= s@.len(),
    ensures
        r == spec_token_end(s@, i as int),
        i <= r <= s@.len(),
{
    let mut j: usize = i;
    while j < s.len() && !is_ws_byte(s[j])
        invariant
            i <= j <= s@.len(),
            spec_token_end(s@, i as int) == spec_token_end(s@, j as int),
        decreases s@.len() - j,
    {
        j += 1;
    }
    j
}

/// Leading whitespace removed.
pub open spec fn spec_trim_start(s: Seq<u8>) -> Seq<u8>
    decreases s.len(),
{
    if s.len() > 0 && is_ws(s[0]) {
        spec_trim_start(s.drop_first())
    } else {
        s
    }
}

/// Trailing whitespace removed.
pub open spec fn spec_trim_end(s: Seq<u8>) -> Seq<u8>
    decreases s.len(),
{
    if s.len() > 0 && is_ws(s.last()) {
        spec_trim_end(s.drop_last())
    } else {
        s
    }
}

/// Whitespace removed from both ends.
pub open spec fn spec_trim(s: Seq<u8>) -> Seq<u8> {
    spec_trim_end(spec_trim_start(s))
}

proof fn lemma_trim_start_at(s: Seq<u8>, i: int)
    requires
        0 <= i <= s.len(),
        forall|j: int| 0 <= j < i ==> is_ws(s[j]),
        i < s.len() ==> !is_ws(s[i]),
    ensures
        spec_trim_start(s) =~= s.subrange(i, s.len() as int),
    decreases i,
{
    if i == 0 {
        if s.len() > 0 && is_ws(s[0]) {
            assert(false);
        }
        assert(s.subrange(0, s.len() as int) =~= s);
    } else {
        assert(is_ws(s[0]));
        assert(spec_trim_start(s) == spec_trim_start(s.drop_first()));
        lemma_trim_start_at(s.drop_first(), i - 1);
        assert(s.drop_first().subrange(i - 1, s.drop_first().len() as int) =~= s.subrange(
            i,
            s.len() as int,
        ));
    }
}

proof fn lemma_trim_end_at(s: Seq<u8>, i: int)
    requires
        0 <= i <= s.len(),
        forall|j: int| i <= j < s.len() ==> is_ws(s[j]),
        i > 0 ==> !is_ws(s[i - 1]),
    ensures
        spec_trim_end(s) =~= s.subrange(0, i),
    decreases s.len() - i,
{
    if i == s.len() {
        if s.len() > 0 && is_ws(s.last()) {
            assert(false);
        }
        assert(s.subrange(0, s.len() as int) =~= s);
    } else {
        assert(is_ws(s.last()));
        assert(spec_trim_end(s) == spec_trim_end(s.drop_last()));
        lemma_trim_end_at(s.drop_last(), i);
    }
}

/// The bounds of the trimmed region of `s`: whitespace stripped from
/// both ends, returned as an index pair into `s`.
pub fn trim_bounds(s: &[u8]) -> (r: (usize, usize))
    ensures
        r.0 <= r.1 <= s@.len(),
        s@.subrange(r.0 as int, r.1 as int) == spec_trim(s@),
{
    let mut a: usize = 0;
    while a < s.len() && is_ws_byte(s[a])
        invariant
            a <= s@.len(),
            forall|j: int| 0 <= j < a ==> is_ws(s@[j]),
        decreases s@.len() - a,
    {
        a += 1;
    }
    let mut b: usize = s.len();
    while b > a && is_ws_byte(s[b - 1])
        invariant
            a <= b <= s@.len(),
            forall|j: int| b <= j < s@.len() ==> is_ws(s@[j]),
        decreases b,
    {
        b -= 1;
    }
    proof {
        lemma_trim_start_at(s@, a as int);
        let t = s@.subrange(a as int, s@.len() as int);
        if b == a {
            lemma_trim_end_at(t, 0);
        } else {
            lemma_trim_end_at(t, b - a);
        }
        assert(t.subrange(0, b - a) =~= s@.subrange(a as int, b as int));
    }
    (a, b)
}

/// Copy of `s[i..j]` as a fresh vector.
pub fn subrange_vec(s: &[u8], i: usize, j: usize) -> (r: Vec<u8>)
    requires
        i <= j <= s@.len(),
    ensures
        r@ == s@.subrange(i as int, j as int),
{
    let sub: &[u8] = vstd::slice::slice_subrange(s, i, j);
    vstd::slice::slice_to_vec(sub)
}

/// An ASCII decimal digit.
pub open spec fn is_dec_digit(b: u8) -> bool {
    48 <= b <= 57
}

pub open spec fn all_dec_digits(s: Seq<u8>) -> bool {
    forall|i: int| 0 <= i < s.len() ==> is_dec_digit(#[trigger] s[i])
}

/// Value of a big-endian decimal digit string.
pub open spec fn dec_value(s: Seq<u8>) -> int
    decreases s.len(),
{
    if s.len() == 0 {
        0
    } else {
        dec_value(s.drop_last()) * 10 + (s.last() - 48)
    }
}

pub proof fn lemma_dec_value_nonneg(s: Seq<u8>)
    requires
        all_dec_digits(s),
    ensures
        dec_value(s) >= 0,
    decreases s.len(),
{
    if s.len() > 0 {
        assert(all_dec_digits(s.drop_last()));
        lemma_dec_value_nonneg(s.drop_last());
    }
}

pub proof fn lemma_dec_value_extend(s: Seq<u8>, t: Seq<u8>)
    requires
        all_dec_digits(s),
        all_dec_digits(t),
    ensures
        dec_value(s + t) >= dec_value(s),
    decreases t.len(),
{
    lemma_dec_value_nonneg(s);
    if t.len() == 0 {
        assert(s + t =~= s);
    } else {
        assert(all_dec_digits(t.drop_last()));
        lemma_dec_value_extend(s, t.drop_last());
        assert((s + t).drop_last() =~= s + t.drop_last());
        lemma_dec_value_nonneg(s + t.drop_last());
        assert(dec_value(s + t) == dec_value(s + t.drop_last()) * 10 + ((s + t).last() - 48));
    }
}

/// Parsing of a decimal `u16`, with the semantics of `u16::from_str`:
/// an optional leading `+`, then at least one digit, and the value must
/// fit in 16 bits.
pub open spec fn spec_parse_u16(s: Seq<u8>) -> Option<u16> {
    let ds = if s.len() > 0 && s[0] == 43 {
        s.drop_first()
    } else {
        s
    };
    if ds.len() > 0 && all_dec_digits(ds) && dec_value(ds) <= 65535 {
        Some(dec_value(ds) as u16)
    } else {
        None
    }
}

pub fn parse_u16_dec(s: &[u8]) -> (r: Option<u16>)
    ensures
        r == spec_parse_u16(s@),
{
    let start: usize = if s.len() > 0 && s[0] == 43 {
        1
    } else {
        0
    };
    let ghost ds = if s@.len() > 0 && s@[0] == 43 {
        s@.drop_first()
    } else {
        s@
    };
    proof {
        assert(ds =~= s@.subrange(start as int, s@.len() as int));
    }
    if s.len() == start {
        return None;
    }
    let mut acc: u32 = 0;
    let mut i: usize = start;
    while i < s.len()
        invariant
            start <= i <= s@.len(),
            start < s@.len(),
            ds == s@.subrange(start as int, s@.len() as int),
            ds == (if s@.len() > 0 && s@[0] == 43 {
                s@.drop_first()
            } else {
                s@
            }),
            all_dec_digits(s@.subrange(start as int, i as int)),
            acc == dec_value(s@.subrange(start as int, i as int)),
            acc <= 65535,
        decreases s@.len() - i,
    {
        let b = s[i];
        let ghost pre = s@.subrange(start as int, i as int);
        if b < 48 || b > 57 {
            proof {
                assert(ds[i - start] == s@[i as int]);
                assert(!is_dec_digit(ds[i - start]));
                assert(!all_dec_digits(ds));
            }
            return None;
        }
        acc = acc * 10 + ((b - 48) as u32);
        proof {
            assert(s@.subrange(start as int, i + 1) =~= pre.push(b));
            assert(pre.push(b).drop_last() =~= pre);
            assert(all_dec_digits(pre.push(b))) by {
                assert(forall|j: int|
                    0 <= j < pre.push(b).len() ==> is_dec_digit(#[trigger] pre.push(b)[j]));
            }
            assert(dec_value(pre.push(b)) == dec_value(pre) * 10 + (b - 48));
        }
        i += 1;
        if acc > 65535 {
            proof {
                let pre2 = s@.subrange(start as int, i as int);
                assert(all_dec_digits(pre2));
                assert(dec_value(pre2) == acc);
                if all_dec_digits(ds) {
                    let rest = s@.subrange(i as int, s@.len() as int);
                    assert(all_dec_digits(rest)) by {
                        assert(forall|j: int|
                            0 <= j < rest.len() ==> #[trigger] rest[j] == ds[i - start + j]);
                    }
                    lemma_dec_value_extend(pre2, rest);
                    assert(pre2 + rest =~= ds);
                    assert(dec_value(ds) > 65535);
                }
            }
            return None;
        }
    }
    proof {
        assert(s@.subrange(start as int, i as int) =~= ds);
    }
    Some(acc as u16)
}

/// ASCII decimal rendering of `n`, without leading zeros.
pub open spec fn dec_bytes(n: int) -> Seq<u8>
    decreases n,
{
    if n < 10 {
        seq![(48 + if n >= 0 { n } else { 0 }) as u8]
    } else {
        dec_bytes(n / 10).push((48 + n % 10) as u8)
    }
}

/// Appends the decimal rendering of `n` to `out`.
pub fn push_dec(n: u64, out: &mut Vec<u8>)
    ensures
        final(out)@ == old(out)@ + dec_bytes(n as int),
    decreases n,
{
    if n < 10 {
        out.push(48 + (n as u8));
        proof {
            assert(old(out)@ + dec_bytes(n as int) =~= old(out)@.push((48 + n) as u8));
        }
    } else {
        push_dec(n / 10, out);
        out.push(48 + ((n % 10) as u8));
        proof {
            assert(old(out)@ + dec_bytes(n as int) =~= (old(out)@ + dec_bytes(n as int / 10)).push(
                (48 + n as int % 10) as u8,
            ));
        }
    }
}

/// The ASCII byte for one lower-case hexadecimal digit.
pub open spec fn hex_digit_byte(d: int) -> u8 {
    if 0 <= d < 10 {
        (48 + d) as u8
    } else if 10 <= d < 16 {
        (87 + d) as u8
    } else {
        48
    }
}

/// Lower-case hexadecimal rendering of `n`, without leading zeros.
pub open spec fn hex_bytes(n: int) -> Seq<u8>
    decreases n,
{
    if n < 16 {
        seq![hex_digit_byte(if n >= 0 { n } else { 0 })]
    } else {
        hex_bytes(n / 16).push(hex_digit_byte(n % 16))
    }
}

/// Lower-case hexadecimal rendering of `n`, zero-padded to `width` digits.
pub open spec fn hex_pad_bytes(n: int, width: nat) -> Seq<u8>
    decreases width,
{
    if width == 0 {
        seq![]
    } else {
        hex_pad_bytes(n / 16, (width - 1) as nat).push(hex_digit_byte(n % 16))
    }
}

fn hex_digit(d: u8) -> (r: u8)
    requires
        d < 16,
    ensures
        r == hex_digit_byte(d as int),
{
    if d < 10 {
        48 + d
    } else {
        87 + d
    }
}

/// Appends the hexadecimal rendering of `n` to `out`.
pub fn push_hex(n: u64, out: &mut Vec<u8>)
    ensures
        final(out)@ == old(out)@ + hex_bytes(n as int),
    decreases n,
{
    if n < 16 {
        out.push(hex_digit(n as u8));
        proof {
            assert(old(out)@ + hex_bytes(n as int) =~= old(out)@.push(hex_digit_byte(n as int)));
        }
    } else {
        push_hex(n / 16, out);
        out.push(hex_digit((n % 16) as u8));
        proof {
            assert(old(out)@ + hex_bytes(n as int) =~= (old(out)@ + hex_bytes(n as int / 16)).push(
                hex_digit_byte(n as int % 16),
            ));
        }
    }
}

/// Appends the `width`-digit zero-padded hexadecimal rendering of `n` to `out`.
pub fn push_hex_pad(n: u64, width: usize, out: &mut Vec<u8>)
    ensures
        final(out)@ == old(out)@ + hex_pad_bytes(n as int, width as nat),
    decreases width,
{
    if width == 0 {
        proof {
            assert(old(out)@ + hex_pad_bytes(n as int, 0) =~= old(out)@);
        }
    } else {
        push_hex_pad(n / 16, width - 1, out);
        out.push(hex_digit((n % 16) as u8));
        proof {
            assert(old(out)@ + hex_pad_bytes(n as int, width as nat) =~= (old(out)@ + hex_pad_bytes(
                n as int / 16,
                (width - 1) as nat,
            )).push(hex_digit_byte(n as int % 16)));
        }
    }
}

pub proof fn lemma_dec_bytes_ascii(n: int)
    ensures
        forall|i: int| 0 <= i < dec_bytes(n).len() ==> 48 <= #[trigger] dec_bytes(n)[i] <= 57,
    decreases n,
{
    if n >= 10 {
        lemma_dec_bytes_ascii(n / 10);
        assert(forall|i: int|
            0 <= i < dec_bytes(n).len() - 1 ==> dec_bytes(n)[i] == dec_bytes(n / 10)[i]);
    }
}

pub proof fn lemma_hex_bytes_ascii(n: int)
    ensures
        forall|i: int| 0 <= i < hex_bytes(n).len() ==> #[trigger] hex_bytes(n)[i] < 128,
    decreases n,
{
    if n >= 16 {
        lemma_hex_bytes_ascii(n / 16);
        assert(forall|i: int|
            0 <= i < hex_bytes(n).len() - 1 ==> hex_bytes(n)[i] == hex_bytes(n / 16)[i]);
    }
}

pub proof fn lemma_hex_pad_bytes_ascii(n: int, width: nat)
    ensures
        forall|i: int|
            0 <= i < hex_pad_bytes(n, width).len() ==> #[trigger] hex_pad_bytes(n, width)[i]
                < 128,
    decreases width,
{
    if width > 0 {
        lemma_hex_pad_bytes_ascii(n / 16, (width - 1) as nat);
        assert(forall|i: int|
            0 <= i < hex_pad_bytes(n, width).len() - 1 ==> hex_pad_bytes(n, width)[i]
                == hex_pad_bytes(n / 16, (width - 1) as nat)[i]);
    }
}

/// Relies on `String::from_utf8`: returns the decoded string exactly
/// when the bytes are valid UTF-8.
#[verifier::external_body]
pub fn utf8_string(v: Vec<u8>) -> (r: Option<String>)
    ensures
        r is Some <==> vstd::utf8::valid_utf8(v@),
        r matches Some(s) ==> s@ == vstd::utf8::decode_utf8(v@),
{
    String::from_utf8(v).ok()
}

pub proof fn lemma_ascii_bytes_utf8(s: Seq<u8>)
    requires
        forall|i: int| 0 <= i < s.len() ==> s[i] < 128,
    ensures
        vstd::utf8::valid_utf8(s),
        vstd::utf8::decode_utf8(s) == s.map_values(|b: u8| b as char),
    decreases s.len(),
{
    if s.len() == 0 {
        assert(s.map_values(|b: u8| b as char) =~= Seq::<char>::empty());
    } else {
        let b0 = s[0];
        assert(vstd::utf8::is_leading_byte_width_1(b0));
        assert(b0 & 0x7F == b0) by (bit_vector)
            requires
                b0 < 128,
        ;
        let rest = s.subrange(1, s.len() as int);
        lemma_ascii_bytes_utf8(rest);
        assert(vstd::utf8::pop_first_scalar(s) =~= rest);
        assert(vstd::utf8::decode_utf8(s) =~= s.map_values(|b: u8| b as char));
    }
}

/// Conversion of ASCII bytes to a `String`; the view is the bytes read
/// as characters.
pub fn ascii_string(v: Vec<u8>) -> (r: String)
    requires
        forall|i: int| 0 <= i < v@.len() ==> v@[i] < 128,
    ensures
        r@ == v@.map_values(|b: u8| b as char),
{
    proof {
        lemma_ascii_bytes_utf8(v@);
    }
    match utf8_string(v) {
        Some(s) => s,
        None => vstd::pervasive::unreached(),
    }
}

} // verus!

