//! Text decoding: UTF-16LE names, UTF-8 resident data, and hex formatting.
//!
//! NTFS stores names as UTF-16LE code units. The decoder here is specified
//! and verified against a mathematical definition of UTF-16 validity and
//! decoding; only the final packaging of characters into `String`, and UTF-8
//! validation of resident data, rely on the standard library.

use vstd::prelude::*;

verus! {

broadcast use vstd::utf8::char_u32_cast;

/// The UTF-16 code units held by a little-endian byte sequence, in order.
pub open spec fn utf16_units(bytes: Seq<u8>) -> Seq<u16> {
    Seq::new((bytes.len() / 2) as nat, |i: int| (bytes[2 * i] + 256 * bytes[2 * i + 1]) as u16)
}

/// True when the code units form valid UTF-16: every high surrogate is
/// followed by a low surrogate, and no low surrogate stands alone.
pub open spec fn utf16_valid(units: Seq<u16>) -> bool
    decreases units.len(),
{
    if units.len() == 0 {
        true
    } else {
        let u = units[0];
        if u < 0xD800 || u >= 0xE000 {
            utf16_valid(units.skip(1))
        } else if u < 0xDC00 {
            units.len() >= 2 && 0xDC00 <= units[1] < 0xE000 && utf16_valid(units.skip(2))
        } else {
            false
        }
    }
}

/// The character encoded by a surrogate pair.
pub open spec fn utf16_pair_char(hi: u16, lo: u16) -> char {
    ((0x10000 + (hi - 0xD800) * 0x400 + (lo - 0xDC00)) as u32) as char
}

/// The characters encoded by valid UTF-16 code units.
pub open spec fn utf16_decode(units: Seq<u16>) -> Seq<char>
    recommends
        utf16_valid(units),
    decreases units.len(),
    when utf16_valid(units)
{
    if units.len() == 0 {
        seq![]
    } else {
        let u = units[0];
        if u < 0xD800 || u >= 0xE000 {
            seq![(u as u32) as char] + utf16_decode(units.skip(1))
        } else {
            seq![utf16_pair_char(u, units[1])] + utf16_decode(units.skip(2))
        }
    }
}

/// Relies on char::from_u32: it returns the character with the given scalar
/// value, and None exactly on surrogates and values above the Unicode maximum.
#[verifier::external_body]
fn char_from_u32(v: u32) -> (r: Option<char>)
    ensures
        r is Some <==> (v < 0xD800 || (0xE000 <= v && v <= 0x10FFFF)),
        r matches Some(c) ==> c as u32 == v,
{
    char::from_u32(v)
}

/// Relies on String's FromIterator over char: the collected string holds
/// exactly the given characters.
#[verifier::external_body]
pub(crate) fn string_from_chars(cs: &Vec<char>) -> (r: String)
    ensures
        r@ == cs@,
{
    cs.iter().collect()
}

/// Relies on String::from_utf8: it succeeds exactly on valid UTF-8 input and
/// returns the string those bytes encode.
#[verifier::external_body]
pub(crate) fn utf8_to_string(data: Vec<u8>) -> (r: Option<String>)
    ensures
        r is Some <==> vstd::utf8::valid_utf8(data@),
        r matches Some(s) ==> s@ == vstd::utf8::decode_utf8(data@),
{
    String::from_utf8(data).ok()
}

/// Gathers the UTF-16 code units of `buf[start..end]` (an even-length range).
pub fn gather_utf16_units(buf: &[u8], start: usize, end: usize) -> (r: Vec<u16>)
    requires
        start <= end <= buf@.len(),
        (end - start) % 2 == 0,
    ensures
        r@ == utf16_units(buf@.subrange(start as int, end as int)),
{
    let ghost s = buf@.subrange(start as int, end as int);
    let blen: usize = buf.len();
    let mut r: Vec<u16> = Vec::new();
    let mut i: usize = start;
    while i < end
        invariant
            start <= i <= end <= blen == buf@.len(),
            (end - start) % 2 == 0,
            (i - start) % 2 == 0,
            s == buf@.subrange(start as int, end as int),
            r@.len() == (i - start) / 2,
            forall|j: int| 0 <= j < r@.len() ==> r@[j] == utf16_units(s)[j],
        decreases end - i,
    {
        proof {
            assert((end - i) % 2 == 0);
            assert(end - i >= 2);
        }
        let lo = buf[i];
        let hi = buf[i + 1];
        let u: u16 = (lo as u16) + 256 * (hi as u16);
        proof {
            assert(s[i - start] == buf@[i as int]);
            assert(s[i - start + 1] == buf@[i + 1]);
        }
        r.push(u);
        i = i + 2;
    }
    proof {
        assert(r@.len() == utf16_units(s).len());
        assert(r@ =~= utf16_units(s));
    }
    r
}

/// Decodes UTF-16 code units into a string: None exactly on invalid UTF-16.
pub fn utf16_to_string(units: &Vec<u16>) -> (r: Option<String>)
    ensures
        r is Some <==> utf16_valid(units@),
        r matches Some(s) ==> s@ == utf16_decode(units@),
{
    let n: usize = units.len();
    let mut cs: Vec<char> = Vec::new();
    let mut i: usize = 0;
    proof {
        assert(units@.skip(0) =~= units@);
    }
    while i < n
        invariant
            i <= n == units@.len(),
            utf16_valid(units@) <==> utf16_valid(units@.skip(i as int)),
            utf16_valid(units@) ==> utf16_decode(units@) == cs@ + utf16_decode(
                units@.skip(i as int),
            ),
        decreases n - i,
    {
        let ghost rest = units@.skip(i as int);
        proof {
            assert(rest[0] == units@[i as int]);
        }
        let u = units[i];
        if u < 0xD800 || u >= 0xE000 {
            proof {
                assert(rest.skip(1) =~= units@.skip(i + 1));
            }
            match char_from_u32(u as u32) {
                Some(c) => {
                    proof {
                        vstd::utf8::char_u32_cast(c, u as u32);
                        if utf16_valid(units@) {
                            assert(utf16_decode(rest) == seq![(u as u32) as char]
                                + utf16_decode(units@.skip(i + 1)));
                            assert(cs@ + utf16_decode(rest) =~= (cs@ + seq![c]) + utf16_decode(
                                units@.skip(i + 1),
                            ));
                        }
                    }
                    cs.push(c);
                    i = i + 1;
                },
                None => {
                    return None;
                },
            }
        } else if u < 0xDC00 {
            if i + 1 >= n {
                proof {
                    assert(!utf16_valid(rest));
                }
                return None;
            }
            proof {
                assert(rest[1] == units@[i + 1]);
            }
            let lo = units[i + 1];
            if !(0xDC00 <= lo && lo < 0xE000) {
                proof {
                    assert(!utf16_valid(rest));
                }
                return None;
            }
            proof {
                assert(rest.skip(2) =~= units@.skip(i + 2));
            }
            let v: u32 = 0x10000 + ((u - 0xD800) as u32) * 0x400 + ((lo - 0xDC00) as u32);
            match char_from_u32(v) {
                Some(c) => {
                    proof {
                        vstd::utf8::char_u32_cast(c, v);
                        assert(v == (0x10000 + (u - 0xD800) * 0x400 + (lo - 0xDC00)) as u32);
                        assert(c == utf16_pair_char(u, lo));
                        if utf16_valid(units@) {
                            assert(utf16_decode(rest) == seq![utf16_pair_char(u, lo)]
                                + utf16_decode(units@.skip(i + 2)));
                            assert(cs@ + utf16_decode(rest) =~= (cs@ + seq![c]) + utf16_decode(
                                units@.skip(i + 2),
                            ));
                        }
                    }
                    cs.push(c);
                    i = i + 2;
                },
                None => {
                    // v lies in the supplementary range, so from_u32 cannot fail.
                    return None;
                },
            }
        } else {
            proof {
                assert(!utf16_valid(rest));
            }
            return None;
        }
    }
    proof {
        assert(units@.skip(n as int) =~= Seq::<u16>::empty());
        assert(utf16_valid(units@));
        assert(utf16_decode(units@) =~= cs@);
    }
    Some(string_from_chars(&cs))
}

/// The lowercase hex digit for a value below sixteen.
pub open spec fn hex_digit(n: int) -> char
    recommends
        0 <= n < 16,
{
    if n < 10 {
        ((0x30 + n) as u32) as char
    } else {
        ((0x57 + n) as u32) as char
    }
}

/// Appends the two hex digits of a byte, high nibble first.
pub fn push_hex_byte(cs: &mut Vec<char>, b: u8)
    ensures
        final(cs)@ == old(cs)@ + seq![hex_digit(b as int / 16), hex_digit(b as int % 16)],
{
    let hi = b / 16;
    let lo = b % 16;
    let c_hi = hex_char(hi);
    let c_lo = hex_char(lo);
    cs.push(c_hi);
    cs.push(c_lo);
    proof {
        assert(final(cs)@ =~= old(cs)@ + seq![hex_digit(b as int / 16), hex_digit(b as int % 16)]);
    }
}

/// The lowercase hex digit of a nibble, as an executable character.
fn hex_char(n: u8) -> (c: char)
    requires
        n < 16,
    ensures
        c == hex_digit(n as int),
{
    let b: u8 = if n < 10 {
        0x30 + n
    } else {
        0x57 + n
    };
    let c = b as char;
    proof {
        assert(c as u32 == b as u32);
    }
    c
}

} // verus!
