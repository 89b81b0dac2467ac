//! Verified numeric conversions: decimal text for `u64` values and
//! big-endian byte encodings for the binary format.

use vstd::prelude::*;
use vstd::utf8::is_ascii_chars;

verus! {

/// The digit character for a value below ten.
pub open spec fn digit_char(d: nat) -> char
    recommends
        d < 10,
{
    ((0x30 + d) as u8) as char
}

/// True when `c` is an ASCII decimal digit.
pub open spec fn is_digit_char(c: char) -> bool {
    '0' <= c && c <= '9'
}

/// True when every character of `s` is an ASCII decimal digit.
pub open spec fn all_digits(s: Seq<char>) -> bool {
    forall|i: int| 0 <= i < s.len() ==> is_digit_char(#[trigger] s[i])
}

/// Decimal representation of `n`, most significant digit first, no sign and
/// no leading zero (except for `n == 0` itself).
pub open spec fn dec_chars(n: nat) -> Seq<char>
    decreases n,
{
    if n < 10 {
        seq![digit_char(n)]
    } else {
        dec_chars(n / 10).push(digit_char(n % 10))
    }
}

/// Numeric value of a digit string, zero for the empty string.
pub open spec fn digits_val(s: Seq<char>) -> nat
    decreases s.len(),
{
    if s.len() == 0 {
        0
    } else {
        digits_val(s.drop_last()) * 10 + (if s.last() as u32 >= 0x30 {
            (s.last() as u32 - 0x30) as nat
        } else {
            0
        })
    }
}

/// What `str::parse::<u64>` accepts: an optional leading `+`, then at least
/// one digit, with a value that fits in 64 bits.
pub open spec fn spec_parse_u64(s: Seq<char>) -> Option<u64> {
    let body = if s.len() > 0 && s[0] == '+' {
        s.drop_first()
    } else {
        s
    };
    if body.len() == 0 || !all_digits(body) || digits_val(body) > u64::MAX {
        None
    } else {
        Some(digits_val(body) as u64)
    }
}

/// The value of a digit below ten, read back from its digit character.
pub proof fn lemma_digit_char_val(d: nat)
    requires
        d < 10,
    ensures
        digit_char(d) as u32 == 0x30 + d,
        is_digit_char(digit_char(d)),
        digit_char(d) != '+',
{
    let b = (0x30 + d) as u8;
    let c = b as char;
    assert(c as u32 == b as u32);
    vstd::utf8::char_u32_cast(c, c as u32);
    assert(c == (c as u32) as char);
}

/// The decimal representation is non-empty, all digits, and ASCII.
pub proof fn lemma_dec_chars_digits(n: nat)
    ensures
        dec_chars(n).len() >= 1,
        all_digits(dec_chars(n)),
        is_ascii_chars(dec_chars(n)),
    decreases n,
{
    if n < 10 {
        lemma_digit_char_val(n);
        assert(dec_chars(n)[0] == digit_char(n));
        lemma_digits_are_ascii(dec_chars(n));
    } else {
        lemma_dec_chars_digits(n / 10);
        lemma_digit_char_val(n % 10);
        let s = dec_chars(n);
        let p = dec_chars(n / 10);
        assert forall|i: int| 0 <= i < s.len() implies is_digit_char(#[trigger] s[i]) by {
            if i < p.len() {
                assert(s[i] == p[i]);
            } else {
                assert(s[i] == digit_char(n % 10));
            }
        }
        lemma_digits_are_ascii(s);
    }
}

/// Digit characters are ASCII in the ordering sense used by vstd.
pub proof fn lemma_digits_are_ascii(s: Seq<char>)
    requires
        all_digits(s),
    ensures
        is_ascii_chars(s),
{
    assert forall|i: int| 0 <= i < s.len() implies '\0' <= #[trigger] s[i] <= '\u{7f}' by {
        assert(is_digit_char(s[i]));
    }
}

/// Reading the decimal representation back gives the value itself.
pub proof fn lemma_digits_val_dec_chars(n: nat)
    ensures
        digits_val(dec_chars(n)) == n,
    decreases n,
{
    if n < 10 {
        lemma_digit_char_val(n);
        let s = dec_chars(n);
        assert(s.drop_last() =~= Seq::<char>::empty());
        assert(s.last() == digit_char(n));
        assert(digits_val(Seq::<char>::empty()) == 0);
    } else {
        lemma_digits_val_dec_chars(n / 10);
        lemma_digit_char_val(n % 10);
        let s = dec_chars(n);
        assert(s.drop_last() =~= dec_chars(n / 10));
        assert(s.last() == digit_char(n % 10));
        vstd::arithmetic::div_mod::lemma_fundamental_div_mod(n as int, 10);
    }
}

/// Parsing the decimal representation of a `u64` gives the value back.
pub proof fn lemma_parse_dec_chars(n: u64)
    ensures
        spec_parse_u64(dec_chars(n as nat)) == Some(n),
{
    let s = dec_chars(n as nat);
    lemma_dec_chars_digits(n as nat);
    lemma_digits_val_dec_chars(n as nat);
    assert(is_digit_char(s[0]));
    assert(s[0] != '+');
}

/// A digit string's value only grows when the string is extended.
pub proof fn lemma_digits_val_prefix(s: Seq<char>, j: int)
    requires
        0 <= j <= s.len(),
    ensures
        digits_val(s.take(j)) <= digits_val(s),
    decreases s.len(),
{
    if j < s.len() {
        assert(s.drop_last().take(j) =~= s.take(j));
        lemma_digits_val_prefix(s.drop_last(), j);
    } else {
        assert(s.take(j) =~= s);
    }
}

/// The exec form of one digit, as a one-character string slice.
fn digit_str(d: u64) -> (r: &'static str)
    requires
        d < 10,
    ensures
        r@ =~= seq![digit_char(d as nat)],
{
    proof {
        lemma_digit_char_val(d as nat);
        reveal_strlit("0");
        reveal_strlit("1");
        reveal_strlit("2");
        reveal_strlit("3");
        reveal_strlit("4");
        reveal_strlit("5");
        reveal_strlit("6");
        reveal_strlit("7");
        reveal_strlit("8");
        reveal_strlit("9");
    }
    if d == 0 {
        "0"
    } else if d == 1 {
        "1"
    } else if d == 2 {
        "2"
    } else if d == 3 {
        "3"
    } else if d == 4 {
        "4"
    } else if d == 5 {
        "5"
    } else if d == 6 {
        "6"
    } else if d == 7 {
        "7"
    } else if d == 8 {
        "8"
    } else {
        "9"
    }
}

/// Decimal rendering of a `u64`.
pub fn u64_to_string(n: u64) -> (r: String)
    ensures
        r@ =~= dec_chars(n as nat),
    decreases n,
{
    if n < 10 {
        String::from_str(digit_str(n))
    } else {
        let mut r = u64_to_string(n / 10);
        r.append(digit_str(n % 10));
        proof {
            assert(r@ =~= dec_chars(n as nat));
        }
        r
    }
}

/// Parse a `u64` from text, accepting exactly what `str::parse::<u64>` does.
pub fn parse_u64_str(s: &str) -> (r: Option<u64>)
    ensures
        r == spec_parse_u64(s@),
{
    let n = s.unicode_len();
    let start: usize = if n > 0 && s.get_char(0) == '+' {
        1
    } else {
        0
    };
    let ghost body = if s@.len() > 0 && s@[0] == '+' {
        s@.drop_first()
    } else {
        s@
    };
    proof {
        assert(body =~= s@.skip(start as int));
    }
    if start >= n {
        return None;
    }
    let mut acc: u64 = 0;
    let mut i: usize = start;
    while i < n
        invariant
            n == s@.len(),
            start <= i <= n,
            start < n,
            body == (if s@.len() > 0 && s@[0] == '+' {
                s@.drop_first()
            } else {
                s@
            }),
            body == s@.skip(start as int),
            body.len() == n - start,
            all_digits(body.take(i - start)),
            acc == digits_val(body.take(i - start)),
        decreases n - i,
    {
        let c = s.get_char(i);
        proof {
            assert(body[i - start] == s@[i as int]);
        }
        if c < '0' || c > '9' {
            proof {
                assert(!is_digit_char(body[i - start]));
                assert(!all_digits(body));
            }
            return None;
        }
        let cv = c as u32;
        let d = (cv - 0x30) as u64;
        let ghost pre = body.take(i - start);
        proof {
            assert(body.take(i - start + 1).drop_last() =~= pre);
            assert(body.take(i - start + 1).last() == body[i - start]);
            assert(digits_val(body.take(i - start + 1)) == acc * 10 + d);
        }
        let step = match acc.checked_mul(10) {
            Some(x) => x.checked_add(d),
            None => None,
        };
        match step {
            Some(y) => {
                acc = y;
            },
            None => {
                proof {
                    assert(digits_val(body.take(i - start + 1)) > u64::MAX);
                    lemma_digits_val_prefix(body, i - start + 1);
                }
                return None;
            },
        }
        proof {
            assert forall|j: int| 0 <= j < i - start + 1 implies is_digit_char(
                #[trigger] body.take(i - start + 1)[j],
            ) by {
                if j < i - start {
                    assert(body.take(i - start + 1)[j] == body.take(i - start)[j]);
                }
            }
        }
        i += 1;
    }
    proof {
        assert(body.take(n - start) =~= body);
    }
    Some(acc)
}

/// Big-endian bytes of a `u64`, most significant first.
pub open spec fn be64_bytes(x: u64) -> Seq<u8> {
    seq![
        (x >> 56) as u8,
        (x >> 48) as u8,
        (x >> 40) as u8,
        (x >> 32) as u8,
        (x >> 24) as u8,
        (x >> 16) as u8,
        (x >> 8) as u8,
        x as u8,
    ]
}

/// Big-endian bytes of a `u32`, most significant first.
pub open spec fn be32_bytes(x: u32) -> Seq<u8> {
    seq![(x >> 24) as u8, (x >> 16) as u8, (x >> 8) as u8, x as u8]
}

/// The `u64` read big-endian from eight bytes.
pub open spec fn u64_of_be(b: Seq<u8>) -> u64
    recommends
        b.len() == 8,
{
    ((b[0] as u64) << 56) | ((b[1] as u64) << 48) | ((b[2] as u64) << 40) | ((b[3] as u64) << 32)
        | ((b[4] as u64) << 24) | ((b[5] as u64) << 16) | ((b[6] as u64) << 8) | (b[7] as u64)
}

/// The `u32` read big-endian from four bytes.
pub open spec fn u32_of_be(b: Seq<u8>) -> u32
    recommends
        b.len() == 4,
{
    ((b[0] as u32) << 24) | ((b[1] as u32) << 16) | ((b[2] as u32) << 8) | (b[3] as u32)
}

/// Writing a `u64` big-endian and reading it back is the identity.
pub proof fn lemma_be64_roundtrip(x: u64)
    ensures
        u64_of_be(be64_bytes(x)) == x,
{
    let b = be64_bytes(x);
    assert((((((x >> 56) as u8) as u64) << 56) | ((((x >> 48) as u8) as u64) << 48) | ((((x
        >> 40) as u8) as u64) << 40) | ((((x >> 32) as u8) as u64) << 32) | ((((x
        >> 24) as u8) as u64) << 24) | ((((x >> 16) as u8) as u64) << 16) | ((((x
        >> 8) as u8) as u64) << 8) | ((x as u8) as u64)) == x) by (bit_vector);
}

/// Writing a `u32` big-endian and reading it back is the identity.
pub proof fn lemma_be32_roundtrip(x: u32)
    ensures
        u32_of_be(be32_bytes(x)) == x,
{
    let b = be32_bytes(x);
    assert((((((x >> 24) as u8) as u32) << 24) | ((((x >> 16) as u8) as u32) << 16) | ((((x
        >> 8) as u8) as u32) << 8) | ((x as u8) as u32)) == x) by (bit_vector);
}

/// Append the big-endian bytes of a `u64`.
pub fn push_be64(out: &mut Vec<u8>, x: u64)
    ensures
        final(out)@ =~= old(out)@ + be64_bytes(x),
{
    out.push(#[verifier::truncate] ((x >> 56) as u8));
    out.push(#[verifier::truncate] ((x >> 48) as u8));
    out.push(#[verifier::truncate] ((x >> 40) as u8));
    out.push(#[verifier::truncate] ((x >> 32) as u8));
    out.push(#[verifier::truncate] ((x >> 24) as u8));
    out.push(#[verifier::truncate] ((x >> 16) as u8));
    out.push(#[verifier::truncate] ((x >> 8) as u8));
    out.push(#[verifier::truncate] (x as u8));
}

/// Append the big-endian bytes of a `u32`.
pub fn push_be32(out: &mut Vec<u8>, x: u32)
    ensures
        final(out)@ =~= old(out)@ + be32_bytes(x),
{
    out.push(#[verifier::truncate] ((x >> 24) as u8));
    out.push(#[verifier::truncate] ((x >> 16) as u8));
    out.push(#[verifier::truncate] ((x >> 8) as u8));
    out.push(#[verifier::truncate] (x as u8));
}

/// Read a `u64` big-endian at `pos`.
pub fn read_u64_be(s: &[u8], pos: usize) -> (x: u64)
    requires
        pos + 8 <= s@.len(),
    ensures
        x == u64_of_be(s@.subrange(pos as int, pos as int + 8)),
{
    let ghost b = s@.subrange(pos as int, pos as int + 8);
    let x = ((s[pos] as u64) << 56) | ((s[pos + 1] as u64) << 48) | ((s[pos + 2] as u64) << 40) | ((
    s[pos + 3] as u64) << 32) | ((s[pos + 4] as u64) << 24) | ((s[pos + 5] as u64) << 16) | ((s[pos
        + 6] as u64) << 8) | (s[pos + 7] as u64);
    proof {
        assert(b[0] == s@[pos as int]);
        assert(b[1] == s@[pos as int + 1]);
        assert(b[2] == s@[pos as int + 2]);
        assert(b[3] == s@[pos as int + 3]);
        assert(b[4] == s@[pos as int + 4]);
        assert(b[5] == s@[pos as int + 5]);
        assert(b[6] == s@[pos as int + 6]);
        assert(b[7] == s@[pos as int + 7]);
    }
    x
}

/// Read a `u32` big-endian at `pos`.
pub fn read_u32_be(s: &[u8], pos: usize) -> (x: u32)
    requires
        pos + 4 <= s@.len(),
    ensures
        x == u32_of_be(s@.subrange(pos as int, pos as int + 4)),
{
    let ghost b = s@.subrange(pos as int, pos as int + 4);
    let x = ((s[pos] as u32) << 24) | ((s[pos + 1] as u32) << 16) | ((s[pos + 2] as u32) << 8) | (
    s[pos + 3] as u32);
    proof {
        assert(b[0] == s@[pos as int]);
        assert(b[1] == s@[pos as int + 1]);
        assert(b[2] == s@[pos as int + 2]);
        assert(b[3] == s@[pos as int + 3]);
    }
    x
}

} // verus!
