//! Shared string and sequence helpers: searching, equality, and the bridge
//! between byte sequences and UTF-8 text.
//!
//! The byte/text bridge rests on vstd's UTF-8 model (`encode_utf8`,
//! `decode_utf8`, `valid_utf8`); the only trust in this crate is the small set
//! of wrappers here that tie std's UTF-8 routines to that model.

use vstd::prelude::*;
use vstd::utf8::*;

verus! {

broadcast use vstd::utf8::group_utf8_lib;

/// Index of the first occurrence of `t` in `s`, if any.
pub open spec fn find_index<T>(s: Seq<T>, t: T) -> Option<int>
    decreases s.len(),
{
    if s.len() == 0 {
        None
    } else if s[0] == t {
        Some(0)
    } else {
        match find_index(s.drop_first(), t) {
            None => None,
            Some(i) => Some(i + 1),
        }
    }
}

/// What `find_index` returns: the first position holding `t`, or `None` when
/// `t` does not occur at all.
pub proof fn lemma_find_index<T>(s: Seq<T>, t: T)
    ensures
        match find_index(s, t) {
            Some(i) => 0 <= i < s.len() && s[i] == t && (forall|j: int| 0 <= j < i ==> s[j] != t),
            None => forall|j: int| 0 <= j < s.len() ==> s[j] != t,
        },
    decreases s.len(),
{
    if s.len() > 0 && s[0] != t {
        lemma_find_index(s.drop_first(), t);
        match find_index(s.drop_first(), t) {
            Some(i) => {
                assert(s[i + 1] == s.drop_first()[i]);
                assert forall|j: int| 0 <= j < i + 1 implies s[j] != t by {
                    if j > 0 {
                        assert(s[j] == s.drop_first()[j - 1]);
                    }
                }
            },
            None => {
                assert forall|j: int| 0 <= j < s.len() implies s[j] != t by {
                    if j > 0 {
                        assert(s[j] == s.drop_first()[j - 1]);
                    }
                }
            },
        }
    }
}

/// A witness at position `i`, with nothing equal to `t` before it, pins
/// `find_index` down to `Some(i)`.
pub proof fn lemma_find_index_is<T>(s: Seq<T>, t: T, i: int)
    requires
        0 <= i < s.len(),
        s[i] == t,
        forall|j: int| 0 <= j < i ==> s[j] != t,
    ensures
        find_index(s, t) == Some(i),
    decreases s.len(),
{
    if i > 0 {
        assert forall|j: int| 0 <= j < i - 1 implies s.drop_first()[j] != t by {
            assert(s.drop_first()[j] == s[j + 1]);
        }
        assert(s.drop_first()[i - 1] == s[i]);
        lemma_find_index_is(s.drop_first(), t, i - 1);
    }
}

/// When `t` occurs nowhere, `find_index` is `None`.
pub proof fn lemma_find_index_none<T>(s: Seq<T>, t: T)
    requires
        forall|j: int| 0 <= j < s.len() ==> s[j] != t,
    ensures
        find_index(s, t) == None::<int>,
{
    lemma_find_index(s, t);
    if let Some(i) = find_index(s, t) {
        assert(s[i] == t);
    }
}

/// Searching a concatenation whose left part is free of `t` finds the first
/// occurrence of `t` in the right part, shifted by the left part's length.
pub proof fn lemma_find_index_concat<T>(a: Seq<T>, b: Seq<T>, t: T)
    requires
        forall|j: int| 0 <= j < a.len() ==> a[j] != t,
        b.len() > 0,
        b[0] == t,
    ensures
        find_index(a + b, t) == Some(a.len() as int),
{
    let s = a + b;
    assert(s[a.len() as int] == b[0]);
    assert forall|j: int| 0 <= j < a.len() implies s[j] != t by {
        assert(s[j] == a[j]);
    }
    lemma_find_index_is(s, t, a.len() as int);
}

/// The byte sequence standing for an ASCII character sequence, one byte per
/// character.
pub open spec fn ascii_of(s: Seq<char>) -> Seq<u8> {
    Seq::new(s.len(), |i: int| s[i] as u8)
}

/// For ASCII text the UTF-8 encoding is exactly the one-byte-per-character
/// form, it is valid, and decoding gives the text back.
pub proof fn lemma_ascii_encode(s: Seq<char>)
    requires
        is_ascii_chars(s),
    ensures
        encode_utf8(s) =~= ascii_of(s),
        valid_utf8(ascii_of(s)),
        decode_utf8(ascii_of(s)) == s,
{
    is_ascii_chars_encode_utf8(s);
    assert(encode_utf8(s) =~= ascii_of(s));
    encode_utf8_valid_utf8(s);
    encode_utf8_decode_utf8(s);
}

/// A character other than the ASCII character `bc` never contributes the byte
/// `bc as u8` to a UTF-8 encoding; hence text free of `bc` encodes to bytes
/// free of `bc as u8`.
pub proof fn lemma_encode_avoids_ascii_byte(s: Seq<char>, bc: char)
    requires
        (bc as u32) < 0x80,
        forall|i: int| 0 <= i < s.len() ==> s[i] != bc,
    ensures
        forall|i: int| 0 <= i < encode_utf8(s).len() ==> encode_utf8(s)[i] != bc as u8,
    decreases s.len(),
{
    if s.len() > 0 {
        let c = s[0] as u32;
        char_is_scalar(s[0]);
        let eb = encode_scalar(c);
        let b0 = bc as u32;
        let bb = b0 as u8;
        assert(bc as u8 == bb);
        assert forall|i: int| 0 <= i < eb.len() implies eb[i] != bc as u8 by {
            if has_width_1_encoding(c) {
                assert(leading_byte_width_1(c) == bb ==> c == b0) by (bit_vector)
                    requires
                        c < 0x80,
                        b0 < 0x80,
                        bb == b0 as u8,
                ;
                char_u32_cast(s[0], c);
                if leading_byte_width_1(c) == bb {
                    assert(c == bc as u32);
                    char_u32_cast(bc, bc as u32);
                    assert(s[0] == bc);
                }
            } else {
                assert({
                    &&& leading_byte_width_2(c) != bb
                    &&& leading_byte_width_3(c) != bb
                    &&& leading_byte_width_4(c) != bb
                    &&& last_continuation_byte(c) != bb
                    &&& second_last_continuation_byte(c) != bb
                    &&& third_last_continuation_byte(c) != bb
                }) by (bit_vector)
                    requires
                        b0 < 0x80,
                        bb == b0 as u8,
                ;
            }
        }
        lemma_encode_avoids_ascii_byte(s.drop_first(), bc);
        assert(encode_utf8(s) == eb + encode_utf8(s.drop_first()));
        assert forall|i: int| 0 <= i < encode_utf8(s).len() implies encode_utf8(s)[i] != bc as u8
        by {
            if i >= eb.len() {
                assert(encode_utf8(s)[i] == encode_utf8(s.drop_first())[i - eb.len()]);
            }
        }
    }
}

/// Concatenation of sequences is associative.
pub proof fn seq_assoc<T>(a: Seq<T>, b: Seq<T>, c: Seq<T>)
    ensures
        (a + b) + c == a + (b + c),
{
    assert((a + b) + c =~= a + (b + c));
}

/// Decoding non-empty valid UTF-8 yields at least one character.
pub proof fn lemma_decode_nonempty(b: Seq<u8>)
    requires
        valid_utf8(b),
        b.len() > 0,
    ensures
        decode_utf8(b).len() >= 1,
{
}

/// UTF-8 encoding distributes over concatenation.
pub proof fn lemma_encode_utf8_concat(a: Seq<char>, b: Seq<char>)
    ensures
        encode_utf8(a + b) =~= encode_utf8(a) + encode_utf8(b),
    decreases a.len(),
{
    if a.len() == 0 {
        assert(a + b =~= b);
    } else {
        assert((a + b).drop_first() =~= a.drop_first() + b);
        assert((a + b)[0] == a[0]);
        lemma_encode_utf8_concat(a.drop_first(), b);
    }
}

/// The name of what `String::from_utf8_lossy` makes of a byte sequence.
pub uninterp spec fn lossy_chars(b: Seq<u8>) -> Seq<char>;

/// The name of the diagnostic that std renders for the UTF-8 error in a byte
/// sequence that is not valid UTF-8.
pub uninterp spec fn utf8_error_chars(b: Seq<u8>) -> Seq<char>;

/// Relies on `String::from_utf8`: it succeeds exactly on valid UTF-8 input and
/// then decodes it, per vstd's model of UTF-8.
#[verifier::external_body]
pub fn bytes_to_string(v: Vec<u8>) -> (r: Option<String>)
    ensures
        r is Some <==> valid_utf8(v@),
        r matches Some(s) ==> s@ == decode_utf8(v@),
{
    String::from_utf8(v).ok()
}

/// Relies on `String::from_utf8_lossy`: its result depends on the bytes alone,
/// and on valid UTF-8 it is the decoded text.
#[verifier::external_body]
pub fn lossy_string(v: &[u8]) -> (r: String)
    ensures
        r@ == lossy_chars(v@),
        valid_utf8(v@) ==> r@ == decode_utf8(v@),
{
    String::from_utf8_lossy(v).into_owned()
}

/// Relies on `str::from_utf8` and the `Display` of its error: the rendered
/// diagnostic depends on the bytes alone.
#[verifier::external_body]
pub fn utf8_error_string(v: &[u8]) -> (r: String)
    requires
        !valid_utf8(v@),
    ensures
        r@ == utf8_error_chars(v@),
{
    match core::str::from_utf8(v) {
        Ok(_) => String::new(),
        Err(e) => format!("{}", e),
    }
}

/// Character-for-character string equality.
pub fn str_eq(a: &str, b: &str) -> (r: bool)
    ensures
        r == (a@ == b@),
{
    let an = a.unicode_len();
    let bn = b.unicode_len();
    if an != bn {
        return false;
    }
    let mut i: usize = 0;
    while i < an
        invariant
            an == a@.len(),
            bn == b@.len(),
            an == bn,
            i <= an,
            forall|j: int| 0 <= j < i ==> a@[j] == b@[j],
        decreases an - i,
    {
        if a.get_char(i) != b.get_char(i) {
            return false;
        }
        i += 1;
    }
    proof {
        assert(a@ =~= b@);
    }
    true
}

/// Position of the first occurrence of `c` in `s`, if any.
pub fn str_find_char(s: &str, c: char) -> (r: Option<usize>)
    ensures
        match find_index(s@, c) {
            Some(i) => r == Some(i as usize),
            None => r is None,
        },
{
    let n = s.unicode_len();
    let mut i: usize = 0;
    while i < n
        invariant
            n == s@.len(),
            i <= n,
            forall|j: int| 0 <= j < i ==> s@[j] != c,
        decreases n - i,
    {
        if s.get_char(i) == c {
            proof {
                lemma_find_index_is(s@, c, i as int);
            }
            return Some(i);
        }
        i += 1;
    }
    proof {
        lemma_find_index_none(s@, c);
    }
    None
}

/// Position of the first occurrence of `b` in `s` at or after `from`, if any.
pub fn find_byte_from(s: &[u8], from: usize, b: u8) -> (r: Option<usize>)
    requires
        from <= s@.len(),
    ensures
        match find_index(s@.skip(from as int), b) {
            Some(i) => r == Some((from + i) as usize),
            None => r is None,
        },
{
    let n = s.len();
    let mut i: usize = from;
    while i < n
        invariant
            from <= i <= n,
            n == s@.len(),
            forall|j: int| from <= j < i ==> s@[j] != b,
        decreases n - i,
    {
        if s[i] == b {
            proof {
                let sk = s@.skip(from as int);
                assert(sk[i - from] == s@[i as int]);
                assert forall|j: int| 0 <= j < i - from implies sk[j] != b by {
                    assert(sk[j] == s@[j + from]);
                }
                lemma_find_index_is(sk, b, i - from);
            }
            return Some(i);
        }
        i += 1;
    }
    proof {
        let sk = s@.skip(from as int);
        assert forall|j: int| 0 <= j < sk.len() implies sk[j] != b by {
            assert(sk[j] == s@[j + from]);
        }
        lemma_find_index_none(sk, b);
    }
    None
}

} // verus!
