//! Identifier validation, byte/hex helpers, hashing and comparison.

use crate::error::{ErrorCode, FlareError};
use vstd::prelude::*;
use vstd::string::*;
use vstd::utf8::*;

verus! {

broadcast use vstd::utf8::encode_utf8_decode_utf8;

/// Offset basis of the 64-bit FNV-1a hash.
pub const FNV_OFFSET_BASIS: u64 = 0xcbf29ce484222325;

/// Prime of the 64-bit FNV-1a hash.
pub const FNV_PRIME: u64 = 0x100000001b3;

/// Longest accepted connection id, in bytes.
pub const MAX_CONNECTION_ID_LEN: usize = 128;

/// Longest accepted user id, in bytes.
pub const MAX_USER_ID_LEN: usize = 64;

// ---------------------------------------------------------------------------
// Clock

/// Milliseconds since the Unix epoch, read from the system clock with
/// `SystemTime::now` and `duration_since`; 0 when the clock is set before
/// the epoch. Nothing is stated of the reading.
#[verifier::external_body]
pub fn current_timestamp_ms() -> u64 {
    match std::time::SystemTime::now().duration_since(std::time::UNIX_EPOCH) {
        Ok(d) => d.as_millis() as u64,
        Err(_) => 0,
    }
}

/// Seconds since the Unix epoch, read from the system clock with
/// `SystemTime::now` and `duration_since`; 0 when the clock is set before
/// the epoch. Nothing is stated of the reading.
#[verifier::external_body]
pub fn current_timestamp_secs() -> u64 {
    match std::time::SystemTime::now().duration_since(std::time::UNIX_EPOCH) {
        Ok(d) => d.as_secs(),
        Err(_) => 0,
    }
}

// ---------------------------------------------------------------------------
// Character classes

/// Whether `char::is_alphanumeric` holds of `c` (Unicode Alphabetic or Numeric).
pub uninterp spec fn char_is_alphanumeric(c: char) -> bool;

/// ASCII letters and digits.
pub open spec fn is_ascii_alnum(c: char) -> bool {
    ('a' <= c && c <= 'z') || ('A' <= c && c <= 'Z') || ('0' <= c && c <= '9')
}

/// `char::is_alphanumeric`. Its result is named by [`char_is_alphanumeric`];
/// on ASCII characters the std documentation fixes it to the letters and digits.
#[verifier::external_body]
fn is_alphanumeric(c: char) -> (r: bool)
    ensures
        r == char_is_alphanumeric(c),
        (c as u32) < 128 ==> (r <==> is_ascii_alnum(c)),
{
    c.is_alphanumeric()
}

/// Characters allowed in a connection id.
pub open spec fn is_connection_id_char(c: char) -> bool {
    char_is_alphanumeric(c) || c == '-' || c == '_'
}

/// Characters allowed in a user id.
pub open spec fn is_user_id_char(c: char) -> bool {
    char_is_alphanumeric(c) || c == '-' || c == '_' || c == '@' || c == '.'
}

/// A connection id is non-empty, at most 128 bytes long, and made of
/// alphanumeric characters, `-` and `_`.
pub open spec fn valid_connection_id(s: Seq<char>) -> bool {
    &&& s.len() > 0
    &&& encode_utf8(s).len() <= MAX_CONNECTION_ID_LEN
    &&& forall|i: int| 0 <= i < s.len() ==> is_connection_id_char(#[trigger] s[i])
}

/// A user id is non-empty, at most 64 bytes long, and made of alphanumeric
/// characters, `-`, `_`, `@` and `.`.
pub open spec fn valid_user_id(s: Seq<char>) -> bool {
    &&& s.len() > 0
    &&& encode_utf8(s).len() <= MAX_USER_ID_LEN
    &&& forall|i: int| 0 <= i < s.len() ==> is_user_id_char(#[trigger] s[i])
}

/// Every character is ASCII.
pub open spec fn is_ascii_text(s: Seq<char>) -> bool {
    forall|i: int| 0 <= i < s.len() ==> (#[trigger] s[i] as u32) < 128
}

/// [`valid_connection_id`] for ASCII text: ASCII letters, digits, `-` and `_`.
pub open spec fn valid_ascii_connection_id(s: Seq<char>) -> bool {
    &&& s.len() > 0
    &&& encode_utf8(s).len() <= MAX_CONNECTION_ID_LEN
    &&& forall|i: int| 0 <= i < s.len() ==> #[trigger] is_ascii_alnum(s[i]) || s[i] == '-' || s[i] == '_'
}

/// [`valid_user_id`] for ASCII text: ASCII letters, digits, `-`, `_`, `@`
/// and `.`.
pub open spec fn valid_ascii_user_id(s: Seq<char>) -> bool {
    &&& s.len() > 0
    &&& encode_utf8(s).len() <= MAX_USER_ID_LEN
    &&& forall|i: int| 0 <= i < s.len() ==> #[trigger] is_ascii_alnum(s[i]) || s[i] == '-' || s[i] == '_'
        || s[i] == '@' || s[i] == '.'
}

/// Checks that `id` is a valid connection id (see [`valid_connection_id`]).
pub fn is_valid_connection_id(id: &str) -> (ok: bool)
    ensures
        ok == valid_connection_id(id@),
        is_ascii_text(id@) ==> (ok == valid_ascii_connection_id(id@)),
{
    if id.is_empty() {
        return false;
    }
    if id.as_bytes().len() > MAX_CONNECTION_ID_LEN {
        return false;
    }
    let n = id.unicode_len();
    let mut i: usize = 0;
    while i < n
        invariant
            n == id@.len(),
            i <= n,
            forall|j: int| 0 <= j < i ==> is_connection_id_char(#[trigger] id@[j]),
            forall|j: int|
                0 <= j < i && (id@[j] as u32) < 128 ==> #[trigger] is_ascii_alnum(id@[j]) || id@[j] == '-'
                    || id@[j] == '_',
        decreases n - i,
    {
        let c = id.get_char(i);
        if !(is_alphanumeric(c) || c == '-' || c == '_') {
            proof {
                if is_ascii_text(id@) {
                    assert((id@[i as int] as u32) < 128);
                    assert(!is_ascii_alnum(id@[i as int]));
                }
            }
            return false;
        }
        i += 1;
    }
    true
}

/// Checks that `id` is a valid user id (see [`valid_user_id`]).
pub fn is_valid_user_id(id: &str) -> (ok: bool)
    ensures
        ok == valid_user_id(id@),
        is_ascii_text(id@) ==> (ok == valid_ascii_user_id(id@)),
{
    if id.is_empty() {
        return false;
    }
    if id.as_bytes().len() > MAX_USER_ID_LEN {
        return false;
    }
    let n = id.unicode_len();
    let mut i: usize = 0;
    while i < n
        invariant
            n == id@.len(),
            i <= n,
            forall|j: int| 0 <= j < i ==> is_user_id_char(#[trigger] id@[j]),
            forall|j: int|
                0 <= j < i && (id@[j] as u32) < 128 ==> #[trigger] is_ascii_alnum(id@[j]) || id@[j] == '-'
                    || id@[j] == '_' || id@[j] == '@' || id@[j] == '.',
        decreases n - i,
    {
        let c = id.get_char(i);
        if !(is_alphanumeric(c) || c == '-' || c == '_' || c == '@' || c == '.') {
            proof {
                if is_ascii_text(id@) {
                    assert((id@[i as int] as u32) < 128);
                    assert(!is_ascii_alnum(id@[i as int]));
                }
            }
            return false;
        }
        i += 1;
    }
    true
}

// ---------------------------------------------------------------------------
// Truncation

/// The result of cutting `s` to at most `max_len` bytes: unchanged when it
/// fits; else, for a limit of at least 3, its first `max_len - 3` bytes
/// followed by `...`, and for a smaller limit `max_len` dots.
pub open spec fn truncated(s: &str, max_len: usize) -> Seq<char> {
    if s.spec_bytes().len() <= max_len {
        s@
    } else if max_len >= 3 {
        decode_utf8(s.spec_bytes().subrange(0, max_len - 3)) + "..."@
    } else {
        seq!['.', '.', '.'].subrange(0, max_len as int)
    }
}

/// Cuts `s` to at most `max_len` bytes, ending it with `...` when it was
/// longer. The cut must fall on a character boundary.
pub fn truncate_string(s: &str, max_len: usize) -> (r: String)
    requires
        s.spec_bytes().len() > max_len && max_len >= 3 ==> is_char_boundary(
            s.spec_bytes(),
            max_len - 3,
        ),
    ensures
        r@ == truncated(s, max_len),
{
    if s.as_bytes().len() <= max_len {
        s.to_owned()
    } else if max_len >= 3 {
        let (prefix, _rest) = s.split_at(max_len - 3);
        let mut r = prefix.to_owned();
        r.append("...");
        r
    } else {
        let dots = "...";
        proof {
            reveal_strlit("...");
        }
        assert(dots@ == seq!['.', '.', '.']);
        dots.substring_char(0, max_len).to_owned()
    }
}

// ---------------------------------------------------------------------------
// Hex

/// The lowercase hex digit of `n` (`0 <= n < 16`).
pub open spec fn hex_digit(n: int) -> char {
    seq!['0', '1', '2', '3', '4', '5', '6', '7', '8', '9', 'a', 'b', 'c', 'd', 'e', 'f'][n]
}

/// Two lowercase hex digits per byte, most significant nibble first.
pub open spec fn hex_encode(b: Seq<u8>) -> Seq<char>
    decreases b.len(),
{
    if b.len() == 0 {
        Seq::empty()
    } else {
        hex_encode(b.drop_last()) + seq![hex_digit((b.last() / 16) as int), hex_digit((b.last() % 16) as int)]
    }
}

/// Formats `bytes` as lowercase hex, two digits per byte.
pub fn bytes_to_hex(bytes: &[u8]) -> (r: String)
    ensures
        r@ == hex_encode(bytes@),
{
    let digits = "0123456789abcdef";
    proof {
        reveal_strlit("0123456789abcdef");
    }
    let mut r = String::new();
    let mut i: usize = 0;
    while i < bytes.len()
        invariant
            i <= bytes@.len(),
            digits@ == seq!['0', '1', '2', '3', '4', '5', '6', '7', '8', '9', 'a', 'b', 'c', 'd', 'e', 'f'],
            r@ == hex_encode(bytes@.subrange(0, i as int)),
        decreases bytes@.len() - i,
    {
        let b = bytes[i];
        let hi = (b / 16) as usize;
        let lo = (b % 16) as usize;
        r.append(digits.substring_char(hi, hi + 1));
        r.append(digits.substring_char(lo, lo + 1));
        assert(bytes@.subrange(0, i + 1).drop_last() =~= bytes@.subrange(0, i as int));
        assert(r@ =~= hex_encode(bytes@.subrange(0, i + 1)));
        i += 1;
    }
    assert(bytes@.subrange(0, bytes@.len() as int) =~= bytes@);
    r
}

/// Value of an ASCII hex digit byte (either case).
pub open spec fn hex_value(b: u8) -> Option<u8> {
    if 0x30 <= b && b <= 0x39 {
        Some((b - 0x30) as u8)
    } else if 0x61 <= b && b <= 0x66 {
        Some((b - 0x61 + 10) as u8)
    } else if 0x41 <= b && b <= 0x46 {
        Some((b - 0x41 + 10) as u8)
    } else {
        None
    }
}

/// Decodes hex text, given as bytes, pair by pair: each pair of hex digits
/// gives one byte, high nibble first. `None` when the length is odd or a byte
/// is not a hex digit.
pub open spec fn hex_decode(b: Seq<u8>) -> Option<Seq<u8>>
    decreases b.len(),
{
    if b.len() == 0 {
        Some(Seq::empty())
    } else if b.len() < 2 {
        None
    } else {
        match (hex_value(b[0]), hex_value(b[1])) {
            (Some(h), Some(l)) => match hex_decode(b.skip(2)) {
                None => None,
                Some(rest) => Some(seq![(h * 16 + l) as u8] + rest),
            },
            _ => None,
        }
    }
}

/// Well-formed hex text: an even number of bytes, each a hex digit of
/// either case.
pub open spec fn is_hex_text(b: Seq<u8>) -> bool {
    &&& b.len() % 2 == 0
    &&& forall|i: int| 0 <= i < b.len() ==> #[trigger] hex_value(b[i]) is Some
}

/// The byte with ASCII upper-case letters mapped to lower case.
pub open spec fn ascii_lower_byte(c: u8) -> u8 {
    if 0x41 <= c && c <= 0x5a { (c + 32) as u8 } else { c }
}

/// A byte string with its ASCII upper-case letters mapped to lower case.
pub open spec fn ascii_lowercase(b: Seq<u8>) -> Seq<u8> {
    b.map_values(|c: u8| ascii_lower_byte(c))
}

/// The ASCII byte of a lowercase hex digit.
pub open spec fn hex_digit_byte(n: int) -> u8 {
    if n < 10 { (0x30 + n) as u8 } else { (0x61 + n - 10) as u8 }
}

proof fn lemma_hex_digit(n: int)
    requires
        0 <= n < 16,
    ensures
        hex_digit(n) as u32 == hex_digit_byte(n) as u32,
        (hex_digit(n) as u32) < 128,
        hex_value(hex_digit_byte(n)) == Some(n as u8),
{
    assert(seq!['0', '1', '2', '3', '4', '5', '6', '7', '8', '9', 'a', 'b', 'c', 'd', 'e', 'f'][n]
        == hex_digit(n));
    if n == 0 { } else if n == 1 { } else if n == 2 { } else if n == 3 { } else if n == 4 { }
    else if n == 5 { } else if n == 6 { } else if n == 7 { } else if n == 8 { } else if n == 9 { }
    else if n == 10 { } else if n == 11 { } else if n == 12 { } else if n == 13 { } else if n == 14 { }
    else { }
}

/// The lowercase digit of a hex digit's value is the digit in lower case.
proof fn lemma_hex_value_lower(c: u8)
    requires
        hex_value(c) is Some,
    ensures
        (hex_value(c)->0 as int) < 16,
        hex_digit_byte(hex_value(c)->0 as int) == ascii_lower_byte(c),
{
}

proof fn lemma_nibbles(h: u8, l: u8)
    requires
        h < 16,
        l < 16,
    ensures
        ((h * 16 + l) as u8) / 16 == h,
        ((h * 16 + l) as u8) % 16 == l,
{
    assert(((h * 16 + l) as u8) / 16 == h && ((h * 16 + l) as u8) % 16 == l) by (bit_vector)
        requires
            h < 16,
            l < 16,
    ;
}

proof fn lemma_join_nibbles(x: u8)
    ensures
        ((x / 16) * 16 + x % 16) as u8 == x,
{
    assert(((x / 16) * 16 + x % 16) as u8 == x) by (bit_vector);
}

proof fn lemma_hex_encode_shape(b: Seq<u8>)
    ensures
        hex_encode(b).len() == 2 * b.len(),
        forall|k: int| 0 <= k < b.len() ==> hex_encode(b)[2 * k] == hex_digit((b[k] / 16) as int)
            && hex_encode(b)[2 * k + 1] == hex_digit((b[k] % 16) as int),
    decreases b.len(),
{
    if b.len() > 0 {
        lemma_hex_encode_shape(b.drop_last());
        assert forall|k: int| 0 <= k < b.len() implies hex_encode(b)[2 * k] == hex_digit(
            (b[k] / 16) as int,
        ) && hex_encode(b)[2 * k + 1] == hex_digit((b[k] % 16) as int) by {
            if k < b.len() - 1 {
                assert(b.drop_last()[k] == b[k]);
            }
        }
    }
}

/// Hex text decodes exactly when it is well formed, into half as many bytes,
/// each pair of digits holding the nibbles of its byte.
pub proof fn lemma_hex_decode_shape(e: Seq<u8>)
    ensures
        hex_decode(e) is Some <==> is_hex_text(e),
        hex_decode(e) is Some ==> {
            let v = hex_decode(e)->0;
            &&& v.len() * 2 == e.len()
            &&& forall|k: int|
                0 <= k < v.len() ==> hex_value(#[trigger] e[2 * k]) == Some(v[k] / 16)
                    && hex_value(e[2 * k + 1]) == Some(v[k] % 16)
        },
    decreases e.len(),
{
    if e.len() == 1 {
        assert(!is_hex_text(e));
    } else if e.len() >= 2 {
        let t = e.skip(2);
        lemma_hex_decode_shape(t);
        assert forall|i: int| 0 <= i < t.len() implies t[i] == e[i + 2] by {}
        if is_hex_text(e) {
            assert(hex_value(e[0]) is Some);
            assert(hex_value(e[1]) is Some);
            assert forall|i: int| 0 <= i < t.len() implies #[trigger] hex_value(t[i]) is Some by {
                assert(hex_value(e[i + 2]) is Some);
            }
            assert(is_hex_text(t));
        }
        if hex_value(e[0]) is Some && hex_value(e[1]) is Some && is_hex_text(t) {
            assert forall|i: int| 0 <= i < e.len() implies #[trigger] hex_value(e[i]) is Some by {
                if i >= 2 {
                    assert(hex_value(t[i - 2]) is Some);
                }
            }
            assert(is_hex_text(e));
        }
        if hex_decode(e) is Some {
            let h = hex_value(e[0])->0;
            let l = hex_value(e[1])->0;
            let rest = hex_decode(t)->0;
            let v = hex_decode(e)->0;
            lemma_nibbles(h, l);
            assert(v == seq![(h * 16 + l) as u8] + rest);
            assert forall|k: int|
                0 <= k < v.len() implies hex_value(#[trigger] e[2 * k]) == Some(v[k] / 16)
                && hex_value(e[2 * k + 1]) == Some(v[k] % 16) by {
                if k > 0 {
                    assert(v[k] == rest[k - 1]);
                    assert(t[2 * (k - 1)] == e[2 * k]);
                    assert(t[2 * (k - 1) + 1] == e[2 * k + 1]);
                }
            }
        }
    }
}

/// `e` holds, pair by pair, the hex digit bytes of `b`.
pub open spec fn is_hex_pairs_of(e: Seq<u8>, b: Seq<u8>) -> bool {
    &&& e.len() == 2 * b.len()
    &&& forall|k: int| 0 <= k < b.len() ==> #[trigger] e[2 * k] == hex_digit_byte((b[k] / 16) as int)
        && e[2 * k + 1] == hex_digit_byte((b[k] % 16) as int)
}

proof fn lemma_decode_hex_pairs(e: Seq<u8>, b: Seq<u8>)
    requires
        is_hex_pairs_of(e, b),
    ensures
        hex_decode(e) == Some(b),
    decreases b.len(),
{
    if b.len() > 0 {
        let x = b[0];
        assert(e[2 * 0int] == hex_digit_byte((x / 16) as int));
        lemma_hex_digit((x / 16) as int);
        lemma_hex_digit((x % 16) as int);
        lemma_join_nibbles(x);
        assert forall|k: int| 0 <= k < b.skip(1).len() implies #[trigger] e.skip(2)[2 * k]
            == hex_digit_byte((b.skip(1)[k] / 16) as int) && e.skip(2)[2 * k + 1] == hex_digit_byte(
            (b.skip(1)[k] % 16) as int,
        ) by {
            assert(e[2 * (k + 1)] == hex_digit_byte((b[k + 1] / 16) as int));
        }
        lemma_decode_hex_pairs(e.skip(2), b.skip(1));
        assert(seq![x] + b.skip(1) =~= b);
    } else {
        assert(e.len() == 0);
    }
}

/// The hex text of a byte string is ASCII, its bytes are the digit bytes.
proof fn lemma_hex_text_bytes(b: Seq<u8>)
    ensures
        is_hex_pairs_of(encode_utf8(hex_encode(b)), b),
{
    let h = hex_encode(b);
    lemma_hex_encode_shape(b);
    assert forall|i: int| 0 <= i < h.len() implies '\0' <= #[trigger] h[i] <= '\u{7f}' by {
        let k = i / 2;
        assert(i == 2 * k || i == 2 * k + 1);
        lemma_hex_digit((b[k] / 16) as int);
        lemma_hex_digit((b[k] % 16) as int);
    }
    assert(is_ascii_chars(h));
    is_ascii_chars_encode_utf8(h);
    let e = encode_utf8(h);
    assert forall|k: int| 0 <= k < b.len() implies #[trigger] e[2 * k] == hex_digit_byte(
        (b[k] / 16) as int,
    ) && e[2 * k + 1] == hex_digit_byte((b[k] % 16) as int) by {
        lemma_hex_digit((b[k] / 16) as int);
        lemma_hex_digit((b[k] % 16) as int);
        assert(h[2 * k] as u8 == e[2 * k]);
        assert(h[2 * k + 1] as u8 == e[2 * k + 1]);
    }
}

/// Decoding the hex text of any byte string gives the bytes back.
pub proof fn lemma_hex_round_trip(b: Seq<u8>)
    ensures
        hex_decode(encode_utf8(hex_encode(b))) == Some(b),
{
    lemma_hex_text_bytes(b);
    lemma_decode_hex_pairs(encode_utf8(hex_encode(b)), b);
}

/// Encoding what well-formed hex text decodes to gives the text back in
/// lower case.
pub proof fn lemma_hex_decode_then_encode(e: Seq<u8>)
    requires
        is_hex_text(e),
    ensures
        hex_decode(e) is Some,
        encode_utf8(hex_encode(hex_decode(e)->0)) == ascii_lowercase(e),
{
    lemma_hex_decode_shape(e);
    let v = hex_decode(e)->0;
    lemma_hex_text_bytes(v);
    let x = encode_utf8(hex_encode(v));
    let y = ascii_lowercase(e);
    assert(x.len() == e.len());
    assert forall|i: int| 0 <= i < x.len() implies x[i] == y[i] by {
        let k = i / 2;
        assert(0 <= k < v.len());
        assert(hex_value(e[2 * k]) == Some(v[k] / 16) && hex_value(e[2 * k + 1]) == Some(v[k] % 16));
        assert(x[2 * k] == hex_digit_byte((v[k] / 16) as int));
        lemma_hex_value_lower(e[2 * k]);
        lemma_hex_value_lower(e[2 * k + 1]);
        if i == 2 * k {
            assert(y[2 * k] == ascii_lower_byte(e[2 * k]));
        } else {
            assert(i == 2 * k + 1);
            assert(y[2 * k + 1] == ascii_lower_byte(e[2 * k + 1]));
        }
    }
    assert(x =~= y);
}

/// Parses hex text of either case, two digits per byte. Fails with a
/// protocol error when the length is odd or a character is not a hex digit.
pub fn hex_to_bytes(hex: &str) -> (r: Result<Vec<u8>, FlareError>)
    ensures
        r is Ok <==> is_hex_text(hex.spec_bytes()),
        match r {
            Ok(v) => hex_decode(hex.spec_bytes()) == Some(v@),
            Err(e) => hex_decode(hex.spec_bytes()) is None && e.code == ErrorCode::ProtocolError,
        },
{
    let bytes = hex.as_bytes();
    let ghost all = bytes@;
    proof {
        lemma_hex_decode_shape(all);
    }
    if bytes.len() % 2 == 1 {
        return Err(FlareError::protocol_error(odd_hex_message()));
    }
    let mut out: Vec<u8> = Vec::new();
    let mut i: usize = 0;
    assert(all.skip(0) =~= all);
    assert(out@ + Seq::<u8>::empty() =~= out@);
    while i < bytes.len()
        invariant
            bytes@ == all,
            all == hex.spec_bytes(),
            all.len() % 2 == 0,
            i <= all.len(),
            i % 2 == 0,
            hex_decode(all) == match hex_decode(all.skip(i as int)) {
                None => None,
                Some(rest) => Some(out@ + rest),
            },
        decreases all.len() - i,
    {
        let ghost tail = all.skip(i as int);
        assert(tail.len() >= 2);
        let b0 = bytes[i];
        let b1 = bytes[i + 1];
        assert(tail[0] == b0 && tail[1] == b1);
        assert(tail.skip(2) =~= all.skip(i + 2));
        match (hex_byte_value(b0), hex_byte_value(b1)) {
            (Some(h), Some(l)) => {
                let v: u8 = h * 16 + l;
                out.push(v);
                proof {
                    assert forall|rest: Seq<u8>| true implies (out@.drop_last() + (seq![v] + rest)) =~= (out@ + rest) by {}
                }
            },
            _ => {
                assert(hex_decode(tail) is None);
                return Err(FlareError::protocol_error(invalid_hex_message()));
            },
        }
        i += 2;
    }
    assert(all.skip(i as int) =~= Seq::<u8>::empty());
    assert(out@ + Seq::<u8>::empty() =~= out@);
    Ok(out)
}

/// Value of one hex digit byte (see [`hex_value`]).
fn hex_byte_value(b: u8) -> (r: Option<u8>)
    ensures
        r == hex_value(b),
{
    if 0x30 <= b && b <= 0x39 {
        Some(b - 0x30)
    } else if 0x61 <= b && b <= 0x66 {
        Some(b - 0x61 + 10)
    } else if 0x41 <= b && b <= 0x46 {
        Some(b - 0x41 + 10)
    } else {
        None
    }
}

fn invalid_hex_message() -> (s: String) {
    String::from_str("Invalid hex string: invalid digit found in string")
}

fn odd_hex_message() -> (s: String) {
    String::from_str("Invalid hex string: odd number of digits")
}


// ---------------------------------------------------------------------------
// Number formatting and identifiers

/// The decimal digit character of `n` (`0 <= n < 10`).
pub open spec fn decimal_digit(n: int) -> char {
    seq!['0', '1', '2', '3', '4', '5', '6', '7', '8', '9'][n]
}

/// `n` written in decimal, without leading zeros.
pub open spec fn decimal(n: nat) -> Seq<char>
    decreases n,
{
    if n < 10 {
        seq![decimal_digit(n as int)]
    } else {
        decimal(n / 10).push(decimal_digit((n % 10) as int))
    }
}

/// The `width` low hex digits of `n`, zero-padded, most significant first.
pub open spec fn hex_fixed(n: nat, width: nat) -> Seq<char>
    decreases width,
{
    if width == 0 {
        Seq::empty()
    } else {
        hex_fixed(n / 16, (width - 1) as nat).push(hex_digit((n % 16) as int))
    }
}

/// Appends `n` in decimal to `s`.
pub fn push_decimal(s: &mut String, n: u64)
    ensures
        final(s)@ == old(s)@ + decimal(n as nat),
    decreases n,
{
    let digits = "0123456789";
    proof {
        reveal_strlit("0123456789");
    }
    if n >= 10 {
        push_decimal(s, n / 10);
    }
    let d = (n % 10) as usize;
    assert(digits@ == seq!['0', '1', '2', '3', '4', '5', '6', '7', '8', '9']);
    s.append(digits.substring_char(d, d + 1));
    assert(digits@.subrange(d as int, d + 1) =~= seq![decimal_digit(d as int)]);
}

/// Appends the `width` low hex digits of `n` to `s`, zero-padded.
pub fn push_hex_fixed(s: &mut String, n: u64, width: u32)
    ensures
        final(s)@ == old(s)@ + hex_fixed(n as nat, width as nat),
    decreases width,
{
    if width == 0 {
        assert(old(s)@ + hex_fixed(n as nat, 0) =~= old(s)@);
        return ;
    }
    let digits = "0123456789abcdef";
    proof {
        reveal_strlit("0123456789abcdef");
    }
    push_hex_fixed(s, n / 16, width - 1);
    let d = (n % 16) as usize;
    assert(digits@ == seq!['0', '1', '2', '3', '4', '5', '6', '7', '8', '9', 'a', 'b', 'c', 'd', 'e', 'f']);
    s.append(digits.substring_char(d, d + 1));
    assert(digits@.subrange(d as int, d + 1) =~= seq![hex_digit(d as int)]);
}

/// `n` in decimal.
pub fn decimal_string(n: u64) -> (r: String)
    ensures
        r@ == decimal(n as nat),
{
    let mut s = String::new();
    push_decimal(&mut s, n);
    assert(Seq::<char>::empty() + decimal(n as nat) =~= decimal(n as nat));
    s
}

/// The identifier made of a millisecond timestamp and a sequence number:
/// `"<timestamp>-<16 hex digits>"`.
pub fn format_id(timestamp_ms: u64, counter: u64) -> (r: String)
    ensures
        r@ == decimal(timestamp_ms as nat) + "-"@ + hex_fixed(counter as nat, 16),
{
    let mut s = String::new();
    push_decimal(&mut s, timestamp_ms);
    s.append("-");
    push_hex_fixed(&mut s, counter, 16);
    assert(Seq::<char>::empty() + decimal(timestamp_ms as nat) =~= decimal(timestamp_ms as nat));
    s
}

/// The short identifier of a sequence number: 8 hex digits.
pub fn format_short_id(counter: u32) -> (r: String)
    ensures
        r@ == hex_fixed(counter as nat, 8),
{
    let mut s = String::new();
    push_hex_fixed(&mut s, counter as u64, 8);
    assert(Seq::<char>::empty() + hex_fixed(counter as nat, 8) =~= hex_fixed(counter as nat, 8));
    s
}

// ---------------------------------------------------------------------------
// Hashing and comparison

/// One FNV-1a step: xor in the byte, then multiply modulo 2^64.
pub open spec fn fnv1a_step(hash: u64, byte: u8) -> u64 {
    (((hash ^ (byte as u64)) as nat * FNV_PRIME as nat) % 0x1_0000_0000_0000_0000) as u64
}

/// The 64-bit FNV-1a hash of a byte sequence.
pub open spec fn fnv1a(data: Seq<u8>) -> u64
    decreases data.len(),
{
    if data.len() == 0 {
        FNV_OFFSET_BASIS
    } else {
        fnv1a_step(fnv1a(data.drop_last()), data.last())
    }
}

/// Computes the (non-cryptographic) 64-bit FNV-1a hash of `data`.
pub fn simple_hash(data: &[u8]) -> (hash: u64)
    ensures
        hash == fnv1a(data@),
{
    let mut hash: u64 = FNV_OFFSET_BASIS;
    let mut i: usize = 0;
    while i < data.len()
        invariant
            i <= data@.len(),
            hash == fnv1a(data@.subrange(0, i as int)),
        decreases data@.len() - i,
    {
        assert(data@.subrange(0, i + 1).drop_last() =~= data@.subrange(0, i as int));
        hash ^= data[i] as u64;
        hash = hash.wrapping_mul(FNV_PRIME);
        i += 1;
    }
    assert(data@.subrange(0, data@.len() as int) =~= data@);
    hash
}

/// Compares two byte slices for equality, touching every byte of equal-length
/// inputs regardless of where they first differ.
pub fn constant_time_eq(a: &[u8], b: &[u8]) -> (eq: bool)
    ensures
        eq == (a@ == b@),
{
    if a.len() != b.len() {
        return false;
    }
    let mut acc: u8 = 0;
    let mut i: usize = 0;
    while i < a.len()
        invariant
            a@.len() == b@.len(),
            i <= a@.len(),
            (acc == 0) == (forall|j: int| 0 <= j < i ==> a@[j] == b@[j]),
        decreases a@.len() - i,
    {
        let x = a[i];
        let y = b[i];
        let d: u8 = x ^ y;
        assert((d == 0) == (x == y)) by (bit_vector)
            requires
                d == x ^ y,
        ;
        let acc2: u8 = acc | d;
        assert((acc2 == 0) == (acc == 0 && d == 0)) by (bit_vector)
            requires
                acc2 == acc | d,
        ;
        acc = acc2;
        i += 1;
    }
    proof {
        if acc == 0 {
            assert(a@ =~= b@);
        }
    }
    acc == 0
}

} // verus!
