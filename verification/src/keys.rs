//! Key parsing and discovery-identifier derivation.
//!
//! A log is identified by a 32-byte public key. Peers match on a discovery
//! identifier derived deterministically from the public key, so that interest
//! in a log can be announced without revealing the key itself.

use vstd::prelude::*;

verus! {

/// Why a textual key was rejected.
#[derive(Clone, Copy, Debug, PartialEq, Eq, Structural)]
pub enum KeyError {
    /// The text is not an even-length string of hexadecimal digits.
    InvalidHex,
    /// The text decodes to a byte string that is not 32 bytes long.
    InvalidKeyLength,
}

/// Whether `c` is a hexadecimal digit, in either case.
pub open spec fn is_hex_digit(c: char) -> bool {
    ('0' <= c && c <= '9') || ('a' <= c && c <= 'f') || ('A' <= c && c <= 'F')
}

/// The numeric value of the hexadecimal digit `c`.
pub open spec fn hex_digit_value(c: char) -> int {
    if '0' <= c && c <= '9' {
        c as int - '0' as int
    } else if 'a' <= c && c <= 'f' {
        c as int - 'a' as int + 10
    } else {
        c as int - 'A' as int + 10
    }
}

/// Whether `s` is a well-formed hexadecimal encoding: an even number of
/// characters, all of them hexadecimal digits.
pub open spec fn is_hex_seq(s: Seq<char>) -> bool {
    s.len() % 2 == 0 && (forall|i: int| 0 <= i < s.len() ==> is_hex_digit(s[i]))
}

/// The bytes encoded by the hexadecimal string `s`, two digits per byte,
/// high nibble first.
pub open spec fn bytes_of_hex(s: Seq<char>) -> Seq<u8> {
    Seq::new((s.len() / 2) as nat, |i: int| (hex_digit_value(s[2 * i]) * 16 + hex_digit_value(s[2 * i + 1])) as u8)
}

/// The numeric value of a hexadecimal digit, or nothing for any other
/// character.
fn hex_val(c: char) -> (r: Option<u8>)
    ensures
        r is Some <==> is_hex_digit(c),
        (r matches Some(v) ==> v == hex_digit_value(c) && v <= 15),
{
    let b = c as u32;
    if 48 <= b && b <= 57 {
        Some((b - 48) as u8)
    } else if 97 <= b && b <= 102 {
        Some((b - 97 + 10) as u8)
    } else if 65 <= b && b <= 70 {
        Some((b - 65 + 10) as u8)
    } else {
        None
    }
}

/// Decode a hexadecimal string: accepts exactly the even-length strings of
/// hexadecimal digits (either case) and returns the encoded bytes, two
/// digits per byte, high nibble first.
fn hex_decode(s: &str) -> (r: Result<Vec<u8>, KeyError>)
    ensures
        r is Ok <==> is_hex_seq(s@),
        (r matches Ok(v) ==> v@ == bytes_of_hex(s@)),
        (r matches Err(e) ==> e == KeyError::InvalidHex),
{
    let n = s.unicode_len();
    if n % 2 != 0 {
        return Err(KeyError::InvalidHex);
    }
    let mut out: Vec<u8> = Vec::new();
    let mut i: usize = 0;
    while i < n
        invariant
            n as nat == s@.len(),
            n % 2 == 0,
            i % 2 == 0,
            0 <= i <= n,
            forall|j: int| 0 <= j < i ==> is_hex_digit(#[trigger] s@[j]),
            out@.len() == i / 2,
            forall|k: int|
                0 <= k < out@.len() ==> #[trigger] out@[k] == (hex_digit_value(s@[2 * k]) * 16
                    + hex_digit_value(s@[2 * k + 1])) as u8,
        decreases n - i,
    {
        let hi = s.get_char(i);
        let lo = s.get_char(i + 1);
        let high = match hex_val(hi) {
            Some(v) => v,
            None => {
                return Err(KeyError::InvalidHex);
            },
        };
        let low = match hex_val(lo) {
            Some(v) => v,
            None => {
                return Err(KeyError::InvalidHex);
            },
        };
        out.push(high * 16 + low);
        i = i + 2;
    }
    assert(out@ =~= bytes_of_hex(s@));
    Ok(out)
}

/// Parse a textual public key: 64 hexadecimal digits for a 32-byte key.
pub fn parse_key_from_string(key: &str) -> (r: Result<Vec<u8>, KeyError>)
    ensures
        r is Ok <==> (is_hex_seq(key@) && key@.len() == 64),
        (r matches Ok(v) ==> v@ == bytes_of_hex(key@) && v@.len() == 32),
        !is_hex_seq(key@) ==> r == Err::<Vec<u8>, KeyError>(KeyError::InvalidHex),
        is_hex_seq(key@) && key@.len() != 64 ==> r == Err::<Vec<u8>, KeyError>(KeyError::InvalidKeyLength),
{
    match hex_decode(key) {
        Ok(bytes) => {
            if bytes.len() == 32 {
                Ok(bytes)
            } else {
                Err(KeyError::InvalidKeyLength)
            }
        },
        Err(e) => Err(e),
    }
}

/// The discovery identifier of a public key. The derivation is a fixed
/// cryptographic hash; its value is pinned only by the trusted wrapper below.
pub uninterp spec fn discovery_id_of(key: Seq<u8>) -> Seq<u8>;

/// Relies on hypercore_protocol::discovery_key: a 32-byte namespaced BLAKE2b
/// hash of the key that depends on the key bytes alone. It panics for keys
/// longer than 64 bytes, which the precondition rules out.
#[verifier::external_body]
pub(crate) fn discovery_key_of(key: &Vec<u8>) -> (r: Vec<u8>)
    requires
        key@.len() == 32,
    ensures
        r@ == discovery_id_of(key@),
        r@.len() == 32,
{
    hypercore_protocol::discovery_key(key.as_slice()).to_vec()
}

} // verus!
