//! Hexadecimal parsing and printing of keys and program identities.
//!
//! The byte-to-digit work is done by the `hex` crate behind two trusted
//! wrappers whose contracts state the encoding exactly; everything around
//! them — prefix stripping, width checks, word packing — is verified.

use vstd::prelude::*;

use crate::error::MultisigError;
use crate::model::{Key32, ProgramId};

verus! {

// ---------------------------------------------------------------------------
// The hexadecimal alphabet, exactly
// ---------------------------------------------------------------------------

/// Whether `c` is a hexadecimal digit, either case.
pub open spec fn is_hex_digit_char(c: char) -> bool {
    (48 <= c as u32 <= 57) || (97 <= c as u32 <= 102) || (65 <= c as u32 <= 70)
}

/// The value of a hexadecimal digit.
pub open spec fn char_hex_val(c: char) -> u8 {
    if 48 <= c as u32 <= 57 {
        (c as u32 - 48) as u8
    } else if 97 <= c as u32 <= 102 {
        (c as u32 - 97 + 10) as u8
    } else {
        (c as u32 - 65 + 10) as u8
    }
}

/// The lowercase digit of a nibble.
pub open spec fn nibble_char(n: u8) -> char {
    if n == 0 {
        '0'
    } else if n == 1 {
        '1'
    } else if n == 2 {
        '2'
    } else if n == 3 {
        '3'
    } else if n == 4 {
        '4'
    } else if n == 5 {
        '5'
    } else if n == 6 {
        '6'
    } else if n == 7 {
        '7'
    } else if n == 8 {
        '8'
    } else if n == 9 {
        '9'
    } else if n == 10 {
        'a'
    } else if n == 11 {
        'b'
    } else if n == 12 {
        'c'
    } else if n == 13 {
        'd'
    } else if n == 14 {
        'e'
    } else {
        'f'
    }
}

/// The lowercase hexadecimal form of a byte string: two digits per byte, high
/// nibble first.
pub open spec fn hex_str_of(b: Seq<u8>) -> Seq<char> {
    Seq::new(
        2 * b.len(),
        |i: int|
            if i % 2 == 0 {
                nibble_char(b[i / 2] >> 4u8)
            } else {
                nibble_char(b[i / 2] & 0x0fu8)
            },
    )
}

/// The bytes a string of hexadecimal digits denotes, two digits per byte.
pub open spec fn hex_decoded_chars(s: Seq<char>) -> Seq<u8> {
    Seq::new(
        (s.len() / 2) as nat,
        |i: int| (char_hex_val(s[2 * i]) * 16 + char_hex_val(s[2 * i + 1])) as u8,
    )
}

/// Whether `s` is a well-formed hexadecimal string: even length, digits only.
pub open spec fn is_hex_string(s: Seq<char>) -> bool {
    s.len() % 2 == 0 && (forall|i: int| 0 <= i < s.len() ==> is_hex_digit_char(#[trigger] s[i]))
}

// ---------------------------------------------------------------------------
// The two trusted calls into the hex crate
// ---------------------------------------------------------------------------

/// Relies on hex::encode: every byte becomes exactly two lowercase
/// hexadecimal digits, high nibble first.
#[verifier::external_body]
fn hex_encode(b: &[u8]) -> (r: String)
    ensures
        r@ == hex_str_of(b@),
{
    hex::encode(b)
}

/// Relies on hex::decode: it succeeds exactly on even-length strings made of
/// hexadecimal digits of either case, pairing digits into bytes high nibble
/// first, and rejects any other input.
#[verifier::external_body]
fn hex_decode(s: &str) -> (r: Option<Vec<u8>>)
    ensures
        r is Some <==> is_hex_string(s@),
        r matches Some(v) ==> v@ == hex_decoded_chars(s@),
{
    match hex::decode(s) {
        Ok(v) => Some(v),
        Err(_) => None,
    }
}

// ---------------------------------------------------------------------------
// Verified parsing and printing
// ---------------------------------------------------------------------------

/// `s` with every leading `0x` removed.
pub open spec fn strip_0x(s: Seq<char>) -> Seq<char>
    decreases s.len(),
{
    if s.len() >= 2 && s[0] == '0' && s[1] == 'x' {
        strip_0x(s.skip(2))
    } else {
        s
    }
}

/// Parse a 64-digit hexadecimal string, `0x` prefixes allowed, into 32 bytes.
pub fn parse_hex32(s: &str) -> (r: Result<Key32, MultisigError>)
    ensures
        r is Ok <==> (strip_0x(s@).len() == 64 && is_hex_string(strip_0x(s@))),
        r matches Ok(k) ==> k@ == hex_decoded_chars(strip_0x(s@)),
        r is Err ==> r == Err::<Key32, MultisigError>(MultisigError::ValidationError),
{
    let mut t: &str = s;
    let mut n: usize = t.unicode_len();
    while n >= 2 && t.get_char(0) == '0' && t.get_char(1) == 'x'
        invariant
            n == t@.len(),
            strip_0x(t@) == strip_0x(s@),
        decreases n,
    {
        let t2 = t.substring_char(2, n);
        proof {
            assert(t@.subrange(2, n as int) =~= t@.skip(2));
        }
        t = t2;
        n = n - 2;
    }
    if n != 64 {
        return Err(MultisigError::ValidationError);
    }
    let bytes = match hex_decode(t) {
        None => {
            return Err(MultisigError::ValidationError);
        },
        Some(v) => v,
    };
    let mut k: Key32 = [0u8; 32];
    let mut i: usize = 0;
    while i < 32
        invariant
            i <= 32,
            bytes@ == hex_decoded_chars(strip_0x(s@)),
            bytes@.len() == 32,
            forall|j: int| 0 <= j < i ==> k@[j] == bytes@[j],
        decreases 32 - i,
    {
        k[i] = bytes[i];
        i += 1;
    }
    proof {
        assert(k@ =~= bytes@);
    }
    Ok(k)
}

/// The big-endian 32-bit word starting at byte `4 * i` of `b`.
pub open spec fn be32_word(b: Seq<u8>, i: int) -> u32 {
    (b[4 * i] as u32 * 0x1000000 + b[4 * i + 1] as u32 * 0x10000 + b[4 * i + 2] as u32 * 0x100 + b[
        4 * i + 3
    ] as u32) as u32
}

/// Parse a 64-digit hexadecimal string, `0x` prefixes allowed, into a program
/// identity of eight big-endian 32-bit words.
pub fn parse_program_id_hex(s: &str) -> (r: Result<ProgramId, MultisigError>)
    ensures
        r is Ok <==> (strip_0x(s@).len() == 64 && is_hex_string(strip_0x(s@))),
        r matches Ok(pid) ==> forall|i: int|
            0 <= i < 8 ==> pid@[i] == be32_word(hex_decoded_chars(strip_0x(s@)), i),
        r is Err ==> r == Err::<ProgramId, MultisigError>(MultisigError::ValidationError),
{
    let bytes = match parse_hex32(s) {
        Err(e) => {
            return Err(e);
        },
        Ok(k) => k,
    };
    let mut pid: ProgramId = [0u32; 8];
    let mut i: usize = 0;
    while i < 8
        invariant
            i <= 8,
            bytes@ == hex_decoded_chars(strip_0x(s@)),
            forall|j: int| 0 <= j < i ==> pid@[j] == be32_word(bytes@, j),
        decreases 8 - i,
    {
        let w: u32 = (bytes[4 * i] as u32) * 0x1000000 + (bytes[4 * i + 1] as u32) * 0x10000 + (
        bytes[4 * i + 2] as u32) * 0x100 + (bytes[4 * i + 3] as u32);
        pid[i] = w;
        i += 1;
    }
    Ok(pid)
}

/// A 32-byte key as 64 lowercase hexadecimal digits.
pub fn bytes32_to_hex(b: &Key32) -> (r: String)
    ensures
        r@ == hex_str_of(b@),
{
    hex_encode(b.as_slice())
}

/// Byte `j` (0 = most significant) of the big-endian form of the word `x`.
pub open spec fn be32_byte(x: u32, j: int) -> u8 {
    ((x >> ((24 - 8 * j) as u32)) & 0xff) as u8
}

/// The big-endian bytes of a sequence of 32-bit words.
pub open spec fn words_be_bytes(ws: Seq<u32>) -> Seq<u8> {
    Seq::new(4 * ws.len(), |k: int| be32_byte(ws[k / 4], k % 4))
}

/// A program identity as 64 lowercase hexadecimal digits: its eight words,
/// each in big-endian byte order.
pub fn program_id_to_hex(pid: &ProgramId) -> (r: String)
    ensures
        r@ == hex_str_of(words_be_bytes(pid@)),
{
    let mut bytes: Vec<u8> = Vec::new();
    let mut i: usize = 0;
    while i < 8
        invariant
            i <= 8,
            bytes@.len() == 4 * i,
            forall|k: int| 0 <= k < 4 * i ==> bytes@[k] == words_be_bytes(pid@)[k],
        decreases 8 - i,
    {
        let w = pid[i];
        bytes.push(((w >> 24u32) & 0xff) as u8);
        bytes.push(((w >> 16u32) & 0xff) as u8);
        bytes.push(((w >> 8u32) & 0xff) as u8);
        bytes.push((w & 0xff) as u8);
        proof {
            let ii = i as int;
            vstd::arithmetic::div_mod::lemma_fundamental_div_mod_converse(4 * ii, 4, ii, 0);
            vstd::arithmetic::div_mod::lemma_fundamental_div_mod_converse(4 * ii + 1, 4, ii, 1);
            vstd::arithmetic::div_mod::lemma_fundamental_div_mod_converse(4 * ii + 2, 4, ii, 2);
            vstd::arithmetic::div_mod::lemma_fundamental_div_mod_converse(4 * ii + 3, 4, ii, 3);
            assert((w >> 0u32) & 0xff == w & 0xff) by (bit_vector);
        }
        i += 1;
    }
    proof {
        assert(bytes@ =~= words_be_bytes(pid@));
    }
    hex_encode(bytes.as_slice())
}

} // verus!
