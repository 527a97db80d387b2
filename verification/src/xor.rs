//! XOR obfuscation of embedded credentials. The cipher cycles a fixed
//! ten-byte key over the data; applying it twice returns the original bytes.

use vstd::prelude::*;
use crate::text::{lossy_string, lossy_utf8_of};

verus! {

/// How many bytes the obfuscation key holds.
pub const XOR_KEY_LEN: usize = 10;

/// The obfuscation key, byte by byte.
pub open spec fn spec_key_byte(i: int) -> u8 {
    if i == 0 {
        55u8
    } else if i == 1 {
        52u8
    } else if i == 2 {
        55u8
    } else if i == 3 {
        115u8
    } else if i == 4 {
        103u8
    } else if i == 5 {
        94u8
    } else if i == 6 {
        56u8
    } else if i == 7 {
        78u8
    } else if i == 8 {
        48u8
    } else {
        36u8
    }
}

/// The obfuscation key, byte by byte.
fn key_byte(i: usize) -> (r: u8)
    requires
        i < XOR_KEY_LEN,
    ensures
        r == spec_key_byte(i as int),
{
    if i == 0 {
        55
    } else if i == 1 {
        52
    } else if i == 2 {
        55
    } else if i == 3 {
        115
    } else if i == 4 {
        103
    } else if i == 5 {
        94
    } else if i == 6 {
        56
    } else if i == 7 {
        78
    } else if i == 8 {
        48
    } else {
        36
    }
}

/// Each byte XORed with the key byte at its index modulo the key length.
pub open spec fn spec_xor(data: Seq<u8>) -> Seq<u8> {
    Seq::new(data.len(), |i: int| data[i] ^ spec_key_byte(i % (XOR_KEY_LEN as int)))
}

/// Encodes data by XORing it with the cycled key.
pub fn xor_encode(data: &[u8]) -> (r: Vec<u8>)
    ensures
        r@ == spec_xor(data@),
{
    let mut out: Vec<u8> = Vec::new();
    let mut i: usize = 0;
    while i < data.len()
        invariant
            0 <= i <= data@.len(),
            out@ =~= spec_xor(data@).take(i as int),
        decreases data@.len() - i,
    {
        let k = key_byte(i % XOR_KEY_LEN);
        out.push(data[i] ^ k);
        proof {
            assert(out@ =~= spec_xor(data@).take(i + 1));
        }
        i = i + 1;
    }
    proof {
        assert(spec_xor(data@).take(data@.len() as int) =~= spec_xor(data@));
    }
    out
}

/// Decodes data obfuscated with `xor_encode`; the cipher is its own inverse.
pub fn xor_decode(data: &[u8]) -> (r: Vec<u8>)
    ensures
        r@ == spec_xor(data@),
{
    xor_encode(data)
}

/// Law: the cipher is an involution; encoding any byte string twice returns
/// it unchanged, so `xor_decode` undoes `xor_encode`.
pub proof fn lemma_xor_involutive(data: Seq<u8>)
    ensures
        spec_xor(spec_xor(data)) =~= data,
{
    assert forall|i: int| 0 <= i < data.len() implies spec_xor(spec_xor(data))[i] == data[i] by {
        let b = data[i];
        let k = spec_key_byte(i % (XOR_KEY_LEN as int));
        assert((b ^ k) ^ k == b) by (bit_vector);
    }
}

/// Decodes an obfuscated credential and reads it as text.
pub fn deobfuscate_authkey(obfuscated: &[u8]) -> (r: String)
    ensures
        r@ == lossy_utf8_of(spec_xor(obfuscated@)),
{
    let decoded = xor_decode(obfuscated);
    lossy_string(&decoded)
}

/// A pair of hexadecimal digits for every byte, or nothing when the string
/// has odd length or holds a byte that is no hexadecimal digit.
pub open spec fn spec_hex_decode(s: Seq<u8>) -> Option<Seq<u8>> {
    if s.len() % 2 == 0 && crate::addr::all_hex_digits(s) {
        Some(
            Seq::new(
                s.len() / 2,
                |i: int| (crate::addr::hex_digit_val(s[2 * i]) * 16 + crate::addr::hex_digit_val(
                    s[2 * i + 1],
                )) as u8,
            ),
        )
    } else {
        None
    }
}

/// Relies on `hex::decode`: two hexadecimal digits (either case) become one
/// byte; an odd-length string or a non-digit byte is an error.
#[verifier::external_body]
fn hex_decode(s: &[u8]) -> (r: Option<Vec<u8>>)
    ensures
        match r {
            Some(v) => spec_hex_decode(s@) == Some(v@),
            None => spec_hex_decode(s@) is None,
        },
{
    hex::decode(s).ok()
}

/// Reads a build-time credential: hexadecimal text of the obfuscated key
/// bytes. Returns the deobfuscated key, or nothing when the text is no valid
/// hexadecimal string.
pub fn authkey_from_hex(embedded_hex: &[u8]) -> (r: Option<String>)
    ensures
        match r {
            Some(k) => spec_hex_decode(embedded_hex@) is Some && k@ == lossy_utf8_of(
                spec_xor(spec_hex_decode(embedded_hex@)->Some_0),
            ),
            None => spec_hex_decode(embedded_hex@) is None,
        },
{
    match hex_decode(embedded_hex) {
        Some(obfuscated) => Some(deobfuscate_authkey(obfuscated.as_slice())),
        None => None,
    }
}

/// The embedded obfuscated fallback key, byte by byte.
pub open spec fn spec_fallback_key() -> Seq<u8> {
    seq![
        0x48u8, 0x65u8, 0x6cu8, 0x6cu8, 0x6fu8, 0x20u8, 0x74u8, 0x68u8, 0x65u8, 0x72u8, 0x65u8,
        0x21u8, 0x20u8, 0x47u8, 0x65u8, 0x6eu8, 0x65u8, 0x72u8, 0x61u8, 0x6cu8, 0x20u8, 0x4bu8,
        0x65u8, 0x6eu8, 0x6fu8, 0x62u8, 0x69u8, 0x2eu8,
    ]
}

/// The embedded obfuscated fallback key.
pub fn fallback_obfuscated_key() -> (r: Vec<u8>)
    ensures
        r@ =~= spec_fallback_key(),
{
    let mut v: Vec<u8> = Vec::new();
    v.push(0x48);
    v.push(0x65);
    v.push(0x6c);
    v.push(0x6c);
    v.push(0x6f);
    v.push(0x20);
    v.push(0x74);
    v.push(0x68);
    v.push(0x65);
    v.push(0x72);
    v.push(0x65);
    v.push(0x21);
    v.push(0x20);
    v.push(0x47);
    v.push(0x65);
    v.push(0x6e);
    v.push(0x65);
    v.push(0x72);
    v.push(0x61);
    v.push(0x6c);
    v.push(0x20);
    v.push(0x4b);
    v.push(0x65);
    v.push(0x6e);
    v.push(0x6f);
    v.push(0x62);
    v.push(0x69);
    v.push(0x2e);
    proof {
        assert(v@ =~= spec_fallback_key());
    }
    v
}

/// The default credential when no build-time key was embedded: the fallback
/// key, deobfuscated.
pub fn embedded_authkey() -> (r: String)
    ensures
        r@ == lossy_utf8_of(spec_xor(spec_fallback_key())),
{
    let key = fallback_obfuscated_key();
    deobfuscate_authkey(key.as_slice())
}

} // verus!
