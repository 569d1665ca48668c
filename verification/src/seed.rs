//! Seed decoding: 43 characters of the hash, starting at offset 2, are
//! base-58 decoded; the seed is valid exactly when they decode to 32 bytes.
use vstd::prelude::*;

use crate::ArtError;
use vstd::std_specs::iter::IteratorSpec;

verus! {

broadcast use vstd::string::next_postcondition, vstd::string::axiom_spec_iter;

/// The base-58 alphabet (Bitcoin): digits and letters without `0`, `I`, `O`, `l`.
pub open spec fn is_b58_char(c: char) -> bool {
    let u = c as u32;
    (49 <= u && u <= 57) || (65 <= u && u <= 90 && u != 73 && u != 79) || (97 <= u && u <= 122
        && u != 108)
}

/// The same alphabet, on ASCII bytes.
pub open spec fn is_b58_byte(b: u8) -> bool {
    (49 <= b && b <= 57) || (65 <= b && b <= 90 && b != 73 && b != 79) || (97 <= b && b <= 122
        && b != 108)
}

/// Each character taken as its scalar value, truncated to a byte; faithful for
/// ASCII characters, which are the only ones the decoder accepts.
pub open spec fn ascii_bytes(s: Seq<char>) -> Seq<u8> {
    Seq::new(s.len(), |i: int| (s[i] as u32) as u8)
}

/// The bytes that base-58 decoding yields on an all-alphabet input.
pub uninterp spec fn b58_decoded(input: Seq<u8>) -> Seq<u8>;

/// Relies on `bs58::decode(..).into_vec()` with the default (Bitcoin)
/// alphabet: decoding into a growable vector fails exactly when some input
/// byte is not an alphabet character, and on success the bytes are a function
/// of the input alone.
#[verifier::external_body]
fn b58_decode_vec(input: &Vec<u8>) -> (r: Option<Vec<u8>>)
    ensures
        r is Some <==> (forall|i: int| 0 <= i < input@.len() ==> is_b58_byte(input@[i])),
        r matches Some(v) ==> v@ == b58_decoded(input@),
{
    match bs58::decode(input.as_slice()).into_vec() {
        Ok(v) => Some(v),
        Err(_) => None,
    }
}

/// The 43 characters that carry the seed.
pub open spec fn hash_tail(h: Seq<char>) -> Seq<char> {
    h.subrange(2, 45)
}

pub open spec fn tail_is_b58(h: Seq<char>) -> bool {
    forall|i: int| 2 <= i < 45 ==> is_b58_char(h[i])
}

/// A hash yields a seed exactly when it is long enough, its tail stays inside
/// the alphabet, and the tail decodes to 32 bytes.
pub open spec fn valid_hash(h: Seq<char>) -> bool {
    h.len() >= 45 && tail_is_b58(h) && b58_decoded(ascii_bytes(hash_tail(h))).len() == 32
}

pub open spec fn seed_of(h: Seq<char>) -> Seq<u8> {
    b58_decoded(ascii_bytes(hash_tail(h)))
}

/// Turns the hash into the 32-byte seed, or reports `MalformedHash`.
pub fn decode_seed(hash: &str) -> (r: Result<Vec<u8>, ArtError>)
    ensures
        r is Ok <==> valid_hash(hash@),
        r matches Ok(v) ==> v@ == seed_of(hash@) && v@.len() == 32,
        r is Err ==> r == Err::<Vec<u8>, ArtError>(ArtError::MalformedHash),
{
    let mut it = hash.chars();
    let mut i: usize = 0;
    let mut tail: Vec<u8> = Vec::new();
    while i < 45
        invariant
            i <= 45,
            i as int <= hash@.len(),
            it.remaining() == hash@.skip(i as int),
            tail@.len() == (if i <= 2 {
                0int
            } else {
                i - 2
            }),
            forall|j: int| 0 <= j < tail@.len() ==> tail@[j] == (hash@[j + 2] as u32) as u8,
            forall|j: int| 2 <= j < i ==> is_b58_char(#[trigger] hash@[j]),
        decreases 45 - i,
    {
        let c_opt = it.next();
        match c_opt {
            None => {
                proof {
                    assert(hash@.skip(i as int).len() == 0);
                }
                return Err(ArtError::MalformedHash);
            },
            Some(c) => {
                proof {
                    assert(hash@.skip(i as int)[0] == hash@[i as int]);
                    assert(hash@.skip(i as int).drop_first() =~= hash@.skip(i as int + 1));
                }
                if i >= 2 {
                    let u: u32 = c as u32;
                    let valid = (49 <= u && u <= 57) || (65 <= u && u <= 90 && u != 73 && u != 79)
                        || (97 <= u && u <= 122 && u != 108);
                    if !valid {
                        proof {
                            assert(!is_b58_char(hash@[i as int]));
                            assert(!tail_is_b58(hash@));
                        }
                        return Err(ArtError::MalformedHash);
                    }
                    tail.push(u as u8);
                }
            },
        }
        i += 1;
    }
    proof {
        assert(tail@ =~= ascii_bytes(hash_tail(hash@)));
        assert(tail_is_b58(hash@));
        assert forall|j: int| 0 <= j < tail@.len() implies is_b58_byte(tail@[j]) by {
            assert(is_b58_char(hash@[j + 2]));
        }
    }
    match b58_decode_vec(&tail) {
        Some(v) => {
            if v.len() == 32 {
                Ok(v)
            } else {
                Err(ArtError::MalformedHash)
            }
        },
        None => Err(ArtError::MalformedHash),
    }
}

} // verus!
