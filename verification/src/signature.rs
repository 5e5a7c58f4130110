//! The author signature: the sender's local port, modulo 10000, in decimal
//! digits, padded with spaces to four bytes.

use crate::wire::{fit_signature, AUTHOR_SIGNATURE_LEN, SIGNATURE_PAD};
use vstd::prelude::*;
use vstd::utf8::*;

verus! {

/// The ASCII digit for `d`.
pub open spec fn digit(d: nat) -> u8
    recommends
        d < 10,
{
    (48 + d) as u8
}

/// `n` in decimal digits, without leading zeros.
pub open spec fn decimal(n: nat) -> Seq<u8>
    decreases n,
{
    if n < 10 {
        seq![digit(n)]
    } else {
        decimal(n / 10).push(digit(n % 10))
    }
}

/// The signature of the sender whose local port is `port`.
pub open spec fn signature_of(port: u16) -> Seq<u8> {
    fit_signature(decimal((port % 10000) as nat))
}

/// Derives the author signature from the local port of a connection.
pub fn author_signature(port: u16) -> (signature: [u8; 4])
    ensures
        signature@ == signature_of(port),
{
    let n: u16 = port % 10000;
    let ones: u8 = 48 + (n % 10) as u8;
    let tens: u8 = 48 + (n / 10 % 10) as u8;
    let hundreds: u8 = 48 + (n / 100 % 10) as u8;
    let thousands: u8 = 48 + (n / 1000) as u8;
    let signature = if n < 10 {
        [ones, SIGNATURE_PAD, SIGNATURE_PAD, SIGNATURE_PAD]
    } else if n < 100 {
        [tens, ones, SIGNATURE_PAD, SIGNATURE_PAD]
    } else if n < 1000 {
        [hundreds, tens, ones, SIGNATURE_PAD]
    } else {
        [thousands, hundreds, tens, ones]
    };
    proof {
        reveal_with_fuel(decimal, 4);
        assert(signature@ =~= signature_of(port));
    }
    signature
}

/// The author name that a signature spells: its digits and its padding as
/// characters.
pub open spec fn signature_name(port: u16) -> Seq<char> {
    signature_of(port).map_values(|b: u8| b as char)
}

/// A signature fills its field, begins with a digit, and holds only digits
/// and padding.
pub proof fn lemma_signature_shape(port: u16)
    ensures
        signature_of(port).len() == AUTHOR_SIGNATURE_LEN,
        48 <= signature_of(port)[0] <= 57,
        forall|i: int|
            0 <= i < 4 ==> {
                let b = #[trigger] signature_of(port)[i];
                48 <= b <= 57 || b == SIGNATURE_PAD
            },
{
    reveal_with_fuel(decimal, 4);
    let n = (port % 10000) as nat;
    let s = signature_of(port);
    assert forall|i: int| 0 <= i < 4 implies {
        let b = #[trigger] s[i];
        48 <= b <= 57 || b == SIGNATURE_PAD
    } by {
        if n < 10 {
        } else if n < 100 {
        } else if n < 1000 {
        } else {
        }
    }
}

/// A signature is text: it is the UTF-8 encoding of the name it spells, and
/// decodes to that name.
pub proof fn lemma_signature_is_text(port: u16)
    ensures
        encode_utf8(signature_name(port)) == signature_of(port),
        valid_utf8(signature_of(port)),
        decode_utf8(signature_of(port)) == signature_name(port),
{
    let name = signature_name(port);
    lemma_signature_shape(port);
    assert forall|i: int| 0 <= i < name.len() implies 0 <= #[trigger] name[i] as nat <= 127 by {
        let b = signature_of(port)[i];
        assert(48 <= b <= 57 || b == SIGNATURE_PAD);
        assert(name[i] == b as char);
    }
    assert(is_ascii_chars(name));
    is_ascii_chars_encode_utf8(name);
    assert(encode_utf8(name) =~= signature_of(port)) by {
        assert forall|i: int| 0 <= i < name.len() implies name[i] as u8 == signature_of(
            port,
        )[i] by {
            let b = signature_of(port)[i];
            assert(48 <= b <= 57 || b == SIGNATURE_PAD);
            assert(name[i] == b as char);
        }
    }
    encode_utf8_valid_utf8(name);
    encode_utf8_decode_utf8(name);
}

} // verus!
