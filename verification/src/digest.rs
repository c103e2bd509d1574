//! SHA-256 digests, their lowercase hex rendering, and the proof-of-work
//! predicate on a rendered digest.

use sha2::Digest;
use vstd::prelude::*;
use vstd::string::StringExecFns;

verus! {

/// The SHA-256 digest of a byte string.
pub uninterp spec fn sha256(data: Seq<u8>) -> [u8; 32];

/// Calls `sha2::Sha256::digest` (the `Digest` trait's one-shot form, which
/// feeds `data` to a fresh hasher and finalizes it). Trusted: the 32 bytes
/// that come back are the SHA-256 digest of `data`, which this library knows
/// only by the name `sha256`.
#[verifier::external_body]
pub(crate) fn sha256_digest(data: &[u8]) -> (digest: [u8; 32])
    ensures
        digest == sha256(data@),
{
    sha2::Sha256::digest(data).into()
}

/// The lowercase hex digit for a value below sixteen.
pub open spec fn hex_digit(n: int) -> char {
    if n == 0 {
        '0'
    } else if n == 1 {
        '1'
    } else if n == 2 {
        '2'
    } else if n == 3 {
        '3'
    } else if n == 4 {
        '4'
    } else if n == 5 {
        '5'
    } else if n == 6 {
        '6'
    } else if n == 7 {
        '7'
    } else if n == 8 {
        '8'
    } else if n == 9 {
        '9'
    } else if n == 10 {
        'a'
    } else if n == 11 {
        'b'
    } else if n == 12 {
        'c'
    } else if n == 13 {
        'd'
    } else if n == 14 {
        'e'
    } else {
        'f'
    }
}

/// Lowercase hex of a byte string: two digits per byte, high nibble first.
pub open spec fn hex_string(bytes: Seq<u8>) -> Seq<char> {
    Seq::new(
        2 * bytes.len(),
        |i: int|
            if i % 2 == 0 {
                hex_digit(bytes[i / 2] as int / 16)
            } else {
                hex_digit(bytes[i / 2] as int % 16)
            },
    )
}

/// A rendered digest meets a difficulty when it starts with that many `'0'`
/// characters.
pub open spec fn meets_difficulty(hash: Seq<char>, difficulty: nat) -> bool {
    &&& difficulty <= hash.len()
    &&& forall|i: int| 0 <= i < difficulty ==> hash[i] == '0'
}

/// The one-character text of a hex digit.
fn digit_text(n: u8) -> (text: &'static str)
    requires
        n < 16,
    ensures
        text@ == seq![hex_digit(n as int)],
{
    proof {
        reveal_strlit("0");
        reveal_strlit("1");
        reveal_strlit("2");
        reveal_strlit("3");
        reveal_strlit("4");
        reveal_strlit("5");
        reveal_strlit("6");
        reveal_strlit("7");
        reveal_strlit("8");
        reveal_strlit("9");
        reveal_strlit("a");
        reveal_strlit("b");
        reveal_strlit("c");
        reveal_strlit("d");
        reveal_strlit("e");
        reveal_strlit("f");
    }
    let text = match n {
        0 => "0",
        1 => "1",
        2 => "2",
        3 => "3",
        4 => "4",
        5 => "5",
        6 => "6",
        7 => "7",
        8 => "8",
        9 => "9",
        10 => "a",
        11 => "b",
        12 => "c",
        13 => "d",
        14 => "e",
        _ => "f",
    };
    assert(text@ =~= seq![hex_digit(n as int)]);
    text
}

/// Renders `bytes` as lowercase hex.
pub fn to_hex(bytes: &[u8]) -> (text: String)
    ensures
        text@ == hex_string(bytes@),
{
    let mut text = String::new();
    let mut i: usize = 0;
    while i < bytes.len()
        invariant
            i <= bytes.len(),
            text@ == hex_string(bytes@.take(i as int)),
        decreases bytes.len() - i,
    {
        let byte: u8 = bytes[i];
        let ghost before = text@;
        text.append(digit_text(byte / 16));
        text.append(digit_text(byte % 16));
        i += 1;
        assert(text@ =~= hex_string(bytes@.take(i as int)));
    }
    assert(bytes@.take(i as int) =~= bytes@);
    text
}

/// The SHA-256 digest of `data`, rendered as 64 lowercase hex characters.
pub fn sha256_hex(data: &[u8]) -> (text: String)
    ensures
        text@ == hex_string(sha256(data@)@),
{
    let digest = sha256_digest(data);
    to_hex(digest.as_slice())
}

/// A digest renders to 64 characters, so no difficulty above 64 can be met.
pub proof fn lemma_digest_text_is_64_long(digest: [u8; 32], difficulty: nat)
    ensures
        hex_string(digest@).len() == 64,
        difficulty > 64 ==> !meets_difficulty(hex_string(digest@), difficulty),
{
}

/// Whether the hex rendering of `digest` starts with `difficulty` zeros,
/// decided on the bytes: whole zero bytes, then a zero high nibble if the
/// count is odd.
pub fn digest_meets_difficulty(digest: &[u8; 32], difficulty: u8) -> (met: bool)
    ensures
        met == meets_difficulty(hex_string(digest@), difficulty as nat),
{
    let ghost text = hex_string(digest@);
    if difficulty > 64 {
        return false;
    }
    let whole: usize = (difficulty / 2) as usize;
    let mut i: usize = 0;
    while i < whole
        invariant
            i <= whole,
            whole == difficulty / 2,
            difficulty <= 64,
            text == hex_string(digest@),
            forall|k: int| 0 <= k < 2 * i ==> text[k] == '0',
        decreases whole - i,
    {
        if digest[i] != 0 {
            assert(text[2 * i as int] != '0' || text[2 * i + 1] != '0');
            return false;
        }
        assert(text[2 * i as int] == '0');
        assert(text[2 * i + 1] == '0');
        i += 1;
    }
    if difficulty % 2 == 1 {
        assert(text[2 * whole as int] == hex_digit(digest@[whole as int] as int / 16));
        digest[whole] < 16
    } else {
        true
    }
}

/// Two byte strings of one length with the same hex rendering are the same.
pub proof fn lemma_hex_string_injective(a: Seq<u8>, b: Seq<u8>)
    requires
        a.len() == b.len(),
        hex_string(a) == hex_string(b),
    ensures
        a == b,
{
    assert forall|i: int| 0 <= i < a.len() implies a[i] == b[i] by {
        let high = 2 * i;
        let low = 2 * i + 1;
        assert(high % 2 == 0 && high / 2 == i);
        assert(low % 2 == 1 && low / 2 == i);
        assert(hex_string(a)[high] == hex_digit(a[i] as int / 16));
        assert(hex_string(b)[high] == hex_digit(b[i] as int / 16));
        assert(hex_string(a)[low] == hex_digit(a[i] as int % 16));
        assert(hex_string(b)[low] == hex_digit(b[i] as int % 16));
        assert(a[i] as int / 16 == b[i] as int / 16);
        assert(a[i] as int % 16 == b[i] as int % 16);
    }
    assert(a =~= b);
}

} // verus!
