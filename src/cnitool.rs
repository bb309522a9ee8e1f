//! Container identifiers derived by the command-line tool.

use sha2::Digest;
use vstd::prelude::*;

use crate::env::valid_container_id;
use crate::text::{push_str, string_from_chars};
use vstd::utf8::encode_utf8;
use vstd::string::*;

verus! {

/// The SHA-512 digest of a byte sequence.
pub uninterp spec fn sha512_of(data: Seq<u8>) -> Seq<u8>;

/// Relies on `sha2::Sha512::digest`: the SHA-512 digest of the data, which
/// is 64 bytes long.
#[verifier::external_body]
fn sha512(data: &[u8]) -> (r: Vec<u8>)
    ensures
        r@ == sha512_of(data@),
        r@.len() == 64,
{
    sha2::Sha512::digest(data).to_vec()
}

/// The width to which the tool pads the text it hashes.
pub const HASH_PAD_WIDTH: usize = 10;

/// `s` padded with spaces on the right to at least `HASH_PAD_WIDTH`
/// characters.
pub open spec fn padded(s: Seq<char>) -> Seq<char> {
    if s.len() < HASH_PAD_WIDTH {
        s + Seq::new((HASH_PAD_WIDTH - s.len()) as nat, |i: int| ' ')
    } else {
        s
    }
}

/// The text the tool hashes for a given isolation domain.
pub open spec fn hash_input(content: Seq<char>) -> Seq<char> {
    "cnitool-"@ + padded(content)
}

/// The text `cnitool-` followed by `content` padded to ten characters.
pub fn hash_input_text(content: &str) -> (r: String)
    ensures
        r@ == hash_input(content@),
{
    let mut out: Vec<char> = Vec::new();
    push_str(&mut out, "cnitool-");
    let ghost head = out@;
    push_str(&mut out, content);
    let n = content.unicode_len();
    let mut i: usize = n;
    while i < HASH_PAD_WIDTH
        invariant
            n == content@.len(),
            n <= i <= HASH_PAD_WIDTH || (n >= HASH_PAD_WIDTH && i == n),
            out@ == head + content@ + Seq::new((i - n) as nat, |k: int| ' '),
        decreases HASH_PAD_WIDTH - i,
    {
        out.push(' ');
        i += 1;
        assert(out@ =~= head + content@ + Seq::new((i - n) as nat, |k: int| ' '));
    }
    proof {
        if n >= HASH_PAD_WIDTH {
            assert(out@ =~= head + content@);
        }
    }
    string_from_chars(&out)
}

/// The lower-case hexadecimal digit of `d`.
pub open spec fn hex_digit(d: nat) -> char {
    seq!['0', '1', '2', '3', '4', '5', '6', '7', '8', '9', 'a', 'b', 'c', 'd', 'e', 'f'][d as int]
}

/// `t` is the lower-case hexadecimal text of `bytes`: two digits per byte,
/// the high half first.
pub open spec fn is_hex_of(t: Seq<char>, bytes: Seq<u8>) -> bool {
    &&& t.len() == 2 * bytes.len()
    &&& forall|i: int|
        0 <= i < bytes.len() ==> t[2 * i] == hex_digit((#[trigger] bytes[i] / 16) as nat) && t[2
            * i + 1] == hex_digit((bytes[i] % 16) as nat)
}

/// The hexadecimal digit of a value below sixteen.
fn hex_char(d: u8) -> (c: char)
    requires
        d < 16,
    ensures
        c == hex_digit(d as nat),
        ('0' <= c && c <= '9') || ('a' <= c && c <= 'f'),
{
    let digits: [char; 16] = [
        '0', '1', '2', '3', '4', '5', '6', '7', '8', '9', 'a', 'b', 'c', 'd', 'e', 'f',
    ];
    assert(digits@ =~= seq![
        '0', '1', '2', '3', '4', '5', '6', '7', '8', '9', 'a', 'b', 'c', 'd', 'e', 'f',
    ]);
    digits[d as usize]
}

/// The lower-case hexadecimal text of `bytes`.
pub fn hex_text(bytes: &[u8]) -> (r: String)
    ensures
        is_hex_of(r@, bytes@),
        forall|i: int| 0 <= i < r@.len() ==> ('0' <= #[trigger] r@[i] && r@[i] <= '9') || ('a' <= r@[i]
            && r@[i] <= 'f'),
{
    let mut out: Vec<char> = Vec::new();
    let mut i: usize = 0;
    while i < bytes.len()
        invariant
            i <= bytes@.len(),
            out@.len() == 2 * i,
            forall|k: int|
                0 <= k < i ==> out@[2 * k] == hex_digit((#[trigger] bytes@[k] / 16) as nat) && out@[2
                    * k + 1] == hex_digit((bytes@[k] % 16) as nat),
            forall|k: int| 0 <= k < out@.len() ==> ('0' <= #[trigger] out@[k] && out@[k] <= '9') || (
            'a' <= out@[k] && out@[k] <= 'f'),
        decreases bytes@.len() - i,
    {
        let b = bytes[i];
        out.push(hex_char(b / 16));
        out.push(hex_char(b % 16));
        i += 1;
    }
    string_from_chars(&out)
}

/// The container identifier the tool derives from an isolation domain: the
/// lower-case hexadecimal text of the SHA-512 digest of `cnitool-` and the
/// padded domain. It is always a valid container identifier.
pub fn obtain_hashed_container_id(content: &str) -> (r: String)
    ensures
        is_hex_of(r@, sha512_of(encode_utf8(hash_input(content@)))),
        valid_container_id(r@),
{
    let text = hash_input_text(content);
    let digest = sha512(text.as_str().as_bytes());
    let r = hex_text(digest.as_slice());
    assert(r@.len() == 128);
    r
}

} // verus!
