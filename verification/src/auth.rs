//! The identity that a verified credential carries, and the key against
//! which credentials are verified.

use vstd::prelude::*;
use vstd::slice::{slice_subrange, slice_to_vec};
use vstd::string::StringSliceAdditionalSpecFns;
use base64::Engine;
use base64::engine::general_purpose::STANDARD;

verus! {

/// What a verified credential says of its bearer.
#[derive(Debug)]
pub struct Claims {
    pub sub: String,
    pub user_id: String,
    pub username: String,
    pub exp: usize,
}

/// The mathematical value of [`Claims`].
pub struct ClaimsView {
    pub sub: Seq<char>,
    pub user_id: Seq<char>,
    pub username: Seq<char>,
    pub exp: usize,
}

impl View for Claims {
    type V = ClaimsView;

    open spec fn view(&self) -> ClaimsView {
        ClaimsView { sub: self.sub@, user_id: self.user_id@, username: self.username@, exp: self.exp }
    }
}

/// What the standard base64 alphabet, with padding, decodes the given
/// bytes to; `None` where they are no such encoding.
pub uninterp spec fn base64_standard_decode(input: Seq<u8>) -> Option<Seq<u8>>;

/// `Engine::decode` of `base64::engine::general_purpose::STANDARD`: the
/// bytes that the input encodes, or `None` where the engine reports an
/// error.
#[verifier::external_body]
fn decode_standard(input: &[u8]) -> (decoded: Option<Vec<u8>>)
    ensures
        match decoded {
            Some(bytes) => base64_standard_decode(input@) == Some(bytes@),
            None => base64_standard_decode(input@).is_none(),
        },
{
    STANDARD.decode(input).ok()
}

/// The bytes of the ASCII text `base64:`, which marks a secret that is
/// written in base64.
pub open spec fn base64_mark() -> Seq<u8> {
    seq![98u8, 97u8, 115u8, 101u8, 54u8, 52u8, 58u8]
}

/// Whether the given bytes begin with the mark.
pub open spec fn is_marked(bytes: Seq<u8>) -> bool {
    bytes.len() >= 7 && bytes.subrange(0, 7) == base64_mark()
}

/// The key that a configured secret stands for, given what the part
/// behind a mark decodes to: the decoded bytes where the secret is marked
/// and that part is base64, and the bytes of the secret as it is written
/// otherwise.
pub open spec fn key_of(secret: Seq<u8>, decoded: Option<Seq<u8>>) -> Seq<u8> {
    match decoded {
        Some(bytes) if is_marked(secret) => bytes,
        _ => secret,
    }
}

/// The key that a configured secret stands for.
pub open spec fn secret_key(secret: Seq<u8>) -> Seq<u8> {
    key_of(secret, base64_standard_decode(secret.skip(7)))
}

/// Whether the given bytes begin with the mark.
pub fn has_base64_mark(bytes: &[u8]) -> (marked: bool)
    ensures
        marked == is_marked(bytes@),
{
    if bytes.len() < 7 {
        return false;
    }
    let marked = bytes[0] == 98 && bytes[1] == 97 && bytes[2] == 115 && bytes[3] == 101 && bytes[4]
        == 54 && bytes[5] == 52 && bytes[6] == 58;
    proof {
        let head = bytes@.subrange(0, 7);
        if marked {
            assert(head =~= base64_mark());
        } else {
            assert(head[0] == bytes@[0] && head[1] == bytes@[1] && head[2] == bytes@[2] && head[3]
                == bytes@[3] && head[4] == bytes@[4] && head[5] == bytes@[5] && head[6]
                == bytes@[6]);
        }
    }
    marked
}

/// The key that a secret stands for, given what the part behind a mark
/// decoded to.
pub fn key_from(secret: &[u8], decoded: Option<Vec<u8>>) -> (key: Vec<u8>)
    ensures
        key@ == key_of(
            secret@,
            match decoded {
                Some(bytes) => Some(bytes@),
                None => None,
            },
        ),
{
    match decoded {
        Some(bytes) => {
            if has_base64_mark(secret) {
                bytes
            } else {
                slice_to_vec(secret)
            }
        },
        None => slice_to_vec(secret),
    }
}

/// The key against which credentials are verified, from the secret as it
/// is configured. A secret that begins with `base64:` and goes on in
/// base64 stands for the bytes that it encodes; any other secret stands
/// for its own bytes.
pub fn secret_bytes(secret: &str) -> (key: Vec<u8>)
    ensures
        key@ == secret_key(secret.spec_bytes()),
{
    let raw = secret.as_bytes();
    if has_base64_mark(raw) {
        let decoded = decode_standard(slice_subrange(raw, 7, raw.len()));
        proof {
            assert(raw@.subrange(7, raw@.len() as int) =~= raw@.skip(7));
        }
        key_from(raw, decoded)
    } else {
        slice_to_vec(raw)
    }
}

} // verus!
