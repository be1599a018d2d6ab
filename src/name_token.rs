//! The fixed-width name token of a syscall: the identifier's UTF-8 bytes,
//! cut to 32 and padded with zero bytes to exactly 32.

use vstd::prelude::*;
use vstd::string::{StrSliceExecFns, StringSliceAdditionalSpecFns};

verus! {

/// Width of a name token in bytes.
pub const NAME_TOKEN_LEN: usize = 32;

/// The token for the bytes `b`: byte `i` of `b` where there is one, else zero.
pub open spec fn token_of(b: Seq<u8>) -> Seq<u8> {
    Seq::new(NAME_TOKEN_LEN as nat, |i: int| if i < b.len() { b[i] } else { 0u8 })
}

/// Short identifiers keep every byte and are followed by zeros; long ones are
/// cut to their first 32 bytes and never refused.
pub proof fn lemma_token_pads_or_truncates(b: Seq<u8>)
    ensures
        b.len() <= NAME_TOKEN_LEN ==> token_of(b) == b + Seq::new(
            (NAME_TOKEN_LEN - b.len()) as nat,
            |i: int| 0u8,
        ),
        b.len() > NAME_TOKEN_LEN ==> token_of(b) == b.take(NAME_TOKEN_LEN as int),
{
    if b.len() <= NAME_TOKEN_LEN {
        assert(token_of(b) =~= b + Seq::new((NAME_TOKEN_LEN - b.len()) as nat, |i: int| 0u8));
    } else {
        assert(token_of(b) =~= b.take(NAME_TOKEN_LEN as int));
    }
}

/// Derives the 32-byte name token of the identifier `name`.
pub fn name_token(name: &str) -> (r: [u8; 32])
    ensures
        r@ == token_of(name.spec_bytes()),
{
    let bytes = name.as_bytes_vec();
    let mut token: [u8; 32] = [0u8; 32];
    let mut i: usize = 0;
    while i < NAME_TOKEN_LEN && i < bytes.len()
        invariant
            i <= NAME_TOKEN_LEN,
            i <= bytes@.len(),
            bytes@ == name.spec_bytes(),
            forall|k: int| 0 <= k < i ==> token@[k] == bytes@[k],
            forall|k: int| i <= k < NAME_TOKEN_LEN ==> token@[k] == 0u8,
        decreases NAME_TOKEN_LEN - i,
    {
        token[i] = bytes[i];
        i = i + 1;
    }
    assert(token@ =~= token_of(bytes@));
    token
}

} // verus!
