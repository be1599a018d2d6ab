//! The descriptor record that the syscall table scanner reads, and the symbol
//! names derived from the function's identifier.

use vstd::prelude::*;
use vstd::string::{StrSliceExecFns, StringExecFns, StringSliceAdditionalSpecFns};
use vstd::utf8::encode_utf8;

use crate::name_token::{name_token, token_of};

verus! {

/// One entry of the syscall table: `{ id, name, handler }`, where `handler`
/// is the unmangled symbol of the rewritten entry point.
#[derive(Debug)]
pub struct SyscallDescriptor {
    pub id: u32,
    pub name: [u8; 32],
    pub handler: String,
}

/// The name token of an identifier given as characters.
pub open spec fn name_token_of(name: Seq<char>) -> Seq<u8> {
    token_of(encode_utf8(name))
}

/// An identifier without its raw-identifier marker `r#`, if it has one.
pub open spec fn bare_ident(name: Seq<char>) -> Seq<char> {
    if name.len() >= 2 && name[0] == 'r' && name[1] == '#' {
        name.subrange(2, name.len() as int)
    } else {
        name
    }
}

/// The symbol of the static descriptor for the function `name`.
pub open spec fn entry_symbol_of(name: Seq<char>) -> Seq<char> {
    "MERLIN_SYSCALL_ENTRY_"@ + bare_ident(name)
}

impl SyscallDescriptor {
    /// True when this record is the descriptor of function `name` with `id`.
    pub open spec fn describes(&self, id: u32, name: Seq<char>) -> bool {
        &&& self.id == id
        &&& self.name@ == name_token_of(name)
        &&& self.handler@ == name
    }

    /// The descriptor of the function `name` registered under `id`.
    pub fn new(id: u32, name: String) -> (r: SyscallDescriptor)
        ensures
            r.describes(id, name@),
    {
        let token = name_token(name.as_str());
        SyscallDescriptor { id, name: token, handler: name }
    }
}

/// The descriptor's symbol, derived from the function's identifier so that
/// descriptors of different functions never share a symbol.
pub fn entry_symbol(name: &str) -> (r: String)
    ensures
        r@ == entry_symbol_of(name@),
{
    let n = name.unicode_len();
    let prefix = String::from_str("MERLIN_SYSCALL_ENTRY_");
    if n >= 2 && name.get_char(0) == 'r' && name.get_char(1) == '#' {
        prefix.concat(name.substring_char(2, n))
    } else {
        prefix.concat(name)
    }
}

} // verus!
