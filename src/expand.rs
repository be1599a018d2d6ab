//! One expansion of `#[merlin_syscall(id = <int>)]`: the argument is read, the
//! function item is parsed, and its descriptor is built. Each expansion depends
//! on its own attribute and declaration alone; whether two syscalls share an id
//! is left to whoever scans the table.

use vstd::prelude::*;

use crate::args::{args_of, ArgsError, SysCallArgs};
use crate::descriptor::{entry_symbol, entry_symbol_of, SyscallDescriptor};
use crate::outside::{fn_ident_of, parse_item_fn};

verus! {

/// Why an expansion was refused.
#[derive(Debug)]
pub enum SyscallError {
    /// The attribute argument is malformed.
    Args(ArgsError),
    /// The annotated item is not a function; the text is `syn`'s diagnostic.
    Declaration(String),
}

/// The kind of a refusal, without its diagnostic text.
#[derive(Debug, Clone, Copy, PartialEq, Eq, Structural)]
pub enum Rejection {
    Args(ArgsError),
    Declaration,
}

impl SyscallError {
    pub open spec fn rejection(&self) -> Rejection {
        match self {
            SyscallError::Args(e) => Rejection::Args(*e),
            SyscallError::Declaration(_) => Rejection::Declaration,
        }
    }
}

/// What an expansion produces: the parsed function, to be re-emitted as an
/// unmangled C-ABI entry point, the descriptor record, and the descriptor's
/// own symbol.
pub struct SyscallExpansion {
    pub item: syn::ItemFn,
    pub descriptor: SyscallDescriptor,
    pub entry_symbol: String,
}

impl SyscallExpansion {
    /// True when this expansion registers the function `name` under `id`.
    pub open spec fn describes(&self, id: u32, name: Seq<char>) -> bool {
        &&& self.descriptor.describes(id, name)
        &&& self.entry_symbol@ == entry_symbol_of(name)
    }
}

/// The outcome of expanding attribute text `attr` on declaration text `item`:
/// the id and the function's identifier, or the kind of refusal. The argument
/// is read first, so a bad argument is reported even on a bad declaration.
pub open spec fn expansion_of(attr: Seq<char>, item: Seq<char>) -> Result<(u32, Seq<char>), Rejection> {
    match args_of(attr) {
        Err(e) => Err(Rejection::Args(e)),
        Ok(id) => match fn_ident_of(item) {
            None => Err(Rejection::Declaration),
            Some(name) => Ok((id, name)),
        },
    }
}

/// Expands `#[merlin_syscall(<attr>)]` on the function item `item`.
pub fn merlin_syscall(attr: &str, item: &str) -> (r: Result<SyscallExpansion, SyscallError>)
    ensures
        match expansion_of(attr@, item@) {
            Ok((id, name)) => r is Ok && r->Ok_0.describes(id, name),
            Err(k) => r is Err && r->Err_0.rejection() == k,
        },
{
    let args = match SysCallArgs::parse(attr) {
        Ok(a) => a,
        Err(e) => return Err(SyscallError::Args(e)),
    };
    let (item, name) = match parse_item_fn(item) {
        Ok(parsed) => parsed,
        Err(msg) => return Err(SyscallError::Declaration(msg)),
    };
    let symbol = entry_symbol(name.as_str());
    let descriptor = SyscallDescriptor::new(args.id, name);
    Ok(SyscallExpansion { item, descriptor, entry_symbol: symbol })
}

/// Expanding the same attribute on the same declaration twice gives the same
/// id, name token, handler and descriptor symbol.
pub proof fn lemma_expansion_deterministic(
    attr: Seq<char>,
    item: Seq<char>,
    x: SyscallExpansion,
    y: SyscallExpansion,
)
    requires
        expansion_of(attr, item) is Ok,
        x.describes(expansion_of(attr, item)->Ok_0.0, expansion_of(attr, item)->Ok_0.1),
        y.describes(expansion_of(attr, item)->Ok_0.0, expansion_of(attr, item)->Ok_0.1),
    ensures
        x.descriptor.id == y.descriptor.id,
        x.descriptor.name@ == y.descriptor.name@,
        x.descriptor.handler@ == y.descriptor.handler@,
        x.entry_symbol@ == y.entry_symbol@,
{
}

/// The outcomes of expanding each `(attribute, declaration)` pair of a batch.
pub open spec fn expansions_of(batch: Seq<(Seq<char>, Seq<char>)>) -> Seq<Result<(u32, Seq<char>), Rejection>> {
    batch.map_values(|d: (Seq<char>, Seq<char>)| expansion_of(d.0, d.1))
}

/// A declaration expands the same way in every batch, at every position,
/// whatever else the batch holds and in whatever order it is processed.
pub proof fn lemma_expansion_independent(
    batch1: Seq<(Seq<char>, Seq<char>)>,
    batch2: Seq<(Seq<char>, Seq<char>)>,
    j: int,
    k: int,
)
    requires
        0 <= j < batch1.len(),
        0 <= k < batch2.len(),
        batch1[j] == batch2[k],
    ensures
        expansions_of(batch1)[j] == expansions_of(batch2)[k],
        expansions_of(batch1)[j] == expansion_of(batch1[j].0, batch1[j].1),
{
}

} // verus!
