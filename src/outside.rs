//! Calls into `syn`, with the contracts this library relies on.

use vstd::prelude::*;

verus! {

/// A run of ASCII decimal digits, with at least one digit.
pub open spec fn is_decimal(s: Seq<char>) -> bool {
    s.len() > 0 && forall|i: int| 0 <= i < s.len() ==> '0' <= #[trigger] s[i] <= '9'
}

/// The number written by a run of decimal digits.
pub open spec fn decimal_value(s: Seq<char>) -> nat
    decreases s.len(),
{
    if s.len() == 0 {
        0
    } else {
        decimal_value(s.drop_last()) * 10 + ((s.last() as int - '0' as int) as nat)
    }
}

/// What `syn` reads from the text of a Rust integer literal as a `u32`.
pub uninterp spec fn int_literal_u32(s: Seq<char>) -> Option<u32>;

/// Relies on `syn::parse_str::<syn::LitInt>` and `syn::LitInt::base10_parse::<u32>`:
/// the text must be one integer literal (optionally negative) whose base-10
/// value `u32::from_str` accepts. An empty text is no literal; a plain run of
/// decimal digits reads as its value when it fits in 32 bits; a leading `-`
/// stays in the base-10 digits, which `u32::from_str` refuses.
#[verifier::external_body]
pub(crate) fn parse_int_literal_u32(s: &str) -> (r: Option<u32>)
    ensures
        r == int_literal_u32(s@),
        s@.len() == 0 ==> r is None,
        s@.len() > 0 && s@[0] == '-' ==> r is None,
        is_decimal(s@) ==> r == (if decimal_value(s@) <= u32::MAX {
            Some(decimal_value(s@) as u32)
        } else {
            None::<u32>
        }),
{
    match syn::parse_str::<syn::LitInt>(s) {
        Ok(lit) => lit.base10_parse::<u32>().ok(),
        Err(_) => None,
    }
}

} // verus!

verus! {

#[verifier::external_type_specification]
#[verifier::external_body]
pub struct ExItemFn(syn::ItemFn);

/// The identifier of the function item that `syn` reads from a declaration's
/// text, or `None` when the text is not one function item.
pub uninterp spec fn fn_ident_of(item: Seq<char>) -> Option<Seq<char>>;

/// Relies on `syn::parse_str::<syn::ItemFn>`: the whole text must be one
/// function item. On success the parsed item is handed back with its
/// signature's identifier as text; on failure, `syn`'s diagnostic.
#[verifier::external_body]
pub(crate) fn parse_item_fn(item: &str) -> (r: Result<(syn::ItemFn, String), String>)
    ensures
        r is Ok <==> fn_ident_of(item@) is Some,
        r is Ok ==> r->Ok_0.1@ == fn_ident_of(item@)->Some_0,
{
    match syn::parse_str::<syn::ItemFn>(item) {
        Ok(f) => {
            let name = f.sig.ident.to_string();
            Ok((f, name))
        },
        Err(e) => Err(e.to_string()),
    }
}

} // verus!
