//! The attribute argument `id = <int>`.
//!
//! Grammar: optional spaces, an identifier that must be `id`, optional
//! spaces, `=`, then one integer literal (surrounding spaces ignored) whose
//! value fits in an unsigned 32-bit integer.

use vstd::prelude::*;
use vstd::string::StrSliceExecFns;

use crate::outside::{decimal_value, int_literal_u32, is_decimal, parse_int_literal_u32};

verus! {

/// Why an attribute argument was refused.
#[derive(Debug, Clone, Copy, PartialEq, Eq, Structural)]
pub enum ArgsError {
    /// Nothing but spaces was given.
    Missing,
    /// The argument is not named `id`.
    WrongName,
    /// The name is not followed by `=`.
    MissingEquals,
    /// The value is not an integer literal that fits in 32 unsigned bits.
    InvalidValue,
}

impl ArgsError {
    /// The diagnostic shown for every refused argument.
    pub fn message(&self) -> (r: String)
        ensures
            r@ == "expected syntax: id = <int>"@,
    {
        String::from_str("expected syntax: id = <int>")
    }
}

/// The validated attribute argument.
#[derive(Debug, Clone, Copy, PartialEq, Eq, Structural)]
pub struct SysCallArgs {
    pub id: u32,
}

pub open spec fn is_space(c: char) -> bool {
    c == ' ' || c == '\t' || c == '\n' || c == '\r'
}

pub open spec fn is_ident_char(c: char) -> bool {
    ('a' <= c <= 'z') || ('A' <= c <= 'Z') || ('0' <= c <= '9') || c == '_'
}

/// The first position at or after `i` that does not hold a space.
pub open spec fn skip_spaces(s: Seq<char>, i: int) -> int
    decreases s.len() - i,
{
    if 0 <= i < s.len() && is_space(s[i]) {
        skip_spaces(s, i + 1)
    } else {
        i
    }
}

/// The first position at or after `i` that does not hold an identifier character.
pub open spec fn skip_ident(s: Seq<char>, i: int) -> int
    decreases s.len() - i,
{
    if 0 <= i < s.len() && is_ident_char(s[i]) {
        skip_ident(s, i + 1)
    } else {
        i
    }
}

/// The end of `s[lo..hi]` once trailing spaces are dropped.
pub open spec fn trim_end(s: Seq<char>, lo: int, hi: int) -> int
    decreases hi - lo,
{
    if lo < hi && is_space(s[hi - 1]) {
        trim_end(s, lo, hi - 1)
    } else {
        hi
    }
}

/// The outcome of reading attribute text `s`.
pub open spec fn args_of(s: Seq<char>) -> Result<u32, ArgsError> {
    let a = skip_spaces(s, 0);
    let b = skip_ident(s, a);
    let c = skip_spaces(s, b);
    if a == s.len() {
        Err(ArgsError::Missing)
    } else if s.subrange(a, b) != seq!['i', 'd'] {
        Err(ArgsError::WrongName)
    } else if c == s.len() || s[c] != '=' {
        Err(ArgsError::MissingEquals)
    } else {
        let d = skip_spaces(s, c + 1);
        let e = trim_end(s, d, s.len() as int);
        match int_literal_u32(s.subrange(d, e)) {
            Some(v) => Ok(v),
            None => Err(ArgsError::InvalidValue),
        }
    }
}

/// The canonical spelling `id = ` that precedes a literal.
pub open spec fn id_prefix() -> Seq<char> {
    seq!['i', 'd', ' ', '=', ' ']
}

fn is_space_char(c: char) -> (r: bool)
    ensures
        r == is_space(c),
{
    c == ' ' || c == '\t' || c == '\n' || c == '\r'
}

fn is_ident_char_exec(c: char) -> (r: bool)
    ensures
        r == is_ident_char(c),
{
    ('a' <= c && c <= 'z') || ('A' <= c && c <= 'Z') || ('0' <= c && c <= '9') || c == '_'
}

fn skip_spaces_from(s: &str, n: usize, i: usize) -> (r: usize)
    requires
        n == s@.len(),
        i <= n,
    ensures
        r == skip_spaces(s@, i as int),
        i <= r <= n,
{
    let mut j: usize = i;
    while j < n && is_space_char(s.get_char(j))
        invariant
            i <= j <= n,
            n == s@.len(),
            skip_spaces(s@, j as int) == skip_spaces(s@, i as int),
        decreases n - j,
    {
        j = j + 1;
    }
    j
}

fn skip_ident_from(s: &str, n: usize, i: usize) -> (r: usize)
    requires
        n == s@.len(),
        i <= n,
    ensures
        r == skip_ident(s@, i as int),
        i <= r <= n,
{
    let mut j: usize = i;
    while j < n && is_ident_char_exec(s.get_char(j))
        invariant
            i <= j <= n,
            n == s@.len(),
            skip_ident(s@, j as int) == skip_ident(s@, i as int),
        decreases n - j,
    {
        j = j + 1;
    }
    j
}

fn trim_end_from(s: &str, lo: usize, hi: usize) -> (r: usize)
    requires
        lo <= hi <= s@.len(),
    ensures
        r == trim_end(s@, lo as int, hi as int),
        lo <= r <= hi,
{
    let mut j: usize = hi;
    while lo < j && is_space_char(s.get_char(j - 1))
        invariant
            lo <= j <= hi <= s@.len(),
            trim_end(s@, lo as int, j as int) == trim_end(s@, lo as int, hi as int),
        decreases j,
    {
        j = j - 1;
    }
    j
}

proof fn lemma_decimal_no_trailing_space(s: Seq<char>, lo: int)
    requires
        0 <= lo < s.len(),
        is_decimal(s.subrange(lo, s.len() as int)),
    ensures
        trim_end(s, lo, s.len() as int) == s.len(),
{
    assert(s.subrange(lo, s.len() as int)[s.len() - 1 - lo] == s[s.len() - 1]);
}

proof fn lemma_canonical_positions(s: Seq<char>, lit: Seq<char>)
    requires
        s == id_prefix() + lit,
        is_decimal(lit),
    ensures
        skip_spaces(s, 0) == 0,
        skip_ident(s, 0) == 2,
        skip_spaces(s, 2) == 3,
        s[3] == '=',
        skip_spaces(s, 4) == 5,
        s.subrange(0, 2) == seq!['i', 'd'],
        s.subrange(5, s.len() as int) == lit,
        trim_end(s, 5, s.len() as int) == s.len(),
{
    assert(s[0] == 'i' && s[1] == 'd' && s[2] == ' ' && s[3] == '=' && s[4] == ' ');
    assert(s[5] == lit[0]);
    assert(skip_ident(s, 2) == 2);
    assert(skip_ident(s, 1) == 2);
    assert(skip_spaces(s, 3) == 3);
    assert(skip_spaces(s, 5) == 5);
    assert(s.subrange(0, 2) =~= seq!['i', 'd']);
    assert(s.subrange(5, s.len() as int) =~= lit);
    lemma_decimal_no_trailing_space(s, 5);
}

impl SysCallArgs {
    /// Reads the attribute text of `#[merlin_syscall(...)]`.
    ///
    /// For `id = <digits>` the value is the number the digits write, or
    /// `InvalidValue` when it does not fit in 32 bits.
    pub fn parse(attr: &str) -> (r: Result<SysCallArgs, ArgsError>)
        ensures
            match args_of(attr@) {
                Ok(v) => r == Ok::<SysCallArgs, ArgsError>(SysCallArgs { id: v }),
                Err(e) => r == Err::<SysCallArgs, ArgsError>(e),
            },
            forall|lit: Seq<char>|
                attr@ == id_prefix() + lit && #[trigger] is_decimal(lit) ==> (if decimal_value(lit) <= u32::MAX {
                    r == Ok::<SysCallArgs, ArgsError>(SysCallArgs { id: decimal_value(lit) as u32 })
                } else {
                    r == Err::<SysCallArgs, ArgsError>(ArgsError::InvalidValue)
                }),
    {
        proof {
            assert forall|lit: Seq<char>|
                attr@ == id_prefix() + lit && #[trigger] is_decimal(lit) implies {
                &&& skip_spaces(attr@, 0) == 0
                &&& skip_ident(attr@, 0) == 2
                &&& skip_spaces(attr@, 2) == 3
                &&& attr@[3] == '='
                &&& attr@.len() > 5
            } by {
                lemma_canonical_positions(attr@, lit);
            }
        }
        let n = attr.unicode_len();
        let a = skip_spaces_from(attr, n, 0);
        if a == n {
            return Err(ArgsError::Missing);
        }
        let b = skip_ident_from(attr, n, a);
        if !(b - a == 2 && attr.get_char(a) == 'i' && attr.get_char(a + 1) == 'd') {
            proof {
                let name = attr@.subrange(a as int, b as int);
                assert(name.len() == b - a);
                if name == seq!['i', 'd'] {
                    assert(name.len() == 2);
                    assert(name[0] == 'i' && name[1] == 'd');
                }
            }
            return Err(ArgsError::WrongName);
        }
        assert(attr@.subrange(a as int, b as int) =~= seq!['i', 'd']);
        let c = skip_spaces_from(attr, n, b);
        if c == n || attr.get_char(c) != '=' {
            return Err(ArgsError::MissingEquals);
        }
        let d = skip_spaces_from(attr, n, c + 1);
        let e = trim_end_from(attr, d, n);
        let value = attr.substring_char(d, e);
        let parsed = parse_int_literal_u32(value);
        let r = match parsed {
            Some(v) => Ok(SysCallArgs { id: v }),
            None => Err(ArgsError::InvalidValue),
        };
        proof {
            assert forall|lit: Seq<char>|
                attr@ == id_prefix() + lit && #[trigger] is_decimal(lit) implies (if decimal_value(lit) <= u32::MAX {
                    r == Ok::<SysCallArgs, ArgsError>(SysCallArgs { id: decimal_value(lit) as u32 })
                } else {
                    r == Err::<SysCallArgs, ArgsError>(ArgsError::InvalidValue)
                }) by {
                lemma_canonical_positions(attr@, lit);
                assert(value@ == lit);
            }
        }
        r
    }
}

} // verus!
