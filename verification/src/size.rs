//! Size tokens: a decimal magnitude followed by a two-character unit suffix,
//! and the byte count such a token stands for.

use crate::decimal::{parse_decimal, spec_parse_decimal};
use crate::text::{chars, spec_trim, trim};
use crate::unit::{resolve_unit_chars, spec_resolve_unit, UnitTag};
use vstd::prelude::*;
use vstd::slice::slice_subrange;

verus! {

/// A parsed size token: so many of a unit.
#[derive(Clone, Copy, Debug, PartialEq, Eq, Structural)]
pub struct SizeInput {
    pub magnitude: u64,
    pub unit: UnitTag,
}

/// The failure of `parse`: the token holds no magnitude that can be read.
#[derive(Clone, Copy, Debug, PartialEq, Eq, Structural)]
pub struct ParseError;

impl SizeInput {
    /// The size in bytes as a mathematical integer: the magnitude times the
    /// unit's scale factor.
    pub open spec fn exact_bytes(self) -> nat {
        self.magnitude as nat * self.unit.spec_scale()
    }
}

/// The meaning of a size token. Its last two characters are the unit suffix;
/// what stands before them, with surrounding white space removed, is the
/// magnitude, an unsigned 64-bit decimal numeral. A token of fewer than two
/// characters, or one whose magnitude is no such numeral, has no meaning.
pub open spec fn spec_parse(token: Seq<char>) -> Result<SizeInput, ParseError> {
    if token.len() < 2 {
        Err(ParseError)
    } else {
        let split = token.len() - 2;
        match spec_parse_decimal(spec_trim(token.take(split))) {
            Some(magnitude) => Ok(
                SizeInput { magnitude, unit: spec_resolve_unit(token.skip(split)) },
            ),
            None => Err(ParseError),
        }
    }
}

/// The byte count of `input` in unsigned 64-bit arithmetic: the exact count
/// modulo 2^64.
pub open spec fn spec_to_bytes(input: SizeInput) -> u64 {
    (input.exact_bytes() % 0x1_0000_0000_0000_0000) as u64
}

/// Parses a size token such as `10kb`.
pub fn parse(token: &str) -> (result: Result<SizeInput, ParseError>)
    ensures
        result == spec_parse(token@),
{
    let cs = chars(token);
    if cs.len() < 2 {
        return Err(ParseError);
    }
    let split: usize = cs.len() - 2;
    let numeric = slice_subrange(cs.as_slice(), 0, split);
    let suffix = slice_subrange(cs.as_slice(), split, cs.len());
    proof {
        assert(numeric@ =~= token@.take(split as int));
        assert(suffix@ =~= token@.skip(split as int));
    }
    match parse_decimal(trim(numeric)) {
        Some(magnitude) => Ok(SizeInput { magnitude, unit: resolve_unit_chars(suffix) }),
        None => Err(ParseError),
    }
}

/// The byte count of `input`, wrapping around on overflow.
pub fn to_bytes(input: SizeInput) -> (bytes: u64)
    ensures
        bytes == spec_to_bytes(input),
        input.exact_bytes() <= u64::MAX ==> bytes == input.exact_bytes(),
{
    input.magnitude.wrapping_mul(input.unit.scale())
}

} // verus!
