//! Size units, their decimal scale factors, and the suffixes that name them.

use crate::text::chars;
use vstd::prelude::*;

verus! {

/// The unit in which a size is expressed.
#[derive(Clone, Copy, Debug, PartialEq, Eq, Structural)]
pub enum UnitTag {
    Bytes,
    Kilobytes,
    Megabytes,
    Gigabytes,
}

impl UnitTag {
    /// The number of bytes in one of this unit.
    pub open spec fn spec_scale(self) -> nat {
        match self {
            UnitTag::Bytes => 1,
            UnitTag::Kilobytes => 1_000,
            UnitTag::Megabytes => 1_000_000,
            UnitTag::Gigabytes => 1_000_000_000,
        }
    }

    /// The number of bytes in one of this unit.
    pub fn scale(self) -> (factor: u64)
        ensures
            factor == self.spec_scale(),
    {
        match self {
            UnitTag::Bytes => 1,
            UnitTag::Kilobytes => 1_000,
            UnitTag::Megabytes => 1_000_000,
            UnitTag::Gigabytes => 1_000_000_000,
        }
    }
}

/// The unit that `suffix` names: `kb`, `mb` and `gb`, in lower case exactly,
/// name kilobytes, megabytes and gigabytes; every other suffix means bytes.
pub open spec fn spec_resolve_unit(suffix: Seq<char>) -> UnitTag {
    if suffix =~= seq!['k', 'b'] {
        UnitTag::Kilobytes
    } else if suffix =~= seq!['m', 'b'] {
        UnitTag::Megabytes
    } else if suffix =~= seq!['g', 'b'] {
        UnitTag::Gigabytes
    } else {
        UnitTag::Bytes
    }
}

/// The unit that the characters `suffix` name.
pub fn resolve_unit_chars(suffix: &[char]) -> (unit: UnitTag)
    ensures
        unit == spec_resolve_unit(suffix@),
{
    if suffix.len() != 2 || suffix[1] != 'b' {
        UnitTag::Bytes
    } else if suffix[0] == 'k' {
        UnitTag::Kilobytes
    } else if suffix[0] == 'm' {
        UnitTag::Megabytes
    } else if suffix[0] == 'g' {
        UnitTag::Gigabytes
    } else {
        UnitTag::Bytes
    }
}

/// The unit that `suffix` names.
pub fn resolve_unit(suffix: &str) -> (unit: UnitTag)
    ensures
        unit == spec_resolve_unit(suffix@),
{
    let cs = chars(suffix);
    resolve_unit_chars(cs.as_slice())
}

} // verus!
