use vstd::prelude::*;
use vstd::string::*;

verus! {

/// A Terminal shop user's region.
#[derive(Clone, Copy, Debug, Eq, PartialEq, Ord, PartialOrd, Hash)]
pub enum Region {
    Eu,
    Na,
}

/// The name of a region on the wire.
pub open spec fn region_name(region: Region) -> Seq<char> {
    match region {
        Region::Eu => "eu"@,
        Region::Na => "na"@,
    }
}

impl Region {
    /// The name of the region on the wire: `eu` or `na`.
    pub fn name(&self) -> (r: String)
        ensures
            r@ == region_name(*self),
    {
        match self {
            Region::Eu => String::from_str("eu"),
            Region::Na => String::from_str("na"),
        }
    }
}

impl Default for Region {
    fn default() -> (r: Region)
        ensures
            r == Region::Eu,
    {
        Region::Eu
    }
}

} // verus!
