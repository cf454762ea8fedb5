//! The versions of the compiled-material format, and what is known of the
//! host's renderer once it has been detected.
use vstd::prelude::*;

verus! {

/// A version of the compiled-material format, named after the game release
/// that introduced it.
#[derive(Clone, Copy, Debug, PartialEq, Eq, Structural)]
pub enum MinecraftVersion {
    V1_18_30,
    V1_19_60,
    V1_20_80,
    V1_21_20,
    V1_21_110,
}

impl MinecraftVersion {
    /// Position in release order, oldest first.
    pub open spec fn rank(self) -> int {
        match self {
            MinecraftVersion::V1_18_30 => 0,
            MinecraftVersion::V1_19_60 => 1,
            MinecraftVersion::V1_20_80 => 2,
            MinecraftVersion::V1_21_20 => 3,
            MinecraftVersion::V1_21_110 => 4,
        }
    }

    /// Position in release order, oldest first.
    pub fn index(self) -> (i: usize)
        ensures
            i == self.rank(),
    {
        match self {
            MinecraftVersion::V1_18_30 => 0,
            MinecraftVersion::V1_19_60 => 1,
            MinecraftVersion::V1_20_80 => 2,
            MinecraftVersion::V1_21_20 => 3,
            MinecraftVersion::V1_21_110 => 4,
        }
    }

    /// Whether `self` is `other` or a later version.
    pub fn at_least(self, other: MinecraftVersion) -> (yes: bool)
        ensures
            yes == (self.rank() >= other.rank()),
    {
        self.index() >= other.index()
    }

    /// Whether `self` is `other` or an earlier version.
    pub fn at_most(self, other: MinecraftVersion) -> (yes: bool)
        ensures
            yes == (self.rank() <= other.rank()),
    {
        self.index() <= other.index()
    }
}

/// Every known version, oldest first.
pub open spec fn all_versions() -> Seq<MinecraftVersion> {
    seq![
        MinecraftVersion::V1_18_30,
        MinecraftVersion::V1_19_60,
        MinecraftVersion::V1_20_80,
        MinecraftVersion::V1_21_20,
        MinecraftVersion::V1_21_110,
    ]
}

/// Every known version, oldest first.
pub fn all_versions_vec() -> (all: Vec<MinecraftVersion>)
    ensures
        all@ == all_versions(),
{
    let all = vec![
        MinecraftVersion::V1_18_30,
        MinecraftVersion::V1_19_60,
        MinecraftVersion::V1_20_80,
        MinecraftVersion::V1_21_20,
        MinecraftVersion::V1_21_110,
    ];
    assert(all@ =~= all_versions());
    all
}

/// What detection found out about the host's renderer.
#[derive(Clone, Copy, Debug, PartialEq, Eq, Structural)]
pub struct HostVersionState {
    /// The newest format version the host's own shader bundle parses under.
    pub version: MinecraftVersion,
    /// The host is release 1.21.100 or later.
    pub is_1_21_100: bool,
    /// The host is release 1.21.130 or later and packs lightmap coordinates.
    pub is_1_21_130: bool,
}

} // verus!
