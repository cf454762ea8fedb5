//! The switches the launcher can set: which fixes run, and under which format
//! versions a bundle is tried.
use vstd::prelude::*;
use crate::bytes::{ascii, ascii_bytes, bytes_eq};
use crate::version::{all_versions, all_versions_vec, MinecraftVersion};

verus! {

/// The fixer's settings.
pub struct Options {
    /// Whether lightmap coordinates are fixed.
    pub handle_lightmaps: bool,
    /// Whether mipmapping on legacy samplers is switched off.
    pub handle_texturelods: bool,
    /// The format versions a bundle is tried under, in this order.
    pub autofixer_versions: Vec<MinecraftVersion>,
}

impl Default for Options {
    /// Both fixes on, every known version tried, oldest first.
    fn default() -> (opts: Self)
        ensures
            opts.handle_lightmaps,
            opts.handle_texturelods,
            opts.autofixer_versions@ == all_versions(),
    {
        Options {
            handle_lightmaps: true,
            handle_texturelods: true,
            autofixer_versions: all_versions_vec(),
        }
    }
}

/// The version a launcher setting names, if it names one.
pub open spec fn version_named(name: Seq<u8>) -> Option<MinecraftVersion> {
    if name == ascii("v1.18.30") {
        Some(MinecraftVersion::V1_18_30)
    } else if name == ascii("v1.19.60") {
        Some(MinecraftVersion::V1_19_60)
    } else if name == ascii("v1.20.80") {
        Some(MinecraftVersion::V1_20_80)
    } else if name == ascii("v1.21.20") {
        Some(MinecraftVersion::V1_21_20)
    } else if name == ascii("v1.21.110+") {
        Some(MinecraftVersion::V1_21_110)
    } else {
        None
    }
}

/// Reads a version as the launcher writes it. The text is compared byte for
/// byte, as UTF-8.
pub fn version_from_string(string: &str) -> (version: Option<MinecraftVersion>)
    ensures
        version == version_named(vstd::utf8::encode_utf8(string@)),
{
    proof {
        reveal_strlit("v1.18.30");
        reveal_strlit("v1.19.60");
        reveal_strlit("v1.20.80");
        reveal_strlit("v1.21.20");
        reveal_strlit("v1.21.110+");
    }
    let name = string.as_bytes();
    if bytes_eq(name, ascii_bytes("v1.18.30")) {
        Some(MinecraftVersion::V1_18_30)
    } else if bytes_eq(name, ascii_bytes("v1.19.60")) {
        Some(MinecraftVersion::V1_19_60)
    } else if bytes_eq(name, ascii_bytes("v1.20.80")) {
        Some(MinecraftVersion::V1_20_80)
    } else if bytes_eq(name, ascii_bytes("v1.21.20")) {
        Some(MinecraftVersion::V1_21_20)
    } else if bytes_eq(name, ascii_bytes("v1.21.110+")) {
        Some(MinecraftVersion::V1_21_110)
    } else {
        None
    }
}

/// Reads a list of versions as the launcher writes them: all of them, in
/// order, or nothing where one of the names is unknown.
pub fn versions_from_strings(names: &Vec<String>) -> (versions: Option<Vec<MinecraftVersion>>)
    ensures
        match versions {
            Some(list) => {
                &&& list@.len() == names@.len()
                &&& forall|i: int|
                    0 <= i < names@.len() ==> version_named(vstd::utf8::encode_utf8((#[trigger] names@[i])@))
                        == Some(list@[i])
            },
            None => exists|i: int|
                0 <= i < names@.len() && version_named(vstd::utf8::encode_utf8((#[trigger] names@[i])@))
                    is None,
        },
{
    let mut list: Vec<MinecraftVersion> = Vec::new();
    let mut i: usize = 0;
    while i < names.len()
        invariant
            i <= names.len(),
            list@.len() == i,
            forall|k: int|
                0 <= k < i ==> version_named(vstd::utf8::encode_utf8((#[trigger] names@[k])@)) == Some(
                    list@[k],
                ),
        decreases names.len() - i,
    {
        match version_from_string(names[i].as_str()) {
            Some(version) => {
                list.push(version);
            },
            None => {
                return None;
            },
        }
        i += 1;
    }
    Some(list)
}

} // verus!
