//! Core of a resource-pack loader that is injected into a running game
//! process: signature scanning, function interception, import-table patching,
//! a virtual asset layer and a rewriter for compiled shader bundles.
//!
//! Everything here works on plain values. Raw memory, the host's asset API
//! and the game's own objects stay with the embedding program, which feeds
//! this crate bytes and addresses and carries out what it decides.
pub mod bytes;
pub mod paths;
pub mod cpp_string;
pub mod loader;
pub mod version;
pub mod jniopts;
pub mod material;
pub mod autofixer;
pub mod aasset;
pub mod hooking;
pub mod scanner;
pub mod maps;
pub mod plthook;
pub mod capability;
