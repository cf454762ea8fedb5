//! Plain-value stand-ins for the two host-side strings the loader deals with:
//! the descriptor of a resource path and the buffer a loaded file arrives in.
use vstd::prelude::*;

verus! {

/// Descriptor of a path inside the active resource packs, as it is handed
/// to the load function.
pub struct ResourceLocation {
    pub path: Vec<u8>,
}

impl ResourceLocation {
    /// A descriptor with an empty path.
    pub fn new() -> (loc: Self)
        ensures
            loc.path@ == Seq::<u8>::empty(),
    {
        ResourceLocation { path: Vec::new() }
    }

    /// The path held by the descriptor.
    pub fn get_path(&self) -> (path: &[u8])
        ensures
            path@ == self.path@,
    {
        self.path.as_slice()
    }
}

/// Byte storage that the host's loader fills with a file's content.
pub struct StackString {
    space: Vec<u8>,
}

impl View for StackString {
    type V = Seq<u8>;

    closed spec fn view(&self) -> Seq<u8> {
        self.space@
    }
}

impl StackString {
    /// Empty storage.
    pub fn new() -> (s: Self)
        ensures
            s@ == Seq::<u8>::empty(),
    {
        StackString { space: Vec::new() }
    }

    /// Replaces what the storage holds with a copy of `value`.
    pub fn init(&mut self, value: &[u8])
        ensures
            final(self)@ == value@,
    {
        self.space = vstd::slice::slice_to_vec(value);
    }

    /// The bytes held.
    pub fn as_ref(&self) -> (bytes: &[u8])
        ensures
            bytes@ == self@,
    {
        self.space.as_slice()
    }
}

} // verus!
