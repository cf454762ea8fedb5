//! The substitute for the host's asset API. Handles that were opened on a
//! replaced path are served from memory; every other handle is passed on to
//! the host's own implementation, unchanged.
use std::collections::HashMap;
use vstd::prelude::*;
use crate::paths::same_path;
use crate::loader::{
    cache_holds,
    is_material_path,
    pack_resource,
    seek_in_range,
    seek_target,
    Buffer,
    BufferView,
    FileLoader,
    FileRequest,
    LoadRequest,
    SeekFrom,
};

verus! {

/// `whence`: the offset counts from the first byte.
pub const SEEK_SET: i32 = 0;

/// `whence`: the offset counts from the current position.
pub const SEEK_CUR: i32 = 1;

/// `whence`: the offset counts from one past the last byte.
pub const SEEK_END: i32 = 2;

/// What the mimicked API returns on failure.
pub const FAILURE: i32 = -1;

/// The answer to a call on a handle.
pub enum Served<T> {
    /// The handle is intercepted; this is the call's result.
    Virtual(T),
    /// The handle is not intercepted: the call goes to the host's own
    /// implementation.
    Passthrough,
}

/// The seek that an offset and a `whence` ask for, if they ask for one.
pub open spec fn seek_request(offset: i64, whence: i32) -> Option<SeekFrom> {
    if whence == SEEK_SET {
        if offset >= 0 {
            Some(SeekFrom::Start(offset as u64))
        } else {
            None
        }
    } else if whence == SEEK_CUR {
        Some(SeekFrom::Current(offset))
    } else if whence == SEEK_END {
        Some(SeekFrom::End(offset))
    } else {
        None
    }
}

/// Whether a seek is carried out: the request is sound and its target lies
/// inside the content or just past its end.
pub open spec fn seek_accepted(buffer: BufferView, offset: i64, whence: i32) -> bool {
    match seek_request(offset, whence) {
        Some(pos) => seek_in_range(buffer.content.len() as int, buffer.pos, pos),
        None => false,
    }
}

/// The buffer after a seek: at the target where the seek is carried out,
/// else as it was.
pub open spec fn sought(buffer: BufferView, offset: i64, whence: i32) -> BufferView {
    if seek_accepted(buffer, offset, whence) {
        buffer.at(seek_target(buffer.content.len() as int, buffer.pos, seek_request(offset, whence).unwrap()))
    } else {
        buffer
    }
}

/// What a seek returns: the new position, or -1 where the seek is not
/// carried out or the position does not fit the result.
pub open spec fn seek_answer(buffer: BufferView, offset: i64, whence: i32) -> int {
    if seek_accepted(buffer, offset, whence) {
        as_off64(sought(buffer, offset, whence).pos)
    } else {
        -1
    }
}

/// `value` as a 32-bit result of the mimicked API: -1 where it does not fit.
pub open spec fn as_off32(value: int) -> int {
    if i32::MIN <= value <= i32::MAX {
        value
    } else {
        -1
    }
}

/// `value` as a 64-bit result of the mimicked API: -1 where it does not fit.
pub open spec fn as_off64(value: int) -> int {
    if i64::MIN <= value <= i64::MAX {
        value
    } else {
        -1
    }
}

fn narrow(value: i64) -> (out: i32)
    ensures
        out == as_off32(value as int),
{
    if value < -0x8000_0000i64 || value > 0x7fff_ffffi64 {
        FAILURE
    } else {
        value as i32
    }
}

fn off64_of(value: usize) -> (out: i64)
    ensures
        out == as_off64(value as int),
{
    if value as u64 > 0x7fff_ffff_ffff_ffffu64 {
        -1
    } else {
        value as i64
    }
}

fn off32_of(value: usize) -> (out: i32)
    ensures
        out == as_off32(value as int),
{
    if value as u64 > 0x7fff_ffffu64 {
        FAILURE
    } else {
        value as i32
    }
}

/// Moves the cursor of `file` as the asset API's seek does and gives the
/// API's answer.
pub fn seek_facade(offset: i64, whence: i32, file: &mut Buffer) -> (answer: i64)
    ensures
        old(file).wf() ==> final(file).wf(),
        final(file)@ == sought(old(file)@, offset, whence),
        answer == seek_answer(old(file)@, offset, whence),
{
    let pos = if whence == SEEK_SET {
        if offset < 0 {
            return -1;
        }
        SeekFrom::Start(offset as u64)
    } else if whence == SEEK_CUR {
        SeekFrom::Current(offset)
    } else if whence == SEEK_END {
        SeekFrom::End(offset)
    } else {
        return -1;
    };
    match file.object.seek(pos) {
        Ok(new_offset) => {
            if new_offset > 0x7fff_ffff_ffff_ffffu64 {
                -1
            } else {
                new_offset as i64
            }
        },
        Err(_) => -1,
    }
}

/// The intercepted handles with their content, and the reuse cache.
pub struct AssetLayer {
    pub loader: FileLoader,
    pub wanted: HashMap<u64, Buffer>,
}

/// An `AssetLayer` as plain values.
pub struct LayerView {
    /// What the reuse cache holds.
    pub cache: Option<BufferView>,
    /// The intercepted handles, each with its content.
    pub handles: Map<u64, BufferView>,
}

impl View for AssetLayer {
    type V = LayerView;

    open spec fn view(&self) -> LayerView {
        LayerView { cache: self.loader@, handles: self.wanted@.map_values(|b: Buffer| b@) }
    }
}

/// What an open came to.
pub enum Opened {
    /// The handle is intercepted and served from the reuse cache.
    Cached,
    /// The path is one to replace: fetch the resource, and register what
    /// comes of it with `intercept`.
    Load(LoadRequest),
    /// The handle is not intercepted.
    Passthrough,
}

/// An `Opened` as plain values.
pub enum OpenedView {
    Cached,
    Load { name: Seq<u8>, resource: Seq<u8>, material: bool },
    Passthrough,
}

impl View for Opened {
    type V = OpenedView;

    open spec fn view(&self) -> OpenedView {
        match self {
            Opened::Cached => OpenedView::Cached,
            Opened::Load(load) => OpenedView::Load {
                name: load.name@,
                resource: load.resource.path@,
                material: load.material,
            },
            Opened::Passthrough => OpenedView::Passthrough,
        }
    }
}

impl LayerView {
    /// Every buffer held is well formed.
    pub open spec fn wf(self) -> bool {
        &&& self.cache is Some ==> self.cache.unwrap().wf()
        &&& forall|handle: u64| #[trigger]
            self.handles.contains_key(handle) ==> self.handles[handle].wf()
    }

    /// Whether `handle` is served from memory.
    pub open spec fn intercepted(self, handle: u64) -> bool {
        self.handles.contains_key(handle)
    }

    /// What an open of `path` comes to.
    pub open spec fn open_answer(self, path: Seq<u8>) -> OpenedView {
        if cache_holds(self.cache, path) {
            OpenedView::Cached
        } else if pack_resource(path) is Some {
            OpenedView::Load {
                name: path,
                resource: pack_resource(path).unwrap(),
                material: is_material_path(path),
            }
        } else {
            OpenedView::Passthrough
        }
    }

    /// The layer after an open of `path` that the host answered with
    /// `handle`: the cache is empty, and where it held the path its content,
    /// rewound, is now behind the handle.
    pub open spec fn opened(self, handle: u64, path: Seq<u8>) -> LayerView {
        LayerView {
            cache: None,
            handles: if cache_holds(self.cache, path) {
                self.handles.insert(handle, self.cache.unwrap().at(0))
            } else {
                self.handles
            },
        }
    }

    /// The layer with `buffer` behind `handle`.
    pub open spec fn attached(self, handle: u64, buffer: BufferView) -> LayerView {
        LayerView { cache: self.cache, handles: self.handles.insert(handle, buffer) }
    }

    /// The layer after `handle` was closed: the content of an intercepted
    /// handle is what the cache now holds.
    pub open spec fn closed(self, handle: u64) -> LayerView {
        if self.intercepted(handle) {
            LayerView { cache: Some(self.handles[handle]), handles: self.handles.remove(handle) }
        } else {
            self
        }
    }

    /// The layer after a seek on `handle`.
    pub open spec fn sought(self, handle: u64, offset: i64, whence: i32) -> LayerView {
        if self.intercepted(handle) {
            self.attached(handle, sought(self.handles[handle], offset, whence))
        } else {
            self
        }
    }

    /// The layer after a read of `count` bytes on `handle`.
    pub open spec fn after_read(self, handle: u64, count: int) -> LayerView {
        if self.intercepted(handle) {
            self.attached(handle, self.handles[handle].after_read(count))
        } else {
            self
        }
    }
}

impl AssetLayer {
    /// Every buffer held is well formed.
    pub open spec fn wf(&self) -> bool {
        self@.wf()
    }

    /// A layer without handles and with an empty cache.
    pub fn new() -> (layer: Self)
        ensures
            layer@ == (LayerView { cache: None, handles: Map::empty() }),
    {
        let layer = AssetLayer { loader: FileLoader::new(), wanted: HashMap::new() };
        assert(layer@.handles =~= Map::<u64, BufferView>::empty());
        layer
    }

    fn take(&mut self, handle: u64) -> (file: Option<Buffer>)
        ensures
            final(self).loader == old(self).loader,
            final(self).wanted@ == old(self).wanted@.remove(handle),
            match file {
                Some(buffer) => old(self)@.intercepted(handle) && buffer@ == old(self)@.handles[handle],
                None => !old(self)@.intercepted(handle) && final(self)@ == old(self)@,
            },
    {
        let file = self.wanted.remove(&handle);
        proof {
            if file is None {
                assert(self.wanted@ =~= old(self).wanted@);
            }
        }
        file
    }

    fn put(&mut self, handle: u64, file: Buffer)
        ensures
            final(self).loader == old(self).loader,
            final(self).wanted@ == old(self).wanted@.insert(handle, file),
            final(self)@.handles == old(self)@.handles.insert(handle, file@),
    {
        self.wanted.insert(handle, file);
        assert(self@.handles =~= old(self)@.handles.insert(handle, file@));
    }

    fn peek(&self, handle: u64) -> (file: Option<&Buffer>)
        ensures
            match file {
                Some(buffer) => self@.intercepted(handle) && buffer@ == self@.handles[handle],
                None => !self@.intercepted(handle),
            },
    {
        self.wanted.get(&handle)
    }
}

/// Takes note of an open of `fname` that the host answered with `aasset`.
///
/// Content still in the reuse cache is attached to the handle at once. Where
/// a replacement rule applies the caller is asked to load the resource. In
/// every case the cache is empty afterwards. Paths are compared component by
/// component, see `FileLoader::get_file`.
pub fn open(layer: &mut AssetLayer, aasset: u64, fname: &[u8]) -> (opened: Opened)
    ensures
        old(layer).wf() ==> final(layer).wf(),
        final(layer)@ == old(layer)@.opened(aasset, fname@),
        opened@ == old(layer)@.open_answer(fname@),
{
    match layer.loader.get_file(fname) {
        FileRequest::Cached(buffer) => {
            layer.put(aasset, buffer);
            Opened::Cached
        },
        FileRequest::Load(load) => Opened::Load(load),
        FileRequest::Passthrough => Opened::Passthrough,
    }
}

/// Attaches loaded content to the handle `aasset`, which is intercepted from
/// now on. Content already attached to the handle is replaced.
pub fn intercept(layer: &mut AssetLayer, aasset: u64, buffer: Buffer)
    ensures
        old(layer).wf() && buffer.wf() ==> final(layer).wf(),
        final(layer)@ == old(layer)@.attached(aasset, buffer@),
{
    layer.put(aasset, buffer);
}

/// Seeks with a 64-bit offset.
pub fn seek64(layer: &mut AssetLayer, aasset: u64, off: i64, whence: i32) -> (served: Served<i64>)
    ensures
        old(layer).wf() ==> final(layer).wf(),
        final(layer)@ == old(layer)@.sought(aasset, off, whence),
        match served {
            Served::Virtual(answer) => old(layer)@.intercepted(aasset) && answer == seek_answer(
                old(layer)@.handles[aasset],
                off,
                whence,
            ),
            Served::Passthrough => !old(layer)@.intercepted(aasset),
        },
{
    let mut file = match layer.take(aasset) {
        Some(file) => file,
        None => {
            return Served::Passthrough;
        },
    };
    let answer = seek_facade(off, whence, &mut file);
    layer.put(aasset, file);
    assert(layer@.handles =~= old(layer)@.sought(aasset, off, whence).handles);
    Served::Virtual(answer)
}

/// Seeks with a 32-bit offset. The position moves as for `seek64`; a new
/// position that does not fit 32 bits is answered with -1.
pub fn seek(layer: &mut AssetLayer, aasset: u64, off: i32, whence: i32) -> (served: Served<i32>)
    ensures
        old(layer).wf() ==> final(layer).wf(),
        final(layer)@ == old(layer)@.sought(aasset, off as i64, whence),
        match served {
            Served::Virtual(answer) => old(layer)@.intercepted(aasset) && answer == as_off32(
                seek_answer(old(layer)@.handles[aasset], off as i64, whence),
            ),
            Served::Passthrough => !old(layer)@.intercepted(aasset),
        },
{
    match seek64(layer, aasset, off as i64, whence) {
        Served::Virtual(answer) => Served::Virtual(narrow(answer)),
        Served::Passthrough => Served::Passthrough,
    }
}

/// What a read hands back.
pub struct ReadOutcome {
    /// The bytes to copy into the caller's buffer.
    pub data: Vec<u8>,
    /// The call's result: the number of bytes, or -1 where that number does
    /// not fit the result.
    pub count: i32,
}

/// Reads up to `count` bytes from the position on and moves the position
/// past them.
pub fn read(layer: &mut AssetLayer, aasset: u64, count: usize) -> (served: Served<ReadOutcome>)
    ensures
        old(layer).wf() ==> final(layer).wf(),
        final(layer)@ == old(layer)@.after_read(aasset, count as int),
        match served {
            Served::Virtual(outcome) => {
                &&& old(layer)@.intercepted(aasset)
                &&& outcome.data@ == old(layer)@.handles[aasset].read_bytes(count as int)
                &&& outcome.count == as_off32(outcome.data@.len() as int)
            },
            Served::Passthrough => !old(layer)@.intercepted(aasset),
        },
{
    let mut file = match layer.take(aasset) {
        Some(file) => file,
        None => {
            return Served::Passthrough;
        },
    };
    let data = file.object.read(count);
    layer.put(aasset, file);
    assert(layer@.handles =~= old(layer)@.after_read(aasset, count as int).handles);
    let count = off32_of(data.len());
    Served::Virtual(ReadOutcome { data, count })
}

/// The content's length, as a 32-bit result.
pub fn len(layer: &AssetLayer, aasset: u64) -> (served: Served<i32>)
    ensures
        match served {
            Served::Virtual(length) => layer@.intercepted(aasset) && length == as_off32(
                layer@.handles[aasset].content.len() as int,
            ),
            Served::Passthrough => !layer@.intercepted(aasset),
        },
{
    match layer.peek(aasset) {
        Some(file) => Served::Virtual(off32_of(file.get_ref().len())),
        None => Served::Passthrough,
    }
}

/// The content's length, as a 64-bit result.
pub fn len64(layer: &AssetLayer, aasset: u64) -> (served: Served<i64>)
    ensures
        match served {
            Served::Virtual(length) => layer@.intercepted(aasset) && length == as_off64(
                layer@.handles[aasset].content.len() as int,
            ),
            Served::Passthrough => !layer@.intercepted(aasset),
        },
{
    match layer.peek(aasset) {
        Some(file) => Served::Virtual(off64_of(file.get_ref().len())),
        None => Served::Passthrough,
    }
}

fn left_in(file: &Buffer) -> (left: usize)
    ensures
        left == file@.remaining(),
{
    let len = file.get_ref().len();
    if file.position() >= len as u64 {
        0
    } else {
        len - file.position() as usize
    }
}

/// How many bytes are left from the position on, as a 32-bit result.
pub fn rem(layer: &AssetLayer, aasset: u64) -> (served: Served<i32>)
    ensures
        match served {
            Served::Virtual(left) => layer@.intercepted(aasset) && left == as_off32(
                layer@.handles[aasset].remaining(),
            ),
            Served::Passthrough => !layer@.intercepted(aasset),
        },
{
    match layer.peek(aasset) {
        Some(file) => Served::Virtual(off32_of(left_in(file))),
        None => Served::Passthrough,
    }
}

/// How many bytes are left from the position on, as a 64-bit result.
pub fn rem64(layer: &AssetLayer, aasset: u64) -> (served: Served<i64>)
    ensures
        match served {
            Served::Virtual(left) => layer@.intercepted(aasset) && left == as_off64(
                layer@.handles[aasset].remaining(),
            ),
            Served::Passthrough => !layer@.intercepted(aasset),
        },
{
    match layer.peek(aasset) {
        Some(file) => Served::Virtual(off64_of(left_in(file))),
        None => Served::Passthrough,
    }
}

/// Closes a handle. The content of an intercepted handle moves into the
/// reuse cache, in place of what the cache held; the handle is intercepted
/// no longer.
pub fn close(layer: &mut AssetLayer, aasset: u64) -> (served: Served<()>)
    ensures
        old(layer).wf() ==> final(layer).wf(),
        final(layer)@ == old(layer)@.closed(aasset),
        served is Virtual == old(layer)@.intercepted(aasset),
{
    match layer.take(aasset) {
        Some(buffer) => {
            layer.loader.last_buffer = Some(buffer);
            assert(layer@.handles =~= old(layer)@.handles.remove(aasset));
            Served::Virtual(())
        },
        None => Served::Passthrough,
    }
}

/// The whole content of an intercepted handle, which lies in memory as one
/// piece.
pub fn get_buffer(layer: &AssetLayer, aasset: u64) -> (served: Served<&[u8]>)
    ensures
        match served {
            Served::Virtual(bytes) => layer@.intercepted(aasset) && bytes@
                == layer@.handles[aasset].content,
            Served::Passthrough => !layer@.intercepted(aasset),
        },
{
    match layer.peek(aasset) {
        Some(file) => Served::Virtual(file.get_ref()),
        None => Served::Passthrough,
    }
}

/// Asks for a file descriptor. Replaced content has no file behind it, so an
/// intercepted handle is answered with the failure value.
pub fn fd_dummy(layer: &AssetLayer, aasset: u64) -> (served: Served<i32>)
    ensures
        served == if layer@.intercepted(aasset) {
            Served::Virtual(FAILURE)
        } else {
            Served::Passthrough
        },
{
    match layer.peek(aasset) {
        Some(_) => Served::Virtual(FAILURE),
        None => Served::Passthrough,
    }
}

/// Asks for a file descriptor with 64-bit offsets. An intercepted handle is
/// answered with the failure value.
pub fn fd_dummy64(layer: &AssetLayer, aasset: u64) -> (served: Served<i32>)
    ensures
        served == if layer@.intercepted(aasset) {
            Served::Virtual(FAILURE)
        } else {
            Served::Passthrough
        },
{
    match layer.peek(aasset) {
        Some(_) => Served::Virtual(FAILURE),
        None => Served::Passthrough,
    }
}

/// Whether the asset is memory mapped by the host. Replaced content never
/// is: an intercepted handle is answered with 0.
pub fn is_alloc(layer: &AssetLayer, aasset: u64) -> (served: Served<i32>)
    ensures
        served == if layer@.intercepted(aasset) {
            Served::Virtual(0i32)
        } else {
            Served::Passthrough
        },
{
    match layer.peek(aasset) {
        Some(_) => Served::Virtual(0),
        None => Served::Passthrough,
    }
}

/// An intercepted file that is closed and then opened again under its path,
/// with no other open in between, is served from the reuse cache: no load is
/// asked for, and the new handle has the content back, on its first byte.
pub proof fn lemma_reopen_is_served_from_cache(layer: LayerView, handle: u64, again: u64)
    requires
        layer.intercepted(handle),
    ensures
        layer.closed(handle).open_answer(layer.handles[handle].name) == OpenedView::Cached,
        layer.closed(handle).opened(again, layer.handles[handle].name).intercepted(again),
        layer.closed(handle).opened(again, layer.handles[handle].name).handles[again]
            == layer.handles[handle].at(0),
{
}

/// An open of another path between the close and the second open empties
/// the reuse cache: the second open is not served from it. After any open
/// the cache holds nothing.
pub proof fn lemma_open_between_drops_cache(
    layer: LayerView,
    handle: u64,
    between: u64,
    other: Seq<u8>,
)
    requires
        layer.intercepted(handle),
        !same_path(layer.handles[handle].name, other),
    ensures
        layer.closed(handle).open_answer(other) != OpenedView::Cached,
        layer.closed(handle).opened(between, other).cache is None,
        forall|path: Seq<u8>|
            layer.closed(handle).opened(between, other).open_answer(path) != OpenedView::Cached,
{
}

/// An open of a path that the cache does not hold and that no rule replaces
/// is passed through: no handle becomes intercepted by it. Where the cache
/// does hold the path, the open is served from the cache whatever the rules
/// say.
pub proof fn lemma_open_of_unreplaced_path(layer: LayerView, handle: u64, path: Seq<u8>)
    requires
        pack_resource(path) is None,
    ensures
        !cache_holds(layer.cache, path) ==> layer.open_answer(path) == OpenedView::Passthrough
            && layer.opened(handle, path).handles == layer.handles,
        cache_holds(layer.cache, path) ==> layer.open_answer(path) == OpenedView::Cached,
{
}

/// On content of at most `i64::MAX` bytes, a seek that is carried out
/// answers with the new position, in 64 bits.
pub proof fn lemma_seek_answers_with_the_position(buffer: BufferView, offset: i64, whence: i32)
    requires
        buffer.content.len() <= i64::MAX,
        seek_accepted(buffer, offset, whence),
    ensures
        seek_answer(buffer, offset, whence) == sought(buffer, offset, whence).pos,
        0 <= sought(buffer, offset, whence).pos <= buffer.content.len(),
{
}

/// On content of at most `i64::MAX` bytes, read from a position that is not
/// negative, the 64-bit answers for the length and for what is left are the
/// numbers themselves; what is left and the position add up to the length
/// wherever the position lies in the content.
pub proof fn lemma_lengths_fit(buffer: BufferView)
    requires
        buffer.content.len() <= i64::MAX,
        0 <= buffer.pos,
    ensures
        as_off64(buffer.content.len() as int) == buffer.content.len(),
        as_off64(buffer.remaining()) == buffer.remaining(),
        0 <= buffer.remaining() <= buffer.content.len(),
        buffer.wf() ==> buffer.pos + buffer.remaining() == buffer.content.len(),
{
}

/// After a seek to offset 0 from the start a read yields what it yields on
/// a freshly opened buffer of the same content.
pub proof fn lemma_seek_start_reads_like_fresh(buffer: BufferView, count: int)
    ensures
        seek_answer(buffer, 0, SEEK_SET) == 0,
        sought(buffer, 0, SEEK_SET) == BufferView::fresh(
            buffer.name,
            buffer.content,
            buffer.rewritten,
        ),
        sought(buffer, 0, SEEK_SET).read_bytes(count) == BufferView::fresh(
            buffer.name,
            buffer.content,
            buffer.rewritten,
        ).read_bytes(count),
{
}

/// After a seek to offset 0 from the end nothing is left to read.
pub proof fn lemma_seek_end_leaves_nothing(buffer: BufferView)
    ensures
        sought(buffer, 0, SEEK_END).remaining() == 0,
        as_off32(sought(buffer, 0, SEEK_END).remaining()) == 0,
        as_off64(sought(buffer, 0, SEEK_END).remaining()) == 0,
{
}

/// A seek from the start to an offset past the content's length fails: the
/// answer is -1 and the position stays where it was.
pub proof fn lemma_seek_past_end_fails(buffer: BufferView, offset: i64)
    requires
        offset > buffer.content.len(),
    ensures
        seek_answer(buffer, offset, SEEK_SET) == -1,
        as_off32(seek_answer(buffer, offset, SEEK_SET)) == -1,
        sought(buffer, offset, SEEK_SET) == buffer,
{
}

/// Whether a handle is intercepted is settled when it is opened: no seek
/// and no read changes it, for that handle or another.
pub proof fn lemma_interception_is_fixed(
    layer: LayerView,
    handle: u64,
    other: u64,
    offset: i64,
    whence: i32,
    count: int,
)
    ensures
        layer.sought(handle, offset, whence).intercepted(other) == layer.intercepted(other),
        layer.after_read(handle, count).intercepted(other) == layer.intercepted(other),
        layer.sought(handle, offset, whence).cache == layer.cache,
        layer.after_read(handle, count).cache == layer.cache,
        other != handle && layer.intercepted(other) ==> layer.sought(
            handle,
            offset,
            whence,
        ).handles[other] == layer.handles[other] && layer.after_read(handle, count).handles[other]
            == layer.handles[other],
{
}

} // verus!
