//! Replacement content for intercepted assets: the byte cursor a handle reads
//! from, the single-slot reuse cache, and the rules that decide which paths
//! are served from the resource packs.
use vstd::prelude::*;
use crate::bytes::{ascii, ascii_bytes, ends_with, has_suffix};
use crate::paths::{begins_with, same, same_path, strip_prefix, stripped};
use crate::cpp_string::{ResourceLocation, StackString};

verus! {

/// Where a seek is measured from.
#[derive(Clone, Copy, Debug)]
pub enum SeekFrom {
    /// From the first byte.
    Start(u64),
    /// From the current position.
    Current(i64),
    /// From one past the last byte.
    End(i64),
}

/// The position a seek asks for, whether or not it lies in the content.
pub open spec fn seek_target(len: int, position: int, pos: SeekFrom) -> int {
    match pos {
        SeekFrom::Start(n) => n as int,
        SeekFrom::Current(delta) => position + delta,
        SeekFrom::End(delta) => len + delta,
    }
}

/// A seek is accepted when it lands on a byte of the content or just past
/// the last one.
pub open spec fn seek_in_range(len: int, position: int, pos: SeekFrom) -> bool {
    0 <= seek_target(len, position, pos) <= len
}

/// How many bytes a read of `count` bytes yields: as many as are asked for,
/// or as many as are left; none from a position past the end.
pub open spec fn read_len(len: int, position: int, count: int) -> int {
    if position >= len {
        0
    } else if count <= len - position {
        count
    } else {
        len - position
    }
}

/// A seek that would leave the content's range.
#[derive(Clone, Copy, Debug, PartialEq, Eq)]
pub struct SeekOutOfRange;

/// Content together with a read position.
pub enum BufferCursor {
    /// Content that was rewritten on the way in.
    Vec(Vec<u8>, u64),
    /// Content exactly as the host's loader delivered it.
    Cxx(StackString, u64),
}

impl BufferCursor {
    /// The bytes behind the cursor.
    pub open spec fn content(&self) -> Seq<u8> {
        match self {
            BufferCursor::Vec(bytes, _) => bytes@,
            BufferCursor::Cxx(bytes, _) => bytes@,
        }
    }

    /// The read position.
    pub open spec fn pos(&self) -> int {
        match self {
            BufferCursor::Vec(_, at) => *at as int,
            BufferCursor::Cxx(_, at) => *at as int,
        }
    }

    /// Whether the content was rewritten on the way in.
    pub open spec fn rewritten(&self) -> bool {
        self is Vec
    }

    /// The position never passes the end of the content.
    pub open spec fn wf(&self) -> bool {
        0 <= self.pos() <= self.content().len()
    }

    /// The cursor as a buffer without a name.
    pub open spec fn unnamed(&self) -> BufferView {
        BufferView {
            name: Seq::empty(),
            content: self.content(),
            pos: self.pos(),
            rewritten: self.rewritten(),
        }
    }

    /// The read position.
    pub fn position(&self) -> (at: u64)
        ensures
            at == self.pos(),
    {
        match self {
            BufferCursor::Vec(_, at) => *at,
            BufferCursor::Cxx(_, at) => *at,
        }
    }

    /// The whole content, whatever the position.
    pub fn get_ref(&self) -> (bytes: &[u8])
        ensures
            bytes@ == self.content(),
    {
        match self {
            BufferCursor::Vec(bytes, _) => bytes.as_slice(),
            BufferCursor::Cxx(bytes, _) => bytes.as_ref(),
        }
    }

    fn set_position(&mut self, to: u64)
        ensures
            final(self).pos() == to,
            final(self).content() == old(self).content(),
            final(self).rewritten() == old(self).rewritten(),
    {
        match self {
            BufferCursor::Vec(_, at) => {
                *at = to;
            },
            BufferCursor::Cxx(_, at) => {
                *at = to;
            },
        }
    }

    /// Copies out up to `count` bytes from the position on and moves the
    /// position past them.
    pub fn read(&mut self, count: usize) -> (data: Vec<u8>)
        ensures
            final(self).unnamed() == old(self).unnamed().after_read(count as int),
            data@ == old(self).unnamed().read_bytes(count as int),
    {
        let all = self.get_ref();
        if self.position() >= all.len() as u64 {
            return Vec::new();
        }
        let at = self.position() as usize;
        let left = all.len() - at;
        let n = if count <= left {
            count
        } else {
            left
        };
        let data = vstd::slice::slice_to_vec(vstd::slice::slice_subrange(all, at, at + n));
        self.set_position((at + n) as u64);
        data
    }

    /// Moves the position. A target before the first byte or past the end of
    /// the content is refused and leaves the position where it was.
    pub fn seek(&mut self, pos: SeekFrom) -> (moved: Result<u64, SeekOutOfRange>)
        ensures
            final(self).content() == old(self).content(),
            final(self).rewritten() == old(self).rewritten(),
            match moved {
                Ok(at) => {
                    &&& seek_in_range(old(self).content().len() as int, old(self).pos(), pos)
                    &&& at == seek_target(old(self).content().len() as int, old(self).pos(), pos)
                    &&& final(self).pos() == at
                },
                Err(_) => {
                    &&& !seek_in_range(old(self).content().len() as int, old(self).pos(), pos)
                    &&& final(self).pos() == old(self).pos()
                },
            },
    {
        let len = self.get_ref().len() as u64;
        let at = self.position();
        let target: Option<u64> = match pos {
            SeekFrom::Start(n) => Some(n),
            SeekFrom::Current(delta) => offset_from(at, delta),
            SeekFrom::End(delta) => offset_from(len, delta),
        };
        match target {
            Some(to) => {
                if to <= len {
                    self.set_position(to);
                    Ok(to)
                } else {
                    Err(SeekOutOfRange)
                }
            },
            None => Err(SeekOutOfRange),
        }
    }
}

/// `base + delta` where that is a `u64`.
fn offset_from(base: u64, delta: i64) -> (sum: Option<u64>)
    ensures
        match sum {
            Some(s) => s == base + delta,
            None => base + delta < 0 || base + delta > u64::MAX,
        },
{
    if delta >= 0 {
        base.checked_add(delta as u64)
    } else {
        let back: u64 = if delta == i64::MIN {
            0x8000_0000_0000_0000u64
        } else {
            (-delta) as u64
        };
        base.checked_sub(back)
    }
}

/// A named piece of replacement content with its read position.
pub struct Buffer {
    pub name: Vec<u8>,
    pub object: BufferCursor,
}

/// A `Buffer` as plain values.
pub struct BufferView {
    /// The path the content was opened under.
    pub name: Seq<u8>,
    pub content: Seq<u8>,
    /// The read position.
    pub pos: int,
    /// Whether the content was rewritten on the way in.
    pub rewritten: bool,
}

impl BufferView {
    /// The position never passes the end of the content.
    pub open spec fn wf(self) -> bool {
        0 <= self.pos <= self.content.len()
    }

    /// Freshly opened content: the position is on the first byte.
    pub open spec fn fresh(name: Seq<u8>, content: Seq<u8>, rewritten: bool) -> BufferView {
        BufferView { name, content, pos: 0, rewritten }
    }

    /// The same buffer with the position at `pos`.
    pub open spec fn at(self, pos: int) -> BufferView {
        BufferView { pos, ..self }
    }

    /// The bytes that a read of `count` bytes yields.
    pub open spec fn read_bytes(self, count: int) -> Seq<u8> {
        if self.pos >= self.content.len() {
            Seq::empty()
        } else {
            self.content.subrange(
                self.pos,
                self.pos + read_len(self.content.len() as int, self.pos, count),
            )
        }
    }

    /// How many bytes are left from the position on.
    pub open spec fn remaining(self) -> int {
        if self.pos >= self.content.len() {
            0
        } else {
            self.content.len() - self.pos
        }
    }

    /// The buffer after a read of `count` bytes.
    pub open spec fn after_read(self, count: int) -> BufferView {
        self.at(self.pos + read_len(self.content.len() as int, self.pos, count))
    }
}

impl View for Buffer {
    type V = BufferView;

    open spec fn view(&self) -> BufferView {
        BufferView {
            name: self.name@,
            content: self.object.content(),
            pos: self.object.pos(),
            rewritten: self.object.rewritten(),
        }
    }
}

impl Buffer {
    /// The buffer's cursor is well formed.
    pub open spec fn wf(&self) -> bool {
        self@.wf()
    }

    /// Content `object` under the path `name`.
    pub fn new(name: Vec<u8>, object: BufferCursor) -> (buffer: Self)
        ensures
            buffer.name == name,
            buffer.object == object,
    {
        Buffer { name, object }
    }

    /// The read position.
    pub fn position(&self) -> (at: u64)
        ensures
            at == self.object.pos(),
    {
        self.object.position()
    }

    /// The whole content, whatever the position.
    pub fn get_ref(&self) -> (bytes: &[u8])
        ensures
            bytes@ == self.object.content(),
    {
        self.object.get_ref()
    }

    /// Puts the position back on the first byte.
    pub fn rewind(&mut self)
        ensures
            final(self)@ == old(self)@.at(0),
    {
        self.object.set_position(0);
    }
}

/// The folders of the game package that are served from the resource packs,
/// each with the pack folder that replaces it, in the order they are tried.
pub open spec fn replacement_rules() -> Seq<(Seq<u8>, Seq<u8>)> {
    seq![
        (ascii("gui/dist/hbui/"), ascii("hbui/")),
        (ascii("skin_packs/persona/"), ascii("persona/")),
        (ascii("renderer/"), ascii("renderer/")),
        (ascii("resource_packs/vanilla/cameras/"), ascii("vanilla_cameras/")),
    ]
}

/// `path` without a leading component `assets`.
pub open spec fn strip_assets(path: Seq<u8>) -> Seq<u8> {
    match stripped(path, ascii("assets/")) {
        Some(rest) => rest,
        None => path,
    }
}

/// The first rule at or after `from` whose package folder `stripped` begins
/// with, component by component.
pub open spec fn first_rule(stripped: Seq<u8>, from: int) -> Option<int>
    decreases replacement_rules().len() - from,
{
    if from < 0 || from >= replacement_rules().len() {
        None
    } else if begins_with(stripped, replacement_rules()[from].0) {
        Some(from)
    } else {
        first_rule(stripped, from + 1)
    }
}

/// The part of `path` below the package folder of the rule that applies, as
/// it is written.
pub open spec fn pack_file(path: Seq<u8>) -> Option<Seq<u8>> {
    match first_rule(strip_assets(path), 0) {
        Some(rule) => stripped(strip_assets(path), replacement_rules()[rule].0),
        None => None,
    }
}

/// The resource-pack path that replaces `path`: the pack folder of the first
/// rule that applies, followed by what `path` holds below the package folder.
pub open spec fn pack_resource(path: Seq<u8>) -> Option<Seq<u8>> {
    match first_rule(strip_assets(path), 0) {
        Some(rule) => Some(replacement_rules()[rule].1 + pack_file(path).unwrap()),
        None => None,
    }
}

/// Whether the file replacing `path` is a compiled shader bundle.
pub open spec fn is_material_path(path: Seq<u8>) -> bool {
    pack_file(path) is Some && has_suffix(pack_file(path).unwrap(), ascii(".material.bin"))
}

/// All of `paths`, one after another with nothing in between.
pub open spec fn joined(paths: Seq<Seq<u8>>) -> Seq<u8>
    decreases paths.len(),
{
    if paths.len() == 0 {
        Seq::empty()
    } else {
        joined(paths.drop_last()) + paths.last()
    }
}

/// Appends every path of `paths` to `bytes`, in order, with no separator.
pub fn opt_path_join(bytes: &mut Vec<u8>, paths: &[&[u8]])
    ensures
        final(bytes)@ == old(bytes)@ + joined(paths@.map_values(|p: &[u8]| p@)),
{
    let ghost parts = paths@.map_values(|p: &[u8]| p@);
    let mut i: usize = 0;
    assert(joined(parts.take(0)) =~= Seq::<u8>::empty());
    while i < paths.len()
        invariant
            i <= paths.len(),
            parts == paths@.map_values(|p: &[u8]| p@),
            bytes@ == old(bytes)@ + joined(parts.take(i as int)),
        decreases paths.len() - i,
    {
        bytes.extend_from_slice(paths[i]);
        proof {
            assert(parts.take(i + 1).drop_last() =~= parts.take(i as int));
            assert(parts.take(i + 1).last() == paths@[i as int]@);
        }
        i += 1;
    }
    assert(parts.take(i as int) =~= parts);
}

/// What the caller of `FileLoader::get_file` has to do next.
pub enum FileRequest {
    /// The content was still in the reuse cache; nothing has to be loaded.
    Cached(Buffer),
    /// The path is one to replace: fetch the resource through the load
    /// capability and hand the outcome to `LoadRequest::loaded`.
    Load(LoadRequest),
    /// No rule applies: the host's own file is served.
    Passthrough,
}

/// A `FileRequest` as plain values.
pub enum RequestView {
    Cached(BufferView),
    Load { name: Seq<u8>, resource: Seq<u8>, material: bool },
    Passthrough,
}

impl View for FileRequest {
    type V = RequestView;

    open spec fn view(&self) -> RequestView {
        match self {
            FileRequest::Cached(buffer) => RequestView::Cached(buffer@),
            FileRequest::Load(load) => RequestView::Load {
                name: load.name@,
                resource: load.resource.path@,
                material: load.material,
            },
            FileRequest::Passthrough => RequestView::Passthrough,
        }
    }
}

/// Whether a cache holds the content of `path`: what it holds was opened
/// under the same path, component by component.
pub open spec fn cache_holds(cache: Option<BufferView>, path: Seq<u8>) -> bool {
    cache is Some && same_path(cache.unwrap().name, path)
}

/// How an open of `path` is served with `cache` in the reuse cache: from the
/// cache, rewound, where it holds the path; else by a load where a
/// replacement rule applies; else by the host.
pub open spec fn file_request(cache: Option<BufferView>, path: Seq<u8>) -> RequestView {
    if cache_holds(cache, path) {
        RequestView::Cached(cache.unwrap().at(0))
    } else if pack_resource(path) is Some {
        RequestView::Load {
            name: path,
            resource: pack_resource(path).unwrap(),
            material: is_material_path(path),
        }
    } else {
        RequestView::Passthrough
    }
}

/// A file to fetch from the resource packs.
pub struct LoadRequest {
    /// The path the host asked for.
    pub name: Vec<u8>,
    /// The path inside the resource packs.
    pub resource: ResourceLocation,
    /// Whether the file is a compiled shader bundle.
    pub material: bool,
}

/// A shader bundle that was loaded and may still be rewritten.
pub struct PendingMaterial {
    /// The path the host asked for.
    pub name: Vec<u8>,
    /// The bundle as loaded.
    pub data: StackString,
}

/// What came of a load.
pub enum Loaded {
    /// Nothing was found: the host's own file is served.
    Missing,
    /// The content to serve.
    Ready(Buffer),
    /// A shader bundle: run the material fixer over it, then call
    /// `PendingMaterial::finish`.
    Material(PendingMaterial),
}

impl LoadRequest {
    /// Takes what the load capability delivered: `None` where the capability
    /// was not ready, else the bytes it wrote. An empty result counts as not
    /// found.
    pub fn loaded(self, content: Option<StackString>) -> (next: Loaded)
        ensures
            match next {
                Loaded::Missing => content is None || content.unwrap()@.len() == 0,
                Loaded::Ready(buffer) => {
                    &&& content is Some && content.unwrap()@.len() > 0
                    &&& !self.material
                    &&& buffer@ == BufferView::fresh(self.name@, content.unwrap()@, false)
                },
                Loaded::Material(pending) => {
                    &&& content is Some && content.unwrap()@.len() > 0
                    &&& self.material
                    &&& pending.name == self.name
                    &&& pending.data == content.unwrap()
                },
            },
    {
        let data = match content {
            Some(data) => data,
            None => {
                return Loaded::Missing;
            },
        };
        if data.as_ref().len() == 0 {
            return Loaded::Missing;
        }
        if self.material {
            Loaded::Material(PendingMaterial { name: self.name, data })
        } else {
            Loaded::Ready(Buffer::new(self.name, BufferCursor::Cxx(data, 0)))
        }
    }
}

impl PendingMaterial {
    /// The buffer to serve: the rewritten bundle where the fixer produced
    /// one, else the bundle as loaded.
    pub fn finish(self, updated: Option<Vec<u8>>) -> (buffer: Buffer)
        ensures
            buffer@ == match updated {
                Some(bytes) => BufferView::fresh(self.name@, bytes@, true),
                None => BufferView::fresh(self.name@, self.data@, false),
            },
    {
        match updated {
            Some(bytes) => Buffer::new(self.name, BufferCursor::Vec(bytes, 0)),
            None => Buffer::new(self.name, BufferCursor::Cxx(self.data, 0)),
        }
    }
}

/// The single-slot reuse cache in front of the load capability.
pub struct FileLoader {
    pub last_buffer: Option<Buffer>,
}

impl View for FileLoader {
    type V = Option<BufferView>;

    open spec fn view(&self) -> Option<BufferView> {
        match self.last_buffer {
            Some(buffer) => Some(buffer@),
            None => None,
        }
    }
}

impl FileLoader {
    /// A buffer in the cache is well formed.
    pub open spec fn wf(&self) -> bool {
        self@ is Some ==> self@.unwrap().wf()
    }

    /// A loader with an empty cache.
    pub fn new() -> (loader: Self)
        ensures
            loader@ is None,
    {
        FileLoader { last_buffer: None }
    }

    /// Decides how an open of `path` is served. A cached buffer of the same
    /// path is handed out rewound; any other path empties the cache. Where a
    /// replacement rule applies the caller is asked to load the replacing
    /// resource.
    ///
    /// Paths are compared component by component: doubled separators, `.`
    /// components and a separator at the end make no difference, neither for
    /// the cache nor for the rules. What is handed on below the pack folder
    /// is the rest of the path as it is written, from its first component to
    /// its last.
    pub fn get_file(&mut self, path: &[u8]) -> (request: FileRequest)
        ensures
            final(self)@ is None,
            request@ == file_request(old(self)@, path@),
    {
        let cached = self.last_buffer.take();
        match cached {
            Some(mut cache) => {
                if same(cache.name.as_slice(), path) {
                    cache.rewind();
                    return FileRequest::Cached(cache);
                }
            },
            None => {},
        }
        let stripped = match strip_prefix(path, assets_folder()) {
            Some(rest) => rest,
            None => path,
        };
        let rules = replacement_list();
        let mut i: usize = 0;
        while i < 4
            invariant
                i <= 4,
                self.last_buffer is None,
                !cache_holds(old(self)@, path@),
                stripped@ == strip_assets(path@),
                rules_match(rules),
                first_rule(stripped@, 0) == first_rule(stripped@, i as int),
            decreases 4 - i,
        {
            let (apk_folder, pack_folder) = rules[i];
            if let Some(file) = strip_prefix(stripped, apk_folder) {
                let mut resource = ResourceLocation::new();
                let parts: [&[u8]; 2] = [pack_folder, file];
                opt_path_join(&mut resource.path, parts.as_slice());
                proof {
                    let views = parts@.map_values(|p: &[u8]| p@);
                    assert(views.drop_last().drop_last() =~= Seq::<Seq<u8>>::empty());
                    assert(joined(views.drop_last()) =~= pack_folder@) by {
                        assert(joined(views.drop_last().drop_last()) =~= Seq::<u8>::empty());
                        assert(views.drop_last().last() == pack_folder@);
                    }
                    assert(joined(views) =~= pack_folder@ + file@);
                    assert(resource.path@ =~= pack_folder@ + file@);
                    assert(file@ == pack_file(path@).unwrap());
                }
                let material = ends_with(file, material_suffix());
                return FileRequest::Load(
                    LoadRequest { name: vstd::slice::slice_to_vec(path), resource, material },
                );
            }
            i += 1;
        }
        proof {
            assert(first_rule(stripped@, 4) is None);
        }
        FileRequest::Passthrough
    }
}

/// `list` holds the replacement rules.
pub open spec fn rules_match(list: [(&'static [u8], &'static [u8]); 4]) -> bool {
    forall|i: int|
        0 <= i < 4 ==> (#[trigger] list@[i]).0@ == replacement_rules()[i].0 && list@[i].1@
            == replacement_rules()[i].1
}

fn assets_folder() -> (folder: &'static [u8])
    ensures
        folder@ == ascii("assets/"),
{
    proof {
        reveal_strlit("assets/");
    }
    ascii_bytes("assets/")
}

fn material_suffix() -> (suffix: &'static [u8])
    ensures
        suffix@ == ascii(".material.bin"),
{
    proof {
        reveal_strlit(".material.bin");
    }
    ascii_bytes(".material.bin")
}

/// The replacement rules, in the order they are tried.
pub fn replacement_list() -> (list: [(&'static [u8], &'static [u8]); 4])
    ensures
        rules_match(list),
{
    proof {
        reveal_strlit("gui/dist/hbui/");
        reveal_strlit("hbui/");
        reveal_strlit("skin_packs/persona/");
        reveal_strlit("persona/");
        reveal_strlit("renderer/");
        reveal_strlit("resource_packs/vanilla/cameras/");
        reveal_strlit("vanilla_cameras/");
    }
    [
        (ascii_bytes("gui/dist/hbui/"), ascii_bytes("hbui/")),
        (ascii_bytes("skin_packs/persona/"), ascii_bytes("persona/")),
        (ascii_bytes("renderer/"), ascii_bytes("renderer/")),
        (ascii_bytes("resource_packs/vanilla/cameras/"), ascii_bytes("vanilla_cameras/")),
    ]
}

} // verus!
