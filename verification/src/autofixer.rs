//! Rewrites compiled shader bundles written for one release of the game so
//! that another release renders them correctly.
use vstd::prelude::*;
use crate::bytes::{add_bytes_before, ascii, ascii_bytes, bytes_eq, contains, inserted_before, occurs};
use crate::jniopts::Options;
use crate::material::{
    BundleView,
    CodeRef,
    CodeView,
    Pass,
    PassView,
    ShaderBundle,
    ShaderCode,
    ShaderCodePlatform,
    ShaderStage,
    Variant,
};
use crate::version::{all_versions, HostVersionState, MinecraftVersion};

verus! {

/// The replacement definitions of the lightmap helper, one for each pair of
/// the encoding a shader was written for and the encoding the host expects.
pub struct LightmapSnippets {
    /// For a shader older than 1.21.100 on a host before 1.21.130.
    pub from_10023_to_11020: Vec<u8>,
    /// For a shader older than 1.21.100 on a host from 1.21.130 on.
    pub from_10023_to_13028: Vec<u8>,
    /// For a shader of 1.21.100 to 1.21.120 on a host from 1.21.130 on.
    pub from_11020_to_13028: Vec<u8>,
}

/// `LightmapSnippets` as plain values.
pub struct SnippetsView {
    pub from_10023_to_11020: Seq<u8>,
    pub from_10023_to_13028: Seq<u8>,
    pub from_11020_to_13028: Seq<u8>,
}

impl View for LightmapSnippets {
    type V = SnippetsView;

    open spec fn view(&self) -> SnippetsView {
        SnippetsView {
            from_10023_to_11020: self.from_10023_to_11020@,
            from_10023_to_13028: self.from_10023_to_13028@,
            from_11020_to_13028: self.from_11020_to_13028@,
        }
    }
}

/// The start of a shader's entry point, before which lightmap code goes.
pub open spec fn main_marker() -> Seq<u8> {
    ascii("void main")
}

/// Whether a shader still assigns the lightmap coordinate the way releases
/// before 1.21.100 did.
pub open spec fn has_legacy_assign(blob: Seq<u8>) -> bool {
    occurs(blob, ascii("v_lightmapUV = a_texcoord1;")) || occurs(
        blob,
        ascii("v_lightmapUV=a_texcoord1;"),
    )
}

/// Whether a shader already unpacks the lightmap coordinate as 1.21.130 does.
pub open spec fn has_packed_fix(blob: Seq<u8>) -> bool {
    occurs(blob, ascii("65535.0")) || occurs(blob, ascii("vec2(256.0, 4096.0)"))
}

/// The code the lightmap fix looks at: vertex shaders for the two OpenGL ES
/// dialects.
pub open spec fn lightmap_target(code: CodeView) -> bool {
    code.stage == ShaderStage::Vertex && (code.platform == ShaderCodePlatform::Essl100
        || code.platform == ShaderCodePlatform::Essl300)
}

/// The definition to put in front of a shader's entry point, if the shader
/// needs one. `version` is the format version the bundle parsed under and
/// `packed` says whether the host is 1.21.130 or later.
pub open spec fn lightmap_snippet(
    blob: Seq<u8>,
    version: MinecraftVersion,
    packed: bool,
    snippets: SnippetsView,
) -> Option<Seq<u8>> {
    if !has_legacy_assign(blob) {
        if version.rank() >= MinecraftVersion::V1_21_110.rank() && has_packed_fix(blob) {
            None
        } else if packed {
            Some(snippets.from_11020_to_13028)
        } else {
            None
        }
    } else if packed {
        Some(snippets.from_10023_to_13028)
    } else {
        Some(snippets.from_10023_to_11020)
    }
}

/// Whether the lightmap fix counts `code` as changed.
pub open spec fn lightmap_edits(
    code: CodeView,
    version: MinecraftVersion,
    packed: bool,
    snippets: SnippetsView,
) -> bool {
    lightmap_target(code) && lightmap_snippet(code.blob, version, packed, snippets) is Some
}

/// `code` after the lightmap fix.
pub open spec fn lightmap_fixed_code(
    code: CodeView,
    version: MinecraftVersion,
    packed: bool,
    snippets: SnippetsView,
) -> CodeView {
    if lightmap_edits(code, version, packed, snippets) {
        CodeView {
            blob: inserted_before(
                code.blob,
                main_marker(),
                lightmap_snippet(code.blob, version, packed, snippets).unwrap(),
            ),
            ..code
        }
    } else {
        code
    }
}

/// A variant after the lightmap fix.
pub open spec fn lightmap_fixed_variant(
    codes: Seq<CodeView>,
    version: MinecraftVersion,
    packed: bool,
    snippets: SnippetsView,
) -> Seq<CodeView> {
    codes.map_values(|code: CodeView| lightmap_fixed_code(code, version, packed, snippets))
}

/// A pass after the lightmap fix.
pub open spec fn lightmap_fixed_pass(
    pass: PassView,
    version: MinecraftVersion,
    packed: bool,
    snippets: SnippetsView,
) -> PassView {
    PassView {
        name: pass.name,
        variants: pass.variants.map_values(
            |codes: Seq<CodeView>| lightmap_fixed_variant(codes, version, packed, snippets),
        ),
    }
}

/// A bundle after the lightmap fix: every targeted shader that needs a
/// definition has it in front of its entry point, and nothing else differs.
pub open spec fn lightmap_fixed(
    bundle: BundleView,
    version: MinecraftVersion,
    packed: bool,
    snippets: SnippetsView,
) -> BundleView {
    BundleView {
        name: bundle.name,
        passes: bundle.passes.map_values(
            |pass: PassView| lightmap_fixed_pass(pass, version, packed, snippets),
        ),
    }
}

/// How many shaders of a variant the lightmap fix counts as changed.
pub open spec fn edited_in_variant(
    codes: Seq<CodeView>,
    version: MinecraftVersion,
    packed: bool,
    snippets: SnippetsView,
) -> nat
    decreases codes.len(),
{
    if codes.len() == 0 {
        0
    } else {
        edited_in_variant(codes.drop_last(), version, packed, snippets) + if lightmap_edits(
            codes.last(),
            version,
            packed,
            snippets,
        ) {
            1nat
        } else {
            0nat
        }
    }
}

/// How many shaders of some variants the lightmap fix counts as changed.
pub open spec fn edited_in_variants(
    variants: Seq<Seq<CodeView>>,
    version: MinecraftVersion,
    packed: bool,
    snippets: SnippetsView,
) -> nat
    decreases variants.len(),
{
    if variants.len() == 0 {
        0
    } else {
        edited_in_variants(variants.drop_last(), version, packed, snippets) + edited_in_variant(
            variants.last(),
            version,
            packed,
            snippets,
        )
    }
}

/// How many shaders of some passes the lightmap fix counts as changed.
pub open spec fn edited_in_passes(
    passes: Seq<PassView>,
    version: MinecraftVersion,
    packed: bool,
    snippets: SnippetsView,
) -> nat
    decreases passes.len(),
{
    if passes.len() == 0 {
        0
    } else {
        edited_in_passes(passes.drop_last(), version, packed, snippets) + edited_in_variants(
            passes.last().variants,
            version,
            packed,
            snippets,
        )
    }
}

/// How many shaders of a bundle the lightmap fix counts as changed: the
/// vertex shaders for the two OpenGL ES dialects for which a definition is
/// chosen.
pub open spec fn edited_count(
    bundle: BundleView,
    version: MinecraftVersion,
    packed: bool,
    snippets: SnippetsView,
) -> nat {
    edited_in_passes(bundle.passes, version, packed, snippets)
}

/// Whether the lightmap fix counts some shader of a variant as changed.
pub open spec fn variant_edited(
    codes: Seq<CodeView>,
    version: MinecraftVersion,
    packed: bool,
    snippets: SnippetsView,
) -> bool {
    edited_in_variant(codes, version, packed, snippets) > 0
}

/// Whether the lightmap fix counts some shader of a pass as changed.
pub open spec fn pass_edited(
    pass: PassView,
    version: MinecraftVersion,
    packed: bool,
    snippets: SnippetsView,
) -> bool {
    edited_in_variants(pass.variants, version, packed, snippets) > 0
}

/// Whether the lightmap fix counts some shader of a bundle as changed.
pub open spec fn lightmap_changes(
    bundle: BundleView,
    version: MinecraftVersion,
    packed: bool,
    snippets: SnippetsView,
) -> bool {
    edited_count(bundle, version, packed, snippets) > 0
}

/// A variant has no more counted shaders than shaders, and none exactly
/// where the fix counts none of them.
pub proof fn lemma_edited_in_variant(
    codes: Seq<CodeView>,
    version: MinecraftVersion,
    packed: bool,
    snippets: SnippetsView,
)
    ensures
        edited_in_variant(codes, version, packed, snippets) <= codes.len(),
        edited_in_variant(codes, version, packed, snippets) == 0 <==> forall|c: int|
            0 <= c < codes.len() ==> !lightmap_edits(#[trigger] codes[c], version, packed, snippets),
    decreases codes.len(),
{
    if codes.len() > 0 {
        let front = codes.drop_last();
        lemma_edited_in_variant(front, version, packed, snippets);
        if edited_in_variant(codes, version, packed, snippets) == 0 {
            assert forall|c: int| 0 <= c < codes.len() implies !lightmap_edits(
                #[trigger] codes[c],
                version,
                packed,
                snippets,
            ) by {
                if c < front.len() {
                    assert(codes[c] == front[c]);
                }
            }
        } else if forall|c: int|
            0 <= c < codes.len() ==> !lightmap_edits(#[trigger] codes[c], version, packed, snippets) {
            assert forall|c: int| 0 <= c < front.len() implies !lightmap_edits(
                #[trigger] front[c],
                version,
                packed,
                snippets,
            ) by {
                assert(front[c] == codes[c]);
            }
            assert(!lightmap_edits(codes[codes.len() - 1], version, packed, snippets));
        }
    }
}

/// Some variants have no counted shader exactly where none of them has one.
pub proof fn lemma_edited_in_variants(
    variants: Seq<Seq<CodeView>>,
    version: MinecraftVersion,
    packed: bool,
    snippets: SnippetsView,
)
    ensures
        edited_in_variants(variants, version, packed, snippets) == 0 <==> forall|v: int|
            0 <= v < variants.len() ==> !variant_edited(
                #[trigger] variants[v],
                version,
                packed,
                snippets,
            ),
    decreases variants.len(),
{
    if variants.len() > 0 {
        let front = variants.drop_last();
        lemma_edited_in_variants(front, version, packed, snippets);
        if edited_in_variants(variants, version, packed, snippets) == 0 {
            assert forall|v: int| 0 <= v < variants.len() implies !variant_edited(
                #[trigger] variants[v],
                version,
                packed,
                snippets,
            ) by {
                if v < front.len() {
                    assert(variants[v] == front[v]);
                }
            }
        } else if forall|v: int|
            0 <= v < variants.len() ==> !variant_edited(
                #[trigger] variants[v],
                version,
                packed,
                snippets,
            ) {
            assert forall|v: int| 0 <= v < front.len() implies !variant_edited(
                #[trigger] front[v],
                version,
                packed,
                snippets,
            ) by {
                assert(front[v] == variants[v]);
            }
            assert(!variant_edited(variants[variants.len() - 1], version, packed, snippets));
        }
    }
}

/// Some passes have no counted shader exactly where none of them has one.
pub proof fn lemma_edited_in_passes(
    passes: Seq<PassView>,
    version: MinecraftVersion,
    packed: bool,
    snippets: SnippetsView,
)
    ensures
        edited_in_passes(passes, version, packed, snippets) == 0 <==> forall|p: int|
            0 <= p < passes.len() ==> !pass_edited(#[trigger] passes[p], version, packed, snippets),
    decreases passes.len(),
{
    if passes.len() > 0 {
        let front = passes.drop_last();
        lemma_edited_in_passes(front, version, packed, snippets);
        if edited_in_passes(passes, version, packed, snippets) == 0 {
            assert forall|p: int| 0 <= p < passes.len() implies !pass_edited(
                #[trigger] passes[p],
                version,
                packed,
                snippets,
            ) by {
                if p < front.len() {
                    assert(passes[p] == front[p]);
                }
            }
        } else if forall|p: int|
            0 <= p < passes.len() ==> !pass_edited(#[trigger] passes[p], version, packed, snippets) {
            assert forall|p: int| 0 <= p < front.len() implies !pass_edited(
                #[trigger] front[p],
                version,
                packed,
                snippets,
            ) by {
                assert(front[p] == passes[p]);
            }
            assert(!pass_edited(passes[passes.len() - 1], version, packed, snippets));
        }
    }
}

fn main_start() -> (marker: &'static [u8])
    ensures
        marker@ == main_marker(),
{
    proof {
        reveal_strlit("void main");
    }
    ascii_bytes("void main")
}

fn legacy_assigned(blob: &[u8]) -> (yes: bool)
    ensures
        yes == has_legacy_assign(blob@),
{
    proof {
        reveal_strlit("v_lightmapUV = a_texcoord1;");
        reveal_strlit("v_lightmapUV=a_texcoord1;");
    }
    contains(blob, ascii_bytes("v_lightmapUV = a_texcoord1;")) || contains(
        blob,
        ascii_bytes("v_lightmapUV=a_texcoord1;"),
    )
}

fn packed_fixed(blob: &[u8]) -> (yes: bool)
    ensures
        yes == has_packed_fix(blob@),
{
    proof {
        reveal_strlit("65535.0");
        reveal_strlit("vec2(256.0, 4096.0)");
    }
    contains(blob, ascii_bytes("65535.0")) || contains(blob, ascii_bytes("vec2(256.0, 4096.0)"))
}

fn is_lightmap_target(code: &ShaderCode) -> (yes: bool)
    ensures
        yes == lightmap_target(code@),
{
    code.stage == ShaderStage::Vertex && (code.platform == ShaderCodePlatform::Essl100
        || code.platform == ShaderCodePlatform::Essl300)
}

/// Applies the lightmap fix to one compiled shader.
fn fix_code_lightmap(
    code: &mut ShaderCode,
    version: MinecraftVersion,
    packed: bool,
    snippets: &LightmapSnippets,
) -> (changed: bool)
    ensures
        final(code)@ == lightmap_fixed_code(old(code)@, version, packed, snippets@),
        changed == lightmap_edits(old(code)@, version, packed, snippets@),
{
    if !is_lightmap_target(code) {
        return false;
    }
    let has_fix = packed_fixed(code.bgfx_shader_data.as_slice());
    let replace_with: &[u8];
    if !legacy_assigned(code.bgfx_shader_data.as_slice()) {
        if version.at_least(MinecraftVersion::V1_21_110) && has_fix {
            return false;
        } else if packed {
            replace_with = snippets.from_11020_to_13028.as_slice();
        } else {
            return false;
        }
    } else if packed {
        replace_with = snippets.from_10023_to_13028.as_slice();
    } else {
        replace_with = snippets.from_10023_to_11020.as_slice();
    }
    add_bytes_before(&mut code.bgfx_shader_data, main_start(), replace_with);
    true
}

/// Applies the lightmap fix to the shaders of one variant and notes the
/// place of each shader it counts as changed.
fn fix_variant_lightmap(
    variant: &mut Variant,
    version: MinecraftVersion,
    packed: bool,
    snippets: &LightmapSnippets,
    pass: usize,
    index: usize,
    edited: &mut Vec<CodeRef>,
)
    ensures
        final(variant)@ == lightmap_fixed_variant(old(variant)@, version, packed, snippets@),
        final(edited)@.len() == old(edited)@.len() + edited_in_variant(
            old(variant)@,
            version,
            packed,
            snippets@,
        ),
{
    let mut c: usize = 0;
    while c < variant.shader_codes.len()
        invariant
            c <= variant.shader_codes.len(),
            variant.shader_codes.len() == old(variant).shader_codes.len(),
            forall|j: int|
                0 <= j < c ==> (#[trigger] variant.shader_codes@[j])@ == lightmap_fixed_code(
                    old(variant).shader_codes@[j]@,
                    version,
                    packed,
                    snippets@,
                ),
            forall|j: int|
                c <= j < variant.shader_codes.len() ==> variant.shader_codes@[j] == old(
                    variant,
                ).shader_codes@[j],
            edited@.len() == old(edited)@.len() + edited_in_variant(
                old(variant)@.take(c as int),
                version,
                packed,
                snippets@,
            ),
        decreases variant.shader_codes.len() - c,
    {
        let one = fix_code_lightmap(&mut variant.shader_codes[c], version, packed, snippets);
        proof {
            assert(old(variant)@[c as int] == old(variant).shader_codes@[c as int]@);
            assert(old(variant)@.take(c + 1).drop_last() =~= old(variant)@.take(c as int));
            assert(old(variant)@.take(c + 1).last() == old(variant)@[c as int]);
        }
        if one {
            edited.push(CodeRef { pass, variant: index, code: c });
        }
        c += 1;
    }
    assert(old(variant)@.take(c as int) =~= old(variant)@);
    assert(variant@ =~= lightmap_fixed_variant(old(variant)@, version, packed, snippets@));
}

/// Applies the lightmap fix to the shaders of one pass and notes the place
/// of each shader it counts as changed.
fn fix_pass_lightmap(
    pass: &mut Pass,
    version: MinecraftVersion,
    packed: bool,
    snippets: &LightmapSnippets,
    index: usize,
    edited: &mut Vec<CodeRef>,
)
    ensures
        final(pass)@ == lightmap_fixed_pass(old(pass)@, version, packed, snippets@),
        final(edited)@.len() == old(edited)@.len() + edited_in_variants(
            old(pass)@.variants,
            version,
            packed,
            snippets@,
        ),
{
    let mut v: usize = 0;
    while v < pass.variants.len()
        invariant
            v <= pass.variants.len(),
            pass.name == old(pass).name,
            pass.variants.len() == old(pass).variants.len(),
            forall|j: int|
                0 <= j < v ==> (#[trigger] pass.variants@[j])@ == lightmap_fixed_variant(
                    old(pass).variants@[j]@,
                    version,
                    packed,
                    snippets@,
                ),
            forall|j: int|
                v <= j < pass.variants.len() ==> pass.variants@[j] == old(pass).variants@[j],
            edited@.len() == old(edited)@.len() + edited_in_variants(
                old(pass)@.variants.take(v as int),
                version,
                packed,
                snippets@,
            ),
        decreases pass.variants.len() - v,
    {
        fix_variant_lightmap(&mut pass.variants[v], version, packed, snippets, index, v, edited);
        proof {
            assert(old(pass)@.variants[v as int] == old(pass).variants@[v as int]@);
            assert(old(pass)@.variants.take(v + 1).drop_last() =~= old(pass)@.variants.take(
                v as int,
            ));
            assert(old(pass)@.variants.take(v + 1).last() == old(pass)@.variants[v as int]);
        }
        v += 1;
    }
    assert(old(pass)@.variants.take(v as int) =~= old(pass)@.variants);
    assert(pass@.variants =~= lightmap_fixed_pass(old(pass)@, version, packed, snippets@).variants);
}

/// Puts the lightmap definition that fits the host in front of the entry
/// point of every vertex shader that needs it, and tells how many shaders it
/// counted as changed.
///
/// `version` is the format version the bundle parsed under; `packed` says
/// whether the host is 1.21.130 or later. A shader counts as changed as soon
/// as a definition was chosen for it, whether or not it has an entry point.
/// The place of each counted shader is noted down as the fix goes; the
/// result is how many were noted.
pub fn handle_lightmaps(
    materialbin: &mut ShaderBundle,
    version: MinecraftVersion,
    packed: bool,
    snippets: &LightmapSnippets,
) -> (changed: usize)
    ensures
        final(materialbin)@ == lightmap_fixed(old(materialbin)@, version, packed, snippets@),
        changed == edited_count(old(materialbin)@, version, packed, snippets@),
{
    let mut edited: Vec<CodeRef> = Vec::new();
    let mut p: usize = 0;
    while p < materialbin.passes.len()
        invariant
            p <= materialbin.passes.len(),
            materialbin.name == old(materialbin).name,
            materialbin.passes.len() == old(materialbin).passes.len(),
            forall|j: int|
                0 <= j < p ==> (#[trigger] materialbin.passes@[j])@ == lightmap_fixed_pass(
                    old(materialbin).passes@[j]@,
                    version,
                    packed,
                    snippets@,
                ),
            forall|j: int|
                p <= j < materialbin.passes.len() ==> materialbin.passes@[j] == old(
                    materialbin,
                ).passes@[j],
            edited@.len() == edited_in_passes(
                old(materialbin)@.passes.take(p as int),
                version,
                packed,
                snippets@,
            ),
        decreases materialbin.passes.len() - p,
    {
        fix_pass_lightmap(&mut materialbin.passes[p], version, packed, snippets, p, &mut edited);
        proof {
            assert(old(materialbin)@.passes[p as int] == old(materialbin).passes@[p as int]@);
            assert(old(materialbin)@.passes.take(p + 1).drop_last() =~= old(materialbin)@.passes.take(
                p as int,
            ));
            assert(old(materialbin)@.passes.take(p + 1).last() == old(materialbin)@.passes[p as int]);
        }
        p += 1;
    }
    assert(old(materialbin)@.passes.take(p as int) =~= old(materialbin)@.passes);
    assert(materialbin@.passes =~= lightmap_fixed(
        old(materialbin)@,
        version,
        packed,
        snippets@,
    ).passes);
    edited.len()
}

/// The start of a fragment shader's entry point, before which the sampler
/// macros go.
pub open spec fn sampler_marker() -> Seq<u8> {
    ascii("void main ()")
}

/// The macros that make every texture lookup read the base mip level.
pub open spec fn sampler_macros() -> Seq<u8> {
    ascii(
        "\n#if __VERSION__ >= 300\n #define texture(tex,uv) textureLod(tex,uv,0.0)\n#else\n #define texture2D(tex,uv) texture2DLod(tex,uv,0.0)\n#endif",
    )
}

/// The passes whose samplers are fixed.
pub open spec fn sampler_pass(name: Seq<u8>) -> bool {
    name == ascii("AlphaTest") || name == ascii("Opaque")
}

/// The code whose samplers are fixed, inside such a pass.
pub open spec fn sampler_code(code: CodeView) -> bool {
    code.stage == ShaderStage::Fragment && code.platform_name == ascii("ESSL_100")
}

/// `at` names a shader of `bundle` whose samplers are fixed.
pub open spec fn sampler_target(bundle: BundleView, at: CodeRef) -> bool {
    &&& at.within(bundle)
    &&& sampler_pass(bundle.passes[at.pass as int].name)
    &&& sampler_code(at.of(bundle))
}

/// `targets` holds the sampler targets that come before `cur`, each once and
/// in the order of the bundle.
pub open spec fn targets_up_to(targets: Seq<CodeRef>, bundle: BundleView, cur: CodeRef) -> bool {
    &&& forall|i: int|
        0 <= i < targets.len() ==> sampler_target(bundle, #[trigger] targets[i]) && targets[i].before(
            cur,
        )
    &&& forall|at: CodeRef| #[trigger]
        sampler_target(bundle, at) && at.before(cur) ==> targets.contains(at)
    &&& forall|i: int, j: int|
        0 <= i < j < targets.len() ==> (#[trigger] targets[i]).before(#[trigger] targets[j])
}

/// `targets` holds every sampler target of `bundle`, each once and in the
/// order of the bundle.
pub open spec fn lists_sampler_targets(targets: Seq<CodeRef>, bundle: BundleView) -> bool {
    &&& forall|i: int| 0 <= i < targets.len() ==> sampler_target(bundle, #[trigger] targets[i])
    &&& forall|at: CodeRef| #[trigger] sampler_target(bundle, at) ==> targets.contains(at)
    &&& forall|i: int, j: int|
        0 <= i < j < targets.len() ==> (#[trigger] targets[i]).before(#[trigger] targets[j])
}

fn is_sampler_pass(name: &[u8]) -> (yes: bool)
    ensures
        yes == sampler_pass(name@),
{
    proof {
        reveal_strlit("AlphaTest");
        reveal_strlit("Opaque");
    }
    bytes_eq(name, ascii_bytes("AlphaTest")) || bytes_eq(name, ascii_bytes("Opaque"))
}

fn is_sampler_code(code: &ShaderCode) -> (yes: bool)
    ensures
        yes == sampler_code(code@),
{
    proof {
        reveal_strlit("ESSL_100");
    }
    code.stage == ShaderStage::Fragment && bytes_eq(
        code.platform_name.as_slice(),
        ascii_bytes("ESSL_100"),
    )
}

/// Finds the shaders whose texture lookups have to read the base mip level:
/// the fragment shaders for `ESSL_100` in the passes `AlphaTest` and `Opaque`.
/// The source of each is then patched with `disable_mipmaps`.
pub fn handle_samplers(materialbin: &ShaderBundle) -> (targets: Vec<CodeRef>)
    ensures
        lists_sampler_targets(targets@, materialbin@),
{
    let mut targets: Vec<CodeRef> = Vec::new();
    let ghost bundle = materialbin@;
    let mut p: usize = 0;
    while p < materialbin.passes.len()
        invariant
            p <= materialbin.passes.len(),
            bundle == materialbin@,
            targets_up_to(targets@, bundle, CodeRef { pass: p, variant: 0, code: 0 }),
        decreases materialbin.passes.len() - p,
    {
        let pass = &materialbin.passes[p];
        assert(bundle.passes[p as int] == pass@);
        if is_sampler_pass(pass.name.as_slice()) {
            let mut v: usize = 0;
            while v < pass.variants.len()
                invariant
                    p < materialbin.passes.len(),
                    v <= pass.variants.len(),
                    bundle == materialbin@,
                    bundle.passes[p as int] == pass@,
                    sampler_pass(pass.name@),
                    targets_up_to(targets@, bundle, CodeRef { pass: p, variant: v, code: 0 }),
                decreases pass.variants.len() - v,
            {
                let variant = &pass.variants[v];
                assert(pass@.variants[v as int] == variant@);
                let mut c: usize = 0;
                while c < variant.shader_codes.len()
                    invariant
                        p < materialbin.passes.len(),
                        v < pass.variants.len(),
                        c <= variant.shader_codes.len(),
                        bundle == materialbin@,
                        bundle.passes[p as int] == pass@,
                        pass@.variants[v as int] == variant@,
                        sampler_pass(pass.name@),
                        targets_up_to(targets@, bundle, CodeRef { pass: p, variant: v, code: c }),
                    decreases variant.shader_codes.len() - c,
                {
                    let ghost before = targets@;
                    let ghost here = CodeRef { pass: p, variant: v, code: c };
                    let ghost next = CodeRef { pass: p, variant: v, code: (c + 1) as usize };
                    assert(variant@[c as int] == variant.shader_codes@[c as int]@);
                    if is_sampler_code(&variant.shader_codes[c]) {
                        targets.push(CodeRef { pass: p, variant: v, code: c });
                        proof {
                            assert(targets@[before.len() as int] == here);
                            assert forall|at: CodeRef| #[trigger]
                                sampler_target(bundle, at) && at.before(next) implies targets@.contains(
                                at,
                            ) by {
                                if at.before(here) {
                                    let k = choose|k: int| 0 <= k < before.len() && before[k] == at;
                                    assert(targets@[k] == at);
                                } else {
                                    assert(at == here);
                                }
                            }
                        }
                    } else {
                        proof {
                            assert forall|at: CodeRef| #[trigger]
                                sampler_target(bundle, at) && at.before(next) implies targets@.contains(
                                at,
                            ) by {
                                if !at.before(here) {
                                    assert(at == here);
                                }
                            }
                        }
                    }
                    c += 1;
                }
                proof {
                    let end = CodeRef { pass: p, variant: v, code: c };
                    let next = CodeRef { pass: p, variant: (v + 1) as usize, code: 0 };
                    assert forall|at: CodeRef| #[trigger]
                        sampler_target(bundle, at) && at.before(next) implies targets@.contains(at) by {
                        assert(at.before(end));
                    }
                }
                v += 1;
            }
            proof {
                let end = CodeRef { pass: p, variant: v, code: 0 };
                let next = CodeRef { pass: (p + 1) as usize, variant: 0, code: 0 };
                assert forall|at: CodeRef| #[trigger]
                    sampler_target(bundle, at) && at.before(next) implies targets@.contains(at) by {
                    assert(at.before(end));
                }
            }
        } else {
            proof {
                let here = CodeRef { pass: p, variant: 0, code: 0 };
                let next = CodeRef { pass: (p + 1) as usize, variant: 0, code: 0 };
                assert forall|at: CodeRef| #[trigger]
                    sampler_target(bundle, at) && at.before(next) implies targets@.contains(at) by {
                    assert(at.before(here));
                }
            }
        }
        p += 1;
    }
    proof {
        let end = CodeRef { pass: p, variant: 0, code: 0 };
        assert forall|at: CodeRef| #[trigger] sampler_target(bundle, at) implies targets@.contains(
            at,
        ) by {
            assert(at.before(end));
        }
    }
    targets
}

/// Puts the sampler macros in front of the entry point of a fragment
/// shader's source. A source without the entry point stays as it is.
pub fn disable_mipmaps(source: &mut Vec<u8>)
    ensures
        final(source)@ == inserted_before(old(source)@, sampler_marker(), sampler_macros()),
{
    proof {
        reveal_strlit("void main ()");
        reveal_strlit(
            "\n#if __VERSION__ >= 300\n #define texture(tex,uv) textureLod(tex,uv,0.0)\n#else\n #define texture2D(tex,uv) texture2DLod(tex,uv,0.0)\n#endif",
        );
    }
    add_bytes_before(
        source,
        ascii_bytes("void main ()"),
        ascii_bytes(
            "\n#if __VERSION__ >= 300\n #define texture(tex,uv) textureLod(tex,uv,0.0)\n#else\n #define texture2D(tex,uv) texture2DLod(tex,uv,0.0)\n#endif",
        ),
    );
}

/// Whether a bundle's lightmap code has to be fixed for this host.
pub open spec fn needs_lightmap_fix(host: HostVersionState, enabled: bool, name: Seq<u8>) -> bool {
    &&& host.is_1_21_100
    &&& name == ascii("RenderChunk") || name == ascii("RenderChunkPrepass")
    &&& enabled
}

/// Whether a bundle's samplers have to be fixed for this host. `version` is
/// the format version the bundle parsed under.
pub open spec fn needs_sampler_fix(
    host: HostVersionState,
    enabled: bool,
    version: MinecraftVersion,
    name: Seq<u8>,
) -> bool {
    &&& name == ascii("RenderChunk")
    &&& host.version.rank() >= MinecraftVersion::V1_20_80.rank()
    &&& version.rank() <= MinecraftVersion::V1_19_60.rank()
    &&& enabled
}

/// Whether a bundle that parsed under `version` is served as it is: it is
/// already in the host's format and no fix has anything to do on it. The
/// sampler fix has something to do wherever it applies, the lightmap fix
/// where it applies and counts some shader as changed. A bundle in another
/// format is always written out anew, in the host's.
pub open spec fn keeps_original(
    host: HostVersionState,
    lightmaps: bool,
    texturelods: bool,
    version: MinecraftVersion,
    bundle: BundleView,
    snippets: SnippetsView,
) -> bool {
    &&& version == host.version
    &&& !needs_sampler_fix(host, texturelods, version, bundle.name)
    &&& !needs_lightmap_fix(host, lightmaps, bundle.name) || !lightmap_changes(
        bundle,
        version,
        host.is_1_21_130,
        snippets,
    )
}

/// The bundle that is written out in place of `bundle`.
pub open spec fn rewritten_bundle(
    host: HostVersionState,
    lightmaps: bool,
    version: MinecraftVersion,
    bundle: BundleView,
    snippets: SnippetsView,
) -> BundleView {
    if needs_lightmap_fix(host, lightmaps, bundle.name) {
        lightmap_fixed(bundle, version, host.is_1_21_130, snippets)
    } else {
        bundle
    }
}

/// What becomes of a bundle that parsed.
pub enum FixOutcome {
    /// The original bytes are served.
    Unchanged,
    /// The bundle, as it now stands, is written out in the host's format,
    /// after the sources of the listed shaders went through
    /// `disable_mipmaps`.
    Rewrite(Vec<CodeRef>),
}

/// The lightmap fix changes nothing where it counts no shader as changed.
pub proof fn lemma_no_edit_no_change(
    bundle: BundleView,
    version: MinecraftVersion,
    packed: bool,
    snippets: SnippetsView,
)
    requires
        !lightmap_changes(bundle, version, packed, snippets),
    ensures
        lightmap_fixed(bundle, version, packed, snippets) == bundle,
{
    let fixed = lightmap_fixed(bundle, version, packed, snippets);
    lemma_edited_in_passes(bundle.passes, version, packed, snippets);
    assert forall|p: int| 0 <= p < bundle.passes.len() implies fixed.passes[p]
        == bundle.passes[p] by {
        let pass = bundle.passes[p];
        assert(!pass_edited(pass, version, packed, snippets));
        lemma_edited_in_variants(pass.variants, version, packed, snippets);
        assert forall|v: int| 0 <= v < pass.variants.len() implies fixed.passes[p].variants[v]
            == pass.variants[v] by {
            let codes = pass.variants[v];
            assert(!variant_edited(codes, version, packed, snippets));
            lemma_edited_in_variant(codes, version, packed, snippets);
            assert forall|c: int| 0 <= c < codes.len() implies fixed.passes[p].variants[v][c]
                == codes[c] by {
                assert(!lightmap_edits(codes[c], version, packed, snippets));
            }
            assert(fixed.passes[p].variants[v] =~= codes);
        }
        assert(fixed.passes[p].variants =~= pass.variants);
    }
    assert(fixed.passes =~= bundle.passes);
}

fn wants_lightmap_fix(host: &HostVersionState, enabled: bool, name: &[u8]) -> (yes: bool)
    ensures
        yes == needs_lightmap_fix(*host, enabled, name@),
{
    proof {
        reveal_strlit("RenderChunk");
        reveal_strlit("RenderChunkPrepass");
    }
    host.is_1_21_100 && (bytes_eq(name, ascii_bytes("RenderChunk")) || bytes_eq(
        name,
        ascii_bytes("RenderChunkPrepass"),
    )) && enabled
}

fn wants_sampler_fix(
    host: &HostVersionState,
    enabled: bool,
    version: MinecraftVersion,
    name: &[u8],
) -> (yes: bool)
    ensures
        yes == needs_sampler_fix(*host, enabled, version, name@),
{
    proof {
        reveal_strlit("RenderChunk");
    }
    bytes_eq(name, ascii_bytes("RenderChunk")) && host.version.at_least(
        MinecraftVersion::V1_20_80,
    ) && version.at_most(MinecraftVersion::V1_19_60) && enabled
}

/// Decides what becomes of a bundle that parsed under `version`, and applies
/// the lightmap fix to it where that is called for. The bundle is served as
/// it is only where it is in the host's format already and no fix changes
/// it; in every other case it is to be written out in the host's format.
pub fn fix_material(
    host: &HostVersionState,
    opts: &Options,
    snippets: &LightmapSnippets,
    version: MinecraftVersion,
    material: &mut ShaderBundle,
) -> (outcome: FixOutcome)
    ensures
        match outcome {
            FixOutcome::Unchanged => {
                &&& keeps_original(
                    *host,
                    opts.handle_lightmaps,
                    opts.handle_texturelods,
                    version,
                    old(material)@,
                    snippets@,
                )
                &&& final(material)@ == old(material)@
            },
            FixOutcome::Rewrite(targets) => {
                &&& !keeps_original(
                    *host,
                    opts.handle_lightmaps,
                    opts.handle_texturelods,
                    version,
                    old(material)@,
                    snippets@,
                )
                &&& final(material)@ == rewritten_bundle(
                    *host,
                    opts.handle_lightmaps,
                    version,
                    old(material)@,
                    snippets@,
                )
                &&& if needs_sampler_fix(*host, opts.handle_texturelods, version, old(material)@.name) {
                    lists_sampler_targets(targets@, final(material)@)
                } else {
                    targets@.len() == 0
                }
            },
        },
{
    let needs_lightmap_fix = wants_lightmap_fix(host, opts.handle_lightmaps, material.name.as_slice());
    let needs_sampler_fix = wants_sampler_fix(
        host,
        opts.handle_texturelods,
        version,
        material.name.as_slice(),
    );
    if version == host.version && !needs_lightmap_fix && !needs_sampler_fix {
        return FixOutcome::Unchanged;
    }
    if needs_lightmap_fix {
        let changed = handle_lightmaps(material, version, host.is_1_21_130, snippets);
        if changed == 0 && version == host.version && !needs_sampler_fix {
            proof {
                lemma_no_edit_no_change(old(material)@, version, host.is_1_21_130, snippets@);
            }
            return FixOutcome::Unchanged;
        }
    }
    let targets = if needs_sampler_fix {
        handle_samplers(material)
    } else {
        Vec::new()
    };
    FixOutcome::Rewrite(targets)
}

/// Where the fixer stands with one bundle.
#[derive(Clone, Copy, Debug, PartialEq, Eq, Structural)]
pub enum FixStage {
    /// Nothing was asked yet.
    Idle,
    /// A parse under one of the configured versions is awaited.
    Probing,
    /// The rewritten bundle is being written out.
    Writing,
    /// The result was handed out.
    Done,
}

/// The fixer for one bundle: it says what to try next and takes what came of
/// it, until it hands out the bytes to serve.
pub struct MaterialFixer {
    /// What is known of the host; `None` where detection failed.
    pub host: Option<HostVersionState>,
    pub opts: Options,
    pub snippets: LightmapSnippets,
    /// How many of the configured versions were handed out for parsing.
    pub cursor: usize,
    pub stage: FixStage,
}

/// What the caller reports to the fixer.
pub enum FixEvent {
    /// A bundle arrived.
    Start,
    /// The bundle does not parse under the version asked for.
    ParseFailed,
    /// The bundle under the version asked for.
    Parsed(ShaderBundle),
    /// The bundle could not be written out.
    WriteFailed,
    /// The bundle, written out.
    Written(Vec<u8>),
}

/// A bundle to write out.
pub struct WriteJob {
    /// The bundle, lightmap code fixed where that was called for.
    pub material: ShaderBundle,
    /// The shaders whose source goes through `disable_mipmaps` first.
    pub mipmap_targets: Vec<CodeRef>,
    /// The format version to write.
    pub target: MinecraftVersion,
}

/// What the fixer asks of its caller.
pub enum FixAction {
    /// Parse the bundle under this version and report `Parsed` or
    /// `ParseFailed`.
    Parse(MinecraftVersion),
    /// Write this bundle out and report `Written` or `WriteFailed`.
    Write(WriteJob),
    /// Serve these bytes; `None` stands for the bundle as it was loaded.
    Finish(Option<Vec<u8>>),
}

impl MaterialFixer {
    /// While probing, a version has been handed out and the host is known.
    pub open spec fn wf(&self) -> bool {
        self.stage == FixStage::Probing ==> self.host is Some && 1 <= self.cursor
            <= self.opts.autofixer_versions@.len()
    }

    /// The same settings in both.
    pub open spec fn same_setup(&self, other: &MaterialFixer) -> bool {
        &&& self.host == other.host
        &&& self.opts.handle_lightmaps == other.opts.handle_lightmaps
        &&& self.opts.handle_texturelods == other.opts.handle_texturelods
        &&& self.opts.autofixer_versions@ == other.opts.autofixer_versions@
        &&& self.snippets@ == other.snippets@
    }

    /// A fixer for one bundle.
    pub fn new(host: Option<HostVersionState>, opts: Options, snippets: LightmapSnippets) -> (fixer:
        Self)
        ensures
            fixer.host == host,
            fixer.opts == opts,
            fixer.snippets == snippets,
            fixer.cursor == 0,
            fixer.stage == FixStage::Idle,
            fixer.wf(),
    {
        MaterialFixer { host, opts, snippets, cursor: 0, stage: FixStage::Idle }
    }

    /// The step after `tried` versions failed to parse: the next configured
    /// version, or the end where none is left or the host is unknown.
    pub open spec fn probes(&self, tried: nat, after: &MaterialFixer, action: FixAction) -> bool {
        if self.host is Some && tried < self.opts.autofixer_versions@.len() {
            &&& action == FixAction::Parse(self.opts.autofixer_versions@[tried as int])
            &&& after.stage == FixStage::Probing
            &&& after.cursor == tried + 1
        } else {
            &&& action == FixAction::Finish(None)
            &&& after.stage == FixStage::Done
        }
    }

    /// The step after the bundle parsed under the version last handed out.
    pub open spec fn decides(
        &self,
        bundle: BundleView,
        after: &MaterialFixer,
        action: FixAction,
    ) -> bool {
        let host = self.host.unwrap();
        let version = self.opts.autofixer_versions@[self.cursor - 1];
        if keeps_original(
            host,
            self.opts.handle_lightmaps,
            self.opts.handle_texturelods,
            version,
            bundle,
            self.snippets@,
        ) {
            &&& action == FixAction::Finish(None)
            &&& after.stage == FixStage::Done
        } else {
            &&& after.stage == FixStage::Writing
            &&& action matches FixAction::Write(job)
            &&& job.target == host.version
            &&& job.material@ == rewritten_bundle(
                host,
                self.opts.handle_lightmaps,
                version,
                bundle,
                self.snippets@,
            )
            &&& if needs_sampler_fix(host, self.opts.handle_texturelods, version, bundle.name) {
                lists_sampler_targets(job.mipmap_targets@, job.material@)
            } else {
                job.mipmap_targets@.len() == 0
            }
        }
    }

    fn probe(&mut self, tried: usize) -> (action: FixAction)
        ensures
            final(self).wf(),
            final(self).same_setup(old(self)),
            old(self).probes(tried as nat, final(self), action),
    {
        if self.host.is_some() && tried < self.opts.autofixer_versions.len() {
            self.stage = FixStage::Probing;
            self.cursor = tried + 1;
            FixAction::Parse(self.opts.autofixer_versions[tried])
        } else {
            self.stage = FixStage::Done;
            FixAction::Finish(None)
        }
    }
}

/// Runs the fixer one step: takes what came of the last action and says
/// what to do next.
///
/// The configured versions are tried in order and the first under which the
/// bundle parses decides: the bundle is served as it was loaded where it is
/// in the host's format and no fix changes it, and is written out in the
/// host's format in every other case. An unknown host, a bundle that parses
/// under no version, a failed write, an event that does not answer the last
/// action and a fixer that is not well formed all end with the bundle served
/// as it was loaded.
pub fn process_material(fixer: &mut MaterialFixer, event: FixEvent) -> (action: FixAction)
    ensures
        final(fixer).wf(),
        final(fixer).same_setup(old(fixer)),
        match (old(fixer).stage, event) {
            (FixStage::Idle, FixEvent::Start) => old(fixer).probes(0, final(fixer), action),
            (FixStage::Probing, FixEvent::ParseFailed) => old(fixer).probes(
                old(fixer).cursor as nat,
                final(fixer),
                action,
            ),
            (FixStage::Probing, FixEvent::Parsed(bundle)) => if old(fixer).wf() {
                old(fixer).decides(bundle@, final(fixer), action)
            } else {
                &&& action == FixAction::Finish(None)
                &&& final(fixer).stage == FixStage::Done
            },
            (FixStage::Writing, FixEvent::Written(bytes)) => {
                &&& action == FixAction::Finish(Some(bytes))
                &&& final(fixer).stage == FixStage::Done
            },
            _ => {
                &&& action == FixAction::Finish(None)
                &&& final(fixer).stage == FixStage::Done
            },
        },
{
    match (fixer.stage, event) {
        (FixStage::Idle, FixEvent::Start) => fixer.probe(0),
        (FixStage::Probing, FixEvent::ParseFailed) => {
            let tried = fixer.cursor;
            fixer.probe(tried)
        },
        (FixStage::Probing, FixEvent::Parsed(bundle)) => {
            let mut material = bundle;
            let host = match fixer.host {
                Some(host) => host,
                None => {
                    fixer.stage = FixStage::Done;
                    return FixAction::Finish(None);
                },
            };
            if fixer.cursor == 0 || fixer.cursor > fixer.opts.autofixer_versions.len() {
                fixer.stage = FixStage::Done;
                return FixAction::Finish(None);
            }
            let version = fixer.opts.autofixer_versions[fixer.cursor - 1];
            match fix_material(&host, &fixer.opts, &fixer.snippets, version, &mut material) {
                FixOutcome::Unchanged => {
                    fixer.stage = FixStage::Done;
                    FixAction::Finish(None)
                },
                FixOutcome::Rewrite(mipmap_targets) => {
                    fixer.stage = FixStage::Writing;
                    FixAction::Write(WriteJob { material, mipmap_targets, target: host.version })
                },
            }
        },
        (FixStage::Writing, FixEvent::Written(bytes)) => {
            fixer.stage = FixStage::Done;
            FixAction::Finish(Some(bytes))
        },
        _ => {
            fixer.stage = FixStage::Done;
            FixAction::Finish(None)
        },
    }
}

/// Where detection of the host's version stands.
#[derive(Clone, Copy, Debug, PartialEq, Eq, Structural)]
pub enum DetectStage {
    /// Nothing was asked yet.
    Idle,
    /// A parse under one of the known versions is awaited.
    Probing,
    /// The result was handed out.
    Done,
}

/// Detection of the host's version from the host's own `RenderChunk` bundle.
pub struct VersionDetector {
    /// How many of the known versions were handed out for parsing.
    pub cursor: usize,
    pub stage: DetectStage,
}

/// What the caller reports to the detector.
#[derive(Clone, Copy, Debug, PartialEq, Eq, Structural)]
pub enum DetectEvent {
    /// The host's bundle was read.
    Start,
    /// The bundle does not parse under the version asked for.
    ParseFailed,
    /// The bundle parses under the version asked for.
    Parsed,
}

/// What the detector asks of its caller.
#[derive(Clone, Copy, Debug, PartialEq, Eq, Structural)]
pub enum DetectAction {
    /// Parse the host's bundle under this version and report `Parsed` or
    /// `ParseFailed`.
    Parse(MinecraftVersion),
    /// Detection is over; `None` where the bundle parses under no version.
    Finish(Option<HostVersionState>),
}

/// The `tried`-th version that detection tries: the newest comes first.
pub open spec fn detection_order(tried: int) -> MinecraftVersion {
    all_versions()[all_versions().len() - 1 - tried]
}

/// What a host is taken to be whose bundle `buf` parses under `version`: the
/// two flags say whether the bundle's text holds the marks of release
/// 1.21.100 and of release 1.21.130.
pub open spec fn host_state(buf: Seq<u8>, version: MinecraftVersion) -> HostVersionState {
    HostVersionState {
        version,
        is_1_21_100: occurs(buf, ascii("v_dithering")),
        is_1_21_130: occurs(buf, ascii("a_texcoord1 * 65535.0")),
    }
}

impl VersionDetector {
    /// While probing, a version has been handed out.
    pub open spec fn wf(&self) -> bool {
        self.stage == DetectStage::Probing ==> 1 <= self.cursor <= all_versions().len()
    }

    /// A detector that has not started.
    pub fn new() -> (detector: Self)
        ensures
            detector.cursor == 0,
            detector.stage == DetectStage::Idle,
            detector.wf(),
    {
        VersionDetector { cursor: 0, stage: DetectStage::Idle }
    }

    /// The step after `tried` versions failed to parse.
    pub open spec fn probes(tried: nat, after: &VersionDetector, action: DetectAction) -> bool {
        if tried < all_versions().len() {
            &&& action == DetectAction::Parse(detection_order(tried as int))
            &&& after.stage == DetectStage::Probing
            &&& after.cursor == tried + 1
        } else {
            &&& action == DetectAction::Finish(None)
            &&& after.stage == DetectStage::Done
        }
    }

    fn probe(&mut self, tried: usize) -> (action: DetectAction)
        ensures
            final(self).wf(),
            Self::probes(tried as nat, final(self), action),
    {
        let newest_first = [
            MinecraftVersion::V1_21_110,
            MinecraftVersion::V1_21_20,
            MinecraftVersion::V1_20_80,
            MinecraftVersion::V1_19_60,
            MinecraftVersion::V1_18_30,
        ];
        if tried < 5 {
            self.stage = DetectStage::Probing;
            self.cursor = tried + 1;
            DetectAction::Parse(newest_first[tried])
        } else {
            self.stage = DetectStage::Done;
            DetectAction::Finish(None)
        }
    }
}

/// The paths under which the host keeps its own `RenderChunk` bundle, in the
/// order they are tried.
pub open spec fn uitext_paths() -> Seq<&'static str> {
    seq![
        "assets/renderer/materials/RenderChunk.material.bin",
        "renderer/materials/RenderChunk.material.bin",
    ]
}

/// The path to try after `attempt` paths were not there; `None` when all
/// were tried.
pub fn get_uitext(attempt: usize) -> (path: Option<&'static str>)
    ensures
        path == if attempt < uitext_paths().len() {
            Some(uitext_paths()[attempt as int])
        } else {
            None
        },
{
    if attempt == 0 {
        Some("assets/renderer/materials/RenderChunk.material.bin")
    } else if attempt == 1 {
        Some("renderer/materials/RenderChunk.material.bin")
    } else {
        None
    }
}

/// Runs detection one step over the host's own bundle `buf`.
///
/// The known versions are tried newest first; the first under which the
/// bundle parses is the host's, and the bundle's text then tells the two
/// release flags. A bundle that parses under no version, an event that does
/// not answer the last action, and a detector that is not well formed leave
/// the host unknown.
pub fn get_current_mcver(detector: &mut VersionDetector, buf: &[u8], event: DetectEvent) -> (action:
    DetectAction)
    ensures
        final(detector).wf(),
        match (old(detector).stage, event) {
            (DetectStage::Idle, DetectEvent::Start) => VersionDetector::probes(
                0,
                final(detector),
                action,
            ),
            (DetectStage::Probing, DetectEvent::ParseFailed) => VersionDetector::probes(
                old(detector).cursor as nat,
                final(detector),
                action,
            ),
            (DetectStage::Probing, DetectEvent::Parsed) => {
                &&& action == DetectAction::Finish(
                    if old(detector).wf() {
                        Some(host_state(buf@, detection_order(old(detector).cursor - 1)))
                    } else {
                        None
                    },
                )
                &&& final(detector).stage == DetectStage::Done
            },
            _ => {
                &&& action == DetectAction::Finish(None)
                &&& final(detector).stage == DetectStage::Done
            },
        },
{
    match (detector.stage, event) {
        (DetectStage::Idle, DetectEvent::Start) => detector.probe(0),
        (DetectStage::Probing, DetectEvent::ParseFailed) => {
            let tried = detector.cursor;
            detector.probe(tried)
        },
        (DetectStage::Probing, DetectEvent::Parsed) => {
            proof {
                reveal_strlit("v_dithering");
                reveal_strlit("a_texcoord1 * 65535.0");
            }
            let version = match detector.cursor {
                1 => MinecraftVersion::V1_21_110,
                2 => MinecraftVersion::V1_21_20,
                3 => MinecraftVersion::V1_20_80,
                4 => MinecraftVersion::V1_19_60,
                5 => MinecraftVersion::V1_18_30,
                _ => {
                    detector.stage = DetectStage::Done;
                    return DetectAction::Finish(None);
                },
            };
            let is_1_21_100 = contains(buf, ascii_bytes("v_dithering"));
            let is_1_21_130 = contains(buf, ascii_bytes("a_texcoord1 * 65535.0"));
            detector.stage = DetectStage::Done;
            DetectAction::Finish(Some(HostVersionState { version, is_1_21_100, is_1_21_130 }))
        },
        _ => {
            detector.stage = DetectStage::Done;
            DetectAction::Finish(None)
        },
    }
}

/// A bundle in the host's own format that no fix applies to is served as it
/// was loaded: the fixer ends without asking for a write.
pub proof fn lemma_same_version_no_fix_is_no_change(
    fixer: MaterialFixer,
    bundle: BundleView,
    after: MaterialFixer,
    action: FixAction,
)
    requires
        fixer.wf(),
        fixer.stage == FixStage::Probing,
        fixer.opts.autofixer_versions@[fixer.cursor - 1] == fixer.host.unwrap().version,
        !needs_lightmap_fix(fixer.host.unwrap(), fixer.opts.handle_lightmaps, bundle.name),
        !needs_sampler_fix(
            fixer.host.unwrap(),
            fixer.opts.handle_texturelods,
            fixer.host.unwrap().version,
            bundle.name,
        ),
        fixer.decides(bundle, &after, action),
    ensures
        action == FixAction::Finish(None),
        after.stage == FixStage::Done,
{
}

/// A bundle that parsed under another version than the host's is written
/// out in the host's format, whether or not a fix changed any of it; once
/// that is done the written bytes are what is served.
pub proof fn lemma_other_version_is_rewritten(
    fixer: MaterialFixer,
    bundle: BundleView,
    after: MaterialFixer,
    action: FixAction,
)
    requires
        fixer.wf(),
        fixer.stage == FixStage::Probing,
        fixer.opts.autofixer_versions@[fixer.cursor - 1] != fixer.host.unwrap().version,
        fixer.decides(bundle, &after, action),
    ensures
        after.stage == FixStage::Writing,
        action matches FixAction::Write(job) && job.target == fixer.host.unwrap().version
            && job.material@ == rewritten_bundle(
            fixer.host.unwrap(),
            fixer.opts.handle_lightmaps,
            fixer.opts.autofixer_versions@[fixer.cursor - 1],
            bundle,
            fixer.snippets@,
        ),
        !needs_lightmap_fix(fixer.host.unwrap(), fixer.opts.handle_lightmaps, bundle.name)
            || !lightmap_changes(
            bundle,
            fixer.opts.autofixer_versions@[fixer.cursor - 1],
            fixer.host.unwrap().is_1_21_130,
            fixer.snippets@,
        ) ==> (action matches FixAction::Write(job) && job.material@ == bundle),
{
    if needs_lightmap_fix(fixer.host.unwrap(), fixer.opts.handle_lightmaps, bundle.name)
        && !lightmap_changes(
        bundle,
        fixer.opts.autofixer_versions@[fixer.cursor - 1],
        fixer.host.unwrap().is_1_21_130,
        fixer.snippets@,
    ) {
        lemma_no_edit_no_change(
            bundle,
            fixer.opts.autofixer_versions@[fixer.cursor - 1],
            fixer.host.unwrap().is_1_21_130,
            fixer.snippets@,
        );
    }
}

/// On a host from 1.21.100 on, a vertex shader for OpenGL ES that still
/// assigns the lightmap coordinate the old way gets the definition that fits
/// the host spliced in just before its entry point: the text up to the entry
/// point, the definition, then the entry point and the rest as they were.
/// Code for another stage or platform stays byte for byte.
pub proof fn lemma_legacy_lightmap_fixed(
    code: CodeView,
    version: MinecraftVersion,
    packed: bool,
    snippets: SnippetsView,
    other: CodeView,
)
    requires
        lightmap_target(code),
        has_legacy_assign(code.blob),
        !lightmap_target(other),
    ensures
        lightmap_fixed_code(code, version, packed, snippets).blob == inserted_before(
            code.blob,
            main_marker(),
            if packed {
                snippets.from_10023_to_13028
            } else {
                snippets.from_10023_to_11020
            },
        ),
        forall|at: int| #[trigger]
            crate::bytes::is_first_occurrence(code.blob, main_marker(), at) ==> lightmap_fixed_code(
                code,
                version,
                packed,
                snippets,
            ).blob == code.blob.subrange(0, at) + (if packed {
                snippets.from_10023_to_13028
            } else {
                snippets.from_10023_to_11020
            }) + code.blob.subrange(at, code.blob.len() as int),
        lightmap_fixed_code(code, version, packed, snippets).stage == code.stage,
        lightmap_fixed_code(code, version, packed, snippets).platform == code.platform,
        lightmap_fixed_code(code, version, packed, snippets).platform_name == code.platform_name,
        lightmap_fixed_code(other, version, packed, snippets) == other,
{
    crate::bytes::lemma_first_occurrence(code.blob, main_marker());
}

/// The lightmap fix keeps the shape of a bundle: the same passes under the
/// same names, the same variants, and in each the same code with the same
/// tags; a pass none of whose shaders is counted as changed stays as it was.
pub proof fn lemma_lightmap_fix_keeps_shape(
    bundle: BundleView,
    version: MinecraftVersion,
    packed: bool,
    snippets: SnippetsView,
    p: int,
)
    requires
        0 <= p < bundle.passes.len(),
    ensures
        lightmap_fixed(bundle, version, packed, snippets).name == bundle.name,
        lightmap_fixed(bundle, version, packed, snippets).passes.len() == bundle.passes.len(),
        lightmap_fixed(bundle, version, packed, snippets).passes[p].name == bundle.passes[p].name,
        lightmap_fixed(bundle, version, packed, snippets).passes[p].variants.len()
            == bundle.passes[p].variants.len(),
        !pass_edited(bundle.passes[p], version, packed, snippets) ==> lightmap_fixed(
            bundle,
            version,
            packed,
            snippets,
        ).passes[p] == bundle.passes[p],
{
    if !pass_edited(bundle.passes[p], version, packed, snippets) {
        let pass = bundle.passes[p];
        let fixed = lightmap_fixed_pass(pass, version, packed, snippets);
        lemma_edited_in_variants(pass.variants, version, packed, snippets);
        assert forall|v: int| 0 <= v < pass.variants.len() implies fixed.variants[v]
            == pass.variants[v] by {
            let codes = pass.variants[v];
            assert(!variant_edited(codes, version, packed, snippets));
            lemma_edited_in_variant(codes, version, packed, snippets);
            assert forall|c: int| 0 <= c < codes.len() implies fixed.variants[v][c] == codes[c] by {
                assert(!lightmap_edits(codes[c], version, packed, snippets));
            }
            assert(fixed.variants[v] =~= codes);
        }
        assert(fixed.variants =~= pass.variants);
    }
}

} // verus!
