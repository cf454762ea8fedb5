use mbl2::autofixer::{
    disable_mipmaps, fix_material, get_current_mcver, handle_lightmaps, handle_samplers,
    process_material, DetectAction, DetectEvent, FixAction, FixEvent, FixOutcome, FixStage,
    LightmapSnippets, MaterialFixer, VersionDetector,
};
use mbl2::jniopts::Options;
use mbl2::material::{CodeRef, Pass, ShaderBundle, ShaderCode, ShaderCodePlatform, ShaderStage, Variant};
use mbl2::version::{HostVersionState, MinecraftVersion};

fn snippets() -> LightmapSnippets {
    LightmapSnippets {
        from_10023_to_11020: b"<A>".to_vec(),
        from_10023_to_13028: b"<B>".to_vec(),
        from_11020_to_13028: b"<C>".to_vec(),
    }
}

fn code(stage: ShaderStage, platform: ShaderCodePlatform, name: &[u8], blob: &[u8]) -> ShaderCode {
    ShaderCode { stage, platform, platform_name: name.to_vec(), bgfx_shader_data: blob.to_vec() }
}

fn vertex(blob: &[u8]) -> ShaderCode {
    code(ShaderStage::Vertex, ShaderCodePlatform::Essl300, b"ESSL_300", blob)
}

fn bundle(name: &[u8], passes: Vec<(&[u8], Vec<Vec<ShaderCode>>)>) -> ShaderBundle {
    ShaderBundle {
        name: name.to_vec(),
        passes: passes
            .into_iter()
            .map(|(pass, variants)| Pass {
                name: pass.to_vec(),
                variants: variants.into_iter().map(|codes| Variant { shader_codes: codes }).collect(),
            })
            .collect(),
    }
}

fn blob(material: &ShaderBundle, pass: usize, variant: usize, code: usize) -> Vec<u8> {
    material.passes[pass].variants[variant].shader_codes[code].bgfx_shader_data.clone()
}

fn host(version: MinecraftVersion, is_1_21_100: bool, is_1_21_130: bool) -> HostVersionState {
    HostVersionState { version, is_1_21_100, is_1_21_130 }
}

const LEGACY: &[u8] = b"#version 300\nv_lightmapUV = a_texcoord1;\nvoid main() {}";
const LEGACY_TIGHT: &[u8] = b"v_lightmapUV=a_texcoord1; void main() {}";
const MODERN: &[u8] = b"vec2 uv = f(a_texcoord1); void main() {}";
const PACKED: &[u8] = b"vec2 uv = a_texcoord1 * 65535.0; void main() {}";
const PACKED_OTHER: &[u8] = b"vec2 uv = g(vec2(256.0, 4096.0)); void main() {}";

#[test]
fn legacy_shader_on_a_host_before_130_gets_the_first_snippet() {
    let mut material = bundle(b"RenderChunk", vec![(&b"Opaque"[..], vec![vec![vertex(LEGACY)]])]);
    let changed = handle_lightmaps(&mut material, MinecraftVersion::V1_20_80, false, &snippets());
    assert_eq!(changed, 1);
    assert_eq!(
        blob(&material, 0, 0, 0),
        b"#version 300\nv_lightmapUV = a_texcoord1;\n<A>void main() {}".to_vec()
    );
}

#[test]
fn legacy_shader_on_a_host_from_130_gets_the_second_snippet() {
    let mut material =
        bundle(b"RenderChunk", vec![(&b"Opaque"[..], vec![vec![vertex(LEGACY_TIGHT)]])]);
    let changed = handle_lightmaps(&mut material, MinecraftVersion::V1_21_110, true, &snippets());
    assert_eq!(changed, 1);
    assert_eq!(blob(&material, 0, 0, 0), b"v_lightmapUV=a_texcoord1; <B>void main() {}".to_vec());
}

#[test]
fn modern_shader_on_a_host_from_130_gets_the_third_snippet() {
    let mut material = bundle(b"RenderChunk", vec![(&b"Opaque"[..], vec![vec![vertex(MODERN)]])]);
    let changed = handle_lightmaps(&mut material, MinecraftVersion::V1_21_110, true, &snippets());
    assert_eq!(changed, 1);
    assert_eq!(blob(&material, 0, 0, 0), b"vec2 uv = f(a_texcoord1); <C>void main() {}".to_vec());
}

#[test]
fn modern_shader_on_a_host_before_130_is_left_alone() {
    let mut material = bundle(b"RenderChunk", vec![(&b"Opaque"[..], vec![vec![vertex(MODERN)]])]);
    let changed = handle_lightmaps(&mut material, MinecraftVersion::V1_21_110, false, &snippets());
    assert_eq!(changed, 0);
    assert_eq!(blob(&material, 0, 0, 0), MODERN.to_vec());
}

#[test]
fn packed_shader_of_the_newest_format_is_left_alone() {
    for text in [PACKED, PACKED_OTHER] {
        let mut material = bundle(b"RenderChunk", vec![(&b"Opaque"[..], vec![vec![vertex(text)]])]);
        let changed = handle_lightmaps(&mut material, MinecraftVersion::V1_21_110, true, &snippets());
        assert_eq!(changed, 0);
        assert_eq!(blob(&material, 0, 0, 0), text.to_vec());
    }
}

#[test]
fn packed_shader_of_an_older_format_still_gets_the_third_snippet() {
    let mut material = bundle(b"RenderChunk", vec![(&b"Opaque"[..], vec![vec![vertex(PACKED)]])]);
    let changed = handle_lightmaps(&mut material, MinecraftVersion::V1_21_20, true, &snippets());
    assert_eq!(changed, 1);
    assert_eq!(
        blob(&material, 0, 0, 0),
        b"vec2 uv = a_texcoord1 * 65535.0; <C>void main() {}".to_vec()
    );
}

#[test]
fn only_vertex_code_for_opengl_es_is_touched() {
    let mut material = bundle(
        b"RenderChunk",
        vec![
            (
                &b"Opaque"[..],
                vec![vec![
                    code(ShaderStage::Fragment, ShaderCodePlatform::Essl300, b"ESSL_300", LEGACY),
                    code(ShaderStage::Vertex, ShaderCodePlatform::Other, b"Vulkan", LEGACY),
                    code(ShaderStage::Other, ShaderCodePlatform::Essl100, b"ESSL_100", LEGACY),
                    code(ShaderStage::Vertex, ShaderCodePlatform::Essl100, b"ESSL_100", LEGACY),
                ]],
            ),
            (&b"Transparent"[..], vec![vec![], vec![vertex(LEGACY)]]),
        ],
    );
    let changed = handle_lightmaps(&mut material, MinecraftVersion::V1_20_80, false, &snippets());
    assert_eq!(changed, 2);
    assert_eq!(blob(&material, 0, 0, 0), LEGACY.to_vec());
    assert_eq!(blob(&material, 0, 0, 1), LEGACY.to_vec());
    assert_eq!(blob(&material, 0, 0, 2), LEGACY.to_vec());
    let fixed = b"#version 300\nv_lightmapUV = a_texcoord1;\n<A>void main() {}".to_vec();
    assert_eq!(blob(&material, 0, 0, 3), fixed);
    assert_eq!(blob(&material, 1, 1, 0), fixed);
    assert_eq!(material.name, b"RenderChunk".to_vec());
    assert_eq!(material.passes.len(), 2);
    assert_eq!(material.passes[0].name, b"Opaque".to_vec());
    assert_eq!(material.passes[1].name, b"Transparent".to_vec());
    assert_eq!(material.passes[1].variants.len(), 2);
    assert_eq!(material.passes[1].variants[0].shader_codes.len(), 0);
    assert_eq!(material.passes[0].variants[0].shader_codes[3].platform_name, b"ESSL_100".to_vec());
}

#[test]
fn a_shader_without_entry_point_counts_as_changed_but_stays() {
    let text = b"v_lightmapUV = a_texcoord1;";
    let mut material = bundle(b"RenderChunk", vec![(&b"Opaque"[..], vec![vec![vertex(text)]])]);
    let changed = handle_lightmaps(&mut material, MinecraftVersion::V1_20_80, false, &snippets());
    assert_eq!(changed, 1);
    assert_eq!(blob(&material, 0, 0, 0), text.to_vec());
}

#[test]
fn an_empty_bundle_has_nothing_to_change() {
    let mut material = bundle(b"RenderChunk", vec![]);
    assert_eq!(handle_lightmaps(&mut material, MinecraftVersion::V1_20_80, true, &snippets()), 0);
    assert!(handle_samplers(&material).is_empty());
}

#[test]
fn sampler_targets_are_listed_in_order() {
    let frag = || code(ShaderStage::Fragment, ShaderCodePlatform::Essl100, b"ESSL_100", b"x");
    let material = bundle(
        b"RenderChunk",
        vec![
            (&b"Transparent"[..], vec![vec![frag()]]),
            (
                &b"AlphaTest"[..],
                vec![
                    vec![
                        code(ShaderStage::Vertex, ShaderCodePlatform::Essl100, b"ESSL_100", b"x"),
                        frag(),
                    ],
                    vec![
                        frag(),
                        code(ShaderStage::Fragment, ShaderCodePlatform::Essl300, b"ESSL_300", b"x"),
                        frag(),
                    ],
                ],
            ),
            (&b"Opaque"[..], vec![vec![], vec![frag()]]),
            (&b"opaque"[..], vec![vec![frag()]]),
        ],
    );
    assert_eq!(
        handle_samplers(&material),
        vec![
            CodeRef { pass: 1, variant: 0, code: 1 },
            CodeRef { pass: 1, variant: 1, code: 0 },
            CodeRef { pass: 1, variant: 1, code: 2 },
            CodeRef { pass: 2, variant: 1, code: 0 },
        ]
    );
}

#[test]
fn sampler_target_goes_by_the_platform_name() {
    let material = bundle(
        b"RenderChunk",
        vec![(
            &b"Opaque"[..],
            vec![vec![
                code(ShaderStage::Fragment, ShaderCodePlatform::Other, b"ESSL_100", b"x"),
                code(ShaderStage::Fragment, ShaderCodePlatform::Essl100, b"ESSL_1000", b"x"),
            ]],
        )],
    );
    assert_eq!(handle_samplers(&material), vec![CodeRef { pass: 0, variant: 0, code: 0 }]);
}

#[test]
fn mipmap_macros_go_before_the_entry_point() {
    let mut source = b"precision highp float;\nvoid main ()\n{\n}\n".to_vec();
    disable_mipmaps(&mut source);
    let expected = "precision highp float;\n\n#if __VERSION__ >= 300\n #define texture(tex,uv) textureLod(tex,uv,0.0)\n#else\n #define texture2D(tex,uv) texture2DLod(tex,uv,0.0)\n#endifvoid main ()\n{\n}\n";
    assert_eq!(source, expected.as_bytes().to_vec());
}

#[test]
fn mipmap_macros_need_the_exact_entry_point() {
    let mut source = b"void main() {}".to_vec();
    disable_mipmaps(&mut source);
    assert_eq!(source, b"void main() {}".to_vec());
}

fn outcome_targets(outcome: FixOutcome) -> Option<Vec<CodeRef>> {
    match outcome {
        FixOutcome::Unchanged => None,
        FixOutcome::Rewrite(targets) => Some(targets),
    }
}

#[test]
fn bundle_in_the_hosts_format_without_fix_is_unchanged() {
    let opts = Options::default();
    let mut material = bundle(b"Sky", vec![(&b"Opaque"[..], vec![vec![vertex(LEGACY)]])]);
    let outcome = fix_material(
        &host(MinecraftVersion::V1_21_20, true, true),
        &opts,
        &snippets(),
        MinecraftVersion::V1_21_20,
        &mut material,
    );
    assert!(outcome_targets(outcome).is_none());
    assert_eq!(blob(&material, 0, 0, 0), LEGACY.to_vec());
}

#[test]
fn bundle_of_another_format_is_rewritten_even_without_fix() {
    let opts = Options::default();
    let mut material = bundle(b"Sky", vec![(&b"Opaque"[..], vec![vec![vertex(LEGACY)]])]);
    let outcome = fix_material(
        &host(MinecraftVersion::V1_21_20, true, true),
        &opts,
        &snippets(),
        MinecraftVersion::V1_20_80,
        &mut material,
    );
    assert_eq!(outcome_targets(outcome), Some(vec![]));
    assert_eq!(blob(&material, 0, 0, 0), LEGACY.to_vec());
}

#[test]
fn render_chunk_in_the_hosts_format_gets_its_lightmaps_fixed() {
    let opts = Options::default();
    for name in [&b"RenderChunk"[..], &b"RenderChunkPrepass"[..]] {
        let mut material = bundle(name, vec![(&b"Opaque"[..], vec![vec![vertex(LEGACY)]])]);
        let outcome = fix_material(
            &host(MinecraftVersion::V1_21_20, true, false),
            &opts,
            &snippets(),
            MinecraftVersion::V1_21_20,
            &mut material,
        );
        assert_eq!(outcome_targets(outcome), Some(vec![]));
        assert_eq!(
            blob(&material, 0, 0, 0),
            b"#version 300\nv_lightmapUV = a_texcoord1;\n<A>void main() {}".to_vec()
        );
    }
}

#[test]
fn lightmap_fix_that_finds_nothing_keeps_a_bundle_in_the_hosts_format() {
    let opts = Options::default();
    let mut material = bundle(b"RenderChunk", vec![(&b"Opaque"[..], vec![vec![vertex(MODERN)]])]);
    let outcome = fix_material(
        &host(MinecraftVersion::V1_21_110, true, false),
        &opts,
        &snippets(),
        MinecraftVersion::V1_21_110,
        &mut material,
    );
    assert!(outcome_targets(outcome).is_none());
    assert_eq!(blob(&material, 0, 0, 0), MODERN.to_vec());
}

#[test]
fn lightmap_fix_that_finds_nothing_still_has_another_format_rewritten() {
    let opts = Options::default();
    let mut material = bundle(b"RenderChunk", vec![(&b"Opaque"[..], vec![vec![vertex(MODERN)]])]);
    let outcome = fix_material(
        &host(MinecraftVersion::V1_21_110, true, false),
        &opts,
        &snippets(),
        MinecraftVersion::V1_20_80,
        &mut material,
    );
    assert_eq!(outcome_targets(outcome), Some(vec![]));
    assert_eq!(blob(&material, 0, 0, 0), MODERN.to_vec());
}

#[test]
fn lightmap_fix_that_finds_nothing_does_not_stop_the_sampler_fix() {
    let opts = Options::default();
    let frag = code(ShaderStage::Fragment, ShaderCodePlatform::Essl100, b"ESSL_100", b"void main ()");
    let mut material =
        bundle(b"RenderChunk", vec![(&b"Opaque"[..], vec![vec![vertex(MODERN), frag]])]);
    let outcome = fix_material(
        &host(MinecraftVersion::V1_21_110, true, false),
        &opts,
        &snippets(),
        MinecraftVersion::V1_19_60,
        &mut material,
    );
    assert_eq!(outcome_targets(outcome), Some(vec![CodeRef { pass: 0, variant: 0, code: 1 }]));
    assert_eq!(blob(&material, 0, 0, 0), MODERN.to_vec());
}

#[test]
fn lightmap_fix_needs_a_host_from_100_and_the_switch() {
    let mut opts = Options::default();
    let mut material = bundle(b"RenderChunk", vec![(&b"Opaque"[..], vec![vec![vertex(LEGACY)]])]);
    let outcome = fix_material(
        &host(MinecraftVersion::V1_21_20, false, false),
        &opts,
        &snippets(),
        MinecraftVersion::V1_21_20,
        &mut material,
    );
    assert!(outcome_targets(outcome).is_none());
    opts.handle_lightmaps = false;
    let outcome = fix_material(
        &host(MinecraftVersion::V1_21_20, true, false),
        &opts,
        &snippets(),
        MinecraftVersion::V1_21_20,
        &mut material,
    );
    assert!(outcome_targets(outcome).is_none());
    assert_eq!(blob(&material, 0, 0, 0), LEGACY.to_vec());
}

#[test]
fn old_render_chunk_on_a_new_host_gets_its_samplers_listed() {
    let mut opts = Options::default();
    let frag = || code(ShaderStage::Fragment, ShaderCodePlatform::Essl100, b"ESSL_100", b"void main ()");
    let make = || bundle(b"RenderChunk", vec![(&b"Opaque"[..], vec![vec![frag()]])]);
    let mut material = make();
    let outcome = fix_material(
        &host(MinecraftVersion::V1_20_80, false, false),
        &opts,
        &snippets(),
        MinecraftVersion::V1_19_60,
        &mut material,
    );
    assert_eq!(outcome_targets(outcome), Some(vec![CodeRef { pass: 0, variant: 0, code: 0 }]));
    assert_eq!(blob(&material, 0, 0, 0), b"void main ()".to_vec());

    let mut material = make();
    let outcome = fix_material(
        &host(MinecraftVersion::V1_19_60, false, false),
        &opts,
        &snippets(),
        MinecraftVersion::V1_18_30,
        &mut material,
    );
    assert_eq!(outcome_targets(outcome), Some(vec![]));

    let mut material = make();
    let outcome = fix_material(
        &host(MinecraftVersion::V1_21_20, false, false),
        &opts,
        &snippets(),
        MinecraftVersion::V1_20_80,
        &mut material,
    );
    assert_eq!(outcome_targets(outcome), Some(vec![]));

    opts.handle_texturelods = false;
    let mut material = make();
    let outcome = fix_material(
        &host(MinecraftVersion::V1_20_80, false, false),
        &opts,
        &snippets(),
        MinecraftVersion::V1_19_60,
        &mut material,
    );
    assert_eq!(outcome_targets(outcome), Some(vec![]));
}

fn fixer(host_state: Option<HostVersionState>, versions: Vec<MinecraftVersion>) -> MaterialFixer {
    let mut opts = Options::default();
    opts.autofixer_versions = versions;
    MaterialFixer::new(host_state, opts, snippets())
}

fn expect_parse(action: FixAction) -> MinecraftVersion {
    match action {
        FixAction::Parse(version) => version,
        _ => panic!("no parse asked for"),
    }
}

fn expect_finish(action: FixAction) -> Option<Vec<u8>> {
    match action {
        FixAction::Finish(bytes) => bytes,
        _ => panic!("not finished"),
    }
}

#[test]
fn fixer_tries_the_versions_in_order_and_gives_up_at_the_end() {
    let mut f = fixer(
        Some(host(MinecraftVersion::V1_21_20, true, false)),
        vec![MinecraftVersion::V1_21_20, MinecraftVersion::V1_18_30],
    );
    assert_eq!(expect_parse(process_material(&mut f, FixEvent::Start)), MinecraftVersion::V1_21_20);
    assert_eq!(f.stage, FixStage::Probing);
    assert_eq!(
        expect_parse(process_material(&mut f, FixEvent::ParseFailed)),
        MinecraftVersion::V1_18_30
    );
    assert_eq!(expect_finish(process_material(&mut f, FixEvent::ParseFailed)), None);
    assert_eq!(f.stage, FixStage::Done);
    assert_eq!(expect_finish(process_material(&mut f, FixEvent::Start)), None);
}

#[test]
fn fixer_without_a_host_version_does_nothing() {
    let mut f = fixer(None, vec![MinecraftVersion::V1_21_20]);
    assert_eq!(expect_finish(process_material(&mut f, FixEvent::Start)), None);
    assert_eq!(f.stage, FixStage::Done);
}

#[test]
fn fixer_without_versions_does_nothing() {
    let mut f = fixer(Some(host(MinecraftVersion::V1_21_20, true, false)), vec![]);
    assert_eq!(expect_finish(process_material(&mut f, FixEvent::Start)), None);
}

#[test]
fn fixer_keeps_a_bundle_that_needs_nothing() {
    let mut f = fixer(
        Some(host(MinecraftVersion::V1_21_20, true, false)),
        vec![MinecraftVersion::V1_18_30, MinecraftVersion::V1_21_20],
    );
    expect_parse(process_material(&mut f, FixEvent::Start));
    expect_parse(process_material(&mut f, FixEvent::ParseFailed));
    let material = bundle(b"Sky", vec![(&b"Opaque"[..], vec![vec![vertex(LEGACY)]])]);
    assert_eq!(expect_finish(process_material(&mut f, FixEvent::Parsed(material))), None);
    assert_eq!(f.stage, FixStage::Done);
}

#[test]
fn fixer_has_a_fixed_bundle_written_in_the_hosts_format() {
    let mut f = fixer(
        Some(host(MinecraftVersion::V1_21_110, true, true)),
        vec![MinecraftVersion::V1_21_20],
    );
    expect_parse(process_material(&mut f, FixEvent::Start));
    let material = bundle(
        b"RenderChunk",
        vec![
            (&b"Opaque"[..], vec![vec![vertex(LEGACY)]]),
            (&b"Transparent"[..], vec![vec![code(
                ShaderStage::Fragment,
                ShaderCodePlatform::Essl300,
                b"ESSL_300",
                LEGACY,
            )]]),
        ],
    );
    let job = match process_material(&mut f, FixEvent::Parsed(material)) {
        FixAction::Write(job) => job,
        _ => panic!("no write asked for"),
    };
    assert_eq!(f.stage, FixStage::Writing);
    assert_eq!(job.target, MinecraftVersion::V1_21_110);
    assert!(job.mipmap_targets.is_empty());
    assert_eq!(
        blob(&job.material, 0, 0, 0),
        b"#version 300\nv_lightmapUV = a_texcoord1;\n<B>void main() {}".to_vec()
    );
    assert_eq!(blob(&job.material, 1, 0, 0), LEGACY.to_vec());
    assert_eq!(
        expect_finish(process_material(&mut f, FixEvent::Written(b"out".to_vec()))),
        Some(b"out".to_vec())
    );
    assert_eq!(f.stage, FixStage::Done);
}

#[test]
fn fixer_serves_the_original_when_the_write_fails() {
    let mut f = fixer(
        Some(host(MinecraftVersion::V1_21_110, false, false)),
        vec![MinecraftVersion::V1_21_20],
    );
    expect_parse(process_material(&mut f, FixEvent::Start));
    let material = bundle(b"Sky", vec![]);
    assert!(matches!(process_material(&mut f, FixEvent::Parsed(material)), FixAction::Write(_)));
    assert_eq!(expect_finish(process_material(&mut f, FixEvent::WriteFailed)), None);
}

#[test]
fn fixer_ends_on_an_event_out_of_turn() {
    let mut f = fixer(
        Some(host(MinecraftVersion::V1_21_110, false, false)),
        vec![MinecraftVersion::V1_21_20],
    );
    assert_eq!(expect_finish(process_material(&mut f, FixEvent::Written(b"x".to_vec()))), None);
    assert_eq!(f.stage, FixStage::Done);
    let mut f = fixer(
        Some(host(MinecraftVersion::V1_21_110, false, false)),
        vec![MinecraftVersion::V1_21_20],
    );
    expect_parse(process_material(&mut f, FixEvent::Start));
    assert_eq!(expect_finish(process_material(&mut f, FixEvent::Written(b"x".to_vec()))), None);
}

#[test]
fn detection_tries_the_newest_version_first() {
    let mut d = VersionDetector::new();
    let buf = b"";
    let order = [
        MinecraftVersion::V1_21_110,
        MinecraftVersion::V1_21_20,
        MinecraftVersion::V1_20_80,
        MinecraftVersion::V1_19_60,
        MinecraftVersion::V1_18_30,
    ];
    assert_eq!(get_current_mcver(&mut d, buf, DetectEvent::Start), DetectAction::Parse(order[0]));
    for version in &order[1..] {
        assert_eq!(
            get_current_mcver(&mut d, buf, DetectEvent::ParseFailed),
            DetectAction::Parse(*version)
        );
    }
    assert_eq!(get_current_mcver(&mut d, buf, DetectEvent::ParseFailed), DetectAction::Finish(None));
    assert_eq!(get_current_mcver(&mut d, buf, DetectEvent::Parsed), DetectAction::Finish(None));
}

#[test]
fn detection_reads_the_release_marks() {
    let cases: [(&[u8], bool, bool); 4] = [
        (b"plain", false, false),
        (b"... v_dithering ...", true, false),
        (b"x = a_texcoord1 * 65535.0;", false, true),
        (b"v_dithering; a_texcoord1 * 65535.0", true, true),
    ];
    for (buf, is_100, is_130) in cases {
        let mut d = VersionDetector::new();
        get_current_mcver(&mut d, buf, DetectEvent::Start);
        get_current_mcver(&mut d, buf, DetectEvent::ParseFailed);
        get_current_mcver(&mut d, buf, DetectEvent::ParseFailed);
        assert_eq!(
            get_current_mcver(&mut d, buf, DetectEvent::Parsed),
            DetectAction::Finish(Some(host(MinecraftVersion::V1_20_80, is_100, is_130)))
        );
    }
}

#[test]
fn detection_ends_on_an_event_out_of_turn() {
    let mut d = VersionDetector::new();
    assert_eq!(get_current_mcver(&mut d, b"", DetectEvent::Parsed), DetectAction::Finish(None));
    assert_eq!(get_current_mcver(&mut d, b"", DetectEvent::Start), DetectAction::Finish(None));
}

#[test]
fn the_hosts_bundle_is_looked_for_under_two_paths() {
    assert_eq!(
        mbl2::autofixer::get_uitext(0),
        Some("assets/renderer/materials/RenderChunk.material.bin")
    );
    assert_eq!(mbl2::autofixer::get_uitext(1), Some("renderer/materials/RenderChunk.material.bin"));
    assert_eq!(mbl2::autofixer::get_uitext(2), None);
    assert_eq!(mbl2::autofixer::get_uitext(usize::MAX), None);
}

#[test]
fn a_fixer_put_together_badly_ends_quietly() {
    let mut f = fixer(None, vec![MinecraftVersion::V1_21_20]);
    f.stage = FixStage::Probing;
    f.cursor = 1;
    let material = bundle(b"Sky", vec![]);
    assert_eq!(expect_finish(process_material(&mut f, FixEvent::Parsed(material))), None);
    for cursor in [0, 2, usize::MAX] {
        let mut f = fixer(
            Some(host(MinecraftVersion::V1_21_110, false, false)),
            vec![MinecraftVersion::V1_21_20],
        );
        f.stage = FixStage::Probing;
        f.cursor = cursor;
        let material = bundle(b"Sky", vec![]);
        assert_eq!(expect_finish(process_material(&mut f, FixEvent::Parsed(material))), None);
        assert_eq!(f.stage, FixStage::Done);
    }
}

#[test]
fn a_detector_put_together_badly_ends_quietly() {
    for cursor in [0, 6, usize::MAX] {
        let mut d = VersionDetector::new();
        d.stage = mbl2::autofixer::DetectStage::Probing;
        d.cursor = cursor;
        assert_eq!(get_current_mcver(&mut d, b"", DetectEvent::Parsed), DetectAction::Finish(None));
    }
    let mut d = VersionDetector::new();
    d.stage = mbl2::autofixer::DetectStage::Probing;
    d.cursor = usize::MAX;
    assert_eq!(get_current_mcver(&mut d, b"", DetectEvent::ParseFailed), DetectAction::Finish(None));
}

#[test]
fn fixer_has_another_format_written_even_when_no_fix_changes_it() {
    for name in [&b"Sky"[..], &b"RenderChunk"[..]] {
        let mut f = fixer(
            Some(host(MinecraftVersion::V1_21_110, true, false)),
            vec![MinecraftVersion::V1_18_30, MinecraftVersion::V1_21_20],
        );
        expect_parse(process_material(&mut f, FixEvent::Start));
        assert_eq!(
            expect_parse(process_material(&mut f, FixEvent::ParseFailed)),
            MinecraftVersion::V1_21_20
        );
        let material = bundle(name, vec![(&b"Opaque"[..], vec![vec![vertex(MODERN)]])]);
        let job = match process_material(&mut f, FixEvent::Parsed(material)) {
            FixAction::Write(job) => job,
            _ => panic!("no write asked for"),
        };
        assert_eq!(job.target, MinecraftVersion::V1_21_110);
        assert!(job.mipmap_targets.is_empty());
        assert_eq!(blob(&job.material, 0, 0, 0), MODERN.to_vec());
        assert_eq!(
            expect_finish(process_material(&mut f, FixEvent::Written(b"anew".to_vec()))),
            Some(b"anew".to_vec())
        );
    }
}

#[test]
fn every_changed_shader_is_counted() {
    let mut material = bundle(
        b"RenderChunk",
        vec![
            (&b"Opaque"[..], vec![vec![vertex(LEGACY), vertex(MODERN), vertex(LEGACY_TIGHT)]]),
            (&b"AlphaTest"[..], vec![vec![vertex(PACKED)], vec![], vec![vertex(LEGACY)]]),
            (
                &b"Transparent"[..],
                vec![vec![code(ShaderStage::Fragment, ShaderCodePlatform::Essl300, b"ESSL_300", LEGACY)]],
            ),
        ],
    );
    assert_eq!(handle_lightmaps(&mut material, MinecraftVersion::V1_21_110, true, &snippets()), 4);
    let mut material = bundle(
        b"RenderChunk",
        vec![
            (&b"Opaque"[..], vec![vec![vertex(LEGACY), vertex(MODERN), vertex(LEGACY_TIGHT)]]),
            (&b"AlphaTest"[..], vec![vec![vertex(PACKED)], vec![], vec![vertex(LEGACY)]]),
        ],
    );
    assert_eq!(handle_lightmaps(&mut material, MinecraftVersion::V1_21_110, false, &snippets()), 3);
}
