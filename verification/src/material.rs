//! The parsed form of a compiled shader bundle, as far as the fixer reads it:
//! passes, their variants, and each variant's compiled code with its tags.
use vstd::prelude::*;

verus! {

/// The pipeline stage a piece of compiled code runs in.
#[derive(Clone, Copy, Debug, PartialEq, Eq, Structural)]
pub enum ShaderStage {
    Vertex,
    Fragment,
    /// Any other stage; the fixer leaves such code alone.
    Other,
}

/// The shading language a piece of code was compiled for.
#[derive(Clone, Copy, Debug, PartialEq, Eq, Structural)]
pub enum ShaderCodePlatform {
    Essl100,
    Essl300,
    /// Any other platform; the fixer leaves such code alone.
    Other,
}

/// One compiled shader with its tags.
pub struct ShaderCode {
    pub stage: ShaderStage,
    pub platform: ShaderCodePlatform,
    pub platform_name: Vec<u8>,
    /// The compiled shader container, source text included.
    pub bgfx_shader_data: Vec<u8>,
}

/// A `ShaderCode` as plain values.
pub struct CodeView {
    pub stage: ShaderStage,
    pub platform: ShaderCodePlatform,
    pub platform_name: Seq<u8>,
    pub blob: Seq<u8>,
}

impl View for ShaderCode {
    type V = CodeView;

    open spec fn view(&self) -> CodeView {
        CodeView {
            stage: self.stage,
            platform: self.platform,
            platform_name: self.platform_name@,
            blob: self.bgfx_shader_data@,
        }
    }
}

/// One variant of a pass: the same shader compiled for several stages and
/// platforms.
pub struct Variant {
    pub shader_codes: Vec<ShaderCode>,
}

impl View for Variant {
    type V = Seq<CodeView>;

    open spec fn view(&self) -> Seq<CodeView> {
        self.shader_codes@.map_values(|code: ShaderCode| code@)
    }
}

/// A render pass.
pub struct Pass {
    pub name: Vec<u8>,
    pub variants: Vec<Variant>,
}

/// A `Pass` as plain values.
pub struct PassView {
    pub name: Seq<u8>,
    pub variants: Seq<Seq<CodeView>>,
}

impl View for Pass {
    type V = PassView;

    open spec fn view(&self) -> PassView {
        PassView { name: self.name@, variants: self.variants@.map_values(|v: Variant| v@) }
    }
}

/// A compiled shader bundle.
pub struct ShaderBundle {
    pub name: Vec<u8>,
    pub passes: Vec<Pass>,
}

/// A `ShaderBundle` as plain values.
pub struct BundleView {
    pub name: Seq<u8>,
    pub passes: Seq<PassView>,
}

impl View for ShaderBundle {
    type V = BundleView;

    open spec fn view(&self) -> BundleView {
        BundleView { name: self.name@, passes: self.passes@.map_values(|p: Pass| p@) }
    }
}

/// The place of one compiled shader inside a bundle.
#[derive(Clone, Copy, Debug, PartialEq, Eq, Structural)]
pub struct CodeRef {
    pub pass: usize,
    pub variant: usize,
    pub code: usize,
}

impl CodeRef {
    /// `self` comes before `other` when the bundle is walked pass by pass,
    /// variant by variant, code by code.
    pub open spec fn before(self, other: CodeRef) -> bool {
        ||| self.pass < other.pass
        ||| self.pass == other.pass && self.variant < other.variant
        ||| self.pass == other.pass && self.variant == other.variant && self.code < other.code
    }

    /// `self` names a compiled shader of `bundle`.
    pub open spec fn within(self, bundle: BundleView) -> bool {
        &&& self.pass < bundle.passes.len()
        &&& self.variant < bundle.passes[self.pass as int].variants.len()
        &&& self.code < bundle.passes[self.pass as int].variants[self.variant as int].len()
    }

    /// The compiled shader that `self` names.
    pub open spec fn of(self, bundle: BundleView) -> CodeView {
        bundle.passes[self.pass as int].variants[self.variant as int][self.code as int]
    }
}

} // verus!
