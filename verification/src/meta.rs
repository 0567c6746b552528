//! The metadata that may accompany a program: initial values of its custom
//! uniforms, texture channels and the precision of the uniforms.
use vstd::prelude::*;
use crate::dialect::LocatedError;
use crate::pp::{strings_view, ErrorKind, WGSLError};
use crate::frame::{paired, FrameSpec};
use crate::render::{Renderer, RendererSpec};

verus! {

/// A custom uniform with its initial value, a single-precision float given
/// by its bits.
#[derive(Debug)]
pub struct Uniform {
    pub name: String,
    pub value: u32,
}

/// A texture channel that the metadata asks for.
#[derive(Debug)]
pub struct Texture {
    pub img: String,
}

/// The metadata of a program.
#[derive(Debug)]
pub struct ShaderMeta {
    pub uniforms: Vec<Uniform>,
    pub textures: Vec<Texture>,
    pub float32_enabled: bool,
}

/// The names and values of a list of uniforms, in order.
pub open spec fn uniform_pairs(uniforms: Seq<Uniform>) -> Seq<(Seq<char>, u32)> {
    Seq::new(uniforms.len(), |i: int| (uniforms[i].name@, uniforms[i].value))
}

/// The frame state after the metadata has been taken over: its uniforms
/// replace the custom uniforms, unless it has none, and its flag chooses the
/// precision.
pub open spec fn frame_with(frame: FrameSpec, meta: ShaderMeta) -> FrameSpec {
    FrameSpec {
        custom: if meta.uniforms.len() > 0 {
            uniform_pairs(meta.uniforms@)
        } else {
            frame.custom
        },
        pass_f32: meta.float32_enabled,
        ..frame
    }
}

impl Renderer {
    /// Takes over the metadata of a program. Metadata that asks for texture
    /// channels is refused, since there are none, and nothing changes.
    pub fn apply_metadata(&mut self, meta: &ShaderMeta) -> (r: Result<(), WGSLError>)
        ensures
            meta.textures.len() > 0 ==> final(self)@ == old(self)@ && r is Err && r->Err_0@ == (
            LocatedError {
                kind: ErrorKind::ConfigurationMismatch,
                summary: "texture from url not supported"@,
                line: 0,
            }),
            meta.textures.len() == 0 ==> r is Ok && final(self)@ == (RendererSpec {
                frame: frame_with(old(self)@.frame, *meta),
                ..old(self)@
            }),
    {
        if meta.textures.len() > 0 {
            return Err(
                WGSLError::with_kind(
                    ErrorKind::ConfigurationMismatch,
                    String::from_str("texture from url not supported"),
                    0,
                ),
            );
        }
        let mut names: Vec<String> = Vec::new();
        let mut values: Vec<u32> = Vec::new();
        let mut i: usize = 0;
        while i < meta.uniforms.len()
            invariant
                i <= meta.uniforms.len(),
                names.len() == i,
                values.len() == i,
                forall|k: int|
                    0 <= k < i ==> (#[trigger] names@[k])@ == meta.uniforms@[k].name@ && values@[k]
                        == meta.uniforms@[k].value,
            decreases meta.uniforms.len() - i,
        {
            names.push(meta.uniforms[i].name.clone());
            values.push(meta.uniforms[i].value);
            i += 1;
        }
        if names.len() > 0 {
            assert(paired(strings_view(names@), values@) =~= uniform_pairs(meta.uniforms@));
            let set = self.set_custom_floats(names, values);
            assert(set is Ok);
        }
        self.set_pass_f32(meta.float32_enabled);
        Ok(())
    }
}

} // verus!
