//! The choice of the format in which frames are presented.
use vstd::prelude::*;

verus! {

/// A texture format that a surface offers, as far as the choice reads it.
#[derive(Clone, Copy, Debug, PartialEq, Eq, Structural)]
pub enum FramebufferFormat {
    Rgba8Unorm,
    Bgra8Unorm,
    /// Any other format.
    Other,
}

/// Whether a format is one of the two plain 8-bit formats.
pub open spec fn is_preferred(format: FramebufferFormat) -> bool {
    format is Rgba8Unorm || format is Bgra8Unorm
}

/// Chooses among the formats that a surface offers: the index of the first
/// plain 8-bit format, and of the first format where none is plain.
pub fn preferred_framebuffer_format(formats: &[FramebufferFormat]) -> (index: usize)
    requires
        formats.len() > 0,
    ensures
        index < formats.len(),
        forall|j: int| 0 <= j < index ==> !is_preferred(#[trigger] formats[j]),
        !is_preferred(formats[index as int]) ==> index == 0 && forall|j: int|
            0 <= j < formats.len() ==> !is_preferred(#[trigger] formats[j]),
{
    let mut i: usize = 0;
    while i < formats.len()
        invariant
            i <= formats.len(),
            forall|j: int| 0 <= j < i ==> !is_preferred(#[trigger] formats[j]),
        decreases formats.len() - i,
    {
        match formats[i] {
            FramebufferFormat::Rgba8Unorm | FramebufferFormat::Bgra8Unorm => {
                return i;
            },
            FramebufferFormat::Other => {},
        }
        i += 1;
    }
    0
}

} // verus!
