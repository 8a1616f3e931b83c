use vstd::prelude::*;

verus! {

/// Size in bytes, as the native device counts sizes and offsets.
#[allow(non_camel_case_types)]
pub type vkbytes = usize;

/// Unsigned 32-bit quantity used by the native device for flags and counts.
#[allow(non_camel_case_types)]
pub type vkuint = u32;

/// A width and height pair, in pixels.
#[derive(Debug, Clone, Copy, PartialEq, Eq, Structural)]
pub struct Dimension2D {
    pub width: vkuint,
    pub height: vkuint,
}

/// The extent of an image in three dimensions.
#[derive(Debug, Clone, Copy, PartialEq, Eq, Structural)]
pub struct Dimension3D {
    pub width: vkuint,
    pub height: vkuint,
    pub depth: vkuint,
}

/// Pixel formats the subsystem knows the storage cost of.
#[derive(Debug, Clone, Copy, PartialEq, Eq, Structural)]
pub enum Format {
    Undefined,
    R8Unorm,
    Rgba8Unorm,
    Bgra8Unorm,
    D32Sfloat,
    D24UnormS8Uint,
}

impl Format {
    /// Bytes each pixel of this format occupies in memory.
    pub open spec fn spec_bytes_per_pixel(self) -> vkbytes {
        match self {
            Format::Undefined => 0,
            Format::R8Unorm => 1,
            Format::Rgba8Unorm => 4,
            Format::Bgra8Unorm => 4,
            Format::D32Sfloat => 4,
            Format::D24UnormS8Uint => 4,
        }
    }

    #[verifier::when_used_as_spec(spec_bytes_per_pixel)]
    pub fn bytes_per_pixel(self) -> (r: vkbytes)
        ensures
            r == self.spec_bytes_per_pixel(),
    {
        match self {
            Format::Undefined => 0,
            Format::R8Unorm => 1,
            Format::Rgba8Unorm => 4,
            Format::Bgra8Unorm => 4,
            Format::D32Sfloat => 4,
            Format::D24UnormS8Uint => 4,
        }
    }
}

/// `size` rounded up to the next multiple of `alignment`.
pub open spec fn spec_align_up(size: int, alignment: int) -> int
    recommends
        alignment > 0,
{
    ((size + alignment - 1) / alignment) * alignment
}

pub proof fn lemma_align_up(size: int, alignment: int)
    requires
        0 <= size,
        0 < alignment,
    ensures
        size <= spec_align_up(size, alignment),
        spec_align_up(size, alignment) < size + alignment,
        spec_align_up(size, alignment) % alignment == 0,
{
    let x = size + alignment - 1;
    let q = x / alignment;
    let r = x % alignment;
    vstd::arithmetic::div_mod::lemma_fundamental_div_mod(x, alignment);
    vstd::arithmetic::div_mod::lemma_mod_bound(x, alignment);
    assert(q * alignment == alignment * q) by (nonlinear_arith);
    vstd::arithmetic::div_mod::lemma_mod_multiples_basic(q, alignment);
}

/// Aligning a size that is already a multiple of the alignment changes
/// nothing.
pub proof fn lemma_align_up_multiple(size: int, alignment: int)
    requires
        0 <= size,
        0 < alignment,
        size % alignment == 0,
    ensures
        spec_align_up(size, alignment) == size,
{
    let m = size / alignment;
    vstd::arithmetic::div_mod::lemma_fundamental_div_mod(size, alignment);
    assert(size == alignment * m);
    assert((alignment * m + alignment - 1) / alignment == m) by (nonlinear_arith)
        requires
            0 < alignment,
            0 <= m,
    ;
    assert(m * alignment == alignment * m) by (nonlinear_arith);
}

/// Round `size` up to the next multiple of `alignment`, the spacing rule the
/// allocator uses for every resource placed in a shared memory block.
pub fn bound_to_alignment(size: vkbytes, alignment: vkbytes) -> (r: vkbytes)
    requires
        0 < alignment,
        size + alignment - 1 <= vkbytes::MAX,
    ensures
        r == spec_align_up(size as int, alignment as int),
        size <= r,
        r < size + alignment,
        r % alignment == 0,
{
    proof {
        lemma_align_up(size as int, alignment as int);
    }
    ((size + (alignment - 1)) / alignment) * alignment
}

} // verus!
