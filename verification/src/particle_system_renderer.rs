//! What a renderer of particle systems decides before it turns to the
//! device: where the lights and the view stand in their buffers, and which
//! pipeline a descriptor asks for.

use crate::error::BrumousError;
use crate::error::BrumousResult;
use crate::ParticleMeshType;
use crate::ParticleSystemRendererDescriptor;
use vstd::prelude::*;
use vstd::std_specs::convert::FromSpecImpl;

verus! {

/// The bits of the floating-point number one.
pub const ONE: u32 = 0x3f80_0000;

/// A light as the buffer of lights holds it.  Each number is held as the 32
/// bits of a floating-point number.
#[derive(Copy, Clone, Debug, Default, PartialEq, Eq)]
pub struct Light {
    pub position: [u32; 4],
    pub color: [u32; 4],
}

impl Light {
    pub fn new(position: [u32; 4], color: [u32; 4]) -> (light: Self)
        ensures
            light == (Light { position, color }),
    {
        Self { position, color }
    }

    /// The size of a light in bytes: eight numbers of four bytes each.
    pub fn size() -> (bytes: u64)
        ensures
            bytes == 32,
    {
        32
    }
}

/// Where the light of index `idx` stands in a buffer of `max_lights` lights;
/// an error if there is no light of that index, or if no offset of 64 bits
/// reaches it.
pub fn light_offset(idx: u64, max_lights: u64) -> (r: BrumousResult<u64>)
    ensures
        r == if idx < max_lights && 32 * idx <= u64::MAX {
            Ok::<u64, BrumousError>((32 * idx) as u64)
        } else {
            Err::<u64, BrumousError>(BrumousError::InvalidLightIndex(idx, max_lights))
        },
{
    if idx >= max_lights || idx > 0xffff_ffff_ffff_ffff / 32 {
        return Err(BrumousError::InvalidLightIndex(idx, max_lights));
    }
    Ok(idx * Light::size())
}

/// The view as its buffer holds it: the matrix of view and projection, by
/// column, and behind it the viewer's position.  Each number is held as the
/// 32 bits of a floating-point number.
#[derive(Copy, Clone, Debug, PartialEq, Eq)]
pub struct ViewData {
    pub view_proj: [[u32; 4]; 4],
    pub view_pos: [u32; 4],
}

/// Where the matrix of view and projection stands in the buffer of the view.
pub const VIEW_PROJ_OFFSET: u64 = 0;

/// Where the viewer's position stands in the buffer of the view.
pub const VIEW_POS_OFFSET: u64 = 64;

impl ViewData {
    /// The view that `default` gives.
    pub open spec fn spec_default() -> ViewData {
        ViewData {
            view_proj: [[ONE, 0, 0, 0], [0, ONE, 0, 0], [0, 0, ONE, 0], [0, 0, 0, ONE]],
            view_pos: [0, ONE, 0, 0],
        }
    }

    /// The viewer's position as the buffer holds it: the three numbers of
    /// `vp`, and a zero behind them.
    pub fn view_pos(vp: [u32; 3]) -> (r: [u32; 4])
        ensures
            r@ == vp@.push(0),
    {
        let r: [u32; 4] = [vp[0], vp[1], vp[2], 0];
        assert(r@ =~= vp@.push(0));
        r
    }
}

impl Default for ViewData {
    /// The identity matrix, and a viewer one unit up the second axis.
    fn default() -> (view: Self)
        ensures
            view == Self::spec_default(),
    {
        Self {
            view_proj: [[ONE, 0, 0, 0], [0, ONE, 0, 0], [0, 0, ONE, 0], [0, 0, 0, ONE]],
            view_pos: [0, ONE, 0, 0],
        }
    }
}

/// How the vertices of a model are put together.
#[derive(Copy, Clone, Debug, PartialEq, Eq)]
pub enum PrimitiveTopology {
    /// Each vertex is a point.
    PointList,
    /// Each three vertices are a triangle.
    TriangleList,
}

impl<'a, 'b> From<&'b ParticleMeshType<'a>> for PrimitiveTopology {
    fn from(mesh_type: &'b ParticleMeshType<'a>) -> (topology: Self) {
        match mesh_type {
            ParticleMeshType::Point => Self::PointList,
            ParticleMeshType::Cube => Self::TriangleList,
            _ => Self::TriangleList,
        }
    }
}

impl<'a, 'b> FromSpecImpl<&'b ParticleMeshType<'a>> for PrimitiveTopology {
    open spec fn obeys_from_spec() -> bool {
        true
    }

    /// Points for the model of a point, triangles for every other.
    open spec fn from_spec(mesh_type: &'b ParticleMeshType<'a>) -> Self {
        if *mesh_type is Point {
            PrimitiveTopology::PointList
        } else {
            PrimitiveTopology::TriangleList
        }
    }
}

/// The entry point of the fragment shader: the one that reads the texture
/// where the particles have one.
pub fn fragment_entry(desc: &ParticleSystemRendererDescriptor) -> (entry: &'static str)
    ensures
        entry@ == if desc.texture is Some {
            "fs_texture"@
        } else {
            "fs_main"@
        },
{
    if desc.texture.is_some() {
        "fs_texture"
    } else {
        "fs_main"
    }
}

} // verus!
