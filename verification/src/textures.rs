//! The texture store: decoded wall/floor tiles as raw RGBA buffers of
//! fixed tile size, plus skybox images. The floor pass samples these
//! buffers directly; the darkened variant of each tile (for y-side
//! walls) is computed here from the normal one.

use vstd::prelude::*;

verus! {

/// Bytes of one RGBA tile: `TEX_WIDTH * TEX_HEIGHT * 4`.
pub const TILE_BYTES: usize = 16384;

/// Decoded pixel buffers, indexed by 0-based texture id.
pub struct TextureManager {
    /// One `TILE_BYTES`-sized RGBA buffer per wall/floor texture.
    pub raw_textures: Vec<Vec<u8>>,
    /// Skybox images; any sizes.
    pub skybox_textures_raw: Vec<Vec<u8>>,
}

impl TextureManager {
    /// Every tile buffer has exactly the tile size.
    pub open spec fn wf(&self) -> bool {
        forall|i: int|
            0 <= i < self.raw_textures@.len() ==> (#[trigger] self.raw_textures@[i])@.len()
                == TILE_BYTES
    }

    pub fn new() -> (r: TextureManager)
        ensures
            r.raw_textures@.len() == 0,
            r.skybox_textures_raw@.len() == 0,
            r.wf(),
    {
        TextureManager { raw_textures: Vec::new(), skybox_textures_raw: Vec::new() }
    }

    /// Registers one decoded tile. Rejected (`false`, store unchanged)
    /// exactly when the buffer is not one tile's worth of RGBA bytes.
    pub fn add_texture(&mut self, raw: Vec<u8>) -> (ok: bool)
        requires
            old(self).wf(),
        ensures
            final(self).wf(),
            final(self).skybox_textures_raw@ == old(self).skybox_textures_raw@,
            ok <==> raw@.len() == TILE_BYTES,
            ok ==> final(self).raw_textures@ == old(self).raw_textures@.push(raw),
            !ok ==> final(self).raw_textures@ == old(self).raw_textures@,
    {
        if raw.len() != TILE_BYTES {
            return false;
        }
        self.raw_textures.push(raw);
        true
    }

    /// Registers one skybox image.
    pub fn add_skybox(&mut self, raw: Vec<u8>)
        ensures
            final(self).raw_textures@ == old(self).raw_textures@,
            final(self).skybox_textures_raw@ == old(self).skybox_textures_raw@.push(raw),
    {
        self.skybox_textures_raw.push(raw);
    }

    /// The raw buffer of a 0-based texture id.
    pub fn get_raw_tex(&self, index: u32) -> (r: &Vec<u8>)
        requires
            index < self.raw_textures@.len(),
        ensures
            *r == self.raw_textures@[index as int],
    {
        &self.raw_textures[index as usize]
    }

    /// The first skybox image.
    pub fn get_skybox_tex_raw(&self) -> (r: &Vec<u8>)
        requires
            self.skybox_textures_raw@.len() > 0,
        ensures
            *r == self.skybox_textures_raw@[0],
    {
        &self.skybox_textures_raw[0]
    }
}

/// The darkened variant of a texture: every byte halved, the fixed
/// lighting approximation for y-side walls.
pub fn darken(src: &Vec<u8>) -> (out: Vec<u8>)
    ensures
        out@.len() == src@.len(),
        forall|i: int| 0 <= i < src@.len() ==> out@[i] == #[trigger] src@[i] / 2,
{
    let mut out: Vec<u8> = Vec::new();
    let mut i: usize = 0;
    while i < src.len()
        invariant
            i <= src@.len(),
            out@.len() == i,
            forall|k: int| 0 <= k < i ==> out@[k] == #[trigger] src@[k] / 2,
        decreases src@.len() - i,
    {
        out.push(src[i] / 2);
        i = i + 1;
    }
    out
}

} // verus!
