//! The scene: the map, the textures, and the sprites that stand in it.

use crate::grid::Grid;
use crate::sprite::Sprite;
use crate::texture::Texture;
use vstd::prelude::*;

verus! {

/// All that a frame shows, apart from the camera.
pub struct Scene {
    pub grid: Grid,
    pub textures: Vec<Texture>,
    pub sprites: Vec<Sprite>,
    /// The index of the texture of the floor.
    pub floor_texture: usize,
    /// The index of the texture of the ceiling.
    pub ceiling_texture: usize,
}

/// Every texture has all its bytes.
pub open spec fn textures_whole(textures: Seq<Texture>) -> bool {
    forall|t: int| 0 <= t < textures.len() ==> (#[trigger] textures[t]).wf()
}

/// Every solid cell of `grid` names one of `count` textures.
pub open spec fn walls_textured(grid: &Grid, count: int) -> bool {
    forall|x: int, y: int| grid.in_bounds(x, y) ==> #[trigger] grid.tag(x, y) <= count
}

/// Every sprite is well-formed and shows one of `count` textures.
pub open spec fn sprites_textured(sprites: Seq<Sprite>, count: int) -> bool {
    forall|s: int|
        0 <= s < sprites.len() ==> (#[trigger] sprites[s]).wf() && sprites[s].texture < count
}

/// What the parts of a scene must satisfy together.
pub open spec fn fits(
    grid: &Grid,
    textures: Seq<Texture>,
    sprites: Seq<Sprite>,
    floor_texture: usize,
    ceiling_texture: usize,
) -> bool {
    &&& grid.wf()
    &&& textures_whole(textures)
    &&& walls_textured(grid, textures.len() as int)
    &&& sprites_textured(sprites, textures.len() as int)
    &&& floor_texture < textures.len()
    &&& ceiling_texture < textures.len()
}

/// Whether `fits(grid, textures@, sprites@, floor_texture, ceiling_texture)` holds.
pub fn check_fits(
    grid: &Grid,
    textures: &Vec<Texture>,
    sprites: &Vec<Sprite>,
    floor_texture: usize,
    ceiling_texture: usize,
) -> (r: bool)
    ensures
        r == fits(grid, textures@, sprites@, floor_texture, ceiling_texture),
{
    if !grid.is_wf() {
        return false;
    }
    let count = textures.len();
    if floor_texture >= count || ceiling_texture >= count {
        return false;
    }
    let mut t: usize = 0;
    while t < count
        invariant
            count == textures@.len(),
            t <= count,
            forall|i: int| 0 <= i < t ==> (#[trigger] textures@[i]).wf(),
        decreases count - t,
    {
        if !textures[t].is_wf() {
            return false;
        }
        t += 1;
    }
    let w = grid.columns();
    let h = grid.rows();
    let mut x: usize = 0;
    while x < w
        invariant
            grid.wf(),
            w == grid.width(),
            h == grid.height(),
            count == textures@.len(),
            x <= w,
            forall|i: int, j: int|
                0 <= i < x && 0 <= j < h ==> #[trigger] grid.tag(i, j) <= count,
        decreases w - x,
    {
        let mut y: usize = 0;
        while y < h
            invariant
                grid.wf(),
                w == grid.width(),
                h == grid.height(),
                count == textures@.len(),
                x < w,
                y <= h,
                forall|j: int| 0 <= j < y ==> #[trigger] grid.tag(x as int, j) <= count,
            decreases h - y,
        {
            if grid.cell(x, y) > count {
                return false;
            }
            y += 1;
        }
        x += 1;
    }
    let mut s: usize = 0;
    while s < sprites.len()
        invariant
            count == textures@.len(),
            s <= sprites@.len(),
            forall|i: int|
                0 <= i < s ==> (#[trigger] sprites@[i]).wf() && sprites@[i].texture < count,
        decreases sprites@.len() - s,
    {
        if !sprites[s].is_wf() || sprites[s].texture >= count {
            return false;
        }
        s += 1;
    }
    true
}

impl Scene {
    /// The invariant of a scene: every texture index in it names a texture.
    pub open spec fn wf(&self) -> bool {
        fits(
            &self.grid,
            self.textures@,
            self.sprites@,
            self.floor_texture,
            self.ceiling_texture,
        )
    }

    /// The texture of the solid cell `(x, y)`.
    pub open spec fn wall_texture(&self, x: int, y: int) -> Texture
        recommends
            self.grid.in_bounds(x, y),
            self.grid.tag(x, y) > 0,
    {
        self.textures@[self.grid.tag(x, y) - 1]
    }

    /// Puts a scene together; `None` unless the parts fit.
    pub fn new(
        grid: Grid,
        textures: Vec<Texture>,
        sprites: Vec<Sprite>,
        floor_texture: usize,
        ceiling_texture: usize,
    ) -> (r: Option<Scene>)
        ensures
            r.is_some() == fits(&grid, textures@, sprites@, floor_texture, ceiling_texture),
            r matches Some(s) ==> s.wf() && s.grid == grid && s.textures == textures && s.sprites
                == sprites && s.floor_texture == floor_texture && s.ceiling_texture
                == ceiling_texture,
    {
        if check_fits(&grid, &textures, &sprites, floor_texture, ceiling_texture) {
            Some(Scene { grid, textures, sprites, floor_texture, ceiling_texture })
        } else {
            None
        }
    }

    /// Whether the invariant holds.
    pub fn is_wf(&self) -> (r: bool)
        ensures
            r == self.wf(),
    {
        check_fits(
            &self.grid,
            &self.textures,
            &self.sprites,
            self.floor_texture,
            self.ceiling_texture,
        )
    }
}

} // verus!
