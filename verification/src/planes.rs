//! Floor and ceiling: for each row below the horizon the floor texture, and
//! in the row mirrored above it the ceiling texture.

use crate::camera::{Camera, VECTOR_LIMIT};
use crate::color::Color;
use crate::fixed::{floor_div, fraction, fraction_part, lemma_product_bound,
    lemma_quotient_bound, lemma_ratio_bound, mul_fixed, product, Fixed, ONE};
use crate::framebuffer::{Framebuffer, MAX_SCREEN_DIM};
use crate::scene::Scene;
use crate::texture::{Texture, TEXTURE_SIZE};
use vstd::prelude::*;

verus! {

/// The texel under a coordinate of the floor: the fractional part of the
/// coordinate, scaled to the texture. The whole part plays no role: the
/// texture repeats from cell to cell.
pub open spec fn texel_index(coordinate: int) -> int {
    (fraction(coordinate) * TEXTURE_SIZE) / (ONE as int)
}

/// The distance at which the floor shows in row `y` of a screen `h` high, for
/// a viewer at half the height of the room: half the screen's height divided
/// by the distance of the row from the horizon.
pub open spec fn row_distance(h: int, y: int) -> int
    recommends
        y > h / 2,
{
    (h * (ONE / 2)) / (y - h / 2)
}

/// One coordinate of the point of the floor that shows in column `x` of row
/// `y`. `pos`, `dir` and `plane` are the camera's components on that axis.
/// The row starts where the ray through the left edge meets it and advances
/// by the same step from column to column.
pub open spec fn floor_coordinate(pos: int, dir: int, plane: int, w: int, h: int, x: int, y: int)
    -> int {
    let distance = row_distance(h, y);
    let first = pos + product(distance, dir - plane);
    let step = product(distance, 2 * plane) / w;
    first + x * step
}

/// The texel of `texture` that shows at the point of the floor (or ceiling)
/// seen in column `x` of floor row `y`, at half the brightness.
pub open spec fn plane_texel(texture: &Texture, camera: &Camera, w: int, h: int, x: int, y: int)
    -> Color {
    texture.texel(
        texel_index(
            floor_coordinate(
                camera.pos_x as int,
                camera.dir_x as int,
                camera.plane_x as int,
                w,
                h,
                x,
                y,
            ),
        ),
        texel_index(
            floor_coordinate(
                camera.pos_y as int,
                camera.dir_y as int,
                camera.plane_y as int,
                w,
                h,
                x,
                y,
            ),
        ),
    ).dimmed()
}

/// The color of the pixel `(x, y)` of a screen `w` by `h` that shows floor and
/// ceiling only: floor below the horizon, ceiling in the rows mirrored above,
/// and black in the rows between, where the distance has no bound.
pub open spec fn plane_color(scene: &Scene, camera: &Camera, w: int, h: int, x: int, y: int)
    -> Color {
    if y > h / 2 {
        plane_texel(&scene.textures@[scene.floor_texture as int], camera, w, h, x, y)
    } else if h - 1 - y > h / 2 {
        plane_texel(&scene.textures@[scene.ceiling_texture as int], camera, w, h, x, h - 1 - y)
    } else {
        Color { r: 0, g: 0, b: 0 }
    }
}

/// Computes `texel_index(coordinate)`, wrapping by the mask of the texture size.
pub fn texel_index_of(coordinate: Fixed) -> (t: usize)
    ensures
        t == texel_index(coordinate as int),
        t < TEXTURE_SIZE,
{
    let scaled: u64 = ((fraction_part(coordinate) * 64) / ONE) as u64;
    assert(scaled < 64 ==> scaled & 63 == scaled) by (bit_vector);
    (scaled & 63) as usize
}

/// Paints row `y` black.
fn blank_row(fb: &mut Framebuffer, y: usize)
    requires
        old(fb).wf(),
        y < old(fb).height,
    ensures
        final(fb).wf(),
        final(fb).same_size(old(fb)),
        forall|i: int, j: int|
            old(fb).contains(i, j) ==> #[trigger] final(fb).pixel(i, j) == (if j == y {
                Color { r: 0, g: 0, b: 0 }
            } else {
                old(fb).pixel(i, j)
            }),
{
    let w: usize = fb.width;
    let mut x: usize = 0;
    while x < w
        invariant
            fb.wf(),
            fb.same_size(old(fb)),
            w == fb.width,
            y < fb.height,
            x <= w,
            forall|i: int, j: int|
                fb.contains(i, j) ==> #[trigger] fb.pixel(i, j) == (if j == y && i < x {
                    Color { r: 0, g: 0, b: 0 }
                } else {
                    old(fb).pixel(i, j)
                }),
        decreases w - x,
    {
        fb.put(x, y, Color { r: 0, g: 0, b: 0 });
        x += 1;
    }
}

/// Paints the floor into row `y`, below the horizon, and the ceiling into the
/// row mirrored above.
fn cast_plane_row(fb: &mut Framebuffer, scene: &Scene, camera: &Camera, y: usize)
    requires
        old(fb).wf(),
        scene.wf(),
        camera.wf(),
        old(fb).height / 2 < y < old(fb).height,
    ensures
        final(fb).wf(),
        final(fb).same_size(old(fb)),
        forall|i: int, j: int|
            old(fb).contains(i, j) ==> #[trigger] final(fb).pixel(i, j) == (if j == y || j
                == old(fb).height - 1 - y {
                plane_color(scene, camera, old(fb).width as int, old(fb).height as int, i, j)
            } else {
                old(fb).pixel(i, j)
            }),
{
    let w: usize = fb.width;
    let h: usize = fb.height;
    let floor: &Texture = &scene.textures[scene.floor_texture];
    let ceiling: &Texture = &scene.textures[scene.ceiling_texture];
    let p: i64 = (y - h / 2) as i64;
    let distance: i64 = ((h as i64) * (ONE / 2)) / p;
    proof {
        lemma_quotient_bound(h * (ONE / 2), p as int);
        let limit = 0x2000_0000int;
        lemma_product_bound(distance as int, camera.dir_x - camera.plane_x, limit, 2 * VECTOR_LIMIT);
        lemma_product_bound(distance as int, camera.dir_y - camera.plane_y, limit, 2 * VECTOR_LIMIT);
        lemma_product_bound(distance as int, 2 * camera.plane_x, limit, 2 * VECTOR_LIMIT);
        lemma_product_bound(distance as int, 2 * camera.plane_y, limit, 2 * VECTOR_LIMIT);
    }
    let first_x: i64 = camera.pos_x + mul_fixed(distance, camera.dir_x - camera.plane_x);
    let first_y: i64 = camera.pos_y + mul_fixed(distance, camera.dir_y - camera.plane_y);
    let across_x: i64 = mul_fixed(distance, 2 * camera.plane_x);
    let across_y: i64 = mul_fixed(distance, 2 * camera.plane_y);
    proof {
        lemma_ratio_bound(across_x as int, w as int, 1, 0x4_0000_0000);
        lemma_ratio_bound(across_y as int, w as int, 1, 0x4_0000_0000);
    }
    let step_x: i64 = floor_div(across_x as i128, w as i128) as i64;
    let step_y: i64 = floor_div(across_y as i128, w as i128) as i64;
    let mut floor_x: i64 = first_x;
    let mut floor_y: i64 = first_y;
    let mut x: usize = 0;
    while x < w
        invariant
            fb.wf(),
            fb.same_size(old(fb)),
            scene.wf(),
            w == fb.width,
            h == fb.height,
            h / 2 < y < h,
            x <= w,
            floor.wf(),
            ceiling.wf(),
            *floor == scene.textures@[scene.floor_texture as int],
            *ceiling == scene.textures@[scene.ceiling_texture as int],
            -0x8_0000_0000 <= first_x <= 0x8_0000_0000,
            -0x8_0000_0000 <= first_y <= 0x8_0000_0000,
            -0x4_0000_0001 <= step_x <= 0x4_0000_0001,
            -0x4_0000_0001 <= step_y <= 0x4_0000_0001,
            floor_x == first_x + x * step_x,
            floor_y == first_y + x * step_y,
            forall|i: int|
                0 <= i < w ==> first_x + i * step_x == #[trigger] floor_coordinate(
                    camera.pos_x as int,
                    camera.dir_x as int,
                    camera.plane_x as int,
                    w as int,
                    h as int,
                    i,
                    y as int,
                ),
            forall|i: int|
                0 <= i < w ==> first_y + i * step_y == #[trigger] floor_coordinate(
                    camera.pos_y as int,
                    camera.dir_y as int,
                    camera.plane_y as int,
                    w as int,
                    h as int,
                    i,
                    y as int,
                ),
            forall|i: int, j: int|
                fb.contains(i, j) ==> #[trigger] fb.pixel(i, j) == (if (j == y || j == h - 1 - y)
                    && i < x {
                    plane_color(scene, camera, w as int, h as int, i, j)
                } else {
                    old(fb).pixel(i, j)
                }),
        decreases w - x,
    {
        proof {
            lemma_product_bound(x as int, step_x as int, MAX_SCREEN_DIM as int, 0x4_0000_0001);
            lemma_product_bound(x as int, step_y as int, MAX_SCREEN_DIM as int, 0x4_0000_0001);
            assert((x + 1) * step_x == x * step_x + step_x) by (nonlinear_arith);
            assert((x + 1) * step_y == x * step_y + step_y) by (nonlinear_arith);
        }
        let tx: usize = texel_index_of(floor_x);
        let ty: usize = texel_index_of(floor_y);
        floor_x = floor_x + step_x;
        floor_y = floor_y + step_y;
        fb.put(x, y, floor.sample(tx, ty).darken());
        fb.put(x, h - 1 - y, ceiling.sample(tx, ty).darken());
        x += 1;
    }
}

/// Whether row `j` of a screen `h` high has its last color once the rows
/// above row `y` have had their turn: a row of the ceiling is painted in the
/// turn of the floor row that mirrors it.
spec fn row_settled(h: int, j: int, y: int) -> bool {
    if j > h / 2 {
        j < y
    } else if h - 1 - j > h / 2 {
        h - 1 - j < y
    } else {
        j < y
    }
}

/// Paints floor and ceiling over the whole picture.
pub fn cast_planes(fb: &mut Framebuffer, scene: &Scene, camera: &Camera)
    requires
        old(fb).wf(),
        scene.wf(),
        camera.wf(),
    ensures
        final(fb).wf(),
        final(fb).same_size(old(fb)),
        forall|i: int, j: int|
            old(fb).contains(i, j) ==> #[trigger] final(fb).pixel(i, j) == plane_color(
                scene,
                camera,
                old(fb).width as int,
                old(fb).height as int,
                i,
                j,
            ),
{
    let h: usize = fb.height;
    let mut y: usize = 0;
    while y < h
        invariant
            fb.wf(),
            fb.same_size(old(fb)),
            scene.wf(),
            camera.wf(),
            h == fb.height,
            y <= h,
            forall|i: int, j: int|
                fb.contains(i, j) && row_settled(h as int, j, y as int) ==> #[trigger] fb.pixel(i, j)
                    == plane_color(
                    scene,
                    camera,
                    fb.width as int,
                    h as int,
                    i,
                    j,
                ),
        decreases h - y,
    {
        if y > h / 2 {
            cast_plane_row(fb, scene, camera, y);
        } else if h - 1 - y <= h / 2 {
            blank_row(fb, y);
        }
        y += 1;
    }
}

} // verus!
