//! Walls: for each column of the screen one ray, and the textured strip of
//! the wall that it meets.

use crate::camera::{Camera, POSITION_LIMIT};
use crate::color::Color;
use crate::dda::{Hit, Ray, Side, DISTANCE_LIMIT, RAY_LIMIT};
use crate::fixed::{fraction, fraction_part, lemma_div_below, lemma_product_bound,
    lemma_quotient_bound, mul_fixed, product, Fixed, ONE};
use crate::framebuffer::{Framebuffer, MAX_SCREEN_DIM};
use crate::scene::Scene;
use crate::texture::{Texture, TEXTURE_SIZE};
use vstd::prelude::*;

verus! {

/// The height in pixels at which something at `distance` shows on a screen
/// `h` high: `h` divided by the distance. A distance of zero counts as the
/// least distance above it.
pub open spec fn line_height(h: int, distance: int) -> int {
    (h * ONE) / (if distance < 1 { 1 } else { distance })
}

/// The first row of a strip `lh` high, centred on a screen `h` high.
pub open spec fn strip_start(h: int, lh: int) -> int {
    if h / 2 - lh / 2 < 0 {
        0
    } else {
        h / 2 - lh / 2
    }
}

/// The row after the last of a strip `lh` high, centred on a screen `h` high.
pub open spec fn strip_end(h: int, lh: int) -> int {
    if h / 2 + lh / 2 >= h {
        h - 1
    } else {
        h / 2 + lh / 2
    }
}

/// The texture row that shows in row `y` of a strip `lh` high on a screen `h`
/// high: the texture is stretched over the whole strip, also where the strip
/// is taller than the screen.
pub open spec fn strip_row(h: int, lh: int, y: int) -> int {
    ((y - h / 2 + lh / 2) * TEXTURE_SIZE) / lh
}

/// The texture column that a ray meets in the wall it hits after `distance`
/// through a line of kind `side`: the place along the wall, flipped where the
/// wall is seen from its other face, so that a texture never appears mirrored.
pub open spec fn wall_column(ray: Ray, side: Side, distance: int) -> int {
    let along = match side {
        Side::Vertical => ray.pos_y + product(distance, ray.dir_y as int),
        Side::Horizontal => ray.pos_x + product(distance, ray.dir_x as int),
    };
    let column = (fraction(along) * TEXTURE_SIZE) / (ONE as int);
    let flipped = match side {
        Side::Vertical => ray.dir_x > 0,
        Side::Horizontal => ray.dir_y < 0,
    };
    if flipped {
        TEXTURE_SIZE - column - 1
    } else {
        column
    }
}

/// The color that the wall met by `ray` shows in row `y` of a screen `h` high.
/// Walls entered through a horizontal line show at half the brightness.
pub open spec fn wall_color(scene: &Scene, ray: Ray, h: int, y: int) -> Color {
    let m = ray.target(&scene.grid);
    let distance = ray.distance(m);
    let lh = line_height(h, distance);
    let texel = scene.wall_texture(m.x, m.y).texel(
        wall_column(ray, m.side, distance),
        strip_row(h, lh, y),
    );
    match m.side {
        Side::Vertical => texel,
        Side::Horizontal => texel.dimmed(),
    }
}

/// Whether the wall met by `ray` covers row `y` of a screen `h` high.
pub open spec fn wall_covers(scene: &Scene, ray: Ray, h: int, y: int) -> bool {
    let lh = line_height(h, ray.distance(ray.target(&scene.grid)));
    strip_start(h, lh) <= y < strip_end(h, lh)
}

/// Computes `line_height(h, distance)`.
pub fn line_height_of(h: i64, distance: Fixed) -> (lh: i64)
    requires
        0 < h <= MAX_SCREEN_DIM,
        0 <= distance,
    ensures
        lh == line_height(h as int, distance as int),
        0 <= lh <= h * ONE,
{
    let d: i64 = if distance < 1 { 1 } else { distance };
    proof {
        lemma_quotient_bound(h * ONE, d as int);
    }
    (h * ONE) / d
}

/// Computes `wall_column(ray, side, distance)`.
pub fn wall_column_of(ray: &Ray, side: Side, distance: Fixed) -> (tx: usize)
    requires
        ray.wf(),
        0 <= ray.pos_x < POSITION_LIMIT,
        0 <= ray.pos_y < POSITION_LIMIT,
        0 <= distance <= DISTANCE_LIMIT,
    ensures
        tx == wall_column(*ray, side, distance as int),
        tx < TEXTURE_SIZE,
{
    proof {
        lemma_product_bound(
            distance as int,
            ray.dir_x as int,
            DISTANCE_LIMIT as int,
            RAY_LIMIT as int,
        );
        lemma_product_bound(
            distance as int,
            ray.dir_y as int,
            DISTANCE_LIMIT as int,
            RAY_LIMIT as int,
        );
    }
    let along: i64 = match side {
        Side::Vertical => ray.pos_y + mul_fixed(distance, ray.dir_y),
        Side::Horizontal => ray.pos_x + mul_fixed(distance, ray.dir_x),
    };
    let column: i64 = (fraction_part(along) * 64) / ONE;
    let flipped: bool = match side {
        Side::Vertical => ray.dir_x > 0,
        Side::Horizontal => ray.dir_y < 0,
    };
    if flipped {
        (63 - column) as usize
    } else {
        column as usize
    }
}

/// Draws the wall that `ray` meets into column `x`, and returns the distance
/// to it. Rows that the wall does not cover stay as they are.
pub fn draw_wall(fb: &mut Framebuffer, scene: &Scene, ray: &Ray, x: usize) -> (distance: Fixed)
    requires
        old(fb).wf(),
        scene.wf(),
        ray.wf(),
        scene.grid.open_at(ray.pos_x as int, ray.pos_y as int),
        x < old(fb).width,
    ensures
        final(fb).wf(),
        final(fb).same_size(old(fb)),
        distance == ray.distance(ray.target(&scene.grid)),
        0 <= distance <= DISTANCE_LIMIT,
        forall|i: int, j: int|
            old(fb).contains(i, j) ==> #[trigger] final(fb).pixel(i, j) == (if i == x
                && wall_covers(scene, *ray, old(fb).height as int, j) {
                wall_color(scene, *ray, old(fb).height as int, j)
            } else {
                old(fb).pixel(i, j)
            }),
{
    let hit: Hit = ray.cast(&scene.grid);
    let h: i64 = fb.height as i64;
    let lh: i64 = line_height_of(h, hit.distance);
    let start: i64 = if h / 2 - lh / 2 < 0 { 0 } else { h / 2 - lh / 2 };
    let end: i64 = if h / 2 + lh / 2 >= h { h - 1 } else { h / 2 + lh / 2 };
    let tag: usize = scene.grid.cell(hit.cell_x, hit.cell_y);
    assert(scene.grid.tag(hit.cell_x as int, hit.cell_y as int) <= scene.textures@.len());
    let texture: &Texture = &scene.textures[tag - 1];
    let tx: usize = wall_column_of(ray, hit.side, hit.distance);
    let mut y: i64 = start;
    while y < end
        invariant
            fb.wf(),
            fb.same_size(old(fb)),
            h == fb.height,
            x < fb.width,
            0 <= start <= y <= end,
            end < h <= MAX_SCREEN_DIM,
            lh <= h * ONE,
            start == strip_start(h as int, lh as int),
            end == strip_end(h as int, lh as int),
            0 <= lh,
            texture.wf(),
            tx < TEXTURE_SIZE,
            forall|i: int, j: int|
                fb.contains(i, j) ==> #[trigger] fb.pixel(i, j) == (if i == x && start <= j < y {
                    (match hit.side {
                        Side::Vertical => texture.texel(tx as int, strip_row(h as int, lh as int, j)),
                        Side::Horizontal => texture.texel(
                            tx as int,
                            strip_row(h as int, lh as int, j),
                        ).dimmed(),
                    })
                } else {
                    old(fb).pixel(i, j)
                }),
        decreases end - y,
    {
        let k: i64 = y - h / 2 + lh / 2;
        proof {
            lemma_div_below(k * 64, lh as int, 64);
        }
        let ty: i64 = (k * 64) / lh;
        let texel: Color = texture.sample(tx, ty as usize);
        let color: Color = match hit.side {
            Side::Vertical => texel,
            Side::Horizontal => texel.darken(),
        };
        fb.put(x, y as usize, color);
        y = y + 1;
    }
    hit.distance
}

/// The distance from the camera to the wall in column `x` of a screen `w` wide.
pub open spec fn wall_distance(scene: &Scene, camera: &Camera, w: int, x: int) -> int {
    let ray = camera.ray_through(x, w);
    ray.distance(ray.target(&scene.grid))
}

/// The color of the pixel `(x, y)` of a screen `w` by `h` once the walls are
/// drawn over a pixel that showed `under`.
pub open spec fn wall_over(
    scene: &Scene,
    camera: &Camera,
    w: int,
    h: int,
    x: int,
    y: int,
    under: Color,
) -> Color {
    let ray = camera.ray_through(x, w);
    if wall_covers(scene, ray, h, y) {
        wall_color(scene, ray, h, y)
    } else {
        under
    }
}

/// Draws the walls over the picture, one ray for each column, and returns the
/// depth buffer: for each column the distance to its wall.
pub fn cast_walls(fb: &mut Framebuffer, scene: &Scene, camera: &Camera) -> (depth: Vec<Fixed>)
    requires
        old(fb).wf(),
        scene.wf(),
        camera.wf(),
        camera.inside(&scene.grid),
    ensures
        final(fb).wf(),
        final(fb).same_size(old(fb)),
        depth@.len() == old(fb).width,
        forall|x: int|
            0 <= x < old(fb).width ==> #[trigger] depth@[x] == wall_distance(
                scene,
                camera,
                old(fb).width as int,
                x,
            ) && 0 <= depth@[x] <= DISTANCE_LIMIT,
        forall|i: int, j: int|
            old(fb).contains(i, j) ==> #[trigger] final(fb).pixel(i, j) == wall_over(
                scene,
                camera,
                old(fb).width as int,
                old(fb).height as int,
                i,
                j,
                old(fb).pixel(i, j),
            ),
{
    let w: usize = fb.width;
    let mut depth: Vec<Fixed> = Vec::new();
    let mut x: usize = 0;
    while x < w
        invariant
            fb.wf(),
            fb.same_size(old(fb)),
            scene.wf(),
            camera.wf(),
            camera.inside(&scene.grid),
            w == fb.width,
            x <= w,
            depth@.len() == x,
            forall|i: int|
                0 <= i < x ==> #[trigger] depth@[i] == wall_distance(scene, camera, w as int, i)
                    && 0 <= depth@[i] <= DISTANCE_LIMIT,
            forall|i: int, j: int|
                fb.contains(i, j) ==> #[trigger] fb.pixel(i, j) == (if i < x {
                    wall_over(
                        scene,
                        camera,
                        w as int,
                        fb.height as int,
                        i,
                        j,
                        old(fb).pixel(i, j),
                    )
                } else {
                    old(fb).pixel(i, j)
                }),
        decreases w - x,
    {
        let ray: Ray = camera.ray_for_column(x, w);
        let distance: Fixed = draw_wall(fb, scene, &ray, x);
        depth.push(distance);
        x += 1;
    }
    depth
}

} // verus!
