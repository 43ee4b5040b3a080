//! Sprites on the screen: each one projected as a square that faces the
//! viewer, hidden where a wall is nearer, and clear where its texture is black.

use crate::camera::{spread, Camera, MIN_SPREAD, POSITION_LIMIT, VECTOR_LIMIT};
use crate::color::Color;
use crate::fixed::{floor_div, lemma_div_below, lemma_product_bound, lemma_quotient_bound,
    lemma_ratio_bound, magnitude, toward_zero, Fixed, ONE};
use crate::framebuffer::{Framebuffer, MAX_SCREEN_DIM};
use crate::scene::Scene;
use crate::sprite::Sprite;
use crate::texture::{Texture, TEXTURE_SIZE};
use crate::walls::{line_height, line_height_of, strip_end, strip_start};
use vstd::prelude::*;

verus! {

/// No sprite is farther from the camera plane, or farther to its side, than this.
pub const REACH_LIMIT: i64 = 0x2000_0000_0001;

/// No sprite shows farther from the first column of the screen than this.
pub const CENTER_LIMIT: i64 = 0x1000_0000_0000_8000;

/// One coordinate of a point in the camera's own frame. `n` is the cross
/// product of the point with a basis vector and `s` the spread of the basis:
/// the coordinate is their quotient, rounded down.
pub open spec fn in_basis(n: int, s: int) -> int
    recommends
        s != 0,
{
    if s > 0 {
        (n * ONE) / s
    } else {
        (-n * ONE) / (-s)
    }
}

/// How far the sprite stands to the side of the camera's axis, to the right
/// being positive, in multiples of the plane vector.
pub open spec fn sprite_across(camera: &Camera, sprite: Sprite) -> int {
    in_basis(
        camera.dir_y * (sprite.x - camera.pos_x) - camera.dir_x * (sprite.y - camera.pos_y),
        spread(
            camera.dir_x as int,
            camera.dir_y as int,
            camera.plane_x as int,
            camera.plane_y as int,
        ),
    )
}

/// How far the sprite stands in front of the camera plane, in multiples of the
/// direction vector: its depth. Not positive for a sprite behind the viewer.
pub open spec fn sprite_depth(camera: &Camera, sprite: Sprite) -> int {
    in_basis(
        camera.plane_x * (sprite.y - camera.pos_y) - camera.plane_y * (sprite.x - camera.pos_x),
        spread(
            camera.dir_x as int,
            camera.dir_y as int,
            camera.plane_x as int,
            camera.plane_y as int,
        ),
    )
}

/// The column of a screen `w` wide in which the middle of a sprite shows:
/// half the width times one plus the ratio of `across` to `depth`, rounded
/// toward zero.
pub open spec fn sprite_center(w: int, across: int, depth: int) -> int
    recommends
        depth > 0,
{
    toward_zero(w * (depth + across), 2 * depth)
}

/// The first column of a sprite `size` wide around `center`.
pub open spec fn column_start(center: int, size: int) -> int {
    if center - size / 2 < 0 {
        0
    } else {
        center - size / 2
    }
}

/// The column after the last of a sprite `size` wide around `center`, on a
/// screen `w` wide.
pub open spec fn column_end(w: int, center: int, size: int) -> int {
    if center + size / 2 >= w {
        w - 1
    } else {
        center + size / 2
    }
}

/// The texture column that shows in column `x` of a sprite `size` wide around
/// `center`.
pub open spec fn sprite_column(center: int, size: int, x: int) -> int {
    ((256 * (x - (center - size / 2)) * TEXTURE_SIZE) / size) / 256
}

/// The texture row that shows in row `y` of a sprite `size` high on a screen
/// `h` high.
pub open spec fn sprite_row(h: int, size: int, y: int) -> int {
    let d = y * 256 - h * 128 + size * 128;
    (((if d < 0 { 0 } else { d }) * TEXTURE_SIZE) / size) / 256
}

/// Where a sprite shows on the screen.
#[derive(Clone, Copy, Debug)]
pub struct Billboard {
    /// The depth of the sprite; it shows only if this is positive.
    pub depth: Fixed,
    /// The column of its middle.
    pub center: i64,
    /// Its width and height in pixels.
    pub size: i64,
}

/// Whether a sprite of the given depth, middle and size is in front of the
/// viewer and covers the pixel `(x, y)` of a screen `w` by `h`.
pub open spec fn covers(depth: int, center: int, size: int, w: int, h: int, x: int, y: int)
    -> bool {
    &&& depth > 0
    &&& column_start(center, size) <= x < column_end(w, center, size)
    &&& strip_start(h, size) <= y < strip_end(h, size)
}

/// The texel of `texture` that `sprite` holds over the pixel `(x, y)` of a
/// screen `w` by `h`, where it covers that pixel.
pub open spec fn sprite_texel(
    texture: &Texture,
    camera: &Camera,
    sprite: Sprite,
    w: int,
    h: int,
    x: int,
    y: int,
) -> Color {
    let depth = sprite_depth(camera, sprite);
    let size = line_height(h, depth);
    let center = sprite_center(w, sprite_across(camera, sprite), depth);
    texture.texel(sprite_column(center, size, x), sprite_row(h, size, y))
}

/// Whether `sprite` shows in the pixel `(x, y)` of a screen `w` by `h`: it
/// covers the pixel, is nearer than the wall of that column according to
/// `depth_buffer`, and its texel there is not the transparent color.
pub open spec fn sprite_shows(
    texture: &Texture,
    camera: &Camera,
    sprite: Sprite,
    depth_buffer: Seq<Fixed>,
    w: int,
    h: int,
    x: int,
    y: int,
) -> bool {
    let depth = sprite_depth(camera, sprite);
    let size = line_height(h, depth);
    let center = sprite_center(w, sprite_across(camera, sprite), depth);
    &&& covers(depth, center, size, w, h, x, y)
    &&& depth < depth_buffer[x]
    &&& !sprite_texel(texture, camera, sprite, w, h, x, y).is_key()
}

/// The color of the pixel `(x, y)` of a screen `w` by `h` once `sprite` is
/// drawn with `texture` over a pixel that showed `under`: the sprite's texel
/// where the sprite shows, and `under` elsewhere.
pub open spec fn sprite_over(
    texture: &Texture,
    camera: &Camera,
    sprite: Sprite,
    depth_buffer: Seq<Fixed>,
    w: int,
    h: int,
    x: int,
    y: int,
    under: Color,
) -> Color {
    if sprite_shows(texture, camera, sprite, depth_buffer, w, h, x, y) {
        sprite_texel(texture, camera, sprite, w, h, x, y)
    } else {
        under
    }
}

/// The color of the pixel `(x, y)` once the sprites that `order` lists are
/// drawn one after another, the first of `order` first, over a pixel that
/// showed `under`.
pub open spec fn sprites_over(
    scene: &Scene,
    camera: &Camera,
    order: Seq<usize>,
    depth_buffer: Seq<Fixed>,
    w: int,
    h: int,
    x: int,
    y: int,
    under: Color,
) -> Color
    decreases order.len(),
{
    if order.len() == 0 {
        under
    } else {
        let sprite = scene.sprites@[order.last() as int];
        sprite_over(
            &scene.textures@[sprite.texture as int],
            camera,
            sprite,
            depth_buffer,
            w,
            h,
            x,
            y,
            sprites_over(scene, camera, order.drop_last(), depth_buffer, w, h, x, y, under),
        )
    }
}

/// Computes `in_basis(n, s)`.
fn in_basis_of(n: i64, s: i64) -> (r: i64)
    requires
        -0x8_0000_0000_0000 <= n <= 0x8_0000_0000_0000,
        s >= MIN_SPREAD || s <= -MIN_SPREAD,
        s > i64::MIN,
    ensures
        r == in_basis(n as int, s as int),
        -REACH_LIMIT <= r <= REACH_LIMIT,
{
    let top: i128 = if s > 0 { (n as i128) * 65536 } else { -(n as i128) * 65536 };
    let bottom: i128 = if s > 0 { s as i128 } else { -(s as i128) };
    proof {
        lemma_ratio_bound(top as int, bottom as int, MIN_SPREAD as int, 0x2000_0000_0000);
    }
    floor_div(top, bottom) as i64
}

/// Projects a sprite onto a screen `w` by `h`. A sprite that is not in front
/// of the viewer has no place on the screen: its middle and size are given as 0.
pub fn project(camera: &Camera, sprite: &Sprite, w: usize, h: usize) -> (b: Billboard)
    requires
        camera.wf(),
        sprite.wf(),
        0 < w <= MAX_SCREEN_DIM,
        0 < h <= MAX_SCREEN_DIM,
    ensures
        b.depth == sprite_depth(camera, *sprite),
        b.depth > 0 ==> b.size == line_height(h as int, b.depth as int) && b.center
            == sprite_center(w as int, sprite_across(camera, *sprite), b.depth as int),
        b.depth <= 0 ==> b.size == 0 && b.center == 0,
        0 <= b.size <= h * ONE,
        -CENTER_LIMIT <= b.center <= CENTER_LIMIT,
{
    let rx: i64 = sprite.x - camera.pos_x;
    let ry: i64 = sprite.y - camera.pos_y;
    proof {
        let v = VECTOR_LIMIT as int;
        let r = POSITION_LIMIT as int;
        lemma_product_bound(camera.plane_x as int, camera.dir_y as int, v, v);
        lemma_product_bound(camera.dir_x as int, camera.plane_y as int, v, v);
        lemma_product_bound(camera.dir_y as int, rx as int, v, r);
        lemma_product_bound(camera.dir_x as int, ry as int, v, r);
        lemma_product_bound(camera.plane_x as int, ry as int, v, r);
        lemma_product_bound(camera.plane_y as int, rx as int, v, r);
    }
    let s: i64 = camera.plane_x * camera.dir_y - camera.dir_x * camera.plane_y;
    let depth: i64 = in_basis_of(camera.plane_x * ry - camera.plane_y * rx, s);
    if depth <= 0 {
        return Billboard { depth, center: 0, size: 0 };
    }
    let across: i64 = in_basis_of(camera.dir_y * rx - camera.dir_x * ry, s);
    let size: i64 = line_height_of(h as i64, depth);
    proof {
        lemma_product_bound(w as int, depth + across, MAX_SCREEN_DIM as int, 2 * REACH_LIMIT);
    }
    let n: i64 = (w as i64) * (depth + across);
    proof {
        lemma_quotient_bound(magnitude(n as int), 2 * depth);
    }
    let center: i64 = if n >= 0 {
        n / (2 * depth)
    } else {
        -((-n) / (2 * depth))
    };
    Billboard { depth, center, size }
}

/// Draws column `tx` of `texture` into column `x` of the picture, as one
/// column of a sprite `size` high, and leaves out the transparent texels.
fn draw_stripe(fb: &mut Framebuffer, texture: &Texture, x: usize, size: i64, tx: usize)
    requires
        old(fb).wf(),
        texture.wf(),
        x < old(fb).width,
        0 <= size <= old(fb).height * ONE,
        tx < TEXTURE_SIZE,
    ensures
        final(fb).wf(),
        final(fb).same_size(old(fb)),
        forall|i: int, j: int|
            old(fb).contains(i, j) ==> #[trigger] final(fb).pixel(i, j) == (if i == x
                && strip_start(old(fb).height as int, size as int) <= j < strip_end(
                old(fb).height as int,
                size as int,
            ) && !texture.texel(
                tx as int,
                sprite_row(old(fb).height as int, size as int, j),
            ).is_key() {
                texture.texel(tx as int, sprite_row(old(fb).height as int, size as int, j))
            } else {
                old(fb).pixel(i, j)
            }),
{
    let h: i64 = fb.height as i64;
    let start: i64 = if h / 2 - size / 2 < 0 { 0 } else { h / 2 - size / 2 };
    let end: i64 = if h / 2 + size / 2 >= h { h - 1 } else { h / 2 + size / 2 };
    let mut y: i64 = start;
    while y < end
        invariant
            fb.wf(),
            fb.same_size(old(fb)),
            texture.wf(),
            h == fb.height,
            x < fb.width,
            tx < TEXTURE_SIZE,
            0 <= start <= y <= end,
            end < h <= MAX_SCREEN_DIM,
            0 <= size <= h * ONE,
            start == strip_start(h as int, size as int),
            end == strip_end(h as int, size as int),
            forall|i: int, j: int|
                fb.contains(i, j) ==> #[trigger] fb.pixel(i, j) == (if i == x && start <= j < y
                    && !texture.texel(tx as int, sprite_row(h as int, size as int, j)).is_key() {
                    texture.texel(tx as int, sprite_row(h as int, size as int, j))
                } else {
                    old(fb).pixel(i, j)
                }),
        decreases end - y,
    {
        let d: i64 = y * 256 - h * 128 + size * 128;
        let e: i64 = if d < 0 { 0 } else { d };
        proof {
            lemma_div_below(e * TEXTURE_SIZE, size as int, 256 * TEXTURE_SIZE as int);
        }
        let ty: i64 = ((e * 64) / size) / 256;
        let texel: Color = texture.sample(tx, ty as usize);
        if !texel.is_transparent() {
            fb.put(x, y as usize, texel);
        }
        y = y + 1;
    }
}

/// Draws one sprite over the picture: in the columns where it is nearer than
/// the wall, every texel but the transparent ones.
pub fn draw_sprite(
    fb: &mut Framebuffer,
    texture: &Texture,
    camera: &Camera,
    sprite: &Sprite,
    depth_buffer: &Vec<Fixed>,
)
    requires
        old(fb).wf(),
        texture.wf(),
        camera.wf(),
        sprite.wf(),
        depth_buffer@.len() == old(fb).width,
    ensures
        final(fb).wf(),
        final(fb).same_size(old(fb)),
        forall|i: int, j: int|
            old(fb).contains(i, j) ==> #[trigger] final(fb).pixel(i, j) == sprite_over(
                texture,
                camera,
                *sprite,
                depth_buffer@,
                old(fb).width as int,
                old(fb).height as int,
                i,
                j,
                old(fb).pixel(i, j),
            ),
{
    let w: i64 = fb.width as i64;
    let b: Billboard = project(camera, sprite, fb.width, fb.height);
    if b.depth <= 0 {
        return ;
    }
    let first: i64 = b.center - b.size / 2;
    let start: i64 = if first < 0 { 0 } else { first };
    let end: i64 = if b.center + b.size / 2 >= w { w - 1 } else { b.center + b.size / 2 };
    let mut x: i64 = start;
    while x < end
        invariant
            fb.wf(),
            fb.same_size(old(fb)),
            texture.wf(),
            w == fb.width,
            depth_buffer@.len() == w,
            0 <= start <= x,
            end < w,
            b.depth > 0,
            b.depth == sprite_depth(camera, *sprite),
            b.size == line_height(fb.height as int, b.depth as int),
            b.center == sprite_center(w as int, sprite_across(camera, *sprite), b.depth as int),
            0 <= b.size <= fb.height * ONE,
            -CENTER_LIMIT <= b.center <= CENTER_LIMIT,
            first == b.center - b.size / 2,
            start == column_start(b.center as int, b.size as int),
            end == column_end(w as int, b.center as int, b.size as int),
            forall|i: int, j: int|
                fb.contains(i, j) ==> #[trigger] fb.pixel(i, j) == (if i < x {
                    sprite_over(
                        texture,
                        camera,
                        *sprite,
                        depth_buffer@,
                        w as int,
                        fb.height as int,
                        i,
                        j,
                        old(fb).pixel(i, j),
                    )
                } else {
                    old(fb).pixel(i, j)
                }),
        decreases end - x,
    {
        if b.depth < depth_buffer[x as usize] {
            let k: i64 = x - first;
            proof {
                lemma_div_below(256 * k * TEXTURE_SIZE, b.size as int, 256 * TEXTURE_SIZE as int);
            }
            let tx: i64 = ((256 * k * 64) / b.size) / 256;
            draw_stripe(fb, texture, x as usize, b.size, tx as usize);
        }
        x = x + 1;
    }
}

/// Draws the sprites that `order` lists over the picture, the first of
/// `order` first, so that a sprite listed later shows in front.
pub fn cast_sprites(
    fb: &mut Framebuffer,
    scene: &Scene,
    camera: &Camera,
    depth_buffer: &Vec<Fixed>,
    order: &Vec<usize>,
)
    requires
        old(fb).wf(),
        scene.wf(),
        camera.wf(),
        depth_buffer@.len() == old(fb).width,
        forall|k: int| 0 <= k < order@.len() ==> #[trigger] order@[k] < scene.sprites@.len(),
    ensures
        final(fb).wf(),
        final(fb).same_size(old(fb)),
        forall|i: int, j: int|
            old(fb).contains(i, j) ==> #[trigger] final(fb).pixel(i, j) == sprites_over(
                scene,
                camera,
                order@,
                depth_buffer@,
                old(fb).width as int,
                old(fb).height as int,
                i,
                j,
                old(fb).pixel(i, j),
            ),
{
    let n: usize = order.len();
    let mut k: usize = 0;
    while k < n
        invariant
            fb.wf(),
            fb.same_size(old(fb)),
            scene.wf(),
            camera.wf(),
            depth_buffer@.len() == fb.width,
            n == order@.len(),
            k <= n,
            forall|k: int| 0 <= k < order@.len() ==> #[trigger] order@[k] < scene.sprites@.len(),
            forall|i: int, j: int|
                fb.contains(i, j) ==> #[trigger] fb.pixel(i, j) == sprites_over(
                    scene,
                    camera,
                    order@.take(k as int),
                    depth_buffer@,
                    fb.width as int,
                    fb.height as int,
                    i,
                    j,
                    old(fb).pixel(i, j),
                ),
        decreases n - k,
    {
        let sprite: &Sprite = &scene.sprites[order[k]];
        proof {
            assert(order@.take(k + 1).drop_last() == order@.take(k as int));
            assert(order@.take(k + 1).last() == order@[k as int]);
        }
        draw_sprite(fb, &scene.textures[sprite.texture], camera, sprite, depth_buffer);
        k += 1;
    }
    proof {
        assert(order@.take(n as int) == order@);
    }
}

} // verus!
