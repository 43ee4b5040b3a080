//! What holds of the renderer as a whole, proved from the definitions.

use crate::billboard::{sprite_depth, sprite_over, sprite_shows, sprite_texel, sprites_over};
use crate::camera::{plane_offset, spread, turn_x, turn_y, Camera};
use crate::color::Color;
use crate::dda::{March, Ray, Side};
use crate::fixed::{fraction, magnitude, product, whole, Fixed, ONE};
use crate::grid::Grid;
use crate::planes::texel_index;
use crate::scene::Scene;
use crate::sorting::{distance_squared, far_to_near};
use crate::sprite::Sprite;
use crate::texture::Texture;
use crate::walls::{line_height, wall_covers, wall_distance};
use vstd::prelude::*;

verus! {

/// The coordinate of the grid line through which a march entered the cell
/// with index `cell` on one axis, heading along `d` on that axis: the near
/// face of the cell.
pub open spec fn near_face(cell: int, d: int) -> int {
    cell * ONE + (if d < 0 {
        ONE as int
    } else {
        0
    })
}

/// A march from an empty cell of a map ends in a solid cell of the map.
proof fn lemma_march_ends_in_wall(grid: &Grid, ray: Ray, m: March)
    requires
        grid.wf(),
        grid.in_bounds(m.x, m.y),
        grid.tag(m.x, m.y) == 0,
    ensures
        grid.in_bounds(ray.march(grid, m).x, ray.march(grid, m).y),
        grid.tag(ray.march(grid, m).x, ray.march(grid, m).y) > 0,
    decreases ray.room(grid, m),
{
    // an empty cell is no cell of the border, so the next cell is a cell of the map
    let n = ray.step(m);
    if grid.tag(n.x, n.y) == 0 {
        lemma_march_ends_in_wall(grid, ray, n);
    }
}

/// In a map with a solid border every ray that starts over an empty cell
/// meets a wall: the march ends, and it ends in a solid cell of the map.
pub proof fn theorem_every_ray_meets_a_wall(grid: &Grid, ray: Ray)
    requires
        grid.wf(),
        grid.open_at(ray.pos_x as int, ray.pos_y as int),
    ensures
        grid.in_bounds(ray.target(grid).x, ray.target(grid).y),
        grid.tag(ray.target(grid).x, ray.target(grid).y) > 0,
{
    lemma_march_ends_in_wall(grid, ray, ray.start());
}

/// A march along the `x` axis only ever steps along `x`.
proof fn lemma_march_along_x(grid: &Grid, ray: Ray, m: March)
    requires
        ray.dir_y == 0,
        ray.dir_x != 0,
        m.near_x == 0,
        m.near_y > 0,
    ensures
        ray.march(grid, m).side == Side::Vertical,
        ray.march(grid, m).y == m.y,
    decreases ray.room(grid, m),
{
    let n = ray.step(m);
    if grid.in_bounds(n.x, n.y) && grid.tag(n.x, n.y) == 0 {
        lemma_march_along_x(grid, ray, n);
    }
}

/// A march along the `y` axis only ever steps along `y`.
proof fn lemma_march_along_y(grid: &Grid, ray: Ray, m: March)
    requires
        ray.dir_x == 0,
        ray.dir_y != 0,
        m.near_y == 0,
        m.near_x >= 0,
    ensures
        ray.march(grid, m).side == Side::Horizontal,
        ray.march(grid, m).x == m.x,
    decreases ray.room(grid, m),
{
    let n = ray.step(m);
    if grid.in_bounds(n.x, n.y) && grid.tag(n.x, n.y) == 0 {
        lemma_march_along_y(grid, ray, n);
    }
}

/// No fisheye on the axes. A ray that runs along an axis with a direction of
/// length one stays in its row (or column) of the map, and the distance that
/// the march reports is exactly the straight-line distance from the start of
/// the ray to the face of the wall: the difference of the two on that axis.
pub proof fn theorem_axis_ray_is_undistorted(grid: &Grid, ray: Ray)
    requires
        (ray.dir_y == 0 && magnitude(ray.dir_x as int) == ONE) || (ray.dir_x == 0 && magnitude(
            ray.dir_y as int,
        ) == ONE),
    ensures
        ray.dir_y == 0 ==> {
            let m = ray.target(grid);
            &&& m.side == Side::Vertical
            &&& m.y == whole(ray.pos_y as int)
            &&& ray.distance(m) == magnitude(near_face(m.x, ray.dir_x as int) - ray.pos_x)
        },
        ray.dir_x == 0 ==> {
            let m = ray.target(grid);
            &&& m.side == Side::Horizontal
            &&& m.x == whole(ray.pos_x as int)
            &&& ray.distance(m) == magnitude(near_face(m.y, ray.dir_y as int) - ray.pos_y)
        },
{
    let start = ray.start();
    if ray.dir_y == 0 {
        // the march starts on a line of constant x and never meets one of constant y
        assert(start.near_x == 0) by (nonlinear_arith)
            requires
                start.near_x == (fraction(ray.pos_x as int) * 0) / 65536 || start.near_x == ((ONE
                    - fraction(ray.pos_x as int)) * 0) / 65536,
        ;
        let part = ONE - fraction(ray.pos_y as int);
        assert(start.near_y == part) by (nonlinear_arith)
            requires
                start.near_y == (part * 65536) / 65536,
        ;
        lemma_march_along_x(grid, ray, start);
    } else {
        assert(start.near_y == 0) by (nonlinear_arith)
            requires
                start.near_y == (fraction(ray.pos_y as int) * 0) / 65536 || start.near_y == ((ONE
                    - fraction(ray.pos_y as int)) * 0) / 65536,
        ;
        let part = ONE - fraction(ray.pos_x as int);
        assert(start.near_x == part) by (nonlinear_arith)
            requires
                start.near_x == (part * 65536) / 65536,
        ;
        lemma_march_along_y(grid, ray, start);
    }
}

/// Straight ahead there is no fisheye. Where the camera looks along an axis
/// with a direction of length one, the distance of the wall in the column
/// that lies at the middle of the camera plane is exactly the straight-line
/// distance from the camera to the face of that wall.
pub proof fn theorem_straight_ahead_is_undistorted(scene: &Scene, camera: &Camera, x: int, w: int)
    requires
        plane_offset(x, w) == 0,
        (camera.dir_y == 0 && magnitude(camera.dir_x as int) == ONE) || (camera.dir_x == 0
            && magnitude(camera.dir_y as int) == ONE),
    ensures
        camera.dir_y == 0 ==> wall_distance(scene, camera, w, x) == magnitude(
            near_face(camera.ray_through(x, w).target(&scene.grid).x, camera.dir_x as int)
                - camera.pos_x,
        ),
        camera.dir_x == 0 ==> wall_distance(scene, camera, w, x) == magnitude(
            near_face(camera.ray_through(x, w).target(&scene.grid).y, camera.dir_y as int)
                - camera.pos_y,
        ),
{
    theorem_middle_ray_is_direction(camera, x, w);
    theorem_axis_ray_is_undistorted(&scene.grid, camera.ray_through(x, w));
}

/// On a screen of even width the column in the middle lies at the middle of
/// the camera plane.
pub proof fn theorem_middle_column_has_no_offset(w: int)
    requires
        0 < w,
        w % 2 == 0,
    ensures
        plane_offset(w / 2, w) == 0,
{
    assert(2 * (w / 2) * ONE == w * 65536);
    vstd::arithmetic::div_mod::lemma_div_multiples_vanish(65536, w);
}

/// The ray through the middle of the camera plane is the camera's direction.
pub proof fn theorem_middle_ray_is_direction(camera: &Camera, x: int, w: int)
    requires
        plane_offset(x, w) == 0,
    ensures
        camera.ray_through(x, w).dir_x == camera.dir_x,
        camera.ray_through(x, w).dir_y == camera.dir_y,
        camera.ray_through(x, w).pos_x == camera.pos_x,
        camera.ray_through(x, w).pos_y == camera.pos_y,
{
    assert(product(camera.plane_x as int, 0) == 0) by (nonlinear_arith)
        requires
            product(camera.plane_x as int, 0) == (camera.plane_x * 0) / 65536,
    ;
    assert(product(camera.plane_y as int, 0) == 0) by (nonlinear_arith)
        requires
            product(camera.plane_y as int, 0) == (camera.plane_y * 0) / 65536,
    ;
}

/// The height of a wall on the screen depends on its distance alone: two
/// columns whose walls are equally far show strips of the same height over
/// the same rows.
pub proof fn theorem_equal_distance_equal_height(
    scene: &Scene,
    camera: &Camera,
    w: int,
    h: int,
    x1: int,
    x2: int,
)
    requires
        wall_distance(scene, camera, w, x1) == wall_distance(scene, camera, w, x2),
    ensures
        line_height(h, wall_distance(scene, camera, w, x1)) == line_height(
            h,
            wall_distance(scene, camera, w, x2),
        ),
        forall|y: int|
            wall_covers(scene, camera.ray_through(x1, w), h, y) == wall_covers(
                scene,
                camera.ray_through(x2, w),
                h,
                y,
            ),
{
}

/// What is nearer shows taller: the height on the screen does not grow with
/// the distance, and it is never negative.
pub proof fn theorem_nearer_is_taller(h: int, near: int, far: int)
    requires
        0 <= h,
        near <= far,
    ensures
        line_height(h, near) >= line_height(h, far) >= 0,
{
    let n = if near < 1 { 1 } else { near };
    let f = if far < 1 { 1 } else { far };
    vstd::arithmetic::div_mod::lemma_div_is_ordered_by_denominator(h * ONE, n, f);
    vstd::arithmetic::div_mod::lemma_div_pos_is_pos(h * ONE, f);
}

/// A wall hides what stands behind it: a sprite whose depth is not under the
/// depth buffer's value for a column leaves every pixel of that column as it
/// was.
pub proof fn theorem_wall_hides_sprite(
    texture: &Texture,
    camera: &Camera,
    sprite: Sprite,
    depth_buffer: Seq<Fixed>,
    w: int,
    h: int,
    x: int,
    y: int,
    under: Color,
)
    requires
        sprite_depth(camera, sprite) >= depth_buffer[x],
    ensures
        sprite_over(texture, camera, sprite, depth_buffer, w, h, x, y, under) == under,
{
}

/// Where every sprite of `order` is hidden by the wall of column `x`, the
/// pixels of that column show what they showed before the sprites were drawn.
pub proof fn theorem_wall_hides_all_sprites(
    scene: &Scene,
    camera: &Camera,
    order: Seq<usize>,
    depth_buffer: Seq<Fixed>,
    w: int,
    h: int,
    x: int,
    y: int,
    under: Color,
)
    requires
        forall|k: int|
            0 <= k < order.len() ==> sprite_depth(camera, scene.sprites@[#[trigger] order[k] as int])
                >= depth_buffer[x],
    ensures
        sprites_over(scene, camera, order, depth_buffer, w, h, x, y, under) == under,
    decreases order.len(),
{
    if order.len() > 0 {
        assert forall|k: int| 0 <= k < order.drop_last().len() implies sprite_depth(
            camera,
            scene.sprites@[#[trigger] order.drop_last()[k] as int],
        ) >= depth_buffer[x] by {
        }
        theorem_wall_hides_all_sprites(
            scene,
            camera,
            order.drop_last(),
            depth_buffer,
            w,
            h,
            x,
            y,
            under,
        );
    }
}

/// A list of `n` different indices under `n` holds every index under `n`.
proof fn lemma_order_holds_every_index(order: Seq<usize>, v: int) -> (at: int)
    requires
        forall|i: int| 0 <= i < order.len() ==> #[trigger] order[i] < order.len(),
        forall|i: int, j: int|
            0 <= i < j < order.len() ==> #[trigger] order[i] != #[trigger] order[j],
        0 <= v < order.len(),
    ensures
        0 <= at < order.len(),
        order[at] == v,
{
    let n = order.len() as int;
    let ints = Seq::new(order.len(), |i: int| order[i] as int);
    assert(ints.no_duplicates());
    ints.unique_seq_to_set();
    vstd::set_lib::lemma_int_range(0, n);
    let range = vstd::set_lib::set_int_range(0, n);
    assert(ints.to_set().subset_of(range));
    vstd::seq_lib::seq_to_set_is_finite(ints);
    vstd::set_lib::lemma_subset_equality(ints.to_set(), range);
    assert(ints.to_set().contains(v));
    let at = choose|i: int| 0 <= i < ints.len() && ints[i] == v;
    at
}

/// Two orders from far to near agree in their first `k` places.
proof fn lemma_orders_agree(
    camera: &Camera,
    sprites: Seq<Sprite>,
    a: Seq<usize>,
    b: Seq<usize>,
    k: int,
)
    requires
        far_to_near(a, camera, sprites),
        far_to_near(b, camera, sprites),
        0 <= k <= sprites.len(),
    ensures
        forall|j: int| 0 <= j < k ==> a[j] == b[j],
    decreases k,
{
    if k > 0 {
        lemma_orders_agree(camera, sprites, a, b, k - 1);
        // The element at `k - 1` of either order occurs in the other. It does not occur
        // before `k - 1`, where the orders agree. And if each occurred after `k - 1` in the
        // other order, each would be farther than the other.
        let in_b = lemma_order_holds_every_index(b, a[k - 1] as int);
        let in_a = lemma_order_holds_every_index(a, b[k - 1] as int);
    }
}

/// There is one order from far to near: what `far_to_near` says of an order
/// leaves no choice, so the order of the sprites, and with it the frame, is
/// determined by the scene and the camera.
pub proof fn theorem_depth_order_is_unique(
    camera: &Camera,
    sprites: Seq<Sprite>,
    a: Seq<usize>,
    b: Seq<usize>,
)
    requires
        far_to_near(a, camera, sprites),
        far_to_near(b, camera, sprites),
    ensures
        a == b,
{
    lemma_orders_agree(camera, sprites, a, b, sprites.len() as int);
}

/// Among the sprites that `order` lists, the last one that shows in a pixel
/// gives the pixel its color.
proof fn lemma_last_shown_is_on_top(
    scene: &Scene,
    camera: &Camera,
    order: Seq<usize>,
    depth_buffer: Seq<Fixed>,
    w: int,
    h: int,
    x: int,
    y: int,
    under: Color,
    k: int,
)
    requires
        0 <= k < order.len(),
        sprite_shows(
            &scene.textures@[scene.sprites@[order[k] as int].texture as int],
            camera,
            scene.sprites@[order[k] as int],
            depth_buffer,
            w,
            h,
            x,
            y,
        ),
        forall|j: int|
            k < j < order.len() ==> !sprite_shows(
                &scene.textures@[scene.sprites@[#[trigger] order[j] as int].texture as int],
                camera,
                scene.sprites@[order[j] as int],
                depth_buffer,
                w,
                h,
                x,
                y,
            ),
    ensures
        sprites_over(scene, camera, order, depth_buffer, w, h, x, y, under) == sprite_texel(
            &scene.textures@[scene.sprites@[order[k] as int].texture as int],
            camera,
            scene.sprites@[order[k] as int],
            w,
            h,
            x,
            y,
        ),
    decreases order.len(),
{
    if k < order.len() - 1 {
        let rest = order.drop_last();
        assert forall|j: int| k < j < rest.len() implies !sprite_shows(
            &scene.textures@[scene.sprites@[#[trigger] rest[j] as int].texture as int],
            camera,
            scene.sprites@[rest[j] as int],
            depth_buffer,
            w,
            h,
            x,
            y,
        ) by {
        }
        lemma_last_shown_is_on_top(scene, camera, rest, depth_buffer, w, h, x, y, under, k);
    }
}

/// The nearest sprite is on top. Where sprites are drawn from far to near, a
/// sprite that shows in a pixel gives the pixel its color if every other
/// sprite that shows there is farther from the camera.
pub proof fn theorem_nearest_sprite_is_on_top(
    scene: &Scene,
    camera: &Camera,
    order: Seq<usize>,
    depth_buffer: Seq<Fixed>,
    w: int,
    h: int,
    x: int,
    y: int,
    under: Color,
    k: int,
)
    requires
        far_to_near(order, camera, scene.sprites@),
        0 <= k < order.len(),
        sprite_shows(
            &scene.textures@[scene.sprites@[order[k] as int].texture as int],
            camera,
            scene.sprites@[order[k] as int],
            depth_buffer,
            w,
            h,
            x,
            y,
        ),
        forall|j: int|
            0 <= j < order.len() && j != k && sprite_shows(
                &scene.textures@[scene.sprites@[#[trigger] order[j] as int].texture as int],
                camera,
                scene.sprites@[order[j] as int],
                depth_buffer,
                w,
                h,
                x,
                y,
            ) ==> distance_squared(camera, scene.sprites@[order[j] as int]) > distance_squared(
                camera,
                scene.sprites@[order[k] as int],
            ),
    ensures
        sprites_over(scene, camera, order, depth_buffer, w, h, x, y, under) == sprite_texel(
            &scene.textures@[scene.sprites@[order[k] as int].texture as int],
            camera,
            scene.sprites@[order[k] as int],
            w,
            h,
            x,
            y,
        ),
{
    lemma_last_shown_is_on_top(scene, camera, order, depth_buffer, w, h, x, y, under, k);
}

/// A turn by a right angle, whose cosine is 0 and whose sine is 1, is exact:
/// it sends `(vx, vy)` to `(-vy, vx)`.
pub proof fn lemma_quarter_turn(vx: int, vy: int)
    ensures
        turn_x(vx, vy, 0, ONE as int) == -vy,
        turn_y(vx, vy, 0, ONE as int) == vx,
{
}

/// A turn by a right angle leaves a camera steady and turns direction and
/// plane exactly.
pub proof fn theorem_quarter_turn_is_exact(camera: &Camera)
    requires
        camera.wf(),
    ensures
        camera.turned(0, ONE as int).wf(),
        camera.turned(0, ONE as int) == (Camera {
            dir_x: (-camera.dir_y) as i64,
            dir_y: camera.dir_x,
            plane_x: (-camera.plane_y) as i64,
            plane_y: camera.plane_x,
            ..*camera
        }),
{
    lemma_quarter_turn(camera.dir_x as int, camera.dir_y as int);
    lemma_quarter_turn(camera.plane_x as int, camera.plane_y as int);
    let dx = camera.dir_x as int;
    let dy = camera.dir_y as int;
    let px = camera.plane_x as int;
    let py = camera.plane_y as int;
    assert(spread(-dy, dx, -py, px) == spread(dx, dy, px, py)) by (nonlinear_arith)
        requires
            spread(-dy, dx, -py, px) == (-py) * dx - (-dy) * px,
            spread(dx, dy, px, py) == px * dy - dx * py,
    ;
}

/// Four turns by a right angle bring direction and plane back to where they
/// were, exactly: a full turn in exact steps leaves no error behind.
pub proof fn theorem_four_quarter_turns_return(camera: &Camera)
    requires
        camera.wf(),
    ensures
        camera.turned(0, ONE as int).turned(0, ONE as int).turned(0, ONE as int).turned(
            0,
            ONE as int,
        ) == *camera,
{
    let a = camera.turned(0, ONE as int);
    theorem_quarter_turn_is_exact(camera);
    let b = a.turned(0, ONE as int);
    theorem_quarter_turn_is_exact(&a);
    let c = b.turned(0, ONE as int);
    theorem_quarter_turn_is_exact(&b);
    theorem_quarter_turn_is_exact(&c);
}

/// The floor's texture repeats from cell to cell: the texel under a
/// coordinate depends on the fractional part of the coordinate alone, so
/// moving by whole cells changes nothing.
pub proof fn theorem_texel_ignores_whole_cells(coordinate: int, cells: int)
    ensures
        texel_index(coordinate + cells * ONE) == texel_index(coordinate),
        texel_index(coordinate) == texel_index(fraction(coordinate)),
        0 <= texel_index(coordinate) < 64,
{
    vstd::arithmetic::div_mod::lemma_mod_multiples_vanish(cells, coordinate, 65536);
}

} // verus!
