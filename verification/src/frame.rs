//! One frame: floor and ceiling, then the walls, then the sprites.

use crate::camera::Camera;
use crate::color::Color;
use crate::fixed::Fixed;
use crate::framebuffer::Framebuffer;
use crate::planes::{cast_planes, plane_color};
use crate::scene::Scene;
use crate::sorting::{depth_order, far_to_near};
use crate::billboard::{cast_sprites, sprites_over};
use crate::walls::{cast_walls, wall_distance, wall_over};
use vstd::prelude::*;

verus! {

/// What a frame leaves behind besides the picture.
pub struct FrameState {
    /// The depth buffer: for each column the distance to its wall.
    pub depth: Vec<Fixed>,
    /// The order in which the sprites were drawn, the farthest first.
    pub order: Vec<usize>,
}

/// The color of the pixel `(x, y)` of a whole frame on a screen `w` by `h`:
/// the sprites of `order`, hidden by walls according to `depth`, over the
/// walls, over floor and ceiling.
pub open spec fn frame_color(
    scene: &Scene,
    camera: &Camera,
    order: Seq<usize>,
    depth: Seq<Fixed>,
    w: int,
    h: int,
    x: int,
    y: int,
) -> Color {
    sprites_over(
        scene,
        camera,
        order,
        depth,
        w,
        h,
        x,
        y,
        wall_over(scene, camera, w, h, x, y, plane_color(scene, camera, w, h, x, y)),
    )
}

impl FrameState {
    /// The state before the first frame.
    pub fn new() -> (s: FrameState)
        ensures
            s.depth@.len() == 0,
            s.order@.len() == 0,
    {
        FrameState { depth: Vec::new(), order: Vec::new() }
    }
}

/// Renders one frame: every pixel of the picture is painted anew. `state`
/// receives the depth buffer of the walls and the order of the sprites.
pub fn render_frame(
    fb: &mut Framebuffer,
    state: &mut FrameState,
    scene: &Scene,
    camera: &Camera,
)
    requires
        old(fb).wf(),
        scene.wf(),
        camera.wf(),
        camera.inside(&scene.grid),
    ensures
        final(fb).wf(),
        final(fb).same_size(old(fb)),
        final(state).depth@.len() == old(fb).width,
        forall|x: int|
            0 <= x < old(fb).width ==> #[trigger] final(state).depth@[x] == wall_distance(
                scene,
                camera,
                old(fb).width as int,
                x,
            ),
        far_to_near(final(state).order@, camera, scene.sprites@),
        forall|i: int, j: int|
            old(fb).contains(i, j) ==> #[trigger] final(fb).pixel(i, j) == frame_color(
                scene,
                camera,
                final(state).order@,
                final(state).depth@,
                old(fb).width as int,
                old(fb).height as int,
                i,
                j,
            ),
{
    cast_planes(fb, scene, camera);
    state.depth = cast_walls(fb, scene, camera);
    state.order = depth_order(camera, &scene.sprites);
    cast_sprites(fb, scene, camera, &state.depth, &state.order);
}

/// Renders one frame as `render_frame` does, if picture, scene and camera are
/// well-formed and the camera stands over an empty cell. Otherwise nothing is
/// painted. Returns whether the frame was rendered.
pub fn try_render_frame(
    fb: &mut Framebuffer,
    state: &mut FrameState,
    scene: &Scene,
    camera: &Camera,
) -> (rendered: bool)
    ensures
        rendered == (old(fb).wf() && scene.wf() && camera.wf() && camera.inside(&scene.grid)),
        !rendered ==> *final(fb) == *old(fb) && *final(state) == *old(state),
        rendered ==> {
            &&& final(fb).wf()
            &&& final(fb).same_size(old(fb))
            &&& final(state).depth@.len() == old(fb).width
            &&& forall|x: int|
                0 <= x < old(fb).width ==> #[trigger] final(state).depth@[x] == wall_distance(
                    scene,
                    camera,
                    old(fb).width as int,
                    x,
                )
            &&& far_to_near(final(state).order@, camera, scene.sprites@)
            &&& forall|i: int, j: int|
                old(fb).contains(i, j) ==> #[trigger] final(fb).pixel(i, j) == frame_color(
                    scene,
                    camera,
                    final(state).order@,
                    final(state).depth@,
                    old(fb).width as int,
                    old(fb).height as int,
                    i,
                    j,
                )
        },
{
    if fb.is_wf() && scene.is_wf() && camera.is_wf() && camera.is_inside(&scene.grid) {
        render_frame(fb, state, scene, camera);
        true
    } else {
        false
    }
}

} // verus!
