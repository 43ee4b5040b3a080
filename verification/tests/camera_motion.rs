use raycaster::camera::{is_steady, turn_angle, walk_distance, Camera, Key, Keys, MIN_SPREAD,
    POSITION_LIMIT, VECTOR_LIMIT};
use raycaster::fixed::ONE;
use raycaster::grid::Grid;

fn room(w: usize, h: usize) -> Vec<Vec<usize>> {
    let mut cells = Vec::new();
    for x in 0..w {
        let mut column = Vec::new();
        for y in 0..h {
            let border = x == 0 || y == 0 || x == w - 1 || y == h - 1;
            column.push(if border { 1 } else { 0 });
        }
        cells.push(column);
    }
    cells
}

fn fx(v: f64) -> i64 {
    (v * 65536.0).round() as i64
}

fn no_keys() -> Keys {
    Keys::none()
}

fn looking_west(x: f64, y: f64) -> Camera {
    Camera::new(fx(x), fx(y), -ONE, 0, 0, fx(0.66)).unwrap()
}

#[test]
fn a_camera_needs_direction_and_plane_apart() {
    assert!(Camera::new(fx(22.0), fx(11.5), -ONE, 0, 0, fx(0.66)).is_some());
    // no plane
    assert!(Camera::new(fx(22.0), fx(11.5), -ONE, 0, 0, 0).is_none());
    // no direction
    assert!(Camera::new(fx(22.0), fx(11.5), 0, 0, 0, fx(0.66)).is_none());
    // plane along the direction
    assert!(Camera::new(fx(22.0), fx(11.5), -ONE, 0, fx(0.66), 0).is_none());
}

#[test]
fn a_camera_needs_bounded_numbers() {
    assert!(Camera::new(-1, fx(1.5), -ONE, 0, 0, fx(0.66)).is_none());
    assert!(Camera::new(fx(1.5), -1, -ONE, 0, 0, fx(0.66)).is_none());
    assert!(Camera::new(POSITION_LIMIT, fx(1.5), -ONE, 0, 0, fx(0.66)).is_none());
    assert!(Camera::new(POSITION_LIMIT - 1, fx(1.5), -ONE, 0, 0, fx(0.66)).is_some());
    assert!(Camera::new(fx(1.5), fx(1.5), VECTOR_LIMIT + 1, 0, 0, fx(0.66)).is_none());
    assert!(Camera::new(fx(1.5), fx(1.5), VECTOR_LIMIT, 0, 0, fx(0.66)).is_some());
    assert!(Camera::new(fx(1.5), fx(1.5), -ONE, 0, 0, -VECTOR_LIMIT - 1).is_none());
}

#[test]
fn steadiness_is_a_bound_on_the_cross_product() {
    // plane (0, 64) and direction (-65536, 0): cross product 64 * 65536 = MIN_SPREAD
    assert_eq!(64 * 65536, MIN_SPREAD);
    assert!(is_steady(-65536, 0, 0, 64));
    assert!(!is_steady(-65536, 0, 0, 63));
    assert!(is_steady(65536, 0, 0, 64));
    assert!(!is_steady(65536, 0, 0, -63));
    assert!(!is_steady(i128::MAX, 0, 0, 64));
}

#[test]
fn the_middle_ray_is_the_direction() {
    let camera = looking_west(22.0, 11.5);
    let ray = camera.ray_for_column(320, 640);
    assert_eq!((ray.pos_x, ray.pos_y), (fx(22.0), fx(11.5)));
    assert_eq!((ray.dir_x, ray.dir_y), (-ONE, 0));
}

#[test]
fn the_edge_rays_are_direction_and_plane() {
    let camera = looking_west(22.0, 11.5);
    let left = camera.ray_for_column(0, 640);
    assert_eq!((left.dir_x, left.dir_y), (-ONE, -fx(0.66)));
    // the last column lies 2/640 before the right edge: 0.66 * (1 - 1/320), rounded down
    let right = camera.ray_for_column(639, 640);
    assert_eq!(right.dir_x, -ONE);
    assert_eq!(right.dir_y, 43118);
}

#[test]
fn speeds_scale_with_the_time_of_a_frame() {
    assert_eq!(walk_distance(1000), 5 * ONE);
    assert_eq!(turn_angle(1000), 3 * ONE);
    assert_eq!(walk_distance(0), 0);
    assert_eq!(turn_angle(0), 0);
    // 16 ms: 0.08 cells and 0.048 radians, rounded down
    assert_eq!(walk_distance(16), 5242);
    assert_eq!(turn_angle(16), 3145);
    assert_eq!(walk_distance(u32::MAX), (u32::MAX as i64) * 5 * 65536 / 1000);
}

#[test]
fn walking_forward_and_backward() {
    let grid = Grid::new(room(8, 8)).unwrap();
    let mut camera = looking_west(4.5, 4.5);
    camera.walk(&grid, fx(0.5), true);
    assert_eq!((camera.pos_x, camera.pos_y), (fx(4.0), fx(4.5)));
    camera.walk(&grid, fx(1.25), false);
    assert_eq!((camera.pos_x, camera.pos_y), (fx(5.25), fx(4.5)));
    assert_eq!((camera.dir_x, camera.dir_y), (-ONE, 0));
}

#[test]
fn a_wall_stops_the_walk() {
    let grid = Grid::new(room(8, 8)).unwrap();
    let mut camera = looking_west(1.25, 4.5);
    camera.walk(&grid, fx(0.5), true);
    assert_eq!((camera.pos_x, camera.pos_y), (fx(1.25), fx(4.5)));
    // a step of many cells is stopped too, also one that leaves the map
    camera.walk(&grid, fx(100.0), true);
    assert_eq!((camera.pos_x, camera.pos_y), (fx(1.25), fx(4.5)));
    camera.walk(&grid, i64::MAX, true);
    camera.walk(&grid, i64::MIN, true);
    assert_eq!((camera.pos_x, camera.pos_y), (fx(1.25), fx(4.5)));
    assert!(camera.is_inside(&grid));
}

#[test]
fn sliding_along_a_wall() {
    // the cell ahead along x is empty, the cell ahead along y is the border
    let grid = Grid::new(room(5, 5)).unwrap();
    let dir_x = fx(0.6);
    let dir_y = fx(0.8);
    let mut camera =
        Camera::new(fx(1.5), fx(3.9), dir_x, dir_y, fx(0.528), fx(-0.396)).unwrap();
    assert!(grid.is_open(fx(1.5) + 19661, fx(3.9)));
    assert!(!grid.is_open(fx(1.5) + 19661, fx(3.9) + 26214));
    camera.walk(&grid, fx(0.5), true);
    // the x component is applied, the y component is refused
    assert_eq!(camera.pos_x, fx(1.5) + 19661);
    assert_eq!(camera.pos_y, fx(3.9));
}

#[test]
fn sliding_the_other_way() {
    // blocked along x, free along y
    let grid = Grid::new(room(5, 5)).unwrap();
    let mut camera =
        Camera::new(fx(3.9), fx(1.5), fx(0.8), fx(0.6), fx(0.396), fx(-0.528)).unwrap();
    camera.walk(&grid, fx(0.5), true);
    assert_eq!(camera.pos_x, fx(3.9));
    assert_eq!(camera.pos_y, fx(1.5) + 19661);
}

#[test]
fn the_step_along_y_starts_from_the_new_x() {
    // a pillar at (2, 2): from (1.75, 1.75) towards (1, 1) * 0.5 the step along x leads to
    // 2.25, and from there the step along y would enter the pillar
    let mut cells = room(5, 5);
    cells[2][2] = 1;
    let grid = Grid::new(cells).unwrap();
    let mut camera = Camera::new(fx(1.75), fx(1.75), ONE, ONE, ONE, -ONE).unwrap();
    camera.walk(&grid, fx(0.5), true);
    assert_eq!((camera.pos_x, camera.pos_y), (fx(2.25), fx(1.75)));
}

#[test]
fn a_quarter_turn_is_exact() {
    let mut camera = looking_west(4.5, 4.5);
    camera.rotate(0, ONE, false);
    assert_eq!((camera.dir_x, camera.dir_y), (0, -ONE));
    assert_eq!((camera.plane_x, camera.plane_y), (-fx(0.66), 0));
    camera.rotate(0, ONE, true);
    assert_eq!((camera.dir_x, camera.dir_y), (-ONE, 0));
    assert_eq!((camera.plane_x, camera.plane_y), (0, fx(0.66)));
    assert_eq!((camera.pos_x, camera.pos_y), (fx(4.5), fx(4.5)));
}

#[test]
fn a_turn_rounds_to_the_nearest() {
    // the angle with cosine 0.8 and sine 0.6
    let (cos, sin) = (fx(0.8), fx(0.6));
    assert_eq!((cos, sin), (52429, 39322));
    let mut camera = looking_west(4.5, 4.5);
    camera.rotate(cos, sin, false);
    assert_eq!((camera.dir_x, camera.dir_y), (-52429, -39322));
    // (0, 0.66) goes to (-0.396, 0.528): -25952.66 and 34603.33 in units of 2^-16
    assert_eq!((camera.plane_x, camera.plane_y), (-25953, 34603));
    let mut camera = looking_west(4.5, 4.5);
    camera.rotate(cos, sin, true);
    assert_eq!((camera.dir_x, camera.dir_y), (-52429, 39322));
    assert_eq!((camera.plane_x, camera.plane_y), (25953, 34603));
}

#[test]
fn a_turn_that_would_unsettle_the_camera_is_refused() {
    let mut camera = looking_west(4.5, 4.5);
    // not a rotation: scales both vectors to nothing
    camera.rotate(0, 0, false);
    assert_eq!((camera.dir_x, camera.dir_y), (-ONE, 0));
    assert_eq!((camera.plane_x, camera.plane_y), (0, fx(0.66)));
    // not a rotation: scales both vectors beyond the limit
    camera.rotate(i64::MAX, i64::MIN, true);
    assert_eq!((camera.dir_x, camera.dir_y), (-ONE, 0));
    assert_eq!((camera.plane_x, camera.plane_y), (0, fx(0.66)));
}

#[test]
fn a_full_turn_in_small_steps_returns() {
    let steps = 360;
    let angle = 2.0 * std::f64::consts::PI / steps as f64;
    let cos = fx(angle.cos());
    let sin = fx(angle.sin());
    for right in [false, true] {
        let mut camera = looking_west(4.5, 4.5);
        for _ in 0..steps {
            camera.rotate(cos, sin, right);
        }
        let tolerance = fx(0.01);
        assert!((camera.dir_x - -ONE).abs() <= tolerance, "dir_x {}", camera.dir_x);
        assert!(camera.dir_y.abs() <= tolerance, "dir_y {}", camera.dir_y);
        assert!(camera.plane_x.abs() <= tolerance, "plane_x {}", camera.plane_x);
        assert!((camera.plane_y - fx(0.66)).abs() <= tolerance, "plane_y {}", camera.plane_y);
    }
}

#[test]
fn a_full_turn_at_the_speed_of_a_frame_returns() {
    // frames of 16 ms turn by 0.048 radians
    let angle = turn_angle(16) as f64 / 65536.0;
    let cos = fx(angle.cos());
    let sin = fx(angle.sin());
    let steps = (2.0 * std::f64::consts::PI / angle).round() as usize;
    let rest = 2.0 * std::f64::consts::PI - steps as f64 * angle;
    let mut camera = looking_west(4.5, 4.5);
    for _ in 0..steps {
        camera.rotate(cos, sin, false);
    }
    camera.rotate(fx(rest.cos()), fx(rest.sin()), false);
    let tolerance = fx(0.01);
    assert!((camera.dir_x - -ONE).abs() <= tolerance, "dir_x {}", camera.dir_x);
    assert!(camera.dir_y.abs() <= tolerance, "dir_y {}", camera.dir_y);
    assert!(camera.plane_x.abs() <= tolerance, "plane_x {}", camera.plane_x);
    assert!((camera.plane_y - fx(0.66)).abs() <= tolerance, "plane_y {}", camera.plane_y);
}

#[test]
fn steering_applies_the_held_keys() {
    let grid = Grid::new(room(8, 8)).unwrap();
    let mut camera = looking_west(4.5, 4.5);
    let go_on = camera.steer(&grid, &no_keys(), fx(0.5), 0, ONE);
    assert!(go_on);
    assert_eq!((camera.pos_x, camera.pos_y), (fx(4.5), fx(4.5)));
    assert_eq!((camera.dir_x, camera.dir_y), (-ONE, 0));

    let keys = Keys { up: true, ..no_keys() };
    assert!(camera.steer(&grid, &keys, fx(0.5), 0, ONE));
    assert_eq!((camera.pos_x, camera.pos_y), (fx(4.0), fx(4.5)));

    let keys = Keys { down: true, ..no_keys() };
    assert!(camera.steer(&grid, &keys, fx(0.25), 0, ONE));
    assert_eq!((camera.pos_x, camera.pos_y), (fx(4.25), fx(4.5)));

    let keys = Keys { left: true, ..no_keys() };
    assert!(camera.steer(&grid, &keys, fx(0.25), 0, ONE));
    assert_eq!((camera.dir_x, camera.dir_y), (0, -ONE));

    let keys = Keys { right: true, ..no_keys() };
    assert!(camera.steer(&grid, &keys, fx(0.25), 0, ONE));
    assert_eq!((camera.dir_x, camera.dir_y), (-ONE, 0));
    assert!(camera.steer(&grid, &keys, fx(0.25), 0, ONE));
    assert_eq!((camera.dir_x, camera.dir_y), (0, ONE));
}

#[test]
fn opposite_keys_cancel() {
    let grid = Grid::new(room(8, 8)).unwrap();
    let mut camera = looking_west(4.5, 4.5);
    let keys = Keys { up: true, down: true, left: true, right: true, escape: false };
    assert!(camera.steer(&grid, &keys, fx(0.5), 0, ONE));
    assert_eq!((camera.pos_x, camera.pos_y), (fx(4.5), fx(4.5)));
    assert_eq!((camera.dir_x, camera.dir_y), (-ONE, 0));
    assert_eq!((camera.plane_x, camera.plane_y), (0, fx(0.66)));
}

#[test]
fn escape_ends_the_frames() {
    let grid = Grid::new(room(8, 8)).unwrap();
    let mut camera = looking_west(4.5, 4.5);
    let keys = Keys { up: true, escape: true, ..no_keys() };
    assert!(!camera.steer(&grid, &keys, fx(0.5), 0, ONE));
    // the frame's input is still applied
    assert_eq!((camera.pos_x, camera.pos_y), (fx(4.0), fx(4.5)));
}

#[test]
fn keys_are_held_from_press_to_release() {
    let mut keys = Keys::none();
    assert_eq!(keys, Keys { up: false, down: false, left: false, right: false, escape: false });
    keys.press(Key::Up);
    keys.press(Key::Left);
    assert_eq!(keys, Keys { up: true, down: false, left: true, right: false, escape: false });
    keys.press(Key::Up);
    keys.release(Key::Left);
    keys.release(Key::Right);
    assert_eq!(keys, Keys { up: true, down: false, left: false, right: false, escape: false });
    keys.press(Key::Down);
    keys.press(Key::Right);
    keys.press(Key::Escape);
    keys.release(Key::Up);
    assert_eq!(keys, Keys { up: false, down: true, left: false, right: true, escape: true });
    keys.release(Key::Down);
    keys.release(Key::Right);
    keys.release(Key::Escape);
    assert_eq!(keys, Keys::none());
}
