use earf::camera::{Camera, Position, Ray, FOV_SCALE_MAX};
use earf::error::RenderError;
use earf::units::{FACTOR_ONE, WORLD_UNIT};

const ORIGIN: Position = Position { x: 0, y: 0, z: 0 };

#[test]
fn new_camera_looks_along_x() {
    let eye = Position { x: 5 * WORLD_UNIT, y: 90 * WORLD_UNIT, z: -3 * WORLD_UNIT };
    let camera = Camera::new(eye, FACTOR_ONE, 3, 100).unwrap();
    assert_eq!(camera.eye(), eye);
    assert_eq!(camera.screen_width(), 3);
    assert_eq!(camera.screen_height(), 100);
    assert_eq!(camera.ray_for_column(0), Ray { dx: WORLD_UNIT, dz: -WORLD_UNIT });
    assert_eq!(camera.ray_for_column(1), Ray { dx: WORLD_UNIT, dz: 0 });
    assert_eq!(camera.ray_for_column(2), Ray { dx: WORLD_UNIT, dz: WORLD_UNIT });
}

#[test]
fn camera_rejects_a_screen_without_rows() {
    assert_eq!(Camera::new(ORIGIN, FACTOR_ONE, 640, 0).err(), Some(RenderError::EmptyScreen));
    assert_eq!(Camera::new(ORIGIN, -1, 640, 0).err(), Some(RenderError::EmptyScreen));
}

#[test]
fn camera_rejects_a_field_of_view_out_of_range() {
    assert_eq!(Camera::new(ORIGIN, -1, 640, 400).err(), Some(RenderError::InvalidFieldOfView));
    assert_eq!(
        Camera::new(ORIGIN, FOV_SCALE_MAX + 1, 640, 400).err(),
        Some(RenderError::InvalidFieldOfView)
    );
    assert!(Camera::new(ORIGIN, FOV_SCALE_MAX, 640, 400).is_ok());
}

#[test]
fn camera_rejects_a_field_of_view_too_narrow_for_its_columns() {
    assert_eq!(Camera::new(ORIGIN, 319, 640, 400).err(), Some(RenderError::InvalidFieldOfView));
    assert!(Camera::new(ORIGIN, 320, 640, 400).is_ok());
    assert!(Camera::new(ORIGIN, 0, 1, 400).is_ok());
    assert!(Camera::new(ORIGIN, 0, 0, 400).is_ok());
    assert_eq!(Camera::new(ORIGIN, 0, 2, 400).err(), Some(RenderError::InvalidFieldOfView));
}

#[test]
fn rays_turn_with_the_heading() {
    let mut camera = Camera::new(ORIGIN, FACTOR_ONE / 2, 3, 100).unwrap();
    assert_eq!(camera.set_heading(0, FACTOR_ONE), Ok(()));
    assert_eq!(camera.ray_for_column(0), Ray { dx: WORLD_UNIT / 2, dz: WORLD_UNIT });
    assert_eq!(camera.ray_for_column(1), Ray { dx: 0, dz: WORLD_UNIT });
    assert_eq!(camera.ray_for_column(2), Ray { dx: -WORLD_UNIT / 2, dz: WORLD_UNIT });
    assert_eq!(camera.set_heading(-FACTOR_ONE, 0), Ok(()));
    assert_eq!(camera.ray_for_column(0), Ray { dx: -WORLD_UNIT, dz: WORLD_UNIT / 2 });
    assert_eq!(camera.ray_for_column(2), Ray { dx: -WORLD_UNIT, dz: -WORLD_UNIT / 2 });
}

#[test]
fn sideways_offsets_are_rounded_down() {
    // Four columns at scale 1/65536 * 5: offsets floor(5 * n / 3) for n = -3, -1, 1, 3.
    let camera = Camera::new(ORIGIN, 5, 4, 10).unwrap();
    let offsets: Vec<i64> = (0..4).map(|c| camera.ray_for_column(c).dz / FACTOR_ONE).collect();
    assert_eq!(offsets, vec![-5, -2, 1, 5]);
}

#[test]
fn a_single_column_looks_straight_ahead() {
    let mut camera = Camera::new(ORIGIN, FACTOR_ONE, 1, 10).unwrap();
    assert_eq!(camera.ray_for_column(0), Ray { dx: WORLD_UNIT, dz: 0 });
    camera.set_heading(39322, 52429).unwrap();
    assert_eq!(camera.ray_for_column(0), Ray { dx: 39322 * FACTOR_ONE, dz: 52429 * FACTOR_ONE });
}

#[test]
fn set_heading_rejects_what_is_no_direction() {
    let mut camera = Camera::new(ORIGIN, FACTOR_ONE, 3, 100).unwrap();
    camera.set_heading(0, -FACTOR_ONE).unwrap();
    let before: Vec<Ray> = (0..3).map(|c| camera.ray_for_column(c)).collect();
    assert_eq!(camera.set_heading(0, 0), Err(RenderError::InvalidHeading));
    assert_eq!(camera.set_heading(FACTOR_ONE + 1, 0), Err(RenderError::InvalidHeading));
    assert_eq!(camera.set_heading(0, -FACTOR_ONE - 1), Err(RenderError::InvalidHeading));
    let after: Vec<Ray> = (0..3).map(|c| camera.ray_for_column(c)).collect();
    assert_eq!(before, after);
}

#[test]
fn set_eye_moves_the_eye_and_nothing_else() {
    let mut camera = Camera::new(ORIGIN, FACTOR_ONE, 3, 100).unwrap();
    let rays: Vec<Ray> = (0..3).map(|c| camera.ray_for_column(c)).collect();
    let eye = Position { x: i64::MIN, y: i64::MAX, z: 7 };
    camera.set_eye(eye);
    assert_eq!(camera.eye(), eye);
    assert_eq!(camera.screen_width(), 3);
    assert_eq!(camera.screen_height(), 100);
    assert_eq!(rays, (0..3).map(|c| camera.ray_for_column(c)).collect::<Vec<Ray>>());
}

#[test]
fn rays_are_ordered_left_to_right() {
    let headings = [(FACTOR_ONE, 0), (0, FACTOR_ONE), (39322, 52429), (-46341, 46341), (1, 0), (-3, -2)];
    for (cos, sin) in headings {
        for (fov_scale, width) in [(320, 640u32), (FACTOR_ONE, 640), (FOV_SCALE_MAX, 7), (1, 3)] {
            let mut camera = Camera::new(ORIGIN, fov_scale, width, 10).unwrap();
            camera.set_heading(cos, sin).unwrap();
            let mut last: Option<(i128, i128)> = None;
            for c in 0..width {
                let ray = camera.ray_for_column(c);
                let side = (ray.dz as i128) * (cos as i128) - (ray.dx as i128) * (sin as i128);
                let ahead = (ray.dx as i128) * (cos as i128) + (ray.dz as i128) * (sin as i128);
                assert!(ahead > 0);
                if let Some((last_side, last_ahead)) = last {
                    assert!(side > last_side);
                    assert_eq!(ahead, last_ahead);
                }
                last = Some((side, ahead));
            }
        }
    }
}

#[test]
fn ray_angles_increase_with_the_column() {
    let mut camera = Camera::new(ORIGIN, FACTOR_ONE / 2, 160, 100).unwrap();
    camera.set_heading(39322, 52429).unwrap();
    let heading = (52429f64).atan2(39322f64);
    let mut last = f64::NEG_INFINITY;
    for c in 0..160 {
        let ray = camera.ray_for_column(c);
        let angle = (ray.dz as f64).atan2(ray.dx as f64) - heading;
        assert!(angle > last);
        last = angle;
    }
}
