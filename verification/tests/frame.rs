use earf::camera::{Camera, Position};
use earf::column::cast_column;
use earf::config::RenderConfig;
use earf::frame::{render_frame, render_frame_parallel};
use earf::terrain_map::{DecodedImage, HeightColorMap};
use earf::units::{FACTOR_ONE, WORLD_UNIT};

const SEED: u8 = 0x5C;

fn map_of(width: u32, height: u32, texel: &dyn Fn(u32, u32) -> (u8, u8, u8)) -> HeightColorMap {
    let mut pixels = Vec::new();
    for z in 0..height {
        for x in 0..width {
            let (r, g, b) = texel(x, z);
            pixels.extend_from_slice(&[r, g, b]);
        }
    }
    let img = DecodedImage { width, height, pitch: width * 3, bytes_per_pixel: 3, pixels };
    HeightColorMap::new(&img).unwrap()
}

fn scene() -> (RenderConfig, Camera, HeightColorMap, HeightColorMap) {
    let cfg = RenderConfig::new(1024, 3, 1).unwrap();
    let eye = Position { x: 20 * WORLD_UNIT, y: 75 * WORLD_UNIT, z: -11 * WORLD_UNIT };
    let mut camera = Camera::new(eye, FACTOR_ONE / 2, 48, 40).unwrap();
    camera.set_heading(-46341, 46341).unwrap();
    let heightmap = map_of(32, 32, &|x, z| (((x * x + 3 * z + x * z) % 256) as u8, 0, 0));
    let colormap = map_of(32, 32, &|x, z| ((x * 8) as u8, (z * 8) as u8, (x ^ z) as u8));
    (cfg, camera, heightmap, colormap)
}

fn column_by_column(order: &[u32]) -> Vec<u8> {
    let (cfg, camera, heightmap, colormap) = scene();
    let mut frame = vec![SEED; 48 * 160];
    for &c in order {
        let at = (c as usize) * 160;
        cast_column(&cfg, &camera, &heightmap, &colormap, c, &mut frame[at..at + 160]);
    }
    frame
}

#[test]
fn render_frame_casts_every_column_into_its_own_bytes() {
    let (cfg, camera, heightmap, colormap) = scene();
    let mut frame = vec![SEED; 48 * 160];
    render_frame(&cfg, &camera, &heightmap, &colormap, &mut frame);
    let in_order: Vec<u32> = (0..48).collect();
    assert_eq!(frame, column_by_column(&in_order));
    assert_ne!(frame, vec![SEED; 48 * 160]);
}

#[test]
fn columns_may_be_cast_in_any_order() {
    let in_order: Vec<u32> = (0..48).collect();
    let reversed: Vec<u32> = (0..48).rev().collect();
    let shuffled: Vec<u32> = (0..48).map(|k| (k * 29 + 7) % 48).collect();
    let with_repeats: Vec<u32> = (0..96).map(|k| (k * 5) % 48).collect();
    let expected = column_by_column(&in_order);
    assert_eq!(column_by_column(&reversed), expected);
    assert_eq!(column_by_column(&shuffled), expected);
    assert_eq!(column_by_column(&with_repeats), expected);
}

#[test]
fn parallel_rendering_gives_the_same_bytes() {
    let (cfg, camera, heightmap, colormap) = scene();
    let mut sequential = vec![SEED; 48 * 160];
    render_frame(&cfg, &camera, &heightmap, &colormap, &mut sequential);
    let mut parallel = vec![SEED; 48 * 160];
    render_frame_parallel(&cfg, &camera, &heightmap, &colormap, &mut parallel);
    assert_eq!(parallel, sequential);
    assert_ne!(parallel, vec![SEED; 48 * 160]);
}

#[test]
fn parallel_rendering_is_repeatable() {
    let (cfg, camera, heightmap, colormap) = scene();
    let mut first = vec![SEED; 48 * 160];
    render_frame_parallel(&cfg, &camera, &heightmap, &colormap, &mut first);
    for _ in 0..5 {
        let mut again = vec![SEED; 48 * 160];
        render_frame_parallel(&cfg, &camera, &heightmap, &colormap, &mut again);
        assert_eq!(again, first);
    }
}

#[test]
fn neighbouring_columns_do_not_leak_into_each_other() {
    let (cfg, camera, heightmap, colormap) = scene();
    let mut frame = vec![SEED; 48 * 160];
    render_frame(&cfg, &camera, &heightmap, &colormap, &mut frame);
    for c in 0..48u32 {
        let mut alone = vec![SEED; 160];
        cast_column(&cfg, &camera, &heightmap, &colormap, c, &mut alone);
        let at = (c as usize) * 160;
        assert_eq!(&frame[at..at + 160], &alone[..]);
    }
}

#[test]
fn unpainted_rows_keep_what_the_caller_seeded() {
    let (cfg, camera, heightmap, colormap) = scene();
    let mut frame: Vec<u8> = (0..48 * 160).map(|i| (i % 251) as u8).collect();
    let seeded = frame.clone();
    render_frame(&cfg, &camera, &heightmap, &colormap, &mut frame);
    for c in 0..48u32 {
        let mut alone = vec![SEED; 160];
        let horizon = cast_column(&cfg, &camera, &heightmap, &colormap, c, &mut alone);
        let at = (c as usize) * 160;
        let kept = 4 * (horizon as usize + 1);
        assert_eq!(&frame[at..at + kept], &seeded[at..at + kept]);
        assert_eq!(&frame[at + kept..at + 160], &alone[kept..]);
    }
}

#[test]
fn a_screen_without_columns_has_an_empty_frame() {
    let cfg = RenderConfig::new(1024, 3, 1).unwrap();
    let camera = Camera::new(Position { x: 0, y: 0, z: 0 }, 0, 0, 40).unwrap();
    let map = map_of(1, 1, &|_, _| (0, 0, 0));
    let mut frame: Vec<u8> = Vec::new();
    render_frame(&cfg, &camera, &map, &map, &mut frame);
    render_frame_parallel(&cfg, &camera, &map, &map, &mut frame);
    assert!(frame.is_empty());
}
