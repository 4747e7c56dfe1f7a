use earf::config::{RenderConfig, FOG_START};
use earf::fog::fog_alpha_at;

#[test]
fn fog_is_opaque_where_it_starts_and_clear_at_the_maximum() {
    let cfg = RenderConfig::new(1024, 3, 1).unwrap();
    assert_eq!(fog_alpha_at(&cfg, FOG_START), 255);
    assert_eq!(fog_alpha_at(&cfg, 1024), 0);
}

#[test]
fn fog_alpha_is_the_floor_of_the_scaled_level() {
    let cfg = RenderConfig::new(1024, 3, 1).unwrap();
    assert_eq!(fog_alpha_at(&cfg, 562), 127);
    assert_eq!(fog_alpha_at(&cfg, 118), 250);
    assert_eq!(fog_alpha_at(&cfg, 101), 254);
    assert_eq!(fog_alpha_at(&cfg, 1023), 0);
    assert_eq!(fog_alpha_at(&cfg, 716), 85);
    assert_eq!(fog_alpha_at(&cfg, 408), 170);
}

#[test]
fn fog_alpha_is_held_at_255_nearer_than_the_start() {
    let cfg = RenderConfig::new(1024, 3, 1).unwrap();
    assert_eq!(fog_alpha_at(&cfg, 15), 255);
    assert_eq!(fog_alpha_at(&cfg, 0), 255);
    assert_eq!(fog_alpha_at(&cfg, 99), 255);
}

#[test]
fn fog_alpha_is_held_at_zero_beyond_the_maximum() {
    let cfg = RenderConfig::new(1024, 3, 1).unwrap();
    assert_eq!(fog_alpha_at(&cfg, 1025), 0);
    assert_eq!(fog_alpha_at(&cfg, u32::MAX), 0);
    let far = RenderConfig::new(u32::MAX, 2, 1).unwrap();
    assert_eq!(fog_alpha_at(&far, u32::MAX), 0);
    assert_eq!(fog_alpha_at(&far, 100), 255);
}

#[test]
fn fog_never_clears_with_distance() {
    for max_distance in [101u32, 150, 1024, 4000] {
        let cfg = RenderConfig::new(max_distance, 3, 1).unwrap();
        let mut last = fog_alpha_at(&cfg, 0);
        for d in 1..=max_distance + 10 {
            let alpha = fog_alpha_at(&cfg, d);
            assert!(alpha <= last);
            last = alpha;
        }
    }
}
