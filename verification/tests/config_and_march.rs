use earf::config::{RenderConfig, FOG_START, MIN_DISTANCE};
use earf::error::RenderError;
use earf::march::March;

fn schedule(cfg: &RenderConfig) -> Vec<u32> {
    let mut march = March::start();
    let mut all = Vec::new();
    while let Some(d) = march.next_distance(cfg) {
        all.push(d);
    }
    assert_eq!(march.next_distance(cfg), None);
    all
}

#[test]
fn config_keeps_valid_parameters() {
    let cfg = RenderConfig::new(1024, 3, 1).unwrap();
    assert_eq!(cfg.max_distance(), 1024);
    assert_eq!(cfg.lod_factor(), 3);
    assert_eq!(cfg.detail(), 1);
    assert!(RenderConfig::new(FOG_START + 1, 2, u32::MAX).is_ok());
}

#[test]
fn config_rejects_a_single_level() {
    assert_eq!(RenderConfig::new(1024, 1, 1).err(), Some(RenderError::LodFactorTooSmall));
    assert_eq!(RenderConfig::new(1024, 0, 1).err(), Some(RenderError::LodFactorTooSmall));
    assert_eq!(RenderConfig::new(0, 1, 0).err(), Some(RenderError::LodFactorTooSmall));
}

#[test]
fn config_rejects_a_zero_step() {
    assert_eq!(RenderConfig::new(1024, 3, 0).err(), Some(RenderError::ZeroDetail));
    assert_eq!(RenderConfig::new(0, 3, 0).err(), Some(RenderError::ZeroDetail));
}

#[test]
fn config_rejects_a_maximum_inside_the_clear_zone() {
    assert_eq!(RenderConfig::new(FOG_START, 3, 1).err(), Some(RenderError::MaxDistanceTooShort));
    assert_eq!(RenderConfig::new(0, 3, 1).err(), Some(RenderError::MaxDistanceTooShort));
}

#[test]
fn march_of_two_bands() {
    let cfg = RenderConfig::new(1024, 3, 1).unwrap();
    let all = schedule(&cfg);
    let mut expected: Vec<u32> = (15..512).collect();
    expected.extend((512..1024).step_by(2));
    assert_eq!(all.len(), 497 + 256);
    assert_eq!(all, expected);
}

#[test]
fn march_of_three_bands_keeps_the_distance_between_bands() {
    let cfg = RenderConfig::new(200, 4, 2).unwrap();
    let all = schedule(&cfg);
    let mut expected: Vec<u32> = (15..=65).step_by(2).collect();
    expected.extend((67..=99).step_by(4));
    expected.extend((103..=199).step_by(6));
    assert_eq!(all, expected);
}

#[test]
fn march_starts_at_the_minimum_distance_and_stays_below_the_maximum() {
    for (max_distance, lod_factor, detail) in [(101, 2, 1), (1024, 3, 1), (5000, 7, 3), (300, 2, 400)] {
        let cfg = RenderConfig::new(max_distance, lod_factor, detail).unwrap();
        let all = schedule(&cfg);
        assert_eq!(all[0], MIN_DISTANCE);
        for pair in all.windows(2) {
            assert!(pair[0] < pair[1]);
        }
        assert!(*all.last().unwrap() < max_distance);
    }
}

#[test]
fn march_with_a_huge_step_samples_once_per_band_it_enters() {
    let cfg = RenderConfig::new(300, 2, 400).unwrap();
    assert_eq!(schedule(&cfg), vec![15]);
    let cfg = RenderConfig::new(u32::MAX, 3, u32::MAX).unwrap();
    assert_eq!(schedule(&cfg), vec![15]);
}

#[test]
fn a_finished_march_stays_finished() {
    let cfg = RenderConfig::new(101, 2, 50).unwrap();
    let mut march = March::start();
    assert_eq!(march.next_distance(&cfg), Some(15));
    assert_eq!(march.next_distance(&cfg), Some(65));
    assert_eq!(march.next_distance(&cfg), None);
    assert_eq!(march.next_distance(&cfg), None);
}
