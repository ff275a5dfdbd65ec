use raytrace::raster::{
    emission_index, emission_order, pixel_at, sample_id, sample_seeds, task_seed, Pixel,
};
use raytrace::settings::RenderSettings;

fn px(column: u64, row: u64) -> Pixel {
    Pixel { column, row }
}

#[test]
fn emission_starts_at_top_left() {
    let s = RenderSettings::new(2, 2, 1, 1).unwrap();
    assert_eq!(pixel_at(&s, 0), px(0, 1));
    assert_eq!(pixel_at(&s, 1), px(1, 1));
    assert_eq!(pixel_at(&s, 2), px(0, 0));
    assert_eq!(pixel_at(&s, 3), px(1, 0));
}

#[test]
fn emission_order_is_row_major_from_top() {
    let s = RenderSettings::new(3, 2, 4, 1).unwrap();
    let order = emission_order(&s);
    assert_eq!(
        order,
        vec![px(0, 1), px(1, 1), px(2, 1), px(0, 0), px(1, 0), px(2, 0)]
    );
}

#[test]
fn emission_index_inverts_pixel_at() {
    let s = RenderSettings::new(5, 3, 2, 1).unwrap();
    for k in 0..15u64 {
        assert_eq!(emission_index(&s, pixel_at(&s, k)), k);
    }
    assert_eq!(emission_index(&s, px(4, 0)), 14);
    assert_eq!(emission_index(&s, px(0, 2)), 0);
}

#[test]
fn sample_ids_follow_pixels() {
    let s = RenderSettings::new(4, 3, 10, 1).unwrap();
    assert_eq!(sample_id(&s, 0, 0), 0);
    assert_eq!(sample_id(&s, 0, 9), 9);
    assert_eq!(sample_id(&s, 1, 0), 10);
    assert_eq!(sample_id(&s, 11, 9), 119);
}

#[test]
fn task_seed_wraps_around() {
    assert_eq!(task_seed(7, 5), 12);
    assert_eq!(task_seed(u64::MAX, 1), 0);
    assert_eq!(task_seed(u64::MAX, 3), 2);
}

#[test]
fn sample_seeds_are_distinct_across_pixels() {
    let s = RenderSettings::new(3, 2, 4, 1).unwrap();
    let mut all = Vec::new();
    for p in 0..6u64 {
        let seeds = sample_seeds(&s, 1000, p);
        assert_eq!(seeds.len(), 4);
        assert_eq!(seeds[0], 1000 + 4 * p);
        all.extend(seeds);
    }
    let mut sorted = all.clone();
    sorted.sort();
    sorted.dedup();
    assert_eq!(sorted.len(), 24);
}
