use raytrace::settings::{RenderSettings, SettingsError};

#[test]
fn settings_accepts_small_image() {
    let s = RenderSettings::new(2, 2, 1, 1).unwrap();
    assert_eq!(s.image_width, 2);
    assert_eq!(s.image_height, 2);
    assert_eq!(s.samples_per_pixel, 1);
    assert_eq!(s.max_depth, 1);
}

#[test]
fn settings_refuses_narrow_image() {
    assert_eq!(RenderSettings::new(1, 10, 1, 5), Err(SettingsError::WidthTooSmall));
    assert_eq!(RenderSettings::new(0, 0, 0, 5), Err(SettingsError::WidthTooSmall));
}

#[test]
fn settings_refuses_flat_image() {
    assert_eq!(RenderSettings::new(10, 1, 1, 5), Err(SettingsError::HeightTooSmall));
}

#[test]
fn settings_refuses_zero_samples() {
    assert_eq!(RenderSettings::new(200, 112, 0, 50), Err(SettingsError::NoSamples));
}

#[test]
fn settings_refuses_too_many_tasks() {
    assert_eq!(
        RenderSettings::new(u64::MAX, 2, 1, 50),
        Err(SettingsError::TooManyPixels)
    );
    assert_eq!(
        RenderSettings::new(1 << 32, 1 << 16, 1 << 16, 50),
        Err(SettingsError::TooManyPixels)
    );
    assert!(RenderSettings::new(1 << 32, 1 << 16, 1 << 15, 50).is_ok());
}
