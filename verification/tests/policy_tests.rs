use pdf_opticompress::policy::{
    create_image_settings_for_preset, create_save_options_for_preset, ImageSettings, Preset,
    SaveOptions,
};

#[test]
fn web_preset_keeps_quality_and_bounds_dimension() {
    let s = create_image_settings_for_preset(&Preset::Web, 80);
    assert_eq!(s.jpeg_quality, 80);
    assert!(s.enable_png_optimization);
    assert_eq!(s.max_dimension, Some(1920));
}

#[test]
fn print_preset_floors_quality_at_85() {
    let s = create_image_settings_for_preset(&Preset::Print, 50);
    assert_eq!(s.jpeg_quality, 85);
    assert!(s.enable_png_optimization);
    assert_eq!(s.max_dimension, None);

    let s_high = create_image_settings_for_preset(&Preset::Print, 95);
    assert_eq!(s_high.jpeg_quality, 95);
}

#[test]
fn archive_preset_keeps_quality_without_bound() {
    let s = create_image_settings_for_preset(&Preset::Archive, 100);
    assert_eq!(s.jpeg_quality, 100);
    assert!(s.enable_png_optimization);
    assert_eq!(s.max_dimension, None);
}

#[test]
fn maximum_preset_caps_quality_at_70() {
    let s = create_image_settings_for_preset(&Preset::Maximum, 90);
    assert_eq!(s.jpeg_quality, 70);
    assert!(s.enable_png_optimization);
    assert_eq!(s.max_dimension, Some(1024));

    let s_low = create_image_settings_for_preset(&Preset::Maximum, 40);
    assert_eq!(s_low.jpeg_quality, 40);
}

#[test]
fn every_preset_enables_structural_compression() {
    for preset in [Preset::Web, Preset::Print, Preset::Archive, Preset::Maximum] {
        let o = create_save_options_for_preset(&preset);
        assert!(o.enable_compression);
    }
}

#[test]
fn default_settings_match_cli_defaults() {
    let s = ImageSettings::default();
    assert_eq!(s.jpeg_quality, 80);
    assert!(s.enable_png_optimization);
    assert_eq!(s.max_dimension, None);

    let o = SaveOptions::default();
    assert!(o.enable_compression);
}
