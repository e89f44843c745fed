//! Preset policy: maps a named quality preset and a numeric quality
//! knob to concrete image settings and save options.

use vstd::prelude::*;

verus! {

/// A named bundle of optimization intensity choices.
#[derive(Debug, Clone, Copy, PartialEq, Eq, Structural)]
pub enum Preset {
    /// Smaller file size, good quality; bounds image dimensions.
    Web,
    /// High quality: the quality knob is floored at 85.
    Print,
    /// Leaves the caller's knobs as given.
    Archive,
    /// Aggressive compression: quality capped at 70, small dimensions.
    Maximum,
}

/// Image optimization settings, derived once per run.
#[derive(Debug, Clone, Copy, PartialEq, Eq)]
pub struct ImageSettings {
    /// Re-encoding quality for the JPEG path, 0 to 100.
    pub jpeg_quality: u8,
    /// Whether the lossless PNG recompressor runs at all.
    pub enable_png_optimization: bool,
    /// Maximum width or height; `None` means no limit.
    pub max_dimension: Option<u32>,
}

impl Default for ImageSettings {
    /// Defaults match the `quality = 80` command-line default with no
    /// dimension bound.
    fn default() -> (r: Self)
        ensures
            r.jpeg_quality == 80,
            r.enable_png_optimization,
            r.max_dimension is None,
    {
        ImageSettings { jpeg_quality: 80, enable_png_optimization: true, max_dimension: None }
    }
}

/// Options applied when the document is serialized.
#[derive(Debug, Clone, Copy, PartialEq, Eq, Structural)]
pub struct SaveOptions {
    /// Whether the document store's structural compression runs before
    /// the save.
    pub enable_compression: bool,
}

impl Default for SaveOptions {
    fn default() -> (r: Self)
        ensures
            r.enable_compression,
    {
        SaveOptions { enable_compression: true }
    }
}

/// The quality actually used for a preset, given the requested quality:
/// `Print` floors it at 85, `Maximum` caps it at 70, the others keep it.
pub open spec fn spec_preset_quality(preset: Preset, quality: u8) -> u8 {
    match preset {
        Preset::Web => quality,
        Preset::Print => if quality >= 85 {
            quality
        } else {
            85u8
        },
        Preset::Archive => quality,
        Preset::Maximum => if quality <= 70 {
            quality
        } else {
            70u8
        },
    }
}

/// The dimension bound of a preset: `Web` bounds at 1920, `Maximum` at
/// 1024, the others not at all.
pub open spec fn spec_preset_max_dimension(preset: Preset) -> Option<u32> {
    match preset {
        Preset::Web => Some(1920u32),
        Preset::Print => None,
        Preset::Archive => None,
        Preset::Maximum => Some(1024u32),
    }
}

/// The settings a preset and quality knob map to: quality clamped per
/// preset, lossless PNG optimization always on, dimension bound per
/// preset.
pub open spec fn spec_derived_settings(preset: Preset, quality: u8) -> ImageSettings {
    ImageSettings {
        jpeg_quality: spec_preset_quality(preset, quality),
        enable_png_optimization: true,
        max_dimension: spec_preset_max_dimension(preset),
    }
}

/// Derive the image settings for one run from the preset and the
/// requested quality.  Total over all inputs: the quality is clamped,
/// never rejected, and lossless PNG optimization is on in every preset.
pub fn create_image_settings_for_preset(preset: &Preset, quality: u8) -> (r: ImageSettings)
    ensures
        r == spec_derived_settings(*preset, quality),
        r.jpeg_quality == spec_preset_quality(*preset, quality),
        r.enable_png_optimization,
        r.max_dimension == spec_preset_max_dimension(*preset),
{
    match preset {
        Preset::Web => ImageSettings {
            jpeg_quality: quality,
            enable_png_optimization: true,
            max_dimension: Some(1920),
        },
        Preset::Print => ImageSettings {
            jpeg_quality: if quality >= 85 {
                quality
            } else {
                85
            },
            enable_png_optimization: true,
            max_dimension: None,
        },
        Preset::Archive => ImageSettings {
            jpeg_quality: quality,
            enable_png_optimization: true,
            max_dimension: None,
        },
        Preset::Maximum => ImageSettings {
            jpeg_quality: if quality <= 70 {
                quality
            } else {
                70
            },
            enable_png_optimization: true,
            max_dimension: Some(1024),
        },
    }
}

/// Derive the save options for one run.  Structural compression is
/// enabled in every preset.
pub fn create_save_options_for_preset(preset: &Preset) -> (r: SaveOptions)
    ensures
        r.enable_compression,
{
    match preset {
        Preset::Web => SaveOptions { enable_compression: true },
        Preset::Print => SaveOptions { enable_compression: true },
        Preset::Archive => SaveOptions { enable_compression: true },
        Preset::Maximum => SaveOptions { enable_compression: true },
    }
}

} // verus!
