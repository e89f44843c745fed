//! The pipeline driver: validate, analyze, derive settings, optimize
//! images — strictly in that order, with no branching back.  Loading
//! and saving the file live with the caller; structural compression is
//! applied through the document store (see `store`).

use vstd::prelude::*;

use crate::analyzer::{
    analyze_pdf, spec_font_count, spec_fonts_size, spec_image_count, spec_images_size,
    spec_other_size, spec_text_count, spec_text_size, PdfAnalysis,
};
use crate::document::PdfDocument;
use crate::image_optimizer::{
    optimize_images_in_pdf, spec_obj_exact_replacement, spec_obj_fails_with, spec_obj_pass_ok,
    spec_obj_replacement, spec_obj_touched, spec_touched_count, CodecError,
};
use crate::policy::{
    create_image_settings_for_preset, create_save_options_for_preset, spec_derived_settings,
    Preset, SaveOptions,
};
use crate::utils::{calculate_compression_ratio, spec_compression_ratio_tenths};

verus! {

/// A fatal error for one file's run.
#[derive(Debug, Clone, Copy, PartialEq, Eq, Structural)]
pub enum PdfError {
    /// The document has no pages.
    NoPages,
    /// The document's root catalog reference is missing.
    NoRootCatalog,
    /// An image payload could not be recompressed.
    Codec(CodecError),
}

/// The message text belonging to each error.
pub open spec fn spec_error_message(e: PdfError) -> Seq<char> {
    match e {
        PdfError::NoPages => "PDF document contains no pages"@,
        PdfError::NoRootCatalog => "PDF document is missing root catalog"@,
        PdfError::Codec(CodecError::DecodeFailed) => "failed to decode image payload"@,
        PdfError::Codec(CodecError::EncodeFailed) => "failed to encode image as JPEG"@,
        PdfError::Codec(CodecError::PngOptimizeFailed) => "failed to optimize PNG image"@,
    }
}

impl PdfError {
    /// A human-readable description of the error.
    pub fn message(&self) -> (m: &'static str)
        ensures
            m@ == spec_error_message(*self),
    {
        match self {
            PdfError::NoPages => "PDF document contains no pages",
            PdfError::NoRootCatalog => "PDF document is missing root catalog",
            PdfError::Codec(CodecError::DecodeFailed) => "failed to decode image payload",
            PdfError::Codec(CodecError::EncodeFailed) => "failed to encode image as JPEG",
            PdfError::Codec(CodecError::PngOptimizeFailed) => "failed to optimize PNG image",
        }
    }
}

/// Validation: the document must have at least one page and a
/// resolvable root catalog reference.  Pages are checked first.
pub fn validate_pdf(doc: &PdfDocument) -> (r: Result<(), PdfError>)
    ensures
        r is Ok <==> doc.page_count > 0 && doc.has_root,
        doc.page_count == 0 ==> r == Err::<(), PdfError>(PdfError::NoPages),
        doc.page_count > 0 && !doc.has_root ==> r == Err::<(), PdfError>(PdfError::NoRootCatalog),
{
    if doc.page_count == 0 {
        return Err(PdfError::NoPages);
    }
    if !doc.has_root {
        return Err(PdfError::NoRootCatalog);
    }
    Ok(())
}

/// Basic document facts for reporting.
pub struct PdfInfo {
    pub page_count: usize,
    pub version: String,
    pub has_encryption: bool,
}

/// Read the document facts off the model.
pub fn get_pdf_info(doc: &PdfDocument) -> (r: PdfInfo)
    ensures
        r.page_count == doc.page_count,
        r.version@ == doc.version@,
        r.has_encryption == doc.encrypted,
{
    PdfInfo {
        page_count: doc.page_count,
        version: doc.version.clone(),
        has_encryption: doc.encrypted,
    }
}

/// What one optimize run reports, sizes measured by the caller on
/// durable storage.
#[derive(Debug, Clone, Copy, PartialEq, Eq, Structural)]
pub struct OptimizationResult {
    pub original_size: u64,
    pub optimized_size: u64,
    /// Space saved, in tenths of a percent of the original size.
    pub compression_ratio: i128,
    pub images_optimized: usize,
    /// Elapsed wall time, in milliseconds.
    pub processing_millis: u64,
}

/// Assemble the report of one run from the measured sizes.
pub fn make_optimization_result(
    original_size: u64,
    optimized_size: u64,
    images_optimized: usize,
    processing_millis: u64,
) -> (r: OptimizationResult)
    ensures
        r.original_size == original_size,
        r.optimized_size == optimized_size,
        r.compression_ratio == spec_compression_ratio_tenths(
            original_size as int,
            optimized_size as int,
        ),
        r.images_optimized == images_optimized,
        r.processing_millis == processing_millis,
{
    OptimizationResult {
        original_size,
        optimized_size,
        compression_ratio: calculate_compression_ratio(original_size, optimized_size),
        images_optimized,
        processing_millis,
    }
}

/// What the in-memory part of one optimize run produced: the analysis
/// snapshot taken before mutation, the count of images replaced, and
/// the options the save step must apply.
pub struct PipelineOutcome {
    pub images_optimized: usize,
    pub analysis: PdfAnalysis,
    pub save_options: SaveOptions,
}

/// One optimize run over a loaded document, strictly ordered:
/// validate, analyze, derive settings, optimize images.  Validation
/// failure terminates the run before any mutation.  A codec failure
/// aborts the run; the caller must not save the document then.
pub fn optimize_pdf(doc: &mut PdfDocument, quality: u8, preset: &Preset) -> (r: Result<
    PipelineOutcome,
    PdfError,
>)
    requires
        old(doc).page_count > 0 && old(doc).has_root ==> spec_images_size(old(doc).objects@)
            + spec_fonts_size(old(doc).objects@) + spec_text_size(old(doc).objects@)
            + spec_other_size(old(doc).objects@) <= u64::MAX,
    ensures
        old(doc).page_count == 0 ==> r == Err::<PipelineOutcome, PdfError>(PdfError::NoPages)
            && *final(doc) == *old(doc),
        old(doc).page_count > 0 && !old(doc).has_root ==> r == Err::<PipelineOutcome, PdfError>(
            PdfError::NoRootCatalog,
        ) && *final(doc) == *old(doc),
        r is Ok <==> (old(doc).page_count > 0 && old(doc).has_root && (forall|j: int|
            0 <= j < old(doc).objects@.len() ==> spec_obj_pass_ok(
                old(doc).objects@[j],
                spec_derived_settings(*preset, quality),
            ))),
        old(doc).page_count > 0 && old(doc).has_root && spec_touched_count(
            old(doc).objects@,
            spec_derived_settings(*preset, quality),
        ) == 0 ==> r is Ok,
        final(doc).objects@.len() == old(doc).objects@.len(),
        final(doc).page_count == old(doc).page_count,
        final(doc).has_root == old(doc).has_root,
        final(doc).version == old(doc).version,
        final(doc).encrypted == old(doc).encrypted,
        forall|j: int|
            0 <= j < old(doc).objects@.len() ==> final(doc).objects@[j] == old(doc).objects@[j]
                || spec_obj_replacement(
                final(doc).objects@[j],
                old(doc).objects@[j],
                spec_derived_settings(*preset, quality),
            ),
        r matches Ok(out) ==> {
            &&& out.save_options.enable_compression
            &&& out.images_optimized == spec_touched_count(
                old(doc).objects@,
                spec_derived_settings(*preset, quality),
            )
            &&& out.analysis.total_objects == old(doc).objects@.len()
            &&& out.analysis.image_count == spec_image_count(old(doc).objects@)
            &&& out.analysis.font_count == spec_font_count(old(doc).objects@)
            &&& out.analysis.text_objects == spec_text_count(old(doc).objects@)
            &&& out.analysis.content_breakdown.images_size == spec_images_size(old(doc).objects@)
            &&& forall|j: int|
                0 <= j < old(doc).objects@.len() && !spec_obj_touched(
                    old(doc).objects@[j],
                    spec_derived_settings(*preset, quality),
                ) ==> final(doc).objects@[j] == old(doc).objects@[j]
            &&& forall|j: int|
                0 <= j < old(doc).objects@.len() && spec_obj_touched(
                    old(doc).objects@[j],
                    spec_derived_settings(*preset, quality),
                ) ==> spec_obj_exact_replacement(
                    final(doc).objects@[j],
                    old(doc).objects@[j],
                    spec_derived_settings(*preset, quality),
                )
        },
        r matches Err(e) ==> (e == PdfError::NoPages || e == PdfError::NoRootCatalog || (match e {
            PdfError::Codec(ce) => exists|j: int|
                0 <= j < old(doc).objects@.len() && spec_obj_fails_with(
                    old(doc).objects@[j],
                    spec_derived_settings(*preset, quality),
                    ce,
                ),
            _ => false,
        })),
{
    match validate_pdf(doc) {
        Err(e) => {
            return Err(e);
        },
        Ok(()) => {},
    }
    let analysis = analyze_pdf(doc);
    let image_settings = create_image_settings_for_preset(preset, quality);
    let save_options = create_save_options_for_preset(preset);
    match optimize_images_in_pdf(doc, &image_settings) {
        Ok(images_optimized) => Ok(PipelineOutcome { images_optimized, analysis, save_options }),
        Err(ce) => Err(PdfError::Codec(ce)),
    }
}

} // verus!
