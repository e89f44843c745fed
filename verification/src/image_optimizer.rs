//! The image optimization pass: walks the image streams of a document
//! and replaces each payload with a recompressed version chosen by the
//! preset policy.  The codecs themselves (JPEG decode and re-encode,
//! lossless PNG recompression) are outside collaborators behind a few
//! trusted wrappers; everything around them — format detection, the
//! resize rule, dictionary maintenance, the walk itself — is verified.

use vstd::prelude::*;

use crate::analyzer::{
    image_pred, lemma_count_bounds, lemma_count_take_step, lemma_sum_take_step, spec_count_objs,
    spec_image_count, spec_sum_objs,
};
use crate::document::{
    bytes_eq, has_png_signature, is_image_stream, name_dct_decode, name_flate_decode,
    spec_has_png_signature, spec_is_image_stream, spec_name_dct_decode, spec_name_flate_decode,
    PdfDocument, PdfObject, StreamDict, StreamObject,
};
use crate::policy::ImageSettings;

verus! {

/// Raster formats the pass distinguishes.  The detection chain defaults
/// to JPEG, so these two cover every stream.
#[derive(Debug, Clone, Copy, PartialEq, Eq, Structural)]
pub enum ImageKind {
    Jpeg,
    Png,
}

/// A codec failure; fatal for the whole optimize operation of one file.
#[derive(Debug, Clone, Copy, PartialEq, Eq, Structural)]
pub enum CodecError {
    /// The payload could not be decoded as the detected format.
    DecodeFailed,
    /// Re-encoding the decoded raster as JPEG failed.
    EncodeFailed,
    /// The lossless PNG recompressor rejected the payload.
    PngOptimizeFailed,
}

/// Format detection: the `Filter` hint first, the content signature
/// second, JPEG as the default.
pub open spec fn spec_detect_image_format(s: StreamObject) -> ImageKind {
    match s.dict.filter {
        Some(f) => if f@ == spec_name_dct_decode() {
            ImageKind::Jpeg
        } else if f@ == spec_name_flate_decode() && spec_has_png_signature(s.content@) {
            ImageKind::Png
        } else if spec_has_png_signature(s.content@) {
            ImageKind::Png
        } else {
            ImageKind::Jpeg
        },
        None => if spec_has_png_signature(s.content@) {
            ImageKind::Png
        } else {
            ImageKind::Jpeg
        },
    }
}

/// Runtime format detection, following the same fallback chain.
pub fn detect_image_format(stream: &StreamObject) -> (r: ImageKind)
    ensures
        r == spec_detect_image_format(*stream),
{
    match &stream.dict.filter {
        Some(f) => {
            let dct = name_dct_decode();
            if bytes_eq(f.as_slice(), dct.as_slice()) {
                return ImageKind::Jpeg;
            }
            let flate = name_flate_decode();
            if bytes_eq(f.as_slice(), flate.as_slice()) {
                if has_png_signature(&stream.content) {
                    return ImageKind::Png;
                }
            }
            if has_png_signature(&stream.content) {
                ImageKind::Png
            } else {
                ImageKind::Jpeg
            }
        },
        None => {
            if has_png_signature(&stream.content) {
                ImageKind::Png
            } else {
                ImageKind::Jpeg
            }
        },
    }
}

/// The scaled-down short side when the long side is clamped to
/// `max_dim`: truncating division, floored at one pixel.
pub open spec fn spec_clamped_side(short: int, max_dim: int, long: int) -> u32 {
    let scaled = (short * max_dim) / long;
    if scaled == 0 {
        1u32
    } else {
        scaled as u32
    }
}

/// The resize rule: `None` when both sides fit within `max_dim`, else
/// the new dimensions with the larger side equal to `max_dim` and the
/// other side scaled to preserve the aspect ratio.
pub open spec fn spec_resize_target(width: u32, height: u32, max_dim: u32) -> Option<(u32, u32)> {
    if width <= max_dim && height <= max_dim {
        None
    } else if width >= height {
        Some((max_dim, spec_clamped_side(height as int, max_dim as int, width as int)))
    } else {
        Some((spec_clamped_side(width as int, max_dim as int, height as int), max_dim))
    }
}

/// Compute the resize target of the rule above.
pub fn resize_target(width: u32, height: u32, max_dim: u32) -> (r: Option<(u32, u32)>)
    ensures
        r == spec_resize_target(width, height, max_dim),
{
    if width <= max_dim && height <= max_dim {
        return None;
    }
    if width >= height {
        let short: u64 = height as u64;
        let cap: u64 = max_dim as u64;
        let long: u64 = width as u64;
        proof {
            assert(short * cap <= u64::MAX) by (nonlinear_arith)
                requires
                    short < 0x100000000,
                    cap < 0x100000000,
            ;
        }
        let scaled: u64 = (short * cap) / long;
        proof {
            assert(scaled <= cap) by (nonlinear_arith)
                requires
                    long >= short,
                    long > 0,
                    scaled == (short * cap) as int / (long as int),
            ;
        }
        let new_height: u32 = if scaled == 0 {
            1
        } else {
            scaled as u32
        };
        Some((max_dim, new_height))
    } else {
        let short: u64 = width as u64;
        let cap: u64 = max_dim as u64;
        let long: u64 = height as u64;
        proof {
            assert(short * cap <= u64::MAX) by (nonlinear_arith)
                requires
                    short < 0x100000000,
                    cap < 0x100000000,
            ;
        }
        let scaled: u64 = (short * cap) / long;
        proof {
            assert(scaled <= cap) by (nonlinear_arith)
                requires
                    long >= short,
                    long > 0,
                    scaled == (short * cap) as int / (long as int),
            ;
        }
        let new_width: u32 = if scaled == 0 {
            1
        } else {
            scaled as u32
        };
        Some((new_width, max_dim))
    }
}

/// What decoding the payload as a JPEG yields for its dimensions:
/// `None` exactly when the payload does not decode.  The decoder is a
/// function of the bytes alone, so the result is named.
pub uninterp spec fn spec_jpeg_dimensions(data: Seq<u8>) -> Option<(u32, u32)>;

/// What the JPEG path's decode, resize, encode chain produces for
/// given payload bytes, quality and resize target: `None` exactly when
/// the chain fails.  All three codec steps are functions of their
/// arguments alone, so the result bytes are named.
pub uninterp spec fn spec_jpeg_recompressed(
    data: Seq<u8>,
    quality: u8,
    target: Option<(u32, u32)>,
) -> Option<Seq<u8>>;

/// What the lossless PNG recompressor produces for given payload
/// bytes: `None` exactly when it rejects them.  No timeout is set, so
/// the result is a function of the bytes alone.
pub uninterp spec fn spec_png_recompressed(data: Seq<u8>) -> Option<Seq<u8>>;

/// Relies on image's `load_from_memory_with_format` with the JPEG
/// format, then `DynamicImage::width` and `height`: reports the
/// decoded dimensions, or the decode failure.
#[verifier::external_body]
fn jpeg_dimensions(data: &[u8]) -> (r: Result<(u32, u32), CodecError>)
    ensures
        r is Ok <==> spec_jpeg_dimensions(data@) is Some,
        r matches Ok(d) ==> spec_jpeg_dimensions(data@) == Some(d),
        r matches Err(e) ==> e == CodecError::DecodeFailed,
{
    match image::load_from_memory_with_format(data, image::ImageFormat::Jpeg) {
        Ok(img) => Ok((img.width(), img.height())),
        Err(_) => Err(CodecError::DecodeFailed),
    }
}

/// Relies on image's `load_from_memory_with_format` (JPEG),
/// `DynamicImage::resize` with the Lanczos3 filter, and
/// `JpegEncoder::new_with_quality` with `write_with_encoder`, chained:
/// decode the payload, scale it to the target when one is given,
/// re-encode at the given quality (the encoder clamps it to 1..=100
/// itself).  A failure is the decoder's exactly when the payload has
/// no decoded dimensions, else the encoder's.
#[verifier::external_body]
fn recompress_jpeg(data: &[u8], quality: u8, target: Option<(u32, u32)>) -> (r: Result<
    Vec<u8>,
    CodecError,
>)
    ensures
        r is Ok <==> spec_jpeg_recompressed(data@, quality, target) is Some,
        r matches Ok(v) ==> spec_jpeg_recompressed(data@, quality, target) == Some(v@),
        r matches Err(e) ==> e == (if spec_jpeg_dimensions(data@) is None {
            CodecError::DecodeFailed
        } else {
            CodecError::EncodeFailed
        }),
{
    let img = match image::load_from_memory_with_format(data, image::ImageFormat::Jpeg) {
        Ok(i) => i,
        Err(_) => return Err(CodecError::DecodeFailed),
    };
    let img = match target {
        Some(t) => img.resize(t.0, t.1, image::imageops::FilterType::Lanczos3),
        None => img,
    };
    let mut out: Vec<u8> = Vec::new();
    let encoder = image::codecs::jpeg::JpegEncoder::new_with_quality(&mut out, quality);
    match img.write_with_encoder(encoder) {
        Ok(()) => Ok(out),
        Err(_) => Err(CodecError::EncodeFailed),
    }
}

/// Relies on oxipng's `optimize_from_memory` with default options.
/// With `force` off its source hands the original bytes back whenever
/// the recompressed file would not be smaller, so on success the
/// result never exceeds the input in length.
#[verifier::external_body]
fn recompress_png(data: &[u8]) -> (r: Result<Vec<u8>, CodecError>)
    ensures
        r is Ok <==> spec_png_recompressed(data@) is Some,
        r matches Ok(v) ==> spec_png_recompressed(data@) == Some(v@) && v@.len() <= data@.len(),
        r matches Err(e) ==> e == CodecError::PngOptimizeFailed,
{
    let options = oxipng::Options::default();
    match oxipng::optimize_from_memory(data, &options) {
        Ok(v) => Ok(v),
        Err(_) => Err(CodecError::PngOptimizeFailed),
    }
}

/// The resize target the policy picks for decoded dimensions under the
/// settings: none without a bound, else the rule of
/// `spec_resize_target`.
pub open spec fn spec_jpeg_target(dims: (u32, u32), settings: ImageSettings) -> Option<(u32, u32)> {
    match settings.max_dimension {
        Some(m) => spec_resize_target(dims.0, dims.1, m),
        None => None,
    }
}

/// What the JPEG path produces for a payload under the settings: the
/// recompressed bytes, or the codec error that stopped it.
pub open spec fn spec_jpeg_payload_outcome(data: Seq<u8>, settings: ImageSettings) -> Result<
    Seq<u8>,
    CodecError,
> {
    match spec_jpeg_dimensions(data) {
        Some(dims) => match spec_jpeg_recompressed(
            data,
            settings.jpeg_quality,
            spec_jpeg_target(dims, settings),
        ) {
            Some(b) => Ok(b),
            None => Err(CodecError::EncodeFailed),
        },
        None => Err(CodecError::DecodeFailed),
    }
}

/// JPEG path: decode, conditionally resize, re-encode at the policy's
/// quality — exactly the named outcome.
fn optimize_jpeg_image(data: &Vec<u8>, settings: &ImageSettings) -> (r: Result<Vec<u8>, CodecError>)
    ensures
        r is Ok <==> spec_jpeg_payload_outcome(data@, *settings) is Ok,
        r matches Ok(v) ==> spec_jpeg_payload_outcome(data@, *settings) == Ok::<
            Seq<u8>,
            CodecError,
        >(v@),
        r matches Err(e) ==> spec_jpeg_payload_outcome(data@, *settings) == Err::<
            Seq<u8>,
            CodecError,
        >(e),
{
    let dims = match jpeg_dimensions(data.as_slice()) {
        Ok(d) => d,
        Err(e) => {
            return Err(e);
        },
    };
    let target = match settings.max_dimension {
        Some(m) => resize_target(dims.0, dims.1, m),
        None => None,
    };
    recompress_jpeg(data.as_slice(), settings.jpeg_quality, target)
}

/// PNG path: run the lossless recompressor directly on the original
/// bytes — exactly the named outcome.  Never resizes; on success the
/// payload never grows.
fn optimize_png_image(data: &Vec<u8>) -> (r: Result<Vec<u8>, CodecError>)
    ensures
        r is Ok <==> spec_png_recompressed(data@) is Some,
        r matches Ok(v) ==> spec_png_recompressed(data@) == Some(v@) && v@.len() <= data@.len(),
        r matches Err(e) ==> e == CodecError::PngOptimizeFailed,
{
    recompress_png(data.as_slice())
}

/// Two optional attribute values hold the same name bytes.
pub open spec fn spec_opt_name_eq(a: Option<Vec<u8>>, b: Option<Vec<u8>>) -> bool {
    match (a, b) {
        (Option::None, Option::None) => true,
        (Option::Some(x), Option::Some(y)) => x@ == y@,
        _ => false,
    }
}

/// The replacement dictionary keeps the `Subtype`, `Type` and `Filter`
/// attributes of the original.
pub open spec fn spec_dict_preserved(new_dict: StreamDict, orig: StreamDict) -> bool {
    &&& spec_opt_name_eq(new_dict.subtype, orig.subtype)
    &&& spec_opt_name_eq(new_dict.obj_type, orig.obj_type)
    &&& spec_opt_name_eq(new_dict.filter, orig.filter)
}

/// What replacing a stream's payload guarantees: attributes preserved,
/// the `Length` attribute equal to the new payload's exact byte length,
/// and no growth on the lossless PNG path.
pub open spec fn spec_stream_replacement(new_stream: StreamObject, orig: StreamObject) -> bool {
    &&& spec_dict_preserved(new_stream.dict, orig.dict)
    &&& new_stream.dict.length == Some(new_stream.content@.len() as u64)
    &&& (spec_detect_image_format(orig) is Png ==> new_stream.content@.len()
        <= orig.content@.len())
}

/// A stream the pass will replace: an image stream whose path is
/// active (JPEG always; PNG only when lossless optimization is on).
pub open spec fn spec_stream_touched(s: StreamObject, settings: ImageSettings) -> bool {
    spec_is_image_stream(s) && (spec_detect_image_format(s) is Jpeg
        || settings.enable_png_optimization)
}

/// Object-level form of `spec_stream_touched`.
pub open spec fn spec_obj_touched(o: PdfObject, settings: ImageSettings) -> bool {
    match o {
        PdfObject::Stream(s) => spec_stream_touched(s, settings),
        _ => false,
    }
}

/// Object-level form of `spec_stream_replacement`.
pub open spec fn spec_obj_replacement(
    new_obj: PdfObject,
    orig: PdfObject,
    settings: ImageSettings,
) -> bool {
    match (new_obj, orig) {
        (PdfObject::Stream(t), PdfObject::Stream(s)) => spec_stream_touched(s, settings)
            && spec_stream_replacement(t, s),
        _ => false,
    }
}

/// The touched predicate as a first-class function.
pub open spec fn touched_pred(settings: ImageSettings) -> spec_fn(PdfObject) -> bool {
    |o: PdfObject| spec_obj_touched(o, settings)
}

/// Number of streams the pass replaces on a given document.
pub open spec fn spec_touched_count(objs: Seq<PdfObject>, settings: ImageSettings) -> int {
    spec_count_objs(objs, touched_pred(settings))
}

/// What the pass produces for one stream under the settings:
/// `Ok(None)` leaves it untouched, `Ok(Some(b))` replaces its payload
/// with `b`, `Err` aborts the file.
pub open spec fn spec_stream_outcome(s: StreamObject, settings: ImageSettings) -> Result<
    Option<Seq<u8>>,
    CodecError,
> {
    match spec_detect_image_format(s) {
        ImageKind::Jpeg => match spec_jpeg_payload_outcome(s.content@, settings) {
            Ok(b) => Ok(Some(b)),
            Err(e) => Err(e),
        },
        ImageKind::Png => if settings.enable_png_optimization {
            match spec_png_recompressed(s.content@) {
                Some(b) => Ok(Some(b)),
                None => Err(CodecError::PngOptimizeFailed),
            }
        } else {
            Ok(None)
        },
    }
}

/// The pass gets past this object: it is no image stream, or its
/// stream outcome succeeds.
pub open spec fn spec_obj_pass_ok(o: PdfObject, settings: ImageSettings) -> bool {
    match o {
        PdfObject::Stream(s) => !spec_is_image_stream(s) || spec_stream_outcome(s, settings) is Ok,
        _ => true,
    }
}

/// This object is an image stream whose outcome is exactly the given
/// codec error.
pub open spec fn spec_obj_fails_with(o: PdfObject, settings: ImageSettings, e: CodecError) -> bool {
    match o {
        PdfObject::Stream(s) => spec_is_image_stream(s) && spec_stream_outcome(s, settings)
            == Err::<Option<Seq<u8>>, CodecError>(e),
        _ => false,
    }
}

/// `spec_obj_replacement` with the payload pinned down: the new
/// content is exactly what the stream outcome names.
pub open spec fn spec_obj_exact_replacement(
    new_obj: PdfObject,
    orig: PdfObject,
    settings: ImageSettings,
) -> bool {
    match (new_obj, orig) {
        (PdfObject::Stream(t), PdfObject::Stream(s)) => spec_stream_touched(s, settings)
            && spec_stream_replacement(t, s) && spec_stream_outcome(s, settings) == Ok::<
            Option<Seq<u8>>,
            CodecError,
        >(Some(t.content@)),
        _ => false,
    }
}

/// Clone an optional attribute value.
fn clone_opt_bytes(v: &Option<Vec<u8>>) -> (r: Option<Vec<u8>>)
    ensures
        spec_opt_name_eq(r, *v),
{
    match v {
        Some(b) => Some(b.clone()),
        None => None,
    }
}

/// Build the replacement stream: same attributes, new payload, and the
/// `Length` attribute set to the new payload's exact byte length —
/// mandatory for file validity.
pub fn create_optimized_stream(original: &StreamObject, new_content: Vec<u8>) -> (r: StreamObject)
    ensures
        spec_dict_preserved(r.dict, original.dict),
        r.dict.length == Some(new_content@.len() as u64),
        r.content@ == new_content@,
{
    let length: u64 = new_content.len() as u64;
    StreamObject {
        dict: StreamDict {
            subtype: clone_opt_bytes(&original.dict.subtype),
            obj_type: clone_opt_bytes(&original.dict.obj_type),
            filter: clone_opt_bytes(&original.dict.filter),
            length: Some(length),
        },
        content: new_content,
    }
}

/// Optimize one stream.  `Ok(None)` means the stream is deliberately
/// left untouched (PNG with lossless optimization off); `Ok(Some(..))`
/// carries the replacement; a codec failure aborts the whole file.
pub fn optimize_image_stream(stream: &StreamObject, settings: &ImageSettings) -> (r: Result<
    Option<StreamObject>,
    CodecError,
>)
    ensures
        r is Ok <==> spec_stream_outcome(*stream, *settings) is Ok,
        r matches Ok(o) ==> (o is Some ==> spec_stream_replacement(o.unwrap(), *stream)
            && spec_stream_outcome(*stream, *settings) == Ok::<Option<Seq<u8>>, CodecError>(
            Some(o.unwrap().content@),
        )),
        r matches Ok(o) ==> (o is None ==> spec_detect_image_format(*stream) is Png
            && !settings.enable_png_optimization),
        spec_detect_image_format(*stream) is Png && !settings.enable_png_optimization ==> r
            == Ok::<Option<StreamObject>, CodecError>(None),
        r matches Err(e) ==> spec_stream_outcome(*stream, *settings) == Err::<
            Option<Seq<u8>>,
            CodecError,
        >(e),
{
    match detect_image_format(stream) {
        ImageKind::Jpeg => {
            match optimize_jpeg_image(&stream.content, settings) {
                Ok(bytes) => Ok(Some(create_optimized_stream(stream, bytes))),
                Err(e) => Err(e),
            }
        },
        ImageKind::Png => {
            if settings.enable_png_optimization {
                match optimize_png_image(&stream.content) {
                    Ok(bytes) => Ok(Some(create_optimized_stream(stream, bytes))),
                    Err(e) => Err(e),
                }
            } else {
                Ok(None)
            }
        },
    }
}

/// An object satisfying the predicate makes the count positive.
proof fn lemma_pred_at_count_pos(objs: Seq<PdfObject>, f: spec_fn(PdfObject) -> bool, j: int)
    requires
        0 <= j < objs.len(),
        f(objs[j]),
    ensures
        spec_count_objs(objs, f) > 0,
    decreases objs.len(),
{
    lemma_count_bounds(objs.drop_last(), f);
    if j == objs.len() - 1 {
        assert(objs.last() == objs[j]);
    } else {
        lemma_pred_at_count_pos(objs.drop_last(), f, j);
        assert(objs.drop_last()[j] == objs[j]);
    }
}

/// A predicate that implies another counts no more objects.
proof fn lemma_count_le_of_implies(
    objs: Seq<PdfObject>,
    f: spec_fn(PdfObject) -> bool,
    g: spec_fn(PdfObject) -> bool,
)
    requires
        forall|o: PdfObject| #[trigger] f(o) ==> g(o),
    ensures
        spec_count_objs(objs, f) <= spec_count_objs(objs, g),
    decreases objs.len(),
{
    if objs.len() > 0 {
        lemma_count_le_of_implies(objs.drop_last(), f, g);
    }
}

/// Walk every object once and replace the payload of each qualifying
/// image stream per the settings.  Returns the count of streams
/// changed.  A codec failure aborts the pass for this document; even
/// then every object is either untouched or a proper replacement.
pub fn optimize_images_in_pdf(doc: &mut PdfDocument, settings: &ImageSettings) -> (r: Result<
    usize,
    CodecError,
>)
    ensures
        final(doc).objects@.len() == old(doc).objects@.len(),
        final(doc).page_count == old(doc).page_count,
        final(doc).has_root == old(doc).has_root,
        final(doc).version == old(doc).version,
        final(doc).encrypted == old(doc).encrypted,
        forall|j: int|
            0 <= j < old(doc).objects@.len() ==> final(doc).objects@[j] == old(doc).objects@[j]
                || spec_obj_replacement(final(doc).objects@[j], old(doc).objects@[j], *settings),
        r is Ok <==> (forall|j: int|
            0 <= j < old(doc).objects@.len() ==> spec_obj_pass_ok(old(doc).objects@[j], *settings)),
        r matches Ok(count) ==> {
            &&& count == spec_touched_count(old(doc).objects@, *settings)
            &&& forall|j: int|
                0 <= j < old(doc).objects@.len() && !spec_obj_touched(
                    old(doc).objects@[j],
                    *settings,
                ) ==> final(doc).objects@[j] == old(doc).objects@[j]
            &&& forall|j: int|
                0 <= j < old(doc).objects@.len() && spec_obj_touched(
                    old(doc).objects@[j],
                    *settings,
                ) ==> spec_obj_exact_replacement(
                    final(doc).objects@[j],
                    old(doc).objects@[j],
                    *settings,
                )
        },
        r matches Err(e) ==> exists|j: int|
            0 <= j < old(doc).objects@.len() && spec_obj_fails_with(
                old(doc).objects@[j],
                *settings,
                e,
            ),
        spec_touched_count(old(doc).objects@, *settings) == 0 ==> r == Ok::<usize, CodecError>(0)
            && final(doc).objects@ == old(doc).objects@,
        spec_image_count(old(doc).objects@) == 0 ==> r == Ok::<usize, CodecError>(0)
            && final(doc).objects@ == old(doc).objects@,
{
    let ghost orig_objs = old(doc).objects@;
    let n = doc.objects.len();
    let mut count: usize = 0;
    let mut i: usize = 0;
    while i < n
        invariant
            n == orig_objs.len(),
            doc.objects@.len() == n,
            i <= n,
            doc.page_count == old(doc).page_count,
            doc.has_root == old(doc).has_root,
            doc.version == old(doc).version,
            doc.encrypted == old(doc).encrypted,
            orig_objs == old(doc).objects@,
            count == spec_count_objs(orig_objs.take(i as int), touched_pred(*settings)),
            forall|j: int| i <= j < n ==> doc.objects@[j] == orig_objs[j],
            forall|j: int|
                0 <= j < i && !spec_obj_touched(orig_objs[j], *settings) ==> doc.objects@[j]
                    == orig_objs[j],
            forall|j: int|
                0 <= j < i && spec_obj_touched(orig_objs[j], *settings)
                    ==> spec_obj_exact_replacement(doc.objects@[j], orig_objs[j], *settings),
            forall|j: int| 0 <= j < i ==> spec_obj_pass_ok(orig_objs[j], *settings),
        decreases n - i,
    {
        proof {
            lemma_count_bounds(orig_objs.take(i as int), touched_pred(*settings));
            lemma_count_take_step(orig_objs, touched_pred(*settings), i as int);
        }
        let replacement: Option<PdfObject> = match &doc.objects[i] {
            PdfObject::Stream(s) => {
                if is_image_stream(s) {
                    match optimize_image_stream(s, settings) {
                        Ok(Some(t)) => Some(PdfObject::Stream(t)),
                        Ok(None) => None,
                        Err(e) => {
                            proof {
                                assert(spec_obj_fails_with(orig_objs[i as int], *settings, e));
                                assert(!spec_obj_pass_ok(orig_objs[i as int], *settings));
                                assert(spec_obj_touched(orig_objs[i as int], *settings));
                                assert(touched_pred(*settings)(orig_objs[i as int]));
                                assert(image_pred()(orig_objs[i as int]));
                                lemma_pred_at_count_pos(
                                    orig_objs,
                                    touched_pred(*settings),
                                    i as int,
                                );
                                lemma_pred_at_count_pos(orig_objs, image_pred(), i as int);
                            }
                            return Err(e);
                        },
                    }
                } else {
                    None
                }
            },
            _ => None,
        };
        match replacement {
            Some(o) => {
                doc.objects[i] = o;
                count += 1;
            },
            None => {},
        }
        i += 1;
    }
    proof {
        assert(orig_objs.take(n as int) =~= orig_objs);
        if spec_image_count(orig_objs) == 0 || spec_touched_count(orig_objs, *settings) == 0 {
            lemma_count_le_of_implies(orig_objs, touched_pred(*settings), image_pred());
            lemma_count_bounds(orig_objs, touched_pred(*settings));
            assert(spec_touched_count(orig_objs, *settings) == 0);
            assert forall|j: int| 0 <= j < n implies doc.objects@[j] == orig_objs[j] by {
                lemma_count_touched_zero_at(orig_objs, *settings, j);
            }
            assert(doc.objects@ =~= orig_objs);
        }
    }
    Ok(count)
}

/// When the touched count of a whole sequence is zero, no single
/// object is touched.
proof fn lemma_count_touched_zero_at(objs: Seq<PdfObject>, settings: ImageSettings, j: int)
    requires
        spec_count_objs(objs, touched_pred(settings)) == 0,
        0 <= j < objs.len(),
    ensures
        !spec_obj_touched(objs[j], settings),
    decreases objs.len(),
{
    lemma_count_bounds(objs.drop_last(), touched_pred(settings));
    if j == objs.len() - 1 {
        assert(objs.last() == objs[j]);
    } else {
        lemma_count_touched_zero_at(objs.drop_last(), settings, j);
        assert(objs.drop_last()[j] == objs[j]);
    }
}

/// Total payload bytes across all stream objects.
pub open spec fn stream_weight() -> spec_fn(PdfObject) -> int {
    |o: PdfObject| match o {
        PdfObject::Stream(s) => s.content@.len() as int,
        _ => 0int,
    }
}

/// Total payload bytes across all stream objects of a document.
pub open spec fn spec_total_stream_bytes(objs: Seq<PdfObject>) -> int {
    spec_sum_objs(objs, stream_weight())
}

/// An image stream whose detected format is PNG.
pub open spec fn spec_obj_is_png_image(o: PdfObject) -> bool {
    match o {
        PdfObject::Stream(s) => spec_is_image_stream(s) && spec_detect_image_format(s) is Png,
        _ => false,
    }
}

/// Law: with lossless optimization enabled, a pass over a document
/// whose image streams all detect as PNG never increases the total
/// stream payload size.  (The JPEG path re-encodes and carries no such
/// bound, so those inputs are excluded here.)
pub proof fn lemma_lossless_pass_never_grows(
    old_objs: Seq<PdfObject>,
    new_objs: Seq<PdfObject>,
    settings: ImageSettings,
)
    requires
        new_objs.len() == old_objs.len(),
        forall|j: int|
            0 <= j < old_objs.len() ==> new_objs[j] == old_objs[j] || spec_obj_replacement(
                new_objs[j],
                old_objs[j],
                settings,
            ),
        forall|j: int|
            0 <= j < old_objs.len() && #[trigger] spec_obj_touched(old_objs[j], settings)
                ==> spec_obj_is_png_image(old_objs[j]),
    ensures
        spec_total_stream_bytes(new_objs) <= spec_total_stream_bytes(old_objs),
    decreases old_objs.len(),
{
    if old_objs.len() > 0 {
        let m = old_objs.len() - 1;
        assert forall|j: int| 0 <= j < old_objs.len() - 1 implies new_objs.drop_last()[j]
            == old_objs.drop_last()[j] || spec_obj_replacement(
            new_objs.drop_last()[j],
            old_objs.drop_last()[j],
            settings,
        ) by {
            assert(new_objs.drop_last()[j] == new_objs[j]);
            assert(old_objs.drop_last()[j] == old_objs[j]);
        }
        assert forall|j: int|
            0 <= j < old_objs.len() - 1 && #[trigger] spec_obj_touched(
                old_objs.drop_last()[j],
                settings,
            ) implies spec_obj_is_png_image(old_objs.drop_last()[j]) by {
            assert(old_objs.drop_last()[j] == old_objs[j]);
        }
        lemma_lossless_pass_never_grows(old_objs.drop_last(), new_objs.drop_last(), settings);
        assert(new_objs.last() == new_objs[m]);
        assert(old_objs.last() == old_objs[m]);
        if new_objs[m] == old_objs[m] {
            assert(stream_weight()(new_objs[m]) <= stream_weight()(old_objs[m]));
        } else {
            assert(spec_obj_replacement(new_objs[m], old_objs[m], settings));
            match (new_objs[m], old_objs[m]) {
                (PdfObject::Stream(t), PdfObject::Stream(s)) => {
                    assert(spec_obj_touched(old_objs[m], settings));
                    assert(spec_obj_is_png_image(old_objs[m]));
                    assert(spec_detect_image_format(s) is Png);
                    assert(t.content@.len() <= s.content@.len());
                    assert(stream_weight()(new_objs[m]) <= stream_weight()(old_objs[m]));
                },
                _ => {
                    assert(false);
                },
            }
        }
    }
}


/// Law, at the Archive preset with quality 100: that run enables
/// lossless optimization, so a pass over a document whose image
/// streams all detect as PNG never increases the total stream payload
/// size.  (A JPEG-detected image stream is re-encoded and can grow,
/// which is why those inputs stay excluded.)
pub proof fn lemma_archive_pass_never_grows(old_objs: Seq<PdfObject>, new_objs: Seq<PdfObject>)
    requires
        new_objs.len() == old_objs.len(),
        forall|j: int|
            0 <= j < old_objs.len() ==> new_objs[j] == old_objs[j] || spec_obj_replacement(
                new_objs[j],
                old_objs[j],
                crate::policy::spec_derived_settings(crate::policy::Preset::Archive, 100),
            ),
        forall|j: int|
            0 <= j < old_objs.len() && #[trigger] spec_obj_touched(
                old_objs[j],
                crate::policy::spec_derived_settings(crate::policy::Preset::Archive, 100),
            ) ==> spec_obj_is_png_image(old_objs[j]),
    ensures
        spec_total_stream_bytes(new_objs) <= spec_total_stream_bytes(old_objs),
{
    lemma_lossless_pass_never_grows(
        old_objs,
        new_objs,
        crate::policy::spec_derived_settings(crate::policy::Preset::Archive, 100),
    );
}

} // verus!
