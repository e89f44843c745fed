use pdf_opticompress::document::{PdfDocument, PdfObject, StreamDict, StreamObject};
use pdf_opticompress::image_optimizer::{
    detect_image_format, optimize_images_in_pdf, resize_target, CodecError, ImageKind,
};
use pdf_opticompress::policy::{create_image_settings_for_preset, ImageSettings, Preset};

fn image_stream(filter: Option<&[u8]>, content: Vec<u8>) -> PdfObject {
    let length = content.len() as u64;
    PdfObject::Stream(StreamObject {
        dict: StreamDict {
            subtype: Some(b"Image".to_vec()),
            obj_type: None,
            filter: filter.map(|f| f.to_vec()),
            length: Some(length),
        },
        content,
    })
}

fn doc_of(objects: Vec<PdfObject>) -> PdfDocument {
    PdfDocument {
        objects,
        page_count: 1,
        has_root: true,
        version: String::from("1.7"),
        encrypted: false,
    }
}

fn png_bytes(width: u32, height: u32) -> Vec<u8> {
    // A gradient image, deliberately encoded with fast, weak settings
    // so that the lossless recompressor has room to shrink it.
    let img = image::RgbImage::from_fn(width, height, |x, y| {
        image::Rgb([(x % 256) as u8, (y % 256) as u8, ((x + y) % 256) as u8])
    });
    let mut out = Vec::new();
    let encoder = image::codecs::png::PngEncoder::new_with_quality(
        std::io::Cursor::new(&mut out),
        image::codecs::png::CompressionType::Fast,
        image::codecs::png::FilterType::NoFilter,
    );
    image::DynamicImage::ImageRgb8(img)
        .write_with_encoder(encoder)
        .expect("png encode");
    out
}

fn jpeg_bytes(width: u32, height: u32) -> Vec<u8> {
    let img = image::RgbImage::from_fn(width, height, |x, y| {
        image::Rgb([(x % 256) as u8, (y % 256) as u8, 128])
    });
    let mut out = Vec::new();
    image::DynamicImage::ImageRgb8(img)
        .write_to(&mut std::io::Cursor::new(&mut out), image::ImageFormat::Jpeg)
        .expect("jpeg encode");
    out
}

#[test]
fn detect_follows_filter_hint_then_signature() {
    let dct = match image_stream(Some(b"DCTDecode"), vec![0u8; 8]) {
        PdfObject::Stream(s) => s,
        _ => unreachable!(),
    };
    assert_eq!(detect_image_format(&dct), ImageKind::Jpeg);

    let mut png_payload = vec![0x89, b'P', b'N', b'G'];
    png_payload.extend_from_slice(&[0, 0, 0, 0]);
    let flate_png = match image_stream(Some(b"FlateDecode"), png_payload.clone()) {
        PdfObject::Stream(s) => s,
        _ => unreachable!(),
    };
    assert_eq!(detect_image_format(&flate_png), ImageKind::Png);

    let bare_png = match image_stream(None, png_payload.clone()) {
        PdfObject::Stream(s) => s,
        _ => unreachable!(),
    };
    assert_eq!(detect_image_format(&bare_png), ImageKind::Png);

    let other_filter_png = match image_stream(Some(b"JPXDecode"), png_payload) {
        PdfObject::Stream(s) => s,
        _ => unreachable!(),
    };
    assert_eq!(detect_image_format(&other_filter_png), ImageKind::Png);

    let unknown = match image_stream(None, vec![1u8, 2, 3, 4, 5]) {
        PdfObject::Stream(s) => s,
        _ => unreachable!(),
    };
    assert_eq!(detect_image_format(&unknown), ImageKind::Jpeg);
}

#[test]
fn resize_rule_clamps_larger_side() {
    assert_eq!(resize_target(3840, 2160, 1920), Some((1920, 1080)));
    assert_eq!(resize_target(2160, 3840, 1920), Some((1080, 1920)));
    assert_eq!(resize_target(800, 600, 1920), None);
    assert_eq!(resize_target(1920, 1920, 1920), None);
    assert_eq!(resize_target(2000, 2000, 1024), Some((1024, 1024)));
    // extreme aspect ratio: the short side is floored at one pixel
    assert_eq!(resize_target(5000, 1, 1024), Some((1024, 1)));
}

#[test]
fn no_image_streams_means_no_changes() {
    let payload = b"some plain content".to_vec();
    let mut doc = doc_of(vec![
        PdfObject::Stream(StreamObject {
            dict: StreamDict {
                subtype: None,
                obj_type: Some(b"Font".to_vec()),
                filter: None,
                length: Some(payload.len() as u64),
            },
            content: payload.clone(),
        }),
        PdfObject::Other,
    ]);
    let settings = ImageSettings::default();
    let changed = optimize_images_in_pdf(&mut doc, &settings).expect("pass succeeds");
    assert_eq!(changed, 0);
    match &doc.objects[0] {
        PdfObject::Stream(s) => assert_eq!(s.content, payload),
        _ => panic!("object kind changed"),
    }
}

#[test]
fn png_disabled_leaves_png_streams_untouched() {
    let payload = png_bytes(32, 32);
    let mut doc = doc_of(vec![image_stream(Some(b"FlateDecode"), payload.clone())]);
    let settings =
        ImageSettings { jpeg_quality: 80, enable_png_optimization: false, max_dimension: None };
    let changed = optimize_images_in_pdf(&mut doc, &settings).expect("pass succeeds");
    assert_eq!(changed, 0);
    match &doc.objects[0] {
        PdfObject::Stream(s) => assert_eq!(s.content, payload),
        _ => panic!("object kind changed"),
    }
}

#[test]
fn png_stream_is_recompressed_without_growing() {
    let payload = png_bytes(128, 128);
    let original_len = payload.len();
    let mut doc = doc_of(vec![image_stream(Some(b"FlateDecode"), payload)]);
    let settings = create_image_settings_for_preset(&Preset::Archive, 100);
    let changed = optimize_images_in_pdf(&mut doc, &settings).expect("pass succeeds");
    assert_eq!(changed, 1);
    match &doc.objects[0] {
        PdfObject::Stream(s) => {
            // the lossless recompressor actually ran and shrank the
            // weakly-compressed input
            assert!(s.content.len() < original_len);
            assert_eq!(s.dict.length, Some(s.content.len() as u64));
            assert_eq!(s.dict.subtype.as_deref(), Some(b"Image".as_slice()));
            assert_eq!(s.dict.filter.as_deref(), Some(b"FlateDecode".as_slice()));
        },
        _ => panic!("object kind changed"),
    }
}

#[test]
fn jpeg_stream_is_reencoded_and_resized() {
    let payload = jpeg_bytes(100, 50);
    let mut doc = doc_of(vec![image_stream(Some(b"DCTDecode"), payload)]);
    let settings =
        ImageSettings { jpeg_quality: 75, enable_png_optimization: true, max_dimension: Some(40) };
    let changed = optimize_images_in_pdf(&mut doc, &settings).expect("pass succeeds");
    assert_eq!(changed, 1);
    match &doc.objects[0] {
        PdfObject::Stream(s) => {
            assert_eq!(s.dict.length, Some(s.content.len() as u64));
            let img = image::load_from_memory_with_format(&s.content, image::ImageFormat::Jpeg)
                .expect("output decodes as JPEG");
            assert_eq!(img.width(), 40);
            assert_eq!(img.height(), 20);
        },
        _ => panic!("object kind changed"),
    }
}

#[test]
fn jpeg_stream_without_bound_keeps_dimensions() {
    let payload = jpeg_bytes(60, 40);
    let mut doc = doc_of(vec![image_stream(Some(b"DCTDecode"), payload)]);
    let settings = create_image_settings_for_preset(&Preset::Print, 90);
    let changed = optimize_images_in_pdf(&mut doc, &settings).expect("pass succeeds");
    assert_eq!(changed, 1);
    match &doc.objects[0] {
        PdfObject::Stream(s) => {
            let img = image::load_from_memory_with_format(&s.content, image::ImageFormat::Jpeg)
                .expect("output decodes as JPEG");
            assert_eq!(img.width(), 60);
            assert_eq!(img.height(), 40);
        },
        _ => panic!("object kind changed"),
    }
}

#[test]
fn undecodable_image_aborts_the_pass() {
    let mut doc = doc_of(vec![
        image_stream(Some(b"DCTDecode"), vec![0u8; 16]),
    ]);
    let settings = ImageSettings::default();
    assert_eq!(optimize_images_in_pdf(&mut doc, &settings), Err(CodecError::DecodeFailed));
}

#[test]
fn broken_png_reports_the_png_path_error() {
    // a PNG signature followed by garbage: detected as PNG, rejected
    // by the lossless recompressor
    let mut payload = vec![0x89, b'P', b'N', b'G'];
    payload.extend_from_slice(&[9u8; 12]);
    let mut doc = doc_of(vec![image_stream(None, payload)]);
    let settings = ImageSettings::default();
    assert_eq!(optimize_images_in_pdf(&mut doc, &settings), Err(CodecError::PngOptimizeFailed));
}

#[test]
fn archive_lossless_run_never_grows_png_totals() {
    let a = png_bytes(64, 64);
    let b = png_bytes(96, 32);
    let before: usize = a.len() + b.len();
    let mut doc = doc_of(vec![
        image_stream(Some(b"FlateDecode"), a),
        image_stream(None, b),
    ]);
    let settings = create_image_settings_for_preset(&Preset::Archive, 100);
    optimize_images_in_pdf(&mut doc, &settings).expect("pass succeeds");
    let after: usize = doc
        .objects
        .iter()
        .map(|o| match o {
            PdfObject::Stream(s) => s.content.len(),
            _ => 0,
        })
        .sum();
    assert!(after <= before);
}
