use pdf_opticompress::document::{PdfDocument, PdfObject, StreamDict, StreamObject};
use pdf_opticompress::image_optimizer::CodecError;
use pdf_opticompress::pipeline::{
    get_pdf_info, make_optimization_result, optimize_pdf, validate_pdf, PdfError,
};
use pdf_opticompress::policy::Preset;

fn plain_doc(page_count: usize, has_root: bool, objects: Vec<PdfObject>) -> PdfDocument {
    PdfDocument {
        objects,
        page_count,
        has_root,
        version: String::from("1.5"),
        encrypted: false,
    }
}

fn png_image_stream() -> PdfObject {
    let img = image::RgbImage::from_fn(32, 32, |x, y| image::Rgb([x as u8, y as u8, 7]));
    let mut payload = Vec::new();
    image::DynamicImage::ImageRgb8(img)
        .write_to(&mut std::io::Cursor::new(&mut payload), image::ImageFormat::Png)
        .expect("png encode");
    let length = payload.len() as u64;
    PdfObject::Stream(StreamObject {
        dict: StreamDict {
            subtype: Some(b"Image".to_vec()),
            obj_type: None,
            filter: Some(b"FlateDecode".to_vec()),
            length: Some(length),
        },
        content: payload,
    })
}

#[test]
fn validate_rejects_documents_without_pages() {
    let doc = plain_doc(0, true, vec![]);
    assert_eq!(validate_pdf(&doc), Err(PdfError::NoPages));
}

#[test]
fn validate_rejects_documents_without_root_catalog() {
    let doc = plain_doc(3, false, vec![]);
    assert_eq!(validate_pdf(&doc), Err(PdfError::NoRootCatalog));
}

#[test]
fn validate_accepts_well_formed_documents() {
    let doc = plain_doc(1, true, vec![]);
    assert_eq!(validate_pdf(&doc), Ok(()));
}

#[test]
fn no_pages_fails_before_any_optimization() {
    let mut doc = plain_doc(0, true, vec![png_image_stream()]);
    let before = match &doc.objects[0] {
        PdfObject::Stream(s) => s.content.clone(),
        _ => unreachable!(),
    };
    let r = optimize_pdf(&mut doc, 80, &Preset::Web);
    assert_eq!(r.err(), Some(PdfError::NoPages));
    match &doc.objects[0] {
        PdfObject::Stream(s) => assert_eq!(s.content, before),
        _ => panic!("object kind changed"),
    }
}

#[test]
fn missing_root_reported_after_pages() {
    // both conditions broken: the page check comes first
    let mut doc = plain_doc(0, false, vec![]);
    assert_eq!(optimize_pdf(&mut doc, 80, &Preset::Web).err(), Some(PdfError::NoPages));

    let mut doc2 = plain_doc(2, false, vec![]);
    assert_eq!(optimize_pdf(&mut doc2, 80, &Preset::Web).err(), Some(PdfError::NoRootCatalog));
}

#[test]
fn pipeline_optimizes_and_reports() {
    let mut doc = plain_doc(1, true, vec![png_image_stream(), PdfObject::Other]);
    let outcome = optimize_pdf(&mut doc, 100, &Preset::Archive).expect("run succeeds");
    assert_eq!(outcome.images_optimized, 1);
    assert!(outcome.save_options.enable_compression);
    // the analysis snapshot describes the document before mutation
    assert_eq!(outcome.analysis.total_objects, 2);
    assert_eq!(outcome.analysis.image_count, 1);
    assert_eq!(outcome.analysis.content_breakdown.other_size, 100);
    // the replacement keeps the length attribute exact
    match &doc.objects[0] {
        PdfObject::Stream(s) => assert_eq!(s.dict.length, Some(s.content.len() as u64)),
        _ => panic!("object kind changed"),
    }
}

#[test]
fn codec_failure_is_fatal_for_the_run() {
    let mut doc = plain_doc(1, true, vec![PdfObject::Stream(StreamObject {
        dict: StreamDict {
            subtype: Some(b"Image".to_vec()),
            obj_type: None,
            filter: Some(b"DCTDecode".to_vec()),
            length: Some(4),
        },
        content: vec![1, 2, 3, 4],
    })]);
    let r = optimize_pdf(&mut doc, 80, &Preset::Web);
    assert_eq!(r.err(), Some(PdfError::Codec(CodecError::DecodeFailed)));
}

#[test]
fn error_messages_name_the_condition() {
    assert_eq!(PdfError::NoPages.message(), "PDF document contains no pages");
    assert_eq!(PdfError::NoRootCatalog.message(), "PDF document is missing root catalog");
}

#[test]
fn info_reads_the_document_facts() {
    let doc = plain_doc(7, true, vec![]);
    let info = get_pdf_info(&doc);
    assert_eq!(info.page_count, 7);
    assert_eq!(info.version, "1.5");
    assert!(!info.has_encryption);
}

#[test]
fn optimization_result_carries_exact_ratio() {
    let r = make_optimization_result(1000, 600, 3, 250);
    assert_eq!(r.original_size, 1000);
    assert_eq!(r.optimized_size, 600);
    assert_eq!(r.compression_ratio, 400);
    assert_eq!(r.images_optimized, 3);
    assert_eq!(r.processing_millis, 250);

    let grew = make_optimization_result(100, 150, 0, 1);
    assert_eq!(grew.compression_ratio, -500);

    let empty = make_optimization_result(0, 0, 0, 0);
    assert_eq!(empty.compression_ratio, 0);
}
