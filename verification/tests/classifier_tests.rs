use pdf_opticompress::analyzer::analyze_pdf;
use pdf_opticompress::document::{
    contains_text_marker, is_image_stream, DictObject, PdfDocument, PdfObject, StreamDict,
    StreamObject,
};

fn stream(
    subtype: Option<&[u8]>,
    obj_type: Option<&[u8]>,
    length: Option<u64>,
    content: Vec<u8>,
) -> PdfObject {
    PdfObject::Stream(StreamObject {
        dict: StreamDict {
            subtype: subtype.map(|s| s.to_vec()),
            obj_type: obj_type.map(|s| s.to_vec()),
            filter: None,
            length,
        },
        content,
    })
}

fn doc_of(objects: Vec<PdfObject>) -> PdfDocument {
    PdfDocument {
        objects,
        page_count: 1,
        has_root: true,
        version: String::from("1.7"),
        encrypted: false,
    }
}

#[test]
fn two_image_streams_tally_exactly() {
    let doc = doc_of(vec![
        stream(Some(b"Image"), None, Some(500), vec![0u8; 500]),
        stream(Some(b"Image"), None, Some(1500), vec![1u8; 1500]),
    ]);
    let analysis = analyze_pdf(&doc);
    assert_eq!(analysis.image_count, 2);
    assert_eq!(analysis.content_breakdown.images_size, 2000);
}

#[test]
fn image_predicate_requires_exact_name() {
    let img = StreamObject {
        dict: StreamDict {
            subtype: Some(b"Image".to_vec()),
            obj_type: None,
            filter: None,
            length: None,
        },
        content: vec![],
    };
    assert!(is_image_stream(&img));

    let form = StreamObject {
        dict: StreamDict {
            subtype: Some(b"Form".to_vec()),
            obj_type: None,
            filter: None,
            length: None,
        },
        content: vec![],
    };
    assert!(!is_image_stream(&form));

    let none = StreamObject {
        dict: StreamDict { subtype: None, obj_type: None, filter: None, length: None },
        content: vec![],
    };
    assert!(!is_image_stream(&none));
}

#[test]
fn fonts_counted_from_streams_and_dictionaries() {
    let doc = doc_of(vec![
        stream(None, Some(b"Font"), Some(300), vec![2u8; 300]),
        PdfObject::Dictionary(DictObject { obj_type: Some(b"Font".to_vec()) }),
        PdfObject::Dictionary(DictObject { obj_type: Some(b"Page".to_vec()) }),
    ]);
    let analysis = analyze_pdf(&doc);
    assert_eq!(analysis.font_count, 2);
    assert_eq!(analysis.content_breakdown.fonts_size, 300);
}

#[test]
fn text_needs_length_attribute_and_marker() {
    let with_marker = b"q 1 0 0 1 0 0 cm BT\n/F1 12 Tf ET".to_vec();
    let doc = doc_of(vec![
        stream(None, None, Some(32), with_marker.clone()),
        // marker present but no Length attribute: not counted
        stream(None, None, None, with_marker.clone()),
        // Length present but no marker: not counted
        stream(None, None, Some(5), b"BT no linebreak".to_vec()),
    ]);
    let analysis = analyze_pdf(&doc);
    assert_eq!(analysis.text_objects, 1);
    assert_eq!(analysis.content_breakdown.text_size, with_marker.len() as u64);
}

#[test]
fn marker_scan_finds_bt_with_line_feed_only() {
    assert!(contains_text_marker(&b"xxBT\nyy".to_vec()));
    assert!(contains_text_marker(&b"BT\n".to_vec()));
    assert!(!contains_text_marker(&b"BT".to_vec()));
    assert!(!contains_text_marker(&b"B T\n".to_vec()));
    assert!(!contains_text_marker(&b"".to_vec()));
}

#[test]
fn other_objects_cost_a_nominal_hundred() {
    let doc = doc_of(vec![PdfObject::Other, PdfObject::Other, PdfObject::Other]);
    let analysis = analyze_pdf(&doc);
    assert_eq!(analysis.content_breakdown.other_size, 300);
    assert_eq!(analysis.content_breakdown.total_size, 300);
    assert_eq!(analysis.total_objects, 3);
    assert_eq!(analysis.image_count, 0);
}

#[test]
fn savings_model_small_document_with_images() {
    let doc = doc_of(vec![stream(Some(b"Image"), None, Some(10), vec![3u8; 10])]);
    let analysis = analyze_pdf(&doc);
    // 50.0% on images, 10.0% on structure, 0.6/0.4 weighted: 34.0%
    assert_eq!(analysis.estimated_savings.image_compression, 500);
    assert_eq!(analysis.estimated_savings.structure_optimization, 100);
    assert_eq!(analysis.estimated_savings.total_estimated, 340);
}

#[test]
fn savings_model_large_document_without_images() {
    let mut objects = Vec::new();
    for _ in 0..101 {
        objects.push(PdfObject::Other);
    }
    let doc = doc_of(objects);
    let analysis = analyze_pdf(&doc);
    // no images: 0%; more than 100 objects: 25.0%; weighted: 10.0%
    assert_eq!(analysis.estimated_savings.image_compression, 0);
    assert_eq!(analysis.estimated_savings.structure_optimization, 250);
    assert_eq!(analysis.estimated_savings.total_estimated, 100);
}
