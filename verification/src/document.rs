//! In-memory model of the parts of a PDF object graph that the
//! optimization policy reads and writes.
//!
//! A document is a flat list of objects.  A stream object pairs a
//! dictionary of the attributes the policy cares about (`Subtype`,
//! `Type`, `Filter`, `Length`) with its raw byte payload; a plain
//! dictionary keeps only its `Type` attribute; every other kind of
//! object is opaque to the policy.  The document store that parses and
//! serializes real files fills this model in and writes it back.

use vstd::prelude::*;

verus! {

/// Attributes of a stream dictionary that the policy reads or writes.
/// A `None` means the attribute is absent from the dictionary.
pub struct StreamDict {
    /// Value of the `Subtype` attribute when it is a name.
    pub subtype: Option<Vec<u8>>,
    /// Value of the `Type` attribute when it is a name.
    pub obj_type: Option<Vec<u8>>,
    /// Value of the `Filter` attribute when it is a single name.
    pub filter: Option<Vec<u8>>,
    /// Value of the `Length` attribute when it is an integer.
    pub length: Option<u64>,
}

/// A stream object: attribute dictionary plus raw payload bytes.
pub struct StreamObject {
    pub dict: StreamDict,
    pub content: Vec<u8>,
}

/// A plain dictionary object; only its `Type` attribute matters here.
pub struct DictObject {
    /// Value of the `Type` attribute when it is a name.
    pub obj_type: Option<Vec<u8>>,
}

/// One object of the document graph, as the policy sees it.
pub enum PdfObject {
    Stream(StreamObject),
    Dictionary(DictObject),
    Other,
}

/// The whole document: its objects plus the facts validation and
/// reporting need (page count, root catalog presence, header version,
/// encryption flag).
pub struct PdfDocument {
    pub objects: Vec<PdfObject>,
    pub page_count: usize,
    pub has_root: bool,
    pub version: String,
    pub encrypted: bool,
}

/// The name `Image`, as dictionary name bytes.
pub open spec fn spec_name_image() -> Seq<u8> {
    seq![73u8, 109u8, 97u8, 103u8, 101u8]
}

/// The name `Font`, as dictionary name bytes.
pub open spec fn spec_name_font() -> Seq<u8> {
    seq![70u8, 111u8, 110u8, 116u8]
}

/// The filter name `DCTDecode`, as dictionary name bytes.
pub open spec fn spec_name_dct_decode() -> Seq<u8> {
    seq![68u8, 67u8, 84u8, 68u8, 101u8, 99u8, 111u8, 100u8, 101u8]
}

/// The filter name `FlateDecode`, as dictionary name bytes.
pub open spec fn spec_name_flate_decode() -> Seq<u8> {
    seq![70u8, 108u8, 97u8, 116u8, 101u8, 68u8, 101u8, 99u8, 111u8, 100u8, 101u8]
}

/// Compare two byte slices for equality.
pub fn bytes_eq(a: &[u8], b: &[u8]) -> (r: bool)
    ensures
        r == (a@ == b@),
{
    if a.len() != b.len() {
        return false;
    }
    let n = a.len();
    let mut i: usize = 0;
    while i < n
        invariant
            n == a@.len(),
            n == b@.len(),
            i <= n,
            forall|j: int| 0 <= j < i ==> a@[j] == b@[j],
        decreases n - i,
    {
        if a[i] != b[i] {
            return false;
        }
        i += 1;
    }
    proof {
        assert(a@ =~= b@);
    }
    true
}

/// Build the name bytes of `Image`.
pub fn name_image() -> (r: Vec<u8>)
    ensures
        r@ == spec_name_image(),
{
    let mut v: Vec<u8> = Vec::new();
    v.push(73u8);
    v.push(109u8);
    v.push(97u8);
    v.push(103u8);
    v.push(101u8);
    proof {
        assert(v@ =~= spec_name_image());
    }
    v
}

/// Build the name bytes of `Font`.
pub fn name_font() -> (r: Vec<u8>)
    ensures
        r@ == spec_name_font(),
{
    let mut v: Vec<u8> = Vec::new();
    v.push(70u8);
    v.push(111u8);
    v.push(110u8);
    v.push(116u8);
    proof {
        assert(v@ =~= spec_name_font());
    }
    v
}

/// Build the name bytes of `DCTDecode`.
pub fn name_dct_decode() -> (r: Vec<u8>)
    ensures
        r@ == spec_name_dct_decode(),
{
    let mut v: Vec<u8> = Vec::new();
    v.push(68u8);
    v.push(67u8);
    v.push(84u8);
    v.push(68u8);
    v.push(101u8);
    v.push(99u8);
    v.push(111u8);
    v.push(100u8);
    v.push(101u8);
    proof {
        assert(v@ =~= spec_name_dct_decode());
    }
    v
}

/// Build the name bytes of `FlateDecode`.
pub fn name_flate_decode() -> (r: Vec<u8>)
    ensures
        r@ == spec_name_flate_decode(),
{
    let mut v: Vec<u8> = Vec::new();
    v.push(70u8);
    v.push(108u8);
    v.push(97u8);
    v.push(116u8);
    v.push(101u8);
    v.push(68u8);
    v.push(101u8);
    v.push(99u8);
    v.push(111u8);
    v.push(100u8);
    v.push(101u8);
    proof {
        assert(v@ =~= spec_name_flate_decode());
    }
    v
}

/// A stream is an image iff its `Subtype` attribute is the name `Image`.
pub open spec fn spec_is_image_stream(s: StreamObject) -> bool {
    match s.dict.subtype {
        Some(n) => n@ == spec_name_image(),
        None => false,
    }
}

/// Runtime check of `spec_is_image_stream`.
pub fn is_image_stream(stream: &StreamObject) -> (r: bool)
    ensures
        r == spec_is_image_stream(*stream),
{
    match &stream.dict.subtype {
        Some(n) => {
            let expected = name_image();
            bytes_eq(n.as_slice(), expected.as_slice())
        },
        None => false,
    }
}

/// The four-byte PNG file signature stands at the start of `content`.
pub open spec fn spec_has_png_signature(content: Seq<u8>) -> bool {
    content.len() >= 4 && content[0] == 137u8 && content[1] == 80u8 && content[2] == 78u8
        && content[3] == 71u8
}

/// Runtime check of `spec_has_png_signature`.
pub fn has_png_signature(content: &Vec<u8>) -> (r: bool)
    ensures
        r == spec_has_png_signature(content@),
{
    content.len() >= 4 && content[0] == 137u8 && content[1] == 80u8 && content[2] == 78u8
        && content[3] == 71u8
}

/// The three-byte begin-text marker (`BT` then a line feed) stands at
/// offset `i` of `content`.
pub open spec fn spec_text_marker_at(content: Seq<u8>, i: int) -> bool {
    0 <= i && i + 3 <= content.len() && content[i] == 66u8 && content[i + 1] == 84u8 && content[i
        + 2] == 10u8
}

/// The begin-text marker occurs somewhere in `content`.
pub open spec fn spec_has_text_marker(content: Seq<u8>) -> bool {
    exists|i: int| spec_text_marker_at(content, i)
}

/// Runtime scan for the begin-text marker.
pub fn contains_text_marker(content: &Vec<u8>) -> (r: bool)
    ensures
        r == spec_has_text_marker(content@),
{
    let n = content.len();
    if n < 3 {
        proof {
            assert(forall|i: int| !spec_text_marker_at(content@, i));
        }
        return false;
    }
    let mut i: usize = 0;
    while i <= n - 3
        invariant
            n == content@.len(),
            3 <= n,
            i <= n,
            forall|j: int| 0 <= j < i ==> !spec_text_marker_at(content@, j),
        decreases n - i,
    {
        if content[i] == 66u8 && content[i + 1] == 84u8 && content[i + 2] == 10u8 {
            proof {
                assert(spec_text_marker_at(content@, i as int));
            }
            return true;
        }
        i += 1;
    }
    proof {
        assert forall|j: int| !spec_text_marker_at(content@, j) by {
            if spec_text_marker_at(content@, j) {
                assert(j + 3 <= n);
                assert(j >= i);
                assert(false);
            }
        }
    }
    false
}

} // verus!
