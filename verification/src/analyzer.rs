//! Content classifier: one pass over a document's objects that counts
//! images, fonts and text streams and tallies their payload sizes,
//! plus the fixed savings-estimation model built on those tallies.

use vstd::prelude::*;

use crate::document::{
    spec_is_image_stream, spec_has_text_marker, spec_name_font, is_image_stream, name_font,
    bytes_eq, contains_text_marker, PdfDocument, PdfObject,
};

verus! {

/// An object is an image iff it is a stream whose `Subtype` is `Image`.
pub open spec fn spec_obj_is_image(o: PdfObject) -> bool {
    match o {
        PdfObject::Stream(s) => spec_is_image_stream(s),
        _ => false,
    }
}

/// A stream whose `Type` attribute is the name `Font`.
pub open spec fn spec_obj_is_font_stream(o: PdfObject) -> bool {
    match o {
        PdfObject::Stream(s) => match s.dict.obj_type {
            Some(n) => n@ == spec_name_font(),
            None => false,
        },
        _ => false,
    }
}

/// A plain dictionary whose `Type` attribute is the name `Font`.
pub open spec fn spec_obj_is_font_dict(o: PdfObject) -> bool {
    match o {
        PdfObject::Dictionary(d) => match d.obj_type {
            Some(n) => n@ == spec_name_font(),
            None => false,
        },
        _ => false,
    }
}

/// Either kind of font object.
pub open spec fn spec_obj_is_font(o: PdfObject) -> bool {
    spec_obj_is_font_stream(o) || spec_obj_is_font_dict(o)
}

/// A stream counted as text: it declares a `Length` attribute and its
/// payload contains the begin-text marker.  A heuristic, not a parser.
pub open spec fn spec_obj_is_text(o: PdfObject) -> bool {
    match o {
        PdfObject::Stream(s) => s.dict.length is Some && spec_has_text_marker(s.content@),
        _ => false,
    }
}

/// An object that is neither a stream nor a dictionary.
pub open spec fn spec_obj_is_other(o: PdfObject) -> bool {
    o is Other
}

/// Number of objects of a prefix-closed sequence satisfying `f`.
pub open spec fn spec_count_objs(objs: Seq<PdfObject>, f: spec_fn(PdfObject) -> bool) -> int
    decreases objs.len(),
{
    if objs.len() == 0 {
        0
    } else {
        spec_count_objs(objs.drop_last(), f) + if f(objs.last()) {
            1int
        } else {
            0int
        }
    }
}

/// Sum of `f` over a sequence of objects.
pub open spec fn spec_sum_objs(objs: Seq<PdfObject>, f: spec_fn(PdfObject) -> int) -> int
    decreases objs.len(),
{
    if objs.len() == 0 {
        0
    } else {
        spec_sum_objs(objs.drop_last(), f) + f(objs.last())
    }
}

/// The image predicate as a first-class function, so every use names
/// the same value.
pub open spec fn image_pred() -> spec_fn(PdfObject) -> bool {
    |o: PdfObject| spec_obj_is_image(o)
}

/// The font predicate as a first-class function.
pub open spec fn font_pred() -> spec_fn(PdfObject) -> bool {
    |o: PdfObject| spec_obj_is_font(o)
}

/// The text predicate as a first-class function.
pub open spec fn text_pred() -> spec_fn(PdfObject) -> bool {
    |o: PdfObject| spec_obj_is_text(o)
}

/// Payload length of an image stream, zero for everything else.
pub open spec fn image_weight() -> spec_fn(PdfObject) -> int {
    |o: PdfObject| match o {
        PdfObject::Stream(s) => if spec_is_image_stream(s) {
            s.content@.len() as int
        } else {
            0int
        },
        _ => 0int,
    }
}

/// Payload length of a font stream, zero for everything else.
pub open spec fn font_weight() -> spec_fn(PdfObject) -> int {
    |o: PdfObject| if spec_obj_is_font_stream(o) {
        match o {
            PdfObject::Stream(s) => s.content@.len() as int,
            _ => 0int,
        }
    } else {
        0int
    }
}

/// Payload length of a text stream, zero for everything else.
pub open spec fn text_weight() -> spec_fn(PdfObject) -> int {
    |o: PdfObject| if spec_obj_is_text(o) {
        match o {
            PdfObject::Stream(s) => s.content@.len() as int,
            _ => 0int,
        }
    } else {
        0int
    }
}

/// The fixed nominal cost of an object outside every category.
pub open spec fn other_weight() -> spec_fn(PdfObject) -> int {
    |o: PdfObject| if spec_obj_is_other(o) {
        100int
    } else {
        0int
    }
}

/// Number of image streams in the document's objects.
pub open spec fn spec_image_count(objs: Seq<PdfObject>) -> int {
    spec_count_objs(objs, image_pred())
}

/// Number of font objects (stream or dictionary).
pub open spec fn spec_font_count(objs: Seq<PdfObject>) -> int {
    spec_count_objs(objs, font_pred())
}

/// Number of text streams.
pub open spec fn spec_text_count(objs: Seq<PdfObject>) -> int {
    spec_count_objs(objs, text_pred())
}

/// Total payload bytes of image streams.
pub open spec fn spec_images_size(objs: Seq<PdfObject>) -> int {
    spec_sum_objs(objs, image_weight())
}

/// Total payload bytes of font streams.
pub open spec fn spec_fonts_size(objs: Seq<PdfObject>) -> int {
    spec_sum_objs(objs, font_weight())
}

/// Total payload bytes of text streams.
pub open spec fn spec_text_size(objs: Seq<PdfObject>) -> int {
    spec_sum_objs(objs, text_weight())
}

/// Total nominal size of the remaining objects.
pub open spec fn spec_other_size(objs: Seq<PdfObject>) -> int {
    spec_sum_objs(objs, other_weight())
}

/// Extending a prefix by one element adds that element's contribution
/// to the count.
pub proof fn lemma_count_take_step(objs: Seq<PdfObject>, f: spec_fn(PdfObject) -> bool, i: int)
    requires
        0 <= i < objs.len(),
    ensures
        spec_count_objs(objs.take(i + 1), f) == spec_count_objs(objs.take(i), f) + if f(
            objs[i],
        ) {
            1int
        } else {
            0int
        },
{
    assert(objs.take(i + 1).drop_last() =~= objs.take(i));
    assert(objs.take(i + 1).last() == objs[i]);
}

/// Extending a prefix by one element adds that element's weight to the
/// sum.
pub proof fn lemma_sum_take_step(objs: Seq<PdfObject>, f: spec_fn(PdfObject) -> int, i: int)
    requires
        0 <= i < objs.len(),
    ensures
        spec_sum_objs(objs.take(i + 1), f) == spec_sum_objs(objs.take(i), f) + f(objs[i]),
{
    assert(objs.take(i + 1).drop_last() =~= objs.take(i));
    assert(objs.take(i + 1).last() == objs[i]);
}

/// A count lies between zero and the sequence length.
pub proof fn lemma_count_bounds(objs: Seq<PdfObject>, f: spec_fn(PdfObject) -> bool)
    ensures
        0 <= spec_count_objs(objs, f) <= objs.len(),
    decreases objs.len(),
{
    if objs.len() > 0 {
        lemma_count_bounds(objs.drop_last(), f);
    }
}

/// A sum of non-negative weights is non-negative.
pub proof fn lemma_sum_nonneg(objs: Seq<PdfObject>, f: spec_fn(PdfObject) -> int)
    requires
        forall|o: PdfObject| #[trigger] f(o) >= 0,
    ensures
        spec_sum_objs(objs, f) >= 0,
    decreases objs.len(),
{
    if objs.len() > 0 {
        lemma_sum_nonneg(objs.drop_last(), f);
    }
}

/// With non-negative weights, the sum over a prefix never exceeds the
/// sum over the whole sequence.
pub proof fn lemma_sum_take_le(objs: Seq<PdfObject>, f: spec_fn(PdfObject) -> int, i: int)
    requires
        forall|o: PdfObject| #[trigger] f(o) >= 0,
        0 <= i <= objs.len(),
    ensures
        spec_sum_objs(objs.take(i), f) <= spec_sum_objs(objs, f),
    decreases objs.len() - i,
{
    if i == objs.len() {
        assert(objs.take(i) =~= objs);
    } else {
        lemma_sum_take_step(objs, f, i);
        lemma_sum_take_le(objs, f, i + 1);
    }
}

/// Byte sizes tallied per content category.  The `other` bucket is a
/// fixed nominal estimate, not a byte-accurate count.
#[derive(Debug, Clone, Copy, PartialEq, Eq, Structural)]
pub struct ContentBreakdown {
    pub images_size: u64,
    pub fonts_size: u64,
    pub text_size: u64,
    pub other_size: u64,
    pub total_size: u64,
}

/// Estimated savings of the fixed model, in tenths of a percent.
#[derive(Debug, Clone, Copy, PartialEq, Eq, Structural)]
pub struct EstimatedSavings {
    /// Tenths of a percent expected from image recompression.
    pub image_compression: u32,
    /// Tenths of a percent expected from structural compression.
    pub structure_optimization: u32,
    /// Weighted combination of the two, in tenths of a percent.
    pub total_estimated: u32,
}

/// Snapshot of one classification pass over a document.
#[derive(Debug, Clone, Copy, PartialEq, Eq, Structural)]
pub struct PdfAnalysis {
    pub total_objects: usize,
    pub image_count: usize,
    pub font_count: usize,
    pub text_objects: usize,
    pub estimated_savings: EstimatedSavings,
    pub content_breakdown: ContentBreakdown,
}

/// Image-savings estimate: 50.0% when any image is present, else zero.
pub open spec fn spec_image_compression_tenths(image_count: int) -> int {
    if image_count > 0 {
        500int
    } else {
        0int
    }
}

/// Structural-savings estimate: 25.0% on documents of more than 100
/// objects, else 10.0%.
pub open spec fn spec_structure_tenths(total_objects: int) -> int {
    if total_objects > 100 {
        250int
    } else {
        100int
    }
}

/// The combined estimate weighs images at 60% and structure at 40%.
pub open spec fn spec_total_estimated_tenths(image_tenths: int, structure_tenths: int) -> int {
    (image_tenths * 6 + structure_tenths * 4) / 10
}

/// Classify every object of the document once, without mutating it.
/// Always succeeds; the precondition only keeps the byte tallies inside
/// the machine word.
pub fn analyze_pdf(doc: &PdfDocument) -> (r: PdfAnalysis)
    requires
        spec_images_size(doc.objects@) + spec_fonts_size(doc.objects@) + spec_text_size(
            doc.objects@,
        ) + spec_other_size(doc.objects@) <= u64::MAX,
    ensures
        r.total_objects == doc.objects@.len(),
        r.image_count == spec_image_count(doc.objects@),
        r.font_count == spec_font_count(doc.objects@),
        r.text_objects == spec_text_count(doc.objects@),
        r.content_breakdown.images_size == spec_images_size(doc.objects@),
        r.content_breakdown.fonts_size == spec_fonts_size(doc.objects@),
        r.content_breakdown.text_size == spec_text_size(doc.objects@),
        r.content_breakdown.other_size == spec_other_size(doc.objects@),
        r.content_breakdown.total_size == r.content_breakdown.images_size
            + r.content_breakdown.fonts_size + r.content_breakdown.text_size
            + r.content_breakdown.other_size,
        r.estimated_savings.image_compression == spec_image_compression_tenths(
            r.image_count as int,
        ),
        r.estimated_savings.structure_optimization == spec_structure_tenths(
            r.total_objects as int,
        ),
        r.estimated_savings.total_estimated == spec_total_estimated_tenths(
            r.estimated_savings.image_compression as int,
            r.estimated_savings.structure_optimization as int,
        ),
{
    let ghost objs = doc.objects@;
    let n = doc.objects.len();
    let mut image_count: usize = 0;
    let mut font_count: usize = 0;
    let mut text_objects: usize = 0;
    let mut images_size: u64 = 0;
    let mut fonts_size: u64 = 0;
    let mut text_size: u64 = 0;
    let mut other_size: u64 = 0;
    let mut i: usize = 0;
    while i < n
        invariant
            n == objs.len(),
            objs == doc.objects@,
            i <= n,
            image_count == spec_count_objs(objs.take(i as int), image_pred()),
            font_count == spec_count_objs(objs.take(i as int), font_pred()),
            text_objects == spec_count_objs(objs.take(i as int), text_pred()),
            images_size == spec_sum_objs(objs.take(i as int), image_weight()),
            fonts_size == spec_sum_objs(objs.take(i as int), font_weight()),
            text_size == spec_sum_objs(objs.take(i as int), text_weight()),
            other_size == spec_sum_objs(objs.take(i as int), other_weight()),
            spec_images_size(objs) + spec_fonts_size(objs) + spec_text_size(objs)
                + spec_other_size(objs) <= u64::MAX,
        decreases n - i,
    {
        proof {
            lemma_count_bounds(objs.take(i as int), image_pred());
            lemma_count_bounds(objs.take(i as int), font_pred());
            lemma_count_bounds(objs.take(i as int), text_pred());
            lemma_count_take_step(objs, image_pred(), i as int);
            lemma_count_take_step(objs, font_pred(), i as int);
            lemma_count_take_step(objs, text_pred(), i as int);
            lemma_sum_take_step(objs, image_weight(), i as int);
            lemma_sum_take_step(objs, font_weight(), i as int);
            lemma_sum_take_step(objs, text_weight(), i as int);
            lemma_sum_take_step(objs, other_weight(), i as int);
            lemma_sum_take_le(objs, image_weight(), i as int + 1);
            lemma_sum_take_le(objs, font_weight(), i as int + 1);
            lemma_sum_take_le(objs, text_weight(), i as int + 1);
            lemma_sum_take_le(objs, other_weight(), i as int + 1);
            lemma_sum_nonneg(objs, image_weight());
            lemma_sum_nonneg(objs, font_weight());
            lemma_sum_nonneg(objs, text_weight());
            lemma_sum_nonneg(objs, other_weight());
            lemma_sum_nonneg(objs.take(i as int), image_weight());
            lemma_sum_nonneg(objs.take(i as int), font_weight());
            lemma_sum_nonneg(objs.take(i as int), text_weight());
            lemma_sum_nonneg(objs.take(i as int), other_weight());
        }
        let o = &doc.objects[i];
        match o {
            PdfObject::Stream(s) => {
                if is_image_stream(s) {
                    image_count += 1;
                    images_size += s.content.len() as u64;
                }
                let is_font = match &s.dict.obj_type {
                    Some(nm) => {
                        let expected = name_font();
                        bytes_eq(nm.as_slice(), expected.as_slice())
                    },
                    None => false,
                };
                if is_font {
                    font_count += 1;
                    fonts_size += s.content.len() as u64;
                }
                let declares_length = match &s.dict.length {
                    Some(_) => true,
                    None => false,
                };
                if declares_length {
                    if contains_text_marker(&s.content) {
                        text_objects += 1;
                        text_size += s.content.len() as u64;
                    }
                }
            },
            PdfObject::Dictionary(d) => {
                let is_font = match &d.obj_type {
                    Some(nm) => {
                        let expected = name_font();
                        bytes_eq(nm.as_slice(), expected.as_slice())
                    },
                    None => false,
                };
                if is_font {
                    font_count += 1;
                }
            },
            PdfObject::Other => {
                other_size += 100;
            },
        }
        i += 1;
    }
    proof {
        assert(objs.take(n as int) =~= objs);
    }
    let total_size = images_size + fonts_size + text_size + other_size;
    let image_compression: u32 = if image_count > 0 {
        500
    } else {
        0
    };
    let structure_optimization: u32 = if n > 100 {
        250
    } else {
        100
    };
    let total_estimated: u32 = (image_compression * 6 + structure_optimization * 4) / 10;
    PdfAnalysis {
        total_objects: n,
        image_count,
        font_count,
        text_objects,
        estimated_savings: EstimatedSavings {
            image_compression,
            structure_optimization,
            total_estimated,
        },
        content_breakdown: ContentBreakdown {
            images_size,
            fonts_size,
            text_size,
            other_size,
            total_size,
        },
    }
}

} // verus!
