//! The document store's structural compression, reached through a
//! trusted wrapper.  Loading and saving files is I/O and stays with
//! the caller; applying the save options to the in-memory document is
//! decided here.

use vstd::prelude::*;

use crate::policy::SaveOptions;

verus! {

#[verifier::external_type_specification]
#[verifier::external_body]
pub struct ExLopdfDocument(lopdf::Document);

/// Relies on lopdf's `Document::compress`: recompresses the document's
/// stream objects in place (structural compression).
#[verifier::external_body]
fn compress_document(doc: &mut lopdf::Document) {
    doc.compress();
}

/// Apply the save options to a document about to be serialized: the
/// document store's structural compression runs exactly when the
/// options enable it (which every current preset does).  With
/// compression off, the document is left untouched; what the
/// compression itself does to the opaque document is the store's.
pub fn apply_save_options(doc: &mut lopdf::Document, options: &SaveOptions)
    ensures
        !options.enable_compression ==> *final(doc) == *old(doc),
{
    if options.enable_compression {
        compress_document(doc);
    }
}

} // verus!
