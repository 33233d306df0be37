//! Export requests of the front end: cards with Base64 images, turned into
//! export cards, and the summary sent back.

use vstd::prelude::*;
use crate::ms_io::{base64_bytes, base64_decode as decode_bytes, ExportSummary, KbCard, KbImage};

verus! {

/// A card the front end asks to export.
#[derive(Debug, Clone)]
pub struct ExportCardInput {
    pub category_name: String,
    pub title: String,
    pub raw_md: String,
    pub images: Vec<ExportImageInput>,
}

/// An image of a card to export, Base64-encoded.
#[derive(Debug, Clone)]
pub struct ExportImageInput {
    pub filename: String,
    pub data: String,
}

/// The summary of an export, for the front end.
#[derive(Debug, Clone, PartialEq, Eq, Structural)]
pub struct ExportSummaryDto {
    pub total_cards: usize,
    pub total_images: usize,
    pub zip_size_bytes: u64,
}

impl From<ExportSummary> for ExportSummaryDto {
    fn from(s: ExportSummary) -> (r: ExportSummaryDto) {
        ExportSummaryDto { total_cards: s.total_cards, total_images: s.total_images, zip_size_bytes: s.zip_size_bytes }
    }
}

impl vstd::std_specs::convert::FromSpecImpl<ExportSummary> for ExportSummaryDto {
    open spec fn obeys_from_spec() -> bool {
        true
    }

    open spec fn from_spec(s: ExportSummary) -> ExportSummaryDto {
        ExportSummaryDto { total_cards: s.total_cards, total_images: s.total_images, zip_size_bytes: s.zip_size_bytes }
    }
}

/// Decodes Base64 image data (see [`base64_bytes`]); every input decodes.
pub fn base64_decode(input: &str) -> (r: Option<Vec<u8>>)
    ensures
        r matches Some(v) && v@ == base64_bytes(input@),
{
    Some(decode_bytes(input))
}

/// The export card of a request card: same text fields, images decoded.
pub fn to_kb_card(c: ExportCardInput) -> (r: KbCard)
    ensures
        r.category_name == c.category_name,
        r.title == c.title,
        r.raw_md == c.raw_md,
        r.images@.len() == c.images@.len(),
        forall|i: int| 0 <= i < c.images@.len() ==> #[trigger] r.images@[i].filename == c.images@[i].filename
            && r.images@[i].data@ == base64_bytes(c.images@[i].data@),
{
    let mut images: Vec<KbImage> = Vec::new();
    let mut i: usize = 0;
    while i < c.images.len()
        invariant
            i <= c.images@.len(),
            images@.len() == i,
            forall|k: int| 0 <= k < i ==> #[trigger] images@[k].filename == c.images@[k].filename
                && images@[k].data@ == base64_bytes(c.images@[k].data@),
        decreases c.images@.len() - i,
    {
        let img = &c.images[i];
        match base64_decode(img.data.as_str()) {
            Some(data) => images.push(KbImage { filename: img.filename.clone(), data }),
            None => {},
        }
        i = i + 1;
    }
    KbCard { category_name: c.category_name, title: c.title, raw_md: c.raw_md, images }
}

} // verus!
