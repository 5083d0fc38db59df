//! Per-page extraction and embedding.
//!
//! [`locate_comic`] reads an already-fetched comic page and yields the
//! comic's image URL and title; [`html_content`] builds the HTML content
//! value that carries an image reference; [`build_data_url`] and
//! [`embed_image_bytes`] turn fetched image bytes into a self-contained
//! `data:` URL.

use vstd::prelude::*;

use crate::bytes::{
    escape_attr, normalize_image_url, spec_escape, spec_normalize_url, spec_trim, trim_bytes,
};
use crate::feed::{ComicInfo, ComicInfoModel, Content, ContentModel, Error};
use crate::trusted;
use crate::trusted::{base64_of, class_attr, class_text, utf8_valid};

verus! {

/// The marker class of the comic image element.
pub open spec fn comic_image_class() -> Seq<char> {
    "img-comic"@
}

/// The marker class of the comic title element.
pub open spec fn comic_title_class() -> Seq<char> {
    "comic-title-name"@
}

/// The attribute that carries the image URL.
pub open spec fn src_attr() -> Seq<char> {
    "src"@
}

/// A raw title becomes the trimmed title, or `None` when nothing but
/// whitespace is left.
pub open spec fn spec_clean_title(raw: Seq<u8>) -> Option<Seq<u8>> {
    if spec_trim(raw).len() == 0 {
        None
    } else {
        Some(spec_trim(raw))
    }
}

/// What [`locate_comic`] yields on a valid UTF-8 page: the first
/// comic-image element's `src` attribute, scheme-normalized, and the first
/// comic-title element's text, trimmed and dropped when empty.
pub open spec fn spec_located(html: Seq<u8>) -> ComicInfoModel {
    ComicInfoModel {
        title: match class_text(html, comic_title_class()) {
            Some(raw) => spec_clean_title(raw),
            None => None,
        },
        image_url: match class_attr(html, comic_image_class(), src_attr()) {
            Some(url) => Some(spec_normalize_url(url)),
            None => None,
        },
    }
}

/// Trim a raw title; a title of nothing but whitespace counts as absent.
pub fn clean_title(raw: &Vec<u8>) -> (r: Option<Vec<u8>>)
    ensures
        r is Some <==> spec_clean_title(raw@) is Some,
        r is Some ==> r->0@ == spec_clean_title(raw@)->0,
{
    let trimmed = trim_bytes(raw);
    if trimmed.len() == 0 {
        None
    } else {
        Some(trimmed)
    }
}

/// Extract the comic image URL and title from the raw bytes of a comic
/// page.  Fails exactly when the page is not valid UTF-8; a page without a
/// comic-image or comic-title element yields `None` in the respective
/// field, which is not an error at this layer.
pub fn locate_comic(html: &Vec<u8>) -> (r: Result<ComicInfo, Error>)
    ensures
        r is Ok <==> utf8_valid(html@),
        r is Err ==> r->Err_0 == Error::Decode,
        r is Ok ==> r->Ok_0@ == spec_located(html@),
{
    if !trusted::utf8_check(html) {
        return Err(Error::Decode);
    }
    let image_url = match trusted::find_attr_by_class(html, "img-comic", "src") {
        Some(url) => Some(normalize_image_url(url)),
        None => None,
    };
    let title = match trusted::find_text_by_class(html, "comic-title-name") {
        Some(raw) => clean_title(&raw),
        None => None,
    };
    Ok(ComicInfo { title, image_url })
}

/// The bytes of `html`, the media type of every content value built here.
pub open spec fn html_type() -> Seq<u8> {
    seq![104u8, 116u8, 109u8, 108u8]
}

/// The bytes of `<img src="`.
pub open spec fn img_open() -> Seq<u8> {
    seq![60u8, 105u8, 109u8, 103u8, 32u8, 115u8, 114u8, 99u8, 61u8, 34u8]
}

/// The bytes of `">`.
pub open spec fn img_close() -> Seq<u8> {
    seq![34u8, 62u8]
}

/// The body of a content value for an image reference: an `img` tag whose
/// `src` attribute is the escaped reference.
pub open spec fn img_tag(image_ref: Seq<u8>) -> Seq<u8> {
    img_open() + spec_escape(image_ref) + img_close()
}

/// Build the HTML-typed content value that shows the image at `image_ref`;
/// the reference is escaped so that no byte of it can break the markup.
pub fn html_content(image_ref: &Vec<u8>) -> (c: Content)
    ensures
        c@ == (ContentModel { content_type: html_type(), value: img_tag(image_ref@) }),
{
    let mut content_type: Vec<u8> = Vec::new();
    content_type.push(104u8);
    content_type.push(116u8);
    content_type.push(109u8);
    content_type.push(108u8);
    assert(content_type@ =~= html_type());
    let mut value: Vec<u8> = Vec::new();
    value.push(60u8);
    value.push(105u8);
    value.push(109u8);
    value.push(103u8);
    value.push(32u8);
    value.push(115u8);
    value.push(114u8);
    value.push(99u8);
    value.push(61u8);
    value.push(34u8);
    assert(value@ =~= img_open());
    let escaped = escape_attr(image_ref);
    value.extend_from_slice(escaped.as_slice());
    value.push(34u8);
    value.push(62u8);
    assert(value@ =~= img_tag(image_ref@));
    Content { content_type, value }
}

/// The bytes of `data:`.
pub open spec fn data_prefix() -> Seq<u8> {
    seq![100u8, 97u8, 116u8, 97u8, 58u8]
}

/// The bytes of `;base64,`.
pub open spec fn b64_infix() -> Seq<u8> {
    seq![59u8, 98u8, 97u8, 115u8, 101u8, 54u8, 52u8, 44u8]
}

/// A `data:` URL carrying `payload` (already base64 text) under `mime`.
pub open spec fn spec_data_url(mime: Seq<u8>, payload: Seq<u8>) -> Seq<u8> {
    data_prefix() + mime + b64_infix() + payload
}

/// Encode image bytes as a `data:` URL under the given MIME type.
pub fn build_data_url(mime: &Vec<u8>, image_bytes: &Vec<u8>) -> (r: Vec<u8>)
    ensures
        r@ == spec_data_url(mime@, base64_of(image_bytes@)),
{
    let mut out: Vec<u8> = Vec::new();
    out.push(100u8);
    out.push(97u8);
    out.push(116u8);
    out.push(97u8);
    out.push(58u8);
    assert(out@ =~= data_prefix());
    out.extend_from_slice(mime.as_slice());
    out.push(59u8);
    out.push(98u8);
    out.push(97u8);
    out.push(115u8);
    out.push(101u8);
    out.push(54u8);
    out.push(52u8);
    out.push(44u8);
    assert(out@ =~= data_prefix() + mime@ + b64_infix());
    let encoded = trusted::encode_base64(image_bytes);
    out.extend_from_slice(encoded.as_slice());
    assert(out@ =~= spec_data_url(mime@, base64_of(image_bytes@)));
    out
}

/// Encode image bytes as a self-contained `data:` URL, sniffing the MIME
/// type from the byte content.  The sniffed type depends on the machine's
/// MIME database, so only the shape of the result is promised.
pub fn embed_image_bytes(image_bytes: &Vec<u8>) -> (r: Vec<u8>)
    ensures
        exists|mime: Seq<u8>| r@ == spec_data_url(mime, base64_of(image_bytes@)),
{
    let mime = trusted::sniff_mime(image_bytes);
    let url = build_data_url(&mime, image_bytes);
    assert(url@ == spec_data_url(mime@, base64_of(image_bytes@)));
    url
}

} // verus!
