//! Trusted boundary to the outside crates.
//!
//! Every item in this module is believed, not proved: each wrapper's body
//! makes one call into an outside crate (or into a part of std that vstd
//! does not specify) and converts the arguments and the result.  The
//! uninterpreted spec functions give names to results that are functions of
//! the arguments alone but are too involved to write out.

use vstd::prelude::*;

verus! {

/// Whether a byte string is valid UTF-8, as `str::from_utf8` decides it.
pub uninterp spec fn utf8_valid(bytes: Seq<u8>) -> bool;

/// The value of the attribute `attr` on the first element of class `class`
/// in the HTML document `html`, as select's `Document` query finds it;
/// `None` when no such element exists or it lacks the attribute.
pub uninterp spec fn class_attr(html: Seq<u8>, class: Seq<char>, attr: Seq<char>) -> Option<
    Seq<u8>,
>;

/// The text content of the first element of class `class` in the HTML
/// document `html`, as select's `Node::text` collects it; `None` when no
/// such element exists.
pub uninterp spec fn class_text(html: Seq<u8>, class: Seq<char>) -> Option<Seq<u8>>;

/// The standard base64 encoding (with padding) of a byte string.
pub uninterp spec fn base64_of(bytes: Seq<u8>) -> Seq<u8>;

/// Relies on `str::from_utf8`: it returns `Ok` exactly when the bytes are
/// valid UTF-8 (the result itself is not needed, only the validity test).
#[verifier::external_body]
pub(crate) fn utf8_check(bytes: &Vec<u8>) -> (r: bool)
    ensures
        r == utf8_valid(bytes@),
{
    core::str::from_utf8(bytes).is_ok()
}

/// Relies on select's `Document::from`, `Document::find` with a `Class`
/// predicate, and `Node::attr`: the first element of the given class is
/// found in document order and its attribute read, a pure function of the
/// document text.  The caller has already checked that the page is valid
/// UTF-8, so the conversion to `str` cannot fail.
#[verifier::external_body]
pub(crate) fn find_attr_by_class(html: &Vec<u8>, class: &str, attr: &str) -> (r: Option<Vec<u8>>)
    requires
        utf8_valid(html@),
    ensures
        r is Some <==> class_attr(html@, class@, attr@) is Some,
        r is Some ==> r->0@ == class_attr(html@, class@, attr@)->0,
{
    let text = core::str::from_utf8(html).unwrap();
    let doc = select::document::Document::from(text);
    doc.find(select::predicate::Class(class))
        .next()
        .and_then(|node| node.attr(attr))
        .map(|value| value.as_bytes().to_vec())
}

/// Relies on select's `Document::from`, `Document::find` with a `Class`
/// predicate, and `Node::text`: the text of the first element of the given
/// class, a pure function of the document text.
#[verifier::external_body]
pub(crate) fn find_text_by_class(html: &Vec<u8>, class: &str) -> (r: Option<Vec<u8>>)
    requires
        utf8_valid(html@),
    ensures
        r is Some <==> class_text(html@, class@) is Some,
        r is Some ==> r->0@ == class_text(html@, class@)->0,
{
    let text = core::str::from_utf8(html).unwrap();
    let doc = select::document::Document::from(text);
    doc.find(select::predicate::Class(class))
        .next()
        .map(|node| node.text().into_bytes())
}

/// Relies on `base64::encode`: the standard base64 encoding with padding,
/// a pure function of the input bytes.
#[verifier::external_body]
pub(crate) fn encode_base64(bytes: &Vec<u8>) -> (r: Vec<u8>)
    ensures
        r@ == base64_of(bytes@),
{
    base64::encode(bytes).into_bytes()
}

/// Relies on `tree_magic::from_u8`: it sniffs a MIME type from the byte
/// content.  The result also depends on the machine's MIME database, so
/// nothing is promised of it.
#[verifier::external_body]
pub(crate) fn sniff_mime(bytes: &Vec<u8>) -> (r: Vec<u8>) {
    tree_magic::from_u8(bytes).into_bytes()
}

} // verus!
