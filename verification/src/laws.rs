//! The laws the pipeline obeys, stated and proved over the spec-level
//! model of entry processing.

use vstd::prelude::*;

use crate::comic::{html_type, img_tag, spec_data_url, spec_located};
use crate::feed::{ContentModel, EntryModel, Error};
use crate::pipeline::{
    spec_begin, spec_on_image, spec_on_page, spec_survivors, Outcome, OutcomeModel, StepModel,
};
use crate::trusted::{base64_of, utf8_valid};

verus! {

/// The outcome of processing one entry, from its inputs alone: the entry,
/// the embed switch, the page-fetch result, the image-fetch result (used
/// only when embedding) and the MIME type the sniffer yields for the image
/// bytes.  This composes the three decision steps the caller drives.
pub open spec fn spec_entry_outcome(
    e: EntryModel,
    embed: bool,
    page: Option<Seq<u8>>,
    image: Option<Seq<u8>>,
    mime: Seq<u8>,
) -> OutcomeModel {
    match spec_begin(e, embed) {
        StepModel::Finished(f) => OutcomeModel::Kept(f),
        StepModel::NeedPage(w) => match spec_on_page(w, page) {
            StepModel::Finished(f) => OutcomeModel::Kept(f),
            StepModel::Failed(err) => OutcomeModel::Failed(err),
            StepModel::NeedImage(w2) => match spec_on_image(w2, image, mime) {
                StepModel::Finished(f) => OutcomeModel::Kept(f),
                StepModel::Failed(err) => OutcomeModel::Failed(err),
                _ => vstd::pervasive::arbitrary(),
            },
            _ => vstd::pervasive::arbitrary(),
        },
        _ => vstd::pervasive::arbitrary(),
    }
}

/// A linked entry whose page holds a comic image, processed without
/// embedding, is kept; its content is an `img` tag whose source is the
/// located (escaped, scheme-normalized) URL, its id is its page link, and
/// a located title replaces the original one while an absent or blank
/// title leaves it alone.
pub proof fn lemma_direct_entry_shape(e: EntryModel, page: Seq<u8>, image: Option<Seq<u8>>, mime: Seq<u8>)
    requires
        e.link is Some,
        utf8_valid(page),
        spec_located(page).image_url is Some,
    ensures
        spec_entry_outcome(e, false, Some(page), image, mime) matches OutcomeModel::Kept(f) && {
            &&& f.id == e.link->0
            &&& f.link == e.link
            &&& f.content == Some(
                ContentModel {
                    content_type: html_type(),
                    value: img_tag(spec_located(page).image_url->0),
                },
            )
            &&& f.title == (match spec_located(page).title {
                Some(t) => t,
                None => e.title,
            })
        },
{
}

/// The same entry processed with embedding is kept exactly when the image
/// fetch succeeded, and its content then shows a `data:` URL that carries
/// the base64 encoding of exactly the fetched image bytes; a failed image
/// fetch fails the entry with [`Error::Fetch`].
pub proof fn lemma_embedded_entry_shape(e: EntryModel, page: Seq<u8>, image: Option<Seq<u8>>, mime: Seq<u8>)
    requires
        e.link is Some,
        utf8_valid(page),
        spec_located(page).image_url is Some,
    ensures
        image is Some ==> (spec_entry_outcome(e, true, Some(page), image, mime)
            matches OutcomeModel::Kept(f) && {
            &&& f.id == e.link->0
            &&& f.content == Some(
                ContentModel {
                    content_type: html_type(),
                    value: img_tag(spec_data_url(mime, base64_of(image->0))),
                },
            )
        }),
        image is None ==> spec_entry_outcome(e, true, Some(page), image, mime)
            == OutcomeModel::Failed(Error::Fetch),
{
}

/// Survival filtering preserves order: the survivors of outcomes laid end
/// to end are the survivors of the front followed by the survivors of the
/// back, so an entry that stood earlier in the input can never come out
/// after one that stood later.
pub proof fn lemma_survivors_append(a: Seq<Outcome>, b: Seq<Outcome>)
    ensures
        spec_survivors(a + b) == spec_survivors(a) + spec_survivors(b),
    decreases a.len(),
{
    if a.len() == 0 {
        assert(a + b =~= b);
        assert(spec_survivors(a) =~= Seq::<crate::feed::Entry>::empty());
        assert(spec_survivors(a) + spec_survivors(b) =~= spec_survivors(b));
    } else {
        assert((a + b)[0] == a[0]);
        assert((a + b).len() > 0);
        assert((a + b).drop_first() =~= a.drop_first() + b);
        lemma_survivors_append(a.drop_first(), b);
        match a[0] {
            Outcome::Kept(e) => {
                assert(spec_survivors(a + b) == seq![e] + spec_survivors(a.drop_first() + b));
                assert(spec_survivors(a) == seq![e] + spec_survivors(a.drop_first()));
                vstd::seq_lib::lemma_concat_associative(
                    seq![e],
                    spec_survivors(a.drop_first()),
                    spec_survivors(b),
                );
                assert(spec_survivors(a + b) == spec_survivors(a) + spec_survivors(b));
            },
            Outcome::Failed(_) => {
                assert(spec_survivors(a + b) == spec_survivors(a.drop_first() + b));
                assert(spec_survivors(a) == spec_survivors(a.drop_first()));
            },
        }
    }
}

/// Entry processing is a pure function of its inputs: two runs against an
/// unchanged page, unchanged image bytes and an unchanged MIME database
/// yield identical outcomes, so rerunning the pipeline over an unchanged
/// source changes nothing.
pub proof fn lemma_entry_processing_deterministic(
    e1: EntryModel,
    e2: EntryModel,
    embed1: bool,
    embed2: bool,
    page1: Option<Seq<u8>>,
    page2: Option<Seq<u8>>,
    image1: Option<Seq<u8>>,
    image2: Option<Seq<u8>>,
    mime1: Seq<u8>,
    mime2: Seq<u8>,
)
    requires
        e1 == e2,
        embed1 == embed2,
        page1 == page2,
        image1 == image2,
        mime1 == mime2,
    ensures
        spec_entry_outcome(e1, embed1, page1, image1, mime1) == spec_entry_outcome(
            e2,
            embed2,
            page2,
            image2,
            mime2,
        ),
{
}

} // verus!
