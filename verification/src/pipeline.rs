//! The per-entry enrichment pipeline.
//!
//! Each entry is driven through a small state machine.  The caller performs
//! the network fetches (the only suspension points) and feeds the results
//! back in; every decision between two fetches is made here, with a
//! contract.  [`restore_order`] and [`collect_entries`] then fan the
//! concurrently produced outcomes back into the original entry order under
//! the chosen failure [`Policy`].

use vstd::prelude::*;

use crate::bytes::copy_bytes;
use crate::comic::{html_content, html_type, img_tag, locate_comic, spec_data_url, spec_located};
use crate::feed::{Entry, EntryModel, Error, Policy};
use crate::trusted;
use crate::trusted::{base64_of, utf8_valid};

verus! {

/// The value of an optional byte string.
pub open spec fn opt_bytes(o: Option<Vec<u8>>) -> Option<Seq<u8>> {
    match o {
        Some(v) => Some(v@),
        None => None,
    }
}

/// An entry waiting for its comic page to be fetched.
#[derive(Debug)]
pub struct PageWait {
    /// The entry being processed.
    pub entry: Entry,
    /// The page URL to fetch: the entry's first link.
    pub link: Vec<u8>,
    /// Whether the image is to be inlined as a `data:` URL.
    pub embed: bool,
}

/// The mathematical value of a [`PageWait`].
pub struct PageWaitModel {
    pub entry: EntryModel,
    pub link: Seq<u8>,
    pub embed: bool,
}

impl View for PageWait {
    type V = PageWaitModel;

    open spec fn view(&self) -> PageWaitModel {
        PageWaitModel { entry: self.entry@, link: self.link@, embed: self.embed }
    }
}

/// An entry waiting for its located image bytes to be fetched.
#[derive(Debug)]
pub struct ImageWait {
    /// The entry being processed.
    pub entry: Entry,
    /// The entry's first link, which becomes its id.
    pub link: Vec<u8>,
    /// The comic title located on the page, when one was.
    pub title: Option<Vec<u8>>,
    /// The normalized image URL to fetch.
    pub image_url: Vec<u8>,
}

/// The mathematical value of an [`ImageWait`].
pub struct ImageWaitModel {
    pub entry: EntryModel,
    pub link: Seq<u8>,
    pub title: Option<Seq<u8>>,
    pub image_url: Seq<u8>,
}

impl View for ImageWait {
    type V = ImageWaitModel;

    open spec fn view(&self) -> ImageWaitModel {
        ImageWaitModel {
            entry: self.entry@,
            link: self.link@,
            title: opt_bytes(self.title),
            image_url: self.image_url@,
        }
    }
}

/// Where an entry stands: done, waiting for a fetch, or failed.
#[derive(Debug)]
pub enum Step {
    /// The entry is done and keeps this final shape.
    Finished(Entry),
    /// The caller must fetch the comic page and report back.
    NeedPage(PageWait),
    /// The caller must fetch the image bytes and report back.
    NeedImage(ImageWait),
    /// The entry failed; the [`Policy`] decides what that means.
    Failed(Error),
}

/// The mathematical value of a [`Step`].
pub enum StepModel {
    Finished(EntryModel),
    NeedPage(PageWaitModel),
    NeedImage(ImageWaitModel),
    Failed(Error),
}

impl View for Step {
    type V = StepModel;

    open spec fn view(&self) -> StepModel {
        match self {
            Step::Finished(e) => StepModel::Finished(e@),
            Step::NeedPage(w) => StepModel::NeedPage(w@),
            Step::NeedImage(w) => StepModel::NeedImage(w@),
            Step::Failed(e) => StepModel::Failed(*e),
        }
    }
}

/// The final shape of a processed entry: its content shows `image_ref`,
/// its id is its own page link, and a located title replaces the original
/// one while an absent title leaves it alone.
pub open spec fn spec_finalize(
    e: EntryModel,
    link: Seq<u8>,
    title: Option<Seq<u8>>,
    image_ref: Seq<u8>,
) -> EntryModel {
    EntryModel {
        link: e.link,
        title: match title {
            Some(t) => t,
            None => e.title,
        },
        id: link,
        content: Some(
            crate::feed::ContentModel { content_type: html_type(), value: img_tag(image_ref) },
        ),
    }
}

/// Give an entry its final shape from a located (or embedded) image
/// reference.
pub fn finalize_entry(entry: Entry, link: Vec<u8>, title: Option<Vec<u8>>, image_ref: &Vec<u8>) -> (r:
    Entry)
    ensures
        r@ == spec_finalize(entry@, link@, opt_bytes(title), image_ref@),
{
    let content = html_content(image_ref);
    let new_title = match title {
        Some(t) => t,
        None => entry.title,
    };
    Entry { link: entry.link, title: new_title, id: link, content: Some(content) }
}

/// What [`begin_entry`] decides: an entry without a link passes through
/// untouched; any other entry waits for its page.
pub open spec fn spec_begin(e: EntryModel, embed: bool) -> StepModel {
    match e.link {
        None => StepModel::Finished(e),
        Some(l) => StepModel::NeedPage(PageWaitModel { entry: e, link: l, embed }),
    }
}

/// Start processing one entry.
pub fn begin_entry(entry: Entry, embed: bool) -> (s: Step)
    ensures
        s@ == spec_begin(entry@, embed),
{
    let link = match &entry.link {
        Some(l) => Some(copy_bytes(l)),
        None => None,
    };
    match link {
        None => Step::Finished(entry),
        Some(l) => Step::NeedPage(PageWait { entry, link: l, embed }),
    }
}

/// What [`on_page`] decides from the page-fetch result: a failed fetch
/// fails the entry; a page that is not UTF-8 fails it; a page without a
/// comic image fails it with [`Error::MissingImage`]; otherwise the entry
/// is finished directly or waits for the image bytes, depending on `embed`.
pub open spec fn spec_on_page(w: PageWaitModel, page: Option<Seq<u8>>) -> StepModel {
    match page {
        None => StepModel::Failed(Error::Fetch),
        Some(body) => if !utf8_valid(body) {
            StepModel::Failed(Error::Decode)
        } else {
            let info = spec_located(body);
            match info.image_url {
                None => StepModel::Failed(Error::MissingImage),
                Some(url) => if w.embed {
                    StepModel::NeedImage(
                        ImageWaitModel {
                            entry: w.entry,
                            link: w.link,
                            title: info.title,
                            image_url: url,
                        },
                    )
                } else {
                    StepModel::Finished(spec_finalize(w.entry, w.link, info.title, url))
                },
            }
        },
    }
}

/// Continue an entry once its comic page was fetched; `page` is `None`
/// when the fetch failed (a transport error or a non-success status).
pub fn on_page(w: PageWait, page: Option<Vec<u8>>) -> (s: Step)
    ensures
        s@ == spec_on_page(w@, opt_bytes(page)),
{
    let body = match page {
        None => {
            return Step::Failed(Error::Fetch);
        },
        Some(body) => body,
    };
    let info = match locate_comic(&body) {
        Err(e) => {
            return Step::Failed(e);
        },
        Ok(info) => info,
    };
    let url = match info.image_url {
        None => {
            return Step::Failed(Error::MissingImage);
        },
        Some(url) => url,
    };
    if w.embed {
        Step::NeedImage(
            ImageWait { entry: w.entry, link: w.link, title: info.title, image_url: url },
        )
    } else {
        Step::Finished(finalize_entry(w.entry, w.link, info.title, &url))
    }
}

/// What [`on_image`] decides from the image-fetch result, for the MIME
/// type `mime` that the sniffer came back with: a failed fetch fails the
/// entry; otherwise the entry is finished with a `data:` URL that carries
/// the base64 encoding of exactly the fetched bytes.
pub open spec fn spec_on_image(
    w: ImageWaitModel,
    image: Option<Seq<u8>>,
    mime: Seq<u8>,
) -> StepModel {
    match image {
        None => StepModel::Failed(Error::Fetch),
        Some(bytes) => StepModel::Finished(
            spec_finalize(w.entry, w.link, w.title, spec_data_url(mime, base64_of(bytes))),
        ),
    }
}

/// Finish an entry once its image bytes were fetched; `image` is `None`
/// when the fetch failed.  The MIME type is sniffed from the bytes and
/// depends on the machine's MIME database, so it is quantified away.
pub fn on_image(w: ImageWait, image: Option<Vec<u8>>) -> (s: Step)
    ensures
        exists|mime: Seq<u8>| s@ == spec_on_image(w@, opt_bytes(image), mime),
{
    let bytes = match image {
        None => {
            let s = Step::Failed(Error::Fetch);
            proof {
                assert(s@ == spec_on_image(w@, opt_bytes(image), Seq::<u8>::empty()));
            }
            return s;
        },
        Some(bytes) => bytes,
    };
    let mime = trusted::sniff_mime(&bytes);
    let data_url = crate::comic::build_data_url(&mime, &bytes);
    let s = Step::Finished(finalize_entry(w.entry, w.link, w.title, &data_url));
    proof {
        assert(s@ == spec_on_image(w@, Some(bytes@), mime@));
    }
    s
}

/// What one entry's processing came to, once no fetch is outstanding.
#[derive(Debug)]
pub enum Outcome {
    /// The entry survives with this shape (processed, or passed through).
    Kept(Entry),
    /// The entry failed with this error.
    Failed(Error),
}

/// The mathematical value of an [`Outcome`].
pub enum OutcomeModel {
    Kept(EntryModel),
    Failed(Error),
}

impl View for Outcome {
    type V = OutcomeModel;

    open spec fn view(&self) -> OutcomeModel {
        match self {
            Outcome::Kept(e) => OutcomeModel::Kept(e@),
            Outcome::Failed(e) => OutcomeModel::Failed(*e),
        }
    }
}

/// No two outcomes carry the same original position.
pub open spec fn tags_distinct(t: Seq<(usize, Outcome)>) -> bool {
    forall|i: int, j: int| 0 <= i < j < t.len() ==> t[i].0 != t[j].0
}

/// Every carried position lies below `n`.
pub open spec fn tags_below(t: Seq<(usize, Outcome)>, n: nat) -> bool {
    forall|i: int| 0 <= i < t.len() ==> (#[trigger] t[i].0) < n
}

/// Some outcome carries the position `k`.
pub open spec fn has_tag(t: Seq<(usize, Outcome)>, k: int) -> bool {
    exists|i: int| 0 <= i < t.len() && (#[trigger] t[i].0) == k
}

/// `e` is one of the tagged outcomes of `orig`.
pub open spec fn comes_from(orig: Seq<(usize, Outcome)>, e: (usize, Outcome)) -> bool {
    exists|j: int| 0 <= j < orig.len() && orig[j] == e
}

/// The outcome at position `t` has been placed at index `t` of `out`.
pub open spec fn placed_at(orig: Seq<(usize, Outcome)>, out: Seq<Outcome>, t: int) -> bool {
    exists|j: int| 0 <= j < orig.len() && (#[trigger] orig[j].0) == t && out[t] == orig[j].1
}

/// Every position below `n` is carried by some outcome.
pub open spec fn tags_cover(t: Seq<(usize, Outcome)>, n: nat) -> bool {
    forall|k: int| 0 <= k < n ==> #[trigger] has_tag(t, k)
}

/// Put concurrently produced outcomes back into original entry order.
///
/// Each outcome carries the position its entry had in the source feed; the
/// input may arrive in any completion order, and the result holds every
/// outcome at its original position.
pub fn restore_order(n: usize, tagged: Vec<(usize, Outcome)>) -> (r: Vec<Outcome>)
    requires
        tagged@.len() == n,
        tags_below(tagged@, n as nat),
        tags_distinct(tagged@),
        tags_cover(tagged@, n as nat),
    ensures
        r@.len() == n,
        forall|i: int| 0 <= i < n ==> r@[#[trigger] tagged@[i].0 as int] == tagged@[i].1,
{
    let ghost orig = tagged@;
    let mut rem = tagged;
    let mut out: Vec<Outcome> = Vec::new();
    let mut k: usize = 0;
    while k < n
        invariant
            k <= n,
            out@.len() == k,
            rem@.len() == n - k,
            orig.len() == n,
            tags_distinct(orig),
            tags_distinct(rem@),
            forall|i: int| 0 <= i < rem@.len() ==> #[trigger] comes_from(orig, rem@[i]),
            forall|i: int| 0 <= i < rem@.len() ==> k <= (#[trigger] rem@[i].0) < n,
            forall|t: int| k <= t < n ==> #[trigger] has_tag(rem@, t),
            forall|t: int| 0 <= t < k ==> #[trigger] placed_at(orig, out@, t),
        decreases n - k,
    {
        let mut m: usize = 0;
        while m < rem.len() && rem[m].0 != k
            invariant
                m <= rem@.len(),
                forall|i: int| 0 <= i < m ==> (#[trigger] rem@[i].0) != k,
            decreases rem@.len() - m,
        {
            m = m + 1;
        }
        proof {
            if m == rem@.len() {
                assert(has_tag(rem@, k as int));
                let i = choose|i: int| 0 <= i < rem@.len() && (#[trigger] rem@[i].0) == k as int;
                assert(rem@[i].0 != k);
                assert(false);
            }
        }
        let ghost old_rem = rem@;
        let picked = rem.remove(m);
        proof {
            assert(forall|i: int| 0 <= i < m ==> rem@[i] == old_rem[i]);
            assert(forall|i: int| m <= i < rem@.len() ==> rem@[i] == old_rem[i + 1]);
            assert(picked == old_rem[m as int]);
            assert(picked.0 == k);
            // The tags of what remains still cover k + 1 .. n.
            assert forall|t: int| k + 1 <= t < n implies #[trigger] has_tag(rem@, t) by {
                assert(has_tag(old_rem, t));
                let i0 = choose|i: int| 0 <= i < old_rem.len() && (#[trigger] old_rem[i].0) == t;
                if i0 < m {
                    assert(rem@[i0].0 == t);
                } else {
                    assert(old_rem[i0].0 != old_rem[m as int].0);
                    assert(i0 != m);
                    assert(rem@[i0 - 1].0 == t);
                }
            }
            // And every remaining tag is above k.
            assert forall|i: int| 0 <= i < rem@.len() implies k + 1 <= (#[trigger] rem@[i].0)
                < n by {
                if i < m {
                    assert(old_rem[i].0 != old_rem[m as int].0);
                } else {
                    assert(old_rem[i + 1].0 != old_rem[m as int].0);
                }
            }
            // And each of them is still one of the input outcomes.
            assert forall|i: int| 0 <= i < rem@.len() implies #[trigger] comes_from(
                orig,
                rem@[i],
            ) by {
                if i < m {
                    assert(comes_from(orig, old_rem[i]));
                } else {
                    assert(comes_from(orig, old_rem[i + 1]));
                }
            }
        }
        let ghost old_out = out@;
        out.push(picked.1);
        proof {
            // The picked outcome now stands at its original position k,
            // and nothing that was placed before has moved.
            assert(comes_from(orig, picked));
            let j = choose|j: int| 0 <= j < orig.len() && orig[j] == picked;
            assert(out@[k as int] == picked.1);
            assert(placed_at(orig, out@, k as int));
            assert forall|t: int| 0 <= t < k implies #[trigger] placed_at(orig, out@, t) by {
                assert(placed_at(orig, old_out, t));
                let j2 = choose|j2: int|
                    0 <= j2 < orig.len() && (#[trigger] orig[j2].0) == t && old_out[t]
                        == orig[j2].1;
                assert(out@[t] == old_out[t]);
            }
        }
        k = k + 1;
    }
    proof {
        // Read the per-position placement back as a statement over the input.
        assert forall|i: int| 0 <= i < n implies out@[#[trigger] orig[i].0 as int]
            == orig[i].1 by {
            let t = orig[i].0 as int;
            assert(placed_at(orig, out@, t));
            let j = choose|j: int|
                0 <= j < orig.len() && (#[trigger] orig[j].0) == t && out@[t] == orig[j].1;
            if i < j {
                assert(orig[i].0 != orig[j].0);
            } else if j < i {
                assert(orig[j].0 != orig[i].0);
            }
            assert(i == j);
        }
    }
    out
}

/// The entries of the outcomes that survive, in order: a failed outcome
/// contributes nothing, a kept one its entry.
pub open spec fn spec_survivors(s: Seq<Outcome>) -> Seq<Entry>
    decreases s.len(),
{
    if s.len() == 0 {
        Seq::empty()
    } else {
        match s[0] {
            Outcome::Kept(e) => seq![e] + spec_survivors(s.drop_first()),
            Outcome::Failed(_) => spec_survivors(s.drop_first()),
        }
    }
}

/// The first error among the outcomes, when there is one.
pub open spec fn spec_first_error(s: Seq<Outcome>) -> Option<Error>
    decreases s.len(),
{
    if s.len() == 0 {
        None
    } else {
        match s[0] {
            Outcome::Failed(e) => Some(e),
            Outcome::Kept(_) => spec_first_error(s.drop_first()),
        }
    }
}

/// The survivors of a sequence extended at the back are the survivors of
/// the front, with the new entry appended when it was kept.
pub proof fn lemma_survivors_snoc(s: Seq<Outcome>, o: Outcome)
    ensures
        spec_survivors(s.push(o)) == spec_survivors(s) + (match o {
            Outcome::Kept(e) => seq![e],
            Outcome::Failed(_) => Seq::<Entry>::empty(),
        }),
    decreases s.len(),
{
    let tail = (match o {
        Outcome::Kept(e) => seq![e],
        Outcome::Failed(_) => Seq::<Entry>::empty(),
    });
    if s.len() == 0 {
        assert(s.push(o)[0] == o);
        assert(s.push(o).drop_first() =~= Seq::<Outcome>::empty());
        assert(spec_survivors(Seq::<Outcome>::empty()) == Seq::<Entry>::empty());
        assert(spec_survivors(s) == Seq::<Entry>::empty());
        assert(spec_survivors(s.push(o)) =~= spec_survivors(s) + tail);
    } else {
        assert(s.push(o).drop_first() =~= s.drop_first().push(o));
        lemma_survivors_snoc(s.drop_first(), o);
        assert(s.push(o)[0] == s[0]);
        match s[0] {
            Outcome::Kept(e) => {
                vstd::seq_lib::lemma_concat_associative(
                    seq![e],
                    spec_survivors(s.drop_first()),
                    tail,
                );
                assert(spec_survivors(s.push(o)) == spec_survivors(s) + tail);
            },
            Outcome::Failed(_) => {
                assert(spec_survivors(s.push(o)) == spec_survivors(s) + tail);
            },
        }
    }
}

/// The first error of a sequence extended at the back is the first error
/// of the front, or else the new outcome's error.
pub proof fn lemma_first_error_snoc(s: Seq<Outcome>, o: Outcome)
    ensures
        spec_first_error(s.push(o)) == (if spec_first_error(s) is Some {
            spec_first_error(s)
        } else {
            match o {
                Outcome::Failed(e) => Some(e),
                Outcome::Kept(_) => None::<Error>,
            }
        }),
    decreases s.len(),
{
    if s.len() == 0 {
        assert(s.push(o)[0] == o);
        assert(s.push(o).drop_first() =~= Seq::<Outcome>::empty());
        assert(spec_first_error(s.push(o).drop_first()) == None::<Error>);
        assert(spec_first_error(s) == None::<Error>);
        match o {
            Outcome::Failed(e) => {
                assert(spec_first_error(s.push(o)) == Some(e));
            },
            Outcome::Kept(_) => {
                assert(spec_first_error(s.push(o)) == None::<Error>);
            },
        }
    } else {
        assert(s.push(o).drop_first() =~= s.drop_first().push(o));
        lemma_first_error_snoc(s.drop_first(), o);
        assert(s.push(o)[0] == s[0]);
        match s[0] {
            Outcome::Failed(e) => {
                assert(spec_first_error(s.push(o)) == Some(e));
                assert(spec_first_error(s) == Some(e));
            },
            Outcome::Kept(_) => {
                assert(spec_first_error(s.push(o)) == spec_first_error(s.drop_first().push(o)));
                assert(spec_first_error(s) == spec_first_error(s.drop_first()));
            },
        }
    }
}

/// Filter ordered outcomes under the failure policy.
///
/// Under [`Policy::Strict`] the first error, in entry order, fails the
/// whole run and no entry list is produced.  Under [`Policy::Lenient`]
/// the failed entries are dropped.  Either way the surviving entries keep
/// exactly the relative order they arrived in.
#[verifier::loop_isolation(false)]
pub fn collect_entries(ordered: Vec<Outcome>, policy: Policy) -> (r: Result<Vec<Entry>, Error>)
    ensures
        policy is Strict && spec_first_error(ordered@) is Some ==> r == Err::<Vec<Entry>, Error>(
            spec_first_error(ordered@)->0,
        ),
        policy is Strict && spec_first_error(ordered@) is None ==> r is Ok && r->Ok_0@
            == spec_survivors(ordered@),
        policy is Lenient ==> r is Ok && r->Ok_0@ == spec_survivors(ordered@),
{
    let ghost whole = ordered@;
    let total = ordered.len();
    let mut rem = ordered;
    let mut out: Vec<Entry> = Vec::new();
    let mut i: usize = 0;
    proof {
        assert(whole.subrange(0, 0) =~= Seq::<Outcome>::empty());
    }
    while rem.len() > 0
        invariant
            i <= whole.len(),
            whole.len() == total,
            rem@ =~= whole.subrange(i as int, whole.len() as int),
            out@ == spec_survivors(whole.subrange(0, i as int)),
            policy is Strict ==> spec_first_error(whole.subrange(0, i as int)) is None,
        decreases rem@.len(),
    {
        proof {
            lemma_survivors_snoc(whole.subrange(0, i as int), whole[i as int]);
            lemma_first_error_snoc(whole.subrange(0, i as int), whole[i as int]);
            assert(whole.subrange(0, i as int).push(whole[i as int]) =~= whole.subrange(
                0,
                i as int + 1,
            ));
        }
        let head = rem.remove(0);
        proof {
            assert(head == whole[i as int]);
            assert(rem@ =~= whole.subrange(i as int + 1, whole.len() as int));
        }
        match head {
            Outcome::Kept(e) => {
                out.push(e);
                proof {
                    assert(out@ =~= spec_survivors(whole.subrange(0, i as int + 1)));
                }
            },
            Outcome::Failed(e) => {
                match policy {
                    Policy::Strict => {
                        proof {
                            assert(spec_first_error(whole.subrange(0, i as int + 1)) == Some(e));
                            lemma_first_error_extends(whole, i as int + 1);
                            assert(spec_first_error(whole) == Some(e));
                        }
                        return Err(e);
                    },
                    Policy::Lenient => {
                        proof {
                            assert(out@ =~= spec_survivors(whole.subrange(0, i as int + 1)));
                        }
                    },
                }
            },
        }
        i = i + 1;
    }
    proof {
        assert(whole.subrange(0, whole.len() as int) =~= whole);
    }
    Ok(out)
}

/// Once a prefix of the outcomes holds an error, the whole sequence's
/// first error is the prefix's.
pub proof fn lemma_first_error_extends(s: Seq<Outcome>, p: int)
    requires
        0 <= p <= s.len(),
        spec_first_error(s.subrange(0, p)) is Some,
    ensures
        spec_first_error(s) == spec_first_error(s.subrange(0, p)),
    decreases p,
{
    let pre = s.subrange(0, p);
    assert(pre.len() == p);
    if p == 0 {
        assert(false);
    } else {
        assert(s[0] == pre[0]);
        match s[0] {
            Outcome::Failed(_) => {
                assert(spec_first_error(s) == Some(s[0]->Failed_0));
                assert(spec_first_error(pre) == Some(pre[0]->Failed_0));
            },
            Outcome::Kept(_) => {
                assert(pre.drop_first() =~= s.drop_first().subrange(0, p - 1));
                lemma_first_error_extends(s.drop_first(), p - 1);
                assert(spec_first_error(s) == spec_first_error(s.drop_first()));
                assert(spec_first_error(pre) == spec_first_error(pre.drop_first()));
            },
        }
    }
}

} // verus!
