//! The data model of the feed converter.
//!
//! These types hold, as plain byte strings, exactly what the enrichment
//! logic reads and writes of a syndication feed: for each entry its first
//! link, its title, its id and its content; for the feed its entries, its
//! links and its icon.  The caller converts between these and the concrete
//! feed-library types at the boundary.

use vstd::prelude::*;

verus! {

/// The payload attached to an entry, tagged with a media type.
#[derive(Debug)]
pub struct Content {
    /// The media type of the payload (here always `html`).
    pub content_type: Vec<u8>,
    /// The payload itself.
    pub value: Vec<u8>,
}

/// The mathematical value of a [`Content`].
pub struct ContentModel {
    pub content_type: Seq<u8>,
    pub value: Seq<u8>,
}

impl View for Content {
    type V = ContentModel;

    open spec fn view(&self) -> ContentModel {
        ContentModel { content_type: self.content_type@, value: self.value@ }
    }
}

/// One item of a syndication feed, reduced to the fields the pipeline
/// touches.
#[derive(Debug)]
pub struct Entry {
    /// The entry's first outbound link (its comic page URL), when present.
    pub link: Option<Vec<u8>>,
    /// The entry's title.
    pub title: Vec<u8>,
    /// The entry's id.
    pub id: Vec<u8>,
    /// The entry's content, absent until the pipeline sets it.
    pub content: Option<Content>,
}

/// The mathematical value of an [`Entry`].
pub struct EntryModel {
    pub link: Option<Seq<u8>>,
    pub title: Seq<u8>,
    pub id: Seq<u8>,
    pub content: Option<ContentModel>,
}

impl View for Entry {
    type V = EntryModel;

    open spec fn view(&self) -> EntryModel {
        EntryModel {
            link: match self.link {
                Some(l) => Some(l@),
                None => None,
            },
            title: self.title@,
            id: self.id@,
            content: match self.content {
                Some(c) => Some(c@),
                None => None,
            },
        }
    }
}

/// A feed-level link (used for the feed's self link).
#[derive(Debug)]
pub struct Link {
    pub href: Vec<u8>,
    pub rel: Vec<u8>,
    pub mime_type: Option<Vec<u8>>,
}

/// The mathematical value of a [`Link`].
pub struct LinkModel {
    pub href: Seq<u8>,
    pub rel: Seq<u8>,
    pub mime_type: Option<Seq<u8>>,
}

impl View for Link {
    type V = LinkModel;

    open spec fn view(&self) -> LinkModel {
        LinkModel {
            href: self.href@,
            rel: self.rel@,
            mime_type: match self.mime_type {
                Some(m) => Some(m@),
                None => None,
            },
        }
    }
}

/// A syndication feed, reduced to the fields the pipeline touches.
#[derive(Debug)]
pub struct Feed {
    pub entries: Vec<Entry>,
    pub links: Vec<Link>,
    pub icon: Option<Vec<u8>>,
}

/// What one entry's page yields: an optional cleaned title and an optional
/// normalized image URL.
#[derive(Debug)]
pub struct ComicInfo {
    /// The comic's title, trimmed, `None` when absent or all whitespace.
    pub title: Option<Vec<u8>>,
    /// The comic image's URL, scheme-normalized.
    pub image_url: Option<Vec<u8>>,
}

/// The mathematical value of a [`ComicInfo`].
pub struct ComicInfoModel {
    pub title: Option<Seq<u8>>,
    pub image_url: Option<Seq<u8>>,
}

impl View for ComicInfo {
    type V = ComicInfoModel;

    open spec fn view(&self) -> ComicInfoModel {
        ComicInfoModel {
            title: match self.title {
                Some(t) => Some(t@),
                None => None,
            },
            image_url: match self.image_url {
                Some(u) => Some(u@),
                None => None,
            },
        }
    }
}

/// Everything that can go wrong while a feed is converted.
#[derive(Clone, Copy, PartialEq, Eq, Structural, Debug)]
pub enum Error {
    /// A fetched page was not valid UTF-8.
    Decode,
    /// A network fetch failed: a transport error or a non-success status.
    Fetch,
    /// The source feed document was malformed.
    FeedParse,
    /// A fetched page held no comic-image element.
    MissingImage,
}

/// How the pipeline treats a single entry's failure: abort the whole run,
/// or drop that entry and keep going.
#[derive(Clone, Copy, PartialEq, Eq, Structural, Debug)]
pub enum Policy {
    /// One entry's failure fails the whole run.
    Strict,
    /// A failed entry is dropped; the run completes with the rest.
    Lenient,
}

impl Error {
    /// A short human-readable description of the error.
    pub fn message(&self) -> (r: &'static str)
        ensures
            self is Decode ==> r@ == "page body is not valid UTF-8"@,
            self is Fetch ==> r@ == "fetch failed"@,
            self is FeedParse ==> r@ == "malformed source feed"@,
            self is MissingImage ==> r@ == "no comic image found on the page"@,
    {
        match self {
            Error::Decode => "page body is not valid UTF-8",
            Error::Fetch => "fetch failed",
            Error::FeedParse => "malformed source feed",
            Error::MissingImage => "no comic image found on the page",
        }
    }
}

/// The bytes of `self`, the relation of the feed's self link.
pub open spec fn self_rel() -> Seq<u8> {
    seq![115u8, 101u8, 108u8, 102u8]
}

/// The bytes of `application/atom+xml`, the self link's media type.
pub open spec fn atom_mime() -> Seq<u8> {
    seq![97u8, 112u8, 112u8, 108u8, 105u8, 99u8, 97u8, 116u8, 105u8, 111u8, 110u8, 47u8, 97u8, 116u8, 111u8, 109u8, 43u8, 120u8, 109u8, 108u8]
}

/// The bytes of the fixed feed icon URL.
pub open spec fn icon_url_bytes() -> Seq<u8> {
    seq![104u8, 116u8, 116u8, 112u8, 115u8, 58u8, 47u8, 47u8, 100u8, 105u8, 108u8, 98u8, 101u8, 114u8, 116u8, 46u8, 99u8, 111u8, 109u8, 47u8, 102u8, 97u8, 118u8, 105u8, 99u8, 111u8, 110u8, 46u8, 105u8, 99u8, 111u8]
}

/// The bytes of the fixed source feed URL.
pub open spec fn source_url_bytes() -> Seq<u8> {
    seq![104u8, 116u8, 116u8, 112u8, 115u8, 58u8, 47u8, 47u8, 100u8, 105u8, 108u8, 98u8, 101u8, 114u8, 116u8, 46u8, 99u8, 111u8, 109u8, 47u8, 102u8, 101u8, 101u8, 100u8]
}

/// The fixed URL of the source feed to fetch.
pub fn source_feed_url() -> (r: Vec<u8>)
    ensures
        r@ == source_url_bytes(),
{
    let mut out: Vec<u8> = Vec::new();
    out.push(104u8);
    out.push(116u8);
    out.push(116u8);
    out.push(112u8);
    out.push(115u8);
    out.push(58u8);
    out.push(47u8);
    out.push(47u8);
    out.push(100u8);
    out.push(105u8);
    out.push(108u8);
    out.push(98u8);
    out.push(101u8);
    out.push(114u8);
    out.push(116u8);
    out.push(46u8);
    out.push(99u8);
    out.push(111u8);
    out.push(109u8);
    out.push(47u8);
    out.push(102u8);
    out.push(101u8);
    out.push(101u8);
    out.push(100u8);
    assert(out@ =~= source_url_bytes());
    out
}

/// The feed's self links: exactly one `rel="self"` link of type
/// `application/atom+xml` when a feed URL was supplied, none otherwise.
pub fn self_links(feed_url: Option<Vec<u8>>) -> (r: Vec<Link>)
    ensures
        feed_url is None ==> r@.len() == 0,
        feed_url is Some ==> r@.len() == 1 && r@[0]@ == (LinkModel {
            href: feed_url->0@,
            rel: self_rel(),
            mime_type: Some(atom_mime()),
        }),
{
    let mut links: Vec<Link> = Vec::new();
    let url = match feed_url {
        None => {
            return links;
        },
        Some(url) => url,
    };
    let mut rel: Vec<u8> = Vec::new();
    rel.push(115u8);
    rel.push(101u8);
    rel.push(108u8);
    rel.push(102u8);
    assert(rel@ =~= self_rel());
    let mut mime: Vec<u8> = Vec::new();
    mime.push(97u8);
    mime.push(112u8);
    mime.push(112u8);
    mime.push(108u8);
    mime.push(105u8);
    mime.push(99u8);
    mime.push(97u8);
    mime.push(116u8);
    mime.push(105u8);
    mime.push(111u8);
    mime.push(110u8);
    mime.push(47u8);
    mime.push(97u8);
    mime.push(116u8);
    mime.push(111u8);
    mime.push(109u8);
    mime.push(43u8);
    mime.push(120u8);
    mime.push(109u8);
    mime.push(108u8);
    assert(mime@ =~= atom_mime());
    links.push(Link { href: url, rel, mime_type: Some(mime) });
    links
}

/// Set the feed-level metadata: the links become the self links for
/// `feed_url` and the icon becomes the fixed icon URL; the entries are
/// left alone.
pub fn apply_feed_metadata(feed: Feed, feed_url: Option<Vec<u8>>) -> (r: Feed)
    ensures
        r.entries == feed.entries,
        feed_url is None ==> r.links@.len() == 0,
        feed_url is Some ==> r.links@.len() == 1 && r.links@[0]@ == (LinkModel {
            href: feed_url->0@,
            rel: self_rel(),
            mime_type: Some(atom_mime()),
        }),
        r.icon is Some && r.icon->0@ == icon_url_bytes(),
{
    let links = self_links(feed_url);
    let mut icon: Vec<u8> = Vec::new();
    icon.push(104u8);
    icon.push(116u8);
    icon.push(116u8);
    icon.push(112u8);
    icon.push(115u8);
    icon.push(58u8);
    icon.push(47u8);
    icon.push(47u8);
    icon.push(100u8);
    icon.push(105u8);
    icon.push(108u8);
    icon.push(98u8);
    icon.push(101u8);
    icon.push(114u8);
    icon.push(116u8);
    icon.push(46u8);
    icon.push(99u8);
    icon.push(111u8);
    icon.push(109u8);
    icon.push(47u8);
    icon.push(102u8);
    icon.push(97u8);
    icon.push(118u8);
    icon.push(105u8);
    icon.push(99u8);
    icon.push(111u8);
    icon.push(110u8);
    icon.push(46u8);
    icon.push(105u8);
    icon.push(99u8);
    icon.push(111u8);
    assert(icon@ =~= icon_url_bytes());
    Feed { entries: feed.entries, links, icon: Some(icon) }
}

/// Swap the processed entries into the feed, leaving its metadata alone.
pub fn install_entries(feed: Feed, entries: Vec<Entry>) -> (r: Feed)
    ensures
        r.entries == entries,
        r.links == feed.links,
        r.icon == feed.icon,
{
    Feed { entries, links: feed.links, icon: feed.icon }
}

} // verus!
