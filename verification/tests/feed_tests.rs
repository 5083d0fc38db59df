use dilbert_feed::feed::{apply_feed_metadata, source_feed_url, Error, Feed};

#[test]
fn source_url_is_the_fixed_feed() {
    assert_eq!(source_feed_url(), b"https://dilbert.com/feed".to_vec());
}

#[test]
fn metadata_sets_self_link_and_icon() {
    let feed = Feed { entries: Vec::new(), links: Vec::new(), icon: None };
    let out = apply_feed_metadata(feed, Some(b"https://me.example/feed.xml".to_vec()));
    assert_eq!(out.links.len(), 1);
    assert_eq!(out.links[0].href, b"https://me.example/feed.xml".to_vec());
    assert_eq!(out.links[0].rel, b"self".to_vec());
    assert_eq!(
        out.links[0].mime_type,
        Some(b"application/atom+xml".to_vec())
    );
    assert_eq!(out.icon, Some(b"https://dilbert.com/favicon.ico".to_vec()));
}

#[test]
fn metadata_without_feed_url_sets_no_self_link() {
    let feed = Feed { entries: Vec::new(), links: Vec::new(), icon: None };
    let out = apply_feed_metadata(feed, None);
    assert!(out.links.is_empty());
    assert_eq!(out.icon, Some(b"https://dilbert.com/favicon.ico".to_vec()));
}

#[test]
fn error_messages_name_each_failure() {
    assert_eq!(Error::Decode.message(), "page body is not valid UTF-8");
    assert_eq!(Error::Fetch.message(), "fetch failed");
    assert_eq!(Error::FeedParse.message(), "malformed source feed");
    assert_eq!(Error::MissingImage.message(), "no comic image found on the page");
}
