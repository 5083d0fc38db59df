use dilbert_feed::bytes::{escape_attr, normalize_image_url, trim_bytes};
use dilbert_feed::comic::{build_data_url, embed_image_bytes, locate_comic};
use dilbert_feed::feed::{Entry, Error, Policy};
use dilbert_feed::pipeline::{
    begin_entry, collect_entries, on_image, on_page, restore_order, Outcome, Step,
};

fn entry(link: Option<&str>, title: &str, id: &str) -> Entry {
    Entry {
        link: link.map(|l| l.as_bytes().to_vec()),
        title: title.as_bytes().to_vec(),
        id: id.as_bytes().to_vec(),
        content: None,
    }
}

const PAGE: &str = "<html><body><span class=\"comic-title-name\"> The Title </span><img class=\"img-comic\" src=\"//example.com/x.png\"></body></html>";

const PAGE_BLANK_TITLE: &str = "<html><body><span class=\"comic-title-name\">  </span><img class=\"img-comic\" src=\"https://example.com/y.png\"></body></html>";

const PAGE_NO_IMAGE: &str = "<html><body><p>nothing here</p></body></html>";

#[test]
fn normalize_protocol_relative_url() {
    let url = b"//example.com/x.png".to_vec();
    assert_eq!(
        normalize_image_url(url),
        b"https://example.com/x.png".to_vec()
    );
}

#[test]
fn normalize_leaves_absolute_url_alone() {
    let url = b"https://example.com/x.png".to_vec();
    assert_eq!(normalize_image_url(url.clone()), url);
}

#[test]
fn trim_removes_whitespace_on_both_ends() {
    assert_eq!(trim_bytes(&b"  The Title \t\n".to_vec()), b"The Title".to_vec());
    assert_eq!(trim_bytes(&b"   ".to_vec()), Vec::<u8>::new());
    assert_eq!(trim_bytes(&b"x".to_vec()), b"x".to_vec());
}

#[test]
fn escape_rewrites_attribute_unsafe_bytes() {
    let raw = b"a&b<c>d\"e'f".to_vec();
    assert_eq!(
        escape_attr(&raw),
        b"a&amp;b&lt;c&gt;d&quot;e&#39;f".to_vec()
    );
}

#[test]
fn locate_finds_image_and_title() {
    let info = locate_comic(&PAGE.as_bytes().to_vec()).unwrap();
    assert_eq!(info.image_url, Some(b"https://example.com/x.png".to_vec()));
    assert_eq!(info.title, Some(b"The Title".to_vec()));
}

#[test]
fn locate_blank_title_counts_as_absent() {
    let info = locate_comic(&PAGE_BLANK_TITLE.as_bytes().to_vec()).unwrap();
    assert_eq!(info.image_url, Some(b"https://example.com/y.png".to_vec()));
    assert_eq!(info.title, None);
}

#[test]
fn locate_rejects_invalid_utf8() {
    let bad = vec![0xffu8, 0xfe, 0x00, 0x80];
    assert_eq!(locate_comic(&bad).unwrap_err(), Error::Decode);
}

#[test]
fn entry_without_link_passes_through() {
    let e = entry(None, "keep me", "old-id");
    match begin_entry(e, false) {
        Step::Finished(out) => {
            assert_eq!(out.title, b"keep me".to_vec());
            assert_eq!(out.id, b"old-id".to_vec());
            assert!(out.content.is_none());
        }
        _ => panic!("entry without a link must pass through"),
    }
}

#[test]
fn processed_entry_gets_content_id_and_title() {
    let e = entry(Some("https://comic.example/p/1"), "old title", "old-id");
    let w = match begin_entry(e, false) {
        Step::NeedPage(w) => w,
        _ => panic!("a linked entry must wait for its page"),
    };
    assert_eq!(w.link, b"https://comic.example/p/1".to_vec());
    match on_page(w, Some(PAGE.as_bytes().to_vec())) {
        Step::Finished(out) => {
            assert_eq!(out.id, b"https://comic.example/p/1".to_vec());
            assert_eq!(out.title, b"The Title".to_vec());
            let content = out.content.expect("content must be set");
            assert_eq!(content.content_type, b"html".to_vec());
            assert_eq!(
                content.value,
                b"<img src=\"https://example.com/x.png\">".to_vec()
            );
        }
        _ => panic!("processing must finish without embedding"),
    }
}

#[test]
fn blank_located_title_keeps_original_title() {
    let e = entry(Some("https://comic.example/p/2"), "original", "old-id");
    let w = match begin_entry(e, false) {
        Step::NeedPage(w) => w,
        _ => panic!("a linked entry must wait for its page"),
    };
    match on_page(w, Some(PAGE_BLANK_TITLE.as_bytes().to_vec())) {
        Step::Finished(out) => {
            assert_eq!(out.title, b"original".to_vec());
        }
        _ => panic!("processing must finish"),
    }
}

#[test]
fn page_without_image_fails_entry() {
    let e = entry(Some("https://comic.example/p/3"), "t", "i");
    let w = match begin_entry(e, false) {
        Step::NeedPage(w) => w,
        _ => panic!("a linked entry must wait for its page"),
    };
    match on_page(w, Some(PAGE_NO_IMAGE.as_bytes().to_vec())) {
        Step::Failed(err) => assert_eq!(err, Error::MissingImage),
        _ => panic!("a page without a comic image must fail the entry"),
    }
}

#[test]
fn failed_page_fetch_fails_entry() {
    let e = entry(Some("https://comic.example/p/4"), "t", "i");
    let w = match begin_entry(e, false) {
        Step::NeedPage(w) => w,
        _ => panic!("a linked entry must wait for its page"),
    };
    match on_page(w, None) {
        Step::Failed(err) => assert_eq!(err, Error::Fetch),
        _ => panic!("a failed fetch must fail the entry"),
    }
}

#[test]
fn embedding_waits_for_image_and_inlines_it() {
    let e = entry(Some("https://comic.example/p/5"), "t", "i");
    let w = match begin_entry(e, true) {
        Step::NeedPage(w) => w,
        _ => panic!("a linked entry must wait for its page"),
    };
    let iw = match on_page(w, Some(PAGE.as_bytes().to_vec())) {
        Step::NeedImage(iw) => iw,
        _ => panic!("embedding must wait for the image bytes"),
    };
    assert_eq!(iw.image_url, b"https://example.com/x.png".to_vec());
    // A GIF header, so the MIME sniffer has something to recognize.
    let gif: Vec<u8> = b"GIF89a\x01\x00\x01\x00\x00\x00\x00;".to_vec();
    let expected_mime = tree_magic::from_u8(&gif);
    let expected = format!("data:{};base64,{}", expected_mime, base64::encode(&gif));
    match on_image(iw, Some(gif)) {
        Step::Finished(out) => {
            let content = out.content.expect("content must be set");
            let expected_value = format!("<img src=\"{}\">", expected);
            assert_eq!(content.value, expected_value.into_bytes());
        }
        _ => panic!("embedding must finish once the image arrived"),
    }
}

#[test]
fn failed_image_fetch_fails_entry() {
    // An image fetch answered with HTTP 404 reaches the library as None.
    let e = entry(Some("https://comic.example/p/6"), "t", "i");
    let w = match begin_entry(e, true) {
        Step::NeedPage(w) => w,
        _ => panic!("a linked entry must wait for its page"),
    };
    let iw = match on_page(w, Some(PAGE.as_bytes().to_vec())) {
        Step::NeedImage(iw) => iw,
        _ => panic!("embedding must wait for the image bytes"),
    };
    match on_image(iw, None) {
        Step::Failed(err) => assert_eq!(err, Error::Fetch),
        _ => panic!("a failed image fetch must fail the entry"),
    }
}

#[test]
fn data_url_holds_exact_base64_of_the_bytes() {
    let bytes = b"\x89PNG\r\n\x1a\n-some-bytes-".to_vec();
    let url = build_data_url(&b"image/png".to_vec(), &bytes);
    let expected = format!("data:image/png;base64,{}", base64::encode(&bytes));
    assert_eq!(url, expected.into_bytes());
    // Round trip: decoding the payload yields the original bytes.
    let text = String::from_utf8(url).unwrap();
    let payload = text.split(";base64,").nth(1).unwrap();
    assert_eq!(base64::decode(payload).unwrap(), bytes);
}

#[test]
fn embed_image_bytes_sniffs_the_mime_type() {
    let gif: Vec<u8> = b"GIF89a\x01\x00\x01\x00\x00\x00\x00;".to_vec();
    let url = embed_image_bytes(&gif);
    let expected_mime = tree_magic::from_u8(&gif);
    let expected = format!("data:{};base64,{}", expected_mime, base64::encode(&gif));
    assert_eq!(url, expected.into_bytes());
}

#[test]
fn restore_order_ignores_completion_order() {
    // The slowest entry finished last but was first in input order.
    let tagged = vec![
        (2usize, Outcome::Kept(entry(None, "third", "3"))),
        (1usize, Outcome::Kept(entry(None, "second", "2"))),
        (0usize, Outcome::Kept(entry(None, "first", "1"))),
    ];
    let ordered = restore_order(3, tagged);
    let entries = collect_entries(ordered, Policy::Strict).unwrap();
    assert_eq!(entries.len(), 3);
    assert_eq!(entries[0].title, b"first".to_vec());
    assert_eq!(entries[1].title, b"second".to_vec());
    assert_eq!(entries[2].title, b"third".to_vec());
}

#[test]
fn strict_policy_fails_whole_run_on_missing_image() {
    // Three entries; the second one's page had no comic-image element.
    let ordered = vec![
        Outcome::Kept(entry(None, "one", "1")),
        Outcome::Failed(Error::MissingImage),
        Outcome::Kept(entry(None, "three", "3")),
    ];
    assert_eq!(
        collect_entries(ordered, Policy::Strict).unwrap_err(),
        Error::MissingImage
    );
}

#[test]
fn lenient_policy_drops_failed_entry_and_keeps_order() {
    let ordered = vec![
        Outcome::Kept(entry(None, "one", "1")),
        Outcome::Failed(Error::MissingImage),
        Outcome::Kept(entry(None, "three", "3")),
    ];
    let entries = collect_entries(ordered, Policy::Lenient).unwrap();
    assert_eq!(entries.len(), 2);
    assert_eq!(entries[0].title, b"one".to_vec());
    assert_eq!(entries[1].title, b"three".to_vec());
}

#[test]
fn strict_policy_reports_first_error_in_entry_order() {
    let ordered = vec![
        Outcome::Failed(Error::Decode),
        Outcome::Failed(Error::Fetch),
    ];
    assert_eq!(
        collect_entries(ordered, Policy::Strict).unwrap_err(),
        Error::Decode
    );
}

#[test]
fn pipeline_is_deterministic_for_unchanged_inputs() {
    let page = PAGE.as_bytes().to_vec();
    let run = |_: ()| {
        let e = entry(Some("https://comic.example/p/1"), "old", "id");
        let w = match begin_entry(e, false) {
            Step::NeedPage(w) => w,
            _ => panic!("a linked entry must wait for its page"),
        };
        match on_page(w, Some(page.clone())) {
            Step::Finished(out) => out,
            _ => panic!("processing must finish"),
        }
    };
    let first = run(());
    let second = run(());
    assert_eq!(first.title, second.title);
    assert_eq!(first.id, second.id);
    assert_eq!(
        first.content.unwrap().value,
        second.content.unwrap().value
    );
}
