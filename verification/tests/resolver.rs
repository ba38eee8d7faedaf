//! Download-URL resolution: direct synthesis for timestamped ids, page
//! scanning for bare ones.

use ao3dl::ao3::{compute_download_url, resolve_download_url, work_page_url};
use ao3dl::ao3::types::WorkId;

#[test]
fn a_timestamped_id_synthesizes_its_url_with_no_network() {
    let url = compute_download_url(&WorkId::WithTimestamp {
        id: 12345,
        timestamp: 999,
    })
    .expect("a timestamped id resolves locally");
    assert_eq!(
        url,
        b"https://archiveofourown.org/downloads/12345/x.epub?updated_at=999".to_vec()
    );
}

#[test]
fn a_bare_id_cannot_be_synthesized_locally() {
    assert_eq!(compute_download_url(&WorkId::Bare(12345)), None);
}

#[test]
fn the_page_anchor_resolves_to_the_absolute_download_url() {
    let body =
        b"<html><a href=\"/downloads/12345/abc.epub?updated_at=999\">EPUB</a></html>";
    let url = resolve_download_url(body, &12345).expect("the page holds the anchor");
    assert_eq!(
        url,
        b"https://archiveofourown.org/downloads/12345/abc.epub?updated_at=999".to_vec()
    );
}

#[test]
fn the_first_matching_anchor_wins() {
    let body = b"<a href=\"/downloads/7/a.epub?updated_at=1\">EPUB</a>\
                 <a href=\"/downloads/7/b.epub?updated_at=2\">EPUB</a>";
    let url = resolve_download_url(body, &7).unwrap();
    assert_eq!(
        url,
        b"https://archiveofourown.org/downloads/7/a.epub?updated_at=1".to_vec()
    );
}

#[test]
fn an_anchor_for_another_id_does_not_match() {
    let body = b"<a href=\"/downloads/99/abc.epub?updated_at=999\">EPUB</a>";
    assert_eq!(resolve_download_url(body, &9), None);
}

#[test]
fn an_anchor_without_the_epub_label_does_not_match() {
    let body = b"<a href=\"/downloads/9/abc.epub?updated_at=999\">MOBI</a>";
    assert_eq!(resolve_download_url(body, &9), None);
}

#[test]
fn an_href_without_timestamp_digits_does_not_match() {
    let body = b"<a href=\"/downloads/9/abc.epub?updated_at=\">EPUB</a>";
    assert_eq!(resolve_download_url(body, &9), None);
    let body = b"<a href=\"/downloads/9/abc.epub\">EPUB</a>";
    assert_eq!(resolve_download_url(body, &9), None);
}

#[test]
fn a_page_without_any_anchor_resolves_nothing() {
    assert_eq!(resolve_download_url(b"<html>restricted</html>", &9), None);
    assert_eq!(resolve_download_url(b"", &9), None);
}

#[test]
fn a_spurious_anchor_before_the_real_one_is_skipped() {
    let body = b"<a href=\"/works/9\">page</a> <a href=\"/downloads/9/x.epub?updated_at=4\">EPUB</a>";
    let url = resolve_download_url(body, &9).unwrap();
    assert_eq!(
        url,
        b"https://archiveofourown.org/downloads/9/x.epub?updated_at=4".to_vec()
    );
}

#[test]
fn the_work_page_url_is_the_origin_plus_works_and_the_id() {
    assert_eq!(
        work_page_url(&12345),
        b"https://archiveofourown.org/works/12345".to_vec()
    );
}
