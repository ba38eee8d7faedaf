//! Client-side logic for the remote archive service: work identifiers, the
//! retry/backoff policy, login helpers, and download-URL resolution.
//!
//! A work's download URL is either synthesized directly (when the work id
//! carries its last-update timestamp) or scanned out of the work's HTML page:
//! the first anchor whose quoted href is a download path for that id ending
//! in `.epub?updated_at=<digits>` and whose link text is the literal label
//! `EPUB`.

pub mod auth;
pub mod backoff;
pub mod types;

use vstd::prelude::*;

use crate::text::{
    all_digits, dec_digits, eq_at, find_from, matches_at, push_all, push_decimal, spec_find,
};
use crate::ao3::types::WorkId;

verus! {

/// The service's origin, which every absolute URL starts with: the bytes of
/// `https://archiveofourown.org`.
pub open spec fn origin() -> Seq<u8> {
    seq!['h' as u8, 't' as u8, 't' as u8, 'p' as u8, 's' as u8, ':' as u8, '/' as u8, '/' as u8, 'a' as u8, 'r' as u8, 'c' as u8, 'h' as u8, 'i' as u8, 'v' as u8, 'e' as u8, 'o' as u8, 'f' as u8, 'o' as u8, 'u' as u8, 'r' as u8, 'o' as u8, 'w' as u8, 'n' as u8, '.' as u8, 'o' as u8, 'r' as u8, 'g' as u8]
}

fn origin_bytes() -> (r: Vec<u8>)
    ensures
        r@ == origin(),
{
    let v: Vec<u8> = vec!['h' as u8, 't' as u8, 't' as u8, 'p' as u8, 's' as u8, ':' as u8, '/' as u8, '/' as u8, 'a' as u8, 'r' as u8, 'c' as u8, 'h' as u8, 'i' as u8, 'v' as u8, 'e' as u8, 'o' as u8, 'f' as u8, 'o' as u8, 'u' as u8, 'r' as u8, 'o' as u8, 'w' as u8, 'n' as u8, '.' as u8, 'o' as u8, 'r' as u8, 'g' as u8];
    proof {
        assert(v@ =~= origin());
    }
    v
}

/// The path segment that precedes a work's numeric id on its page URL: the
/// bytes of `/works/`.
pub open spec fn works_seg() -> Seq<u8> {
    seq!['/' as u8, 'w' as u8, 'o' as u8, 'r' as u8, 'k' as u8, 's' as u8, '/' as u8]
}

fn works_seg_bytes() -> (r: Vec<u8>)
    ensures
        r@ == works_seg(),
{
    let v: Vec<u8> = vec!['/' as u8, 'w' as u8, 'o' as u8, 'r' as u8, 'k' as u8, 's' as u8, '/' as u8];
    proof {
        assert(v@ =~= works_seg());
    }
    v
}

/// The path segment that starts every download path: the bytes of
/// `/downloads/`.
pub open spec fn downloads_seg() -> Seq<u8> {
    seq!['/' as u8, 'd' as u8, 'o' as u8, 'w' as u8, 'n' as u8, 'l' as u8, 'o' as u8, 'a' as u8, 'd' as u8, 's' as u8, '/' as u8]
}

fn downloads_seg_bytes() -> (r: Vec<u8>)
    ensures
        r@ == downloads_seg(),
{
    let v: Vec<u8> = vec!['/' as u8, 'd' as u8, 'o' as u8, 'w' as u8, 'n' as u8, 'l' as u8, 'o' as u8, 'a' as u8, 'd' as u8, 's' as u8, '/' as u8];
    proof {
        assert(v@ =~= downloads_seg());
    }
    v
}

/// The synthesized file segment and cache-busting query of a direct download
/// path: the bytes of `/x.epub?updated_at=`.
pub open spec fn x_epub_query() -> Seq<u8> {
    seq!['/' as u8, 'x' as u8, '.' as u8, 'e' as u8, 'p' as u8, 'u' as u8, 'b' as u8, '?' as u8, 'u' as u8, 'p' as u8, 'd' as u8, 'a' as u8, 't' as u8, 'e' as u8, 'd' as u8, '_' as u8, 'a' as u8, 't' as u8, '=' as u8]
}

fn x_epub_query_bytes() -> (r: Vec<u8>)
    ensures
        r@ == x_epub_query(),
{
    let v: Vec<u8> = vec!['/' as u8, 'x' as u8, '.' as u8, 'e' as u8, 'p' as u8, 'u' as u8, 'b' as u8, '?' as u8, 'u' as u8, 'p' as u8, 'd' as u8, 'a' as u8, 't' as u8, 'e' as u8, 'd' as u8, '_' as u8, 'a' as u8, 't' as u8, '=' as u8];
    proof {
        assert(v@ =~= x_epub_query());
    }
    v
}

/// The opening of the anchor element whose href is the download path: the
/// bytes of `<a href="`.
pub open spec fn anchor_open() -> Seq<u8> {
    seq!['<' as u8, 'a' as u8, ' ' as u8, 'h' as u8, 'r' as u8, 'e' as u8, 'f' as u8, '=' as u8, '"' as u8]
}

fn anchor_open_bytes() -> (r: Vec<u8>)
    ensures
        r@ == anchor_open(),
{
    let v: Vec<u8> = vec!['<' as u8, 'a' as u8, ' ' as u8, 'h' as u8, 'r' as u8, 'e' as u8, 'f' as u8, '=' as u8, '"' as u8];
    proof {
        assert(v@ =~= anchor_open());
    }
    v
}

/// The close quote and the literal link label that identify the download
/// anchor: the bytes of `">EPUB</a>`.
pub open spec fn anchor_close() -> Seq<u8> {
    seq!['"' as u8, '>' as u8, 'E' as u8, 'P' as u8, 'U' as u8, 'B' as u8, '<' as u8, '/' as u8, 'a' as u8, '>' as u8]
}

fn anchor_close_bytes() -> (r: Vec<u8>)
    ensures
        r@ == anchor_close(),
{
    let v: Vec<u8> = vec!['"' as u8, '>' as u8, 'E' as u8, 'P' as u8, 'U' as u8, 'B' as u8, '<' as u8, '/' as u8, 'a' as u8, '>' as u8];
    proof {
        assert(v@ =~= anchor_close());
    }
    v
}

/// The file suffix and query that a scanned download path must carry: the
/// bytes of `.epub?updated_at=`.
pub open spec fn epub_query() -> Seq<u8> {
    seq!['.' as u8, 'e' as u8, 'p' as u8, 'u' as u8, 'b' as u8, '?' as u8, 'u' as u8, 'p' as u8, 'd' as u8, 'a' as u8, 't' as u8, 'e' as u8, 'd' as u8, '_' as u8, 'a' as u8, 't' as u8, '=' as u8]
}

fn epub_query_bytes() -> (r: Vec<u8>)
    ensures
        r@ == epub_query(),
{
    let v: Vec<u8> = vec!['.' as u8, 'e' as u8, 'p' as u8, 'u' as u8, 'b' as u8, '?' as u8, 'u' as u8, 'p' as u8, 'd' as u8, 'a' as u8, 't' as u8, 'e' as u8, 'd' as u8, '_' as u8, 'a' as u8, 't' as u8, '=' as u8];
    proof {
        assert(v@ =~= epub_query());
    }
    v
}

/// A single double quote.
pub open spec fn quote() -> Seq<u8> {
    seq!['"' as u8]
}

fn quote_bytes() -> (r: Vec<u8>)
    ensures
        r@ == quote(),
{
    let v: Vec<u8> = vec!['"' as u8];
    proof {
        assert(v@ =~= quote());
    }
    v
}

/// The absolute URL prefix a work URL in an input line must carry:
/// `https://archiveofourown.org/works/`.
pub open spec fn works_url_prefix() -> Seq<u8> {
    origin() + works_seg()
}

pub(crate) fn works_url_prefix_bytes() -> (r: Vec<u8>)
    ensures
        r@ == works_url_prefix(),
{
    let mut v = origin_bytes();
    let seg = works_seg_bytes();
    push_all(&mut v, seg.as_slice());
    v
}

/// The canonical page URL of a work: origin, `/works/`, and the id.
pub open spec fn spec_work_page_url(id: nat) -> Seq<u8> {
    origin() + works_seg() + dec_digits(id)
}

/// Builds the canonical page URL of a work.
pub fn work_page_url(id: &usize) -> (r: Vec<u8>)
    ensures
        r@ == spec_work_page_url(*id as nat),
{
    let mut out = origin_bytes();
    let seg = works_seg_bytes();
    push_all(&mut out, seg.as_slice());
    push_decimal(&mut out, *id as u64);
    out
}

/// The download URL synthesized for a work whose last-update timestamp is
/// already known: origin, `/downloads/`, the id, `/x.epub?updated_at=`, and
/// the timestamp.
pub open spec fn spec_direct_download_url(id: nat, ts: nat) -> Seq<u8> {
    origin() + downloads_seg() + dec_digits(id) + x_epub_query() + dec_digits(ts)
}

/// Synthesizes the download URL for a timestamped work id without any
/// network traffic; a bare id cannot be resolved locally and yields `None`,
/// telling the caller to fetch and scan the work's page instead.
pub fn compute_download_url(work: &WorkId) -> (r: Option<Vec<u8>>)
    ensures
        match *work {
            WorkId::WithTimestamp { id, timestamp } => r matches Some(u) && u@
                == spec_direct_download_url(id as nat, timestamp as nat),
            WorkId::Bare(_) => r is None,
        },
{
    match work {
        WorkId::Bare(_) => None,
        WorkId::WithTimestamp { id, timestamp } => {
            let mut out = origin_bytes();
            let seg = downloads_seg_bytes();
            push_all(&mut out, seg.as_slice());
            push_decimal(&mut out, *id as u64);
            let q = x_epub_query_bytes();
            push_all(&mut out, q.as_slice());
            push_decimal(&mut out, *timestamp as u64);
            Some(out)
        },
    }
}

/// The prefix every download path for this work must start with:
/// `/downloads/<id>/`.
pub open spec fn download_path_prefix(id: nat) -> Seq<u8> {
    downloads_seg() + dec_digits(id) + seq!['/' as u8]
}

/// The quoted href is a download path for this work: it starts with
/// `/downloads/<id>/` and ends in `.epub?updated_at=` followed by at least
/// one digit.
pub open spec fn spec_href_ok(href: Seq<u8>, id: nat) -> bool {
    let pre = download_path_prefix(id);
    &&& href.len() > pre.len()
    &&& href.subrange(0, pre.len() as int) == pre
    &&& exists|t: int|
        #![trigger matches_at(href, epub_query(), t)]
        matches_at(href, epub_query(), t) && t + epub_query().len() < href.len() && all_digits(
            href.subrange(t + epub_query().len(), href.len() as int),
        )
}

/// The download href scanned out of a work's page, looking from `from`
/// onwards: at the first occurrence of `<a href="` whose href (the bytes up
/// to the next quote) is a download path for this work and is followed
/// immediately by the label `">EPUB</a>`, that href; absent such an anchor,
/// nothing.
pub open spec fn spec_resolve_href(body: Seq<u8>, id: nat, from: int) -> Option<Seq<u8>>
    decreases body.len() - from,
    when 0 <= from <= body.len()
{
    if from + anchor_open().len() > body.len() {
        None
    } else if matches_at(body, anchor_open(), from) {
        let hs = from + anchor_open().len();
        match spec_find(body, quote(), hs) {
            None => None,
            Some(q) => {
                let href = body.subrange(hs, q);
                if spec_href_ok(href, id) && matches_at(body, anchor_close(), q) {
                    Some(href)
                } else {
                    spec_resolve_href(body, id, from + 1)
                }
            },
        }
    } else {
        spec_resolve_href(body, id, from + 1)
    }
}

/// Checks whether a quoted href is a download path for this work.
fn href_ok(href: &[u8], prefix: &[u8], Ghost(id): Ghost<nat>) -> (r: bool)
    requires
        prefix@ == download_path_prefix(id),
    ensures
        r == spec_href_ok(href@, id),
{
    let pat = epub_query_bytes();
    if href.len() <= prefix.len() {
        return false;
    }
    if !eq_at(href, prefix, 0) {
        return false;
    }
    let hlen = href.len();
    if hlen < 17 {
        proof {
            assert(epub_query().len() == 17);
            assert forall|t: int| !(matches_at(href@, epub_query(), t) && t + epub_query().len()
                < href@.len() && all_digits(
                href@.subrange(t + epub_query().len(), href@.len() as int),
            )) by {}
        }
        return false;
    }
    let mut t: usize = 0;
    while hlen - t > 17
        invariant
            hlen == href@.len(),
            17 <= hlen,
            pat@ == epub_query(),
            t <= hlen,
            href@.len() > download_path_prefix(id).len(),
            href@.subrange(0, download_path_prefix(id).len() as int) == download_path_prefix(id),
            forall|u: int|
                0 <= u < t ==> !(matches_at(href@, epub_query(), u) && u + epub_query().len()
                    < href@.len() && all_digits(
                    href@.subrange(u + epub_query().len(), href@.len() as int),
                )),
        decreases hlen - t,
    {
        if eq_at(href, pat.as_slice(), t) {
            if crate::text::digits_in_range(href, t + 17, hlen) {
                proof {
                    assert(matches_at(href@, epub_query(), t as int) && t + epub_query().len()
                        < href@.len() && all_digits(
                        href@.subrange(t + epub_query().len(), href@.len() as int),
                    ));
                }
                return true;
            }
        }
        t = t + 1;
    }
    proof {
        assert forall|u: int| !(matches_at(href@, epub_query(), u) && u + epub_query().len()
            < href@.len() && all_digits(
            href@.subrange(u + epub_query().len(), href@.len() as int),
        )) by {
            if 0 <= u < t as int {
            } else if u + epub_query().len() >= href@.len() {
            }
        }
    }
    false
}

/// Scans a work's HTML page for the download anchor and returns the absolute
/// download URL: the origin prefixed to the first matching quoted href. No
/// match means the download URL cannot be determined for this work (it is
/// commonly hidden or restricted), and the caller must treat that as fatal
/// for the work.
pub fn resolve_download_url(body: &[u8], id: &usize) -> (r: Option<Vec<u8>>)
    ensures
        match r {
            Some(u) => spec_resolve_href(body@, *id as nat, 0) matches Some(h) && u@ == origin()
                + h,
            None => spec_resolve_href(body@, *id as nat, 0) is None,
        },
{
    let open_pat = anchor_open_bytes();
    let close_pat = anchor_close_bytes();
    let q_pat = quote_bytes();
    let mut prefix = downloads_seg_bytes();
    push_decimal(&mut prefix, *id as u64);
    prefix.push('/' as u8);
    proof {
        assert(prefix@ =~= download_path_prefix(*id as nat));
    }
    let blen = body.len();
    let mut from: usize = 0;
    while blen - from >= 9
        invariant
            blen == body@.len(),
            from <= blen,
            open_pat@ == anchor_open(),
            close_pat@ == anchor_close(),
            q_pat@ == quote(),
            prefix@ == download_path_prefix(*id as nat),
            anchor_open().len() == 9,
            spec_resolve_href(body@, *id as nat, 0) == spec_resolve_href(
                body@,
                *id as nat,
                from as int,
            ),
        decreases blen - from,
    {
        if eq_at(body, open_pat.as_slice(), from) {
            let hs = from + 9;
            match find_from(body, q_pat.as_slice(), hs) {
                None => {
                    return None;
                },
                Some(qp) => {
                    proof {
                        crate::text::lemma_spec_find_ok(body@, quote(), hs as int);
                    }
                    let href = &body[hs..qp];
                    let close_ok = if blen - qp >= 10 {
                        eq_at(body, close_pat.as_slice(), qp)
                    } else {
                        false
                    };
                    if close_ok && href_ok(href, prefix.as_slice(), Ghost(*id as nat)) {
                        let mut out = origin_bytes();
                        push_all(&mut out, href);
                        return Some(out);
                    }
                },
            }
        }
        from = from + 1;
    }
    None
}

} // verus!
