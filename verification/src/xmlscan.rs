//! A small XML scanner for the manifest's title element.
//!
//! The manifest bytes are walked as a sequence of XML events — text,
//! comments, CDATA sections, processing instructions, a doctype, end tags,
//! and start or empty-element tags with quoted attribute values — until the
//! first start tag whose **local name** (the part of the tag name after the
//! last colon, under any or no namespace prefix) is `title`. The title is
//! that element's text, up to the first end tag whose local name is again
//! `title`. An empty `<... title .../>` element is not a start tag and is
//! passed over.
//!
//! The scanner decides well-formedness as far as it must read: a stray `<`
//! that opens no tag, an unterminated comment, CDATA section, tag or
//! attribute value, an attribute without a quoted value, or a title element
//! without its end tag are all malformed, which the caller treats as a
//! recoverable condition. What the scanner does not check it does not
//! promise: element nesting is not tracked, and bytes outside tags are not
//! otherwise inspected.

use vstd::prelude::*;

use crate::extractor::ArchiveError;
use crate::text::{eq_at, find_from, lemma_spec_find_ok, matches_at, push_all, spec_find};

verus! {

/// The opening of a comment: the bytes of `<!--`.
pub open spec fn comment_open() -> Seq<u8> {
    seq!['<' as u8, '!' as u8, '-' as u8, '-' as u8]
}

fn comment_open_bytes() -> (r: Vec<u8>)
    ensures
        r@ == comment_open(),
{
    let v: Vec<u8> = vec!['<' as u8, '!' as u8, '-' as u8, '-' as u8];
    proof {
        assert(v@ =~= comment_open());
    }
    v
}

/// The close of a comment: the bytes of `-->`.
pub open spec fn comment_close() -> Seq<u8> {
    seq!['-' as u8, '-' as u8, '>' as u8]
}

fn comment_close_bytes() -> (r: Vec<u8>)
    ensures
        r@ == comment_close(),
{
    let v: Vec<u8> = vec!['-' as u8, '-' as u8, '>' as u8];
    proof {
        assert(v@ =~= comment_close());
    }
    v
}

/// The opening of a CDATA section: the bytes of `<![CDATA[`.
pub open spec fn cdata_open() -> Seq<u8> {
    seq!['<' as u8, '!' as u8, '[' as u8, 'C' as u8, 'D' as u8, 'A' as u8, 'T' as u8, 'A' as u8, '[' as u8]
}

fn cdata_open_bytes() -> (r: Vec<u8>)
    ensures
        r@ == cdata_open(),
{
    let v: Vec<u8> = vec!['<' as u8, '!' as u8, '[' as u8, 'C' as u8, 'D' as u8, 'A' as u8, 'T' as u8, 'A' as u8, '[' as u8];
    proof {
        assert(v@ =~= cdata_open());
    }
    v
}

/// The close of a CDATA section: the bytes of `]]>`.
pub open spec fn cdata_close() -> Seq<u8> {
    seq![']' as u8, ']' as u8, '>' as u8]
}

fn cdata_close_bytes() -> (r: Vec<u8>)
    ensures
        r@ == cdata_close(),
{
    let v: Vec<u8> = vec![']' as u8, ']' as u8, '>' as u8];
    proof {
        assert(v@ =~= cdata_close());
    }
    v
}

/// The close of a processing instruction: the bytes of `?>`.
pub open spec fn pi_close() -> Seq<u8> {
    seq!['?' as u8, '>' as u8]
}

fn pi_close_bytes() -> (r: Vec<u8>)
    ensures
        r@ == pi_close(),
{
    let v: Vec<u8> = vec!['?' as u8, '>' as u8];
    proof {
        assert(v@ =~= pi_close());
    }
    v
}

/// The opening of an end tag: the bytes of `</`.
pub open spec fn end_open() -> Seq<u8> {
    seq!['<' as u8, '/' as u8]
}

fn end_open_bytes() -> (r: Vec<u8>)
    ensures
        r@ == end_open(),
{
    let v: Vec<u8> = vec!['<' as u8, '/' as u8];
    proof {
        assert(v@ =~= end_open());
    }
    v
}

/// A single `>`.
pub open spec fn gt() -> Seq<u8> {
    seq!['>' as u8]
}

fn gt_bytes() -> (r: Vec<u8>)
    ensures
        r@ == gt(),
{
    let v: Vec<u8> = vec!['>' as u8];
    proof {
        assert(v@ =~= gt());
    }
    v
}

/// The local name of the title element: the bytes of `title`.
pub open spec fn title_name() -> Seq<u8> {
    seq!['t' as u8, 'i' as u8, 't' as u8, 'l' as u8, 'e' as u8]
}

fn title_name_bytes() -> (r: Vec<u8>)
    ensures
        r@ == title_name(),
{
    let v: Vec<u8> = vec!['t' as u8, 'i' as u8, 't' as u8, 'l' as u8, 'e' as u8];
    proof {
        assert(v@ =~= title_name());
    }
    v
}

/// XML insignificant whitespace.
pub open spec fn is_xml_ws(b: u8) -> bool {
    b == 32 || b == 9 || b == 10 || b == 13
}

/// A byte that can stand in a tag or attribute name: anything but
/// whitespace and the tag delimiters.
pub open spec fn is_name_byte(b: u8) -> bool {
    !(is_xml_ws(b) || b == '<' as u8 || b == '>' as u8 || b == '/' as u8 || b == '=' as u8 || b
        == '"' as u8 || b == '\'' as u8)
}

fn is_name_byte_exec(b: u8) -> (r: bool)
    ensures
        r == is_name_byte(b),
{
    !(b == 32 || b == 9 || b == 10 || b == 13 || b == '<' as u8 || b == '>' as u8 || b
        == '/' as u8 || b == '=' as u8 || b == '"' as u8 || b == '\'' as u8)
}

/// End of the run of name bytes that starts at `p`.
pub open spec fn spec_name_run_end(s: Seq<u8>, p: int) -> int
    decreases s.len() - p,
    when 0 <= p <= s.len()
{
    if p < s.len() && is_name_byte(s[p]) {
        spec_name_run_end(s, p + 1)
    } else {
        p
    }
}

/// The run of name bytes ends within the string.
pub proof fn lemma_name_run_end_bounds(s: Seq<u8>, p: int)
    requires
        0 <= p <= s.len(),
    ensures
        p <= spec_name_run_end(s, p) <= s.len(),
    decreases s.len() - p,
{
    if p < s.len() && is_name_byte(s[p]) {
        lemma_name_run_end_bounds(s, p + 1);
    }
}

/// Walks to the end of a run of name bytes.
fn name_run_end(m: &[u8], p: usize) -> (ne: usize)
    requires
        p <= m@.len(),
    ensures
        ne as int == spec_name_run_end(m@, p as int),
        p <= ne <= m@.len(),
{
    let mlen = m.len();
    let mut q: usize = p;
    while q < mlen
        invariant
            mlen == m@.len(),
            p <= q <= mlen,
            spec_name_run_end(m@, p as int) == spec_name_run_end(m@, q as int),
        decreases mlen - q,
    {
        if !is_name_byte_exec(m[q]) {
            proof {
                assert(spec_name_run_end(m@, q as int) == q);
            }
            return q;
        }
        q = q + 1;
    }
    proof {
        assert(spec_name_run_end(m@, q as int) == q);
    }
    q
}

/// The part of a tag name after its last colon: the local name under any
/// namespace prefix, or the whole name when it has no prefix.
pub open spec fn local_name(n: Seq<u8>) -> Seq<u8>
    decreases n.len(),
{
    if n.len() == 0 {
        n
    } else if n.last() == ':' as u8 {
        Seq::empty()
    } else {
        local_name(n.drop_last()).push(n.last())
    }
}

/// The local name is the suffix after the last colon.
proof fn lemma_local_name_suffix(n: Seq<u8>, k: int)
    requires
        0 <= k <= n.len(),
        forall|i: int| k <= i < n.len() ==> n[i] != ':' as u8,
        k > 0 ==> n[k - 1] == ':' as u8,
    ensures
        local_name(n) == n.subrange(k, n.len() as int),
    decreases n.len(),
{
    if n.len() == 0 {
        assert(local_name(n) =~= n.subrange(0, 0));
    } else if k == n.len() {
        assert(n.last() == ':' as u8);
        assert(local_name(n) =~= n.subrange(k, n.len() as int));
    } else {
        assert(n.last() != ':' as u8);
        lemma_local_name_suffix(n.drop_last(), k);
        assert(n.drop_last().subrange(k, n.drop_last().len() as int).push(n.last()) =~= n.subrange(
            k,
            n.len() as int,
        ));
    }
}

/// Whether the name at `[ns, ne)` has local name `title`.
fn local_is_title(m: &[u8], ns: usize, ne: usize) -> (r: bool)
    requires
        ns <= ne <= m@.len(),
    ensures
        r == (local_name(m@.subrange(ns as int, ne as int)) == title_name()),
{
    let mut k: usize = ns;
    let mut i: usize = ns;
    while i < ne
        invariant
            ns <= k <= i <= ne <= m@.len(),
            forall|j: int| k <= j < i ==> m@[j] != ':' as u8,
            k > ns ==> m@[k - 1] == ':' as u8,
        decreases ne - i,
    {
        if m[i] == 58 {
            k = i + 1;
        }
        i = i + 1;
    }
    proof {
        let n = m@.subrange(ns as int, ne as int);
        assert forall|j: int| k - ns <= j < n.len() implies n[j] != ':' as u8 by {
            assert(n[j] == m@[ns + j]);
        }
        if k > ns {
            assert(n[k - ns - 1] == m@[k - 1]);
        }
        lemma_local_name_suffix(n, k - ns);
        assert(n.subrange(k - ns, n.len() as int) =~= m@.subrange(k as int, ne as int));
    }
    if ne - k != 5 {
        proof {
            assert(title_name().len() == 5);
        }
        return false;
    }
    let pat = title_name_bytes();
    let r = eq_at(m, pat.as_slice(), k);
    proof {
        if r {
            assert(m@.subrange(k as int, k + 5) =~= m@.subrange(k as int, ne as int));
        } else {
            assert(m@.subrange(k as int, k + 5) =~= m@.subrange(k as int, ne as int));
        }
    }
    r
}

/// What scanning for the title start tag comes to: the position where the
/// element's text begins, no title element at all, or malformed markup.
pub enum StartScan {
    FoundAt { cs: int },
    Absent,
    Malformed,
}

/// Scans events from `p` for the first start tag with local name `title`.
/// Text is passed over; comments, CDATA sections, processing instructions,
/// doctype declarations and end tags are skipped over their closing
/// delimiters; a start or empty-element tag has its name read and its
/// attributes walked with [`spec_tag_rest`]. A stray `<` that opens none of
/// these, or any unterminated construct, is malformed.
pub open spec fn spec_scan_events(m: Seq<u8>, p: int) -> StartScan
    decreases m.len() - p,
    when 0 <= p <= m.len()
    via spec_scan_events_decreases
{
    if p >= m.len() {
        StartScan::Absent
    } else if m[p] != '<' as u8 {
        spec_scan_events(m, p + 1)
    } else if matches_at(m, comment_open(), p) {
        match spec_find(m, comment_close(), p + 4) {
            None => StartScan::Malformed,
            Some(k) => spec_scan_events(m, k + 3),
        }
    } else if matches_at(m, cdata_open(), p) {
        match spec_find(m, cdata_close(), p + 9) {
            None => StartScan::Malformed,
            Some(k) => spec_scan_events(m, k + 3),
        }
    } else if p + 1 < m.len() && m[p + 1] == '!' as u8 {
        match spec_find(m, gt(), p + 2) {
            None => StartScan::Malformed,
            Some(k) => spec_scan_events(m, k + 1),
        }
    } else if p + 1 < m.len() && m[p + 1] == '?' as u8 {
        match spec_find(m, pi_close(), p + 2) {
            None => StartScan::Malformed,
            Some(k) => spec_scan_events(m, k + 2),
        }
    } else if p + 1 < m.len() && m[p + 1] == '/' as u8 {
        match spec_find(m, gt(), p + 2) {
            None => StartScan::Malformed,
            Some(k) => spec_scan_events(m, k + 1),
        }
    } else if p + 1 < m.len() && is_name_byte(m[p + 1]) {
        let ne = spec_name_run_end(m, p + 1);
        spec_tag_rest(m, ne, local_name(m.subrange(p + 1, ne)) == title_name())
    } else {
        StartScan::Malformed
    }
}

#[via_fn]
proof fn spec_scan_events_decreases(m: Seq<u8>, p: int) {
    if 0 <= p <= m.len() && p < m.len() && m[p] == '<' as u8 {
        if matches_at(m, comment_open(), p) {
            lemma_spec_find_ok(m, comment_close(), p + 4);
        } else if matches_at(m, cdata_open(), p) {
            lemma_spec_find_ok(m, cdata_close(), p + 9);
        } else if p + 1 < m.len() && (m[p + 1] == '!' as u8 || m[p + 1] == '?' as u8 || m[p + 1]
            == '/' as u8) {
            lemma_spec_find_ok(m, gt(), p + 2);
            lemma_spec_find_ok(m, pi_close(), p + 2);
        } else if p + 1 < m.len() && is_name_byte(m[p + 1]) {
            lemma_name_run_end_bounds(m, p + 1);
        }
    }
}

/// Walks the rest of a start tag, after its name: whitespace, attributes,
/// and the closing `>` (a start tag) or `/>` (an empty element, which is
/// passed over). On the closing `>` of a title start tag the element's text
/// begins.
pub open spec fn spec_tag_rest(m: Seq<u8>, p: int, title: bool) -> StartScan
    decreases m.len() - p,
    when 0 <= p <= m.len()
    via spec_tag_rest_decreases
{
    if p >= m.len() {
        StartScan::Malformed
    } else if m[p] == '>' as u8 {
        if title {
            StartScan::FoundAt { cs: p + 1 }
        } else {
            spec_scan_events(m, p + 1)
        }
    } else if m[p] == '/' as u8 {
        if p + 1 < m.len() && m[p + 1] == '>' as u8 {
            spec_scan_events(m, p + 2)
        } else {
            StartScan::Malformed
        }
    } else if is_xml_ws(m[p]) {
        spec_tag_rest(m, p + 1, title)
    } else if is_name_byte(m[p]) {
        spec_attr_eq(m, spec_name_run_end(m, p), title)
    } else {
        StartScan::Malformed
    }
}

#[via_fn]
proof fn spec_tag_rest_decreases(m: Seq<u8>, p: int, title: bool) {
    if 0 <= p < m.len() && is_name_byte(m[p]) {
        lemma_name_run_end_bounds(m, p + 1);
        assert(spec_name_run_end(m, p) == spec_name_run_end(m, p + 1));
    }
}

/// After an attribute's name: optional whitespace, then `=`.
pub open spec fn spec_attr_eq(m: Seq<u8>, p: int, title: bool) -> StartScan
    decreases m.len() - p,
    when 0 <= p <= m.len()
{
    if p >= m.len() {
        StartScan::Malformed
    } else if is_xml_ws(m[p]) {
        spec_attr_eq(m, p + 1, title)
    } else if m[p] == '=' as u8 {
        spec_attr_val(m, p + 1, title)
    } else {
        StartScan::Malformed
    }
}

/// After an attribute's `=`: optional whitespace, then a value quoted with
/// `"` or `'`, closed by the same quote; a `>` inside the value does not
/// end the tag.
pub open spec fn spec_attr_val(m: Seq<u8>, p: int, title: bool) -> StartScan
    decreases m.len() - p,
    when 0 <= p <= m.len()
    via spec_attr_val_decreases
{
    if p >= m.len() {
        StartScan::Malformed
    } else if is_xml_ws(m[p]) {
        spec_attr_val(m, p + 1, title)
    } else if m[p] == '"' as u8 || m[p] == '\'' as u8 {
        match spec_find(m, seq![m[p]], p + 1) {
            None => StartScan::Malformed,
            Some(r) => spec_tag_rest(m, r + 1, title),
        }
    } else {
        StartScan::Malformed
    }
}

#[via_fn]
proof fn spec_attr_val_decreases(m: Seq<u8>, p: int, title: bool) {
    if 0 <= p < m.len() && !is_xml_ws(m[p]) && (m[p] == '"' as u8 || m[p] == '\'' as u8) {
        lemma_spec_find_ok(m, seq![m[p]], p + 1);
    }
}

/// The tag opened by `</` at `q` closes, after optional whitespace, with
/// `>`.
pub open spec fn spec_closes_after_ws(m: Seq<u8>, p: int) -> bool
    decreases m.len() - p,
    when 0 <= p <= m.len()
{
    if p >= m.len() {
        false
    } else if m[p] == '>' as u8 {
        true
    } else if is_xml_ws(m[p]) {
        spec_closes_after_ws(m, p + 1)
    } else {
        false
    }
}

fn closes_after_ws(m: &[u8], p: usize) -> (r: bool)
    requires
        p <= m@.len(),
    ensures
        r == spec_closes_after_ws(m@, p as int),
{
    let mlen = m.len();
    let mut q: usize = p;
    while q < mlen
        invariant
            mlen == m@.len(),
            p <= q <= mlen,
            spec_closes_after_ws(m@, p as int) == spec_closes_after_ws(m@, q as int),
        decreases mlen - q,
    {
        let c = m[q];
        if c == '>' as u8 {
            return true;
        }
        if !(c == 32 || c == 9 || c == 10 || c == 13) {
            return false;
        }
        q = q + 1;
    }
    false
}

/// The end tag at `q` — `</`, a name whose local name is `title`, optional
/// whitespace, `>` — closes the title element.
pub open spec fn is_title_end_tag(m: Seq<u8>, q: int) -> bool {
    let ne = spec_name_run_end(m, q + 2);
    local_name(m.subrange(q + 2, ne)) == title_name() && spec_closes_after_ws(m, ne)
}

/// Where the title element's text ends: the first position at or after `q`
/// where an end tag with local name `title` begins, if any.
pub open spec fn spec_title_end(m: Seq<u8>, q: int) -> Option<int>
    decreases m.len() - q,
    when 0 <= q <= m.len()
{
    if q + 2 > m.len() {
        None
    } else if matches_at(m, end_open(), q) && is_title_end_tag(m, q) {
        Some(q)
    } else {
        spec_title_end(m, q + 1)
    }
}

/// What the whole title lookup comes to.
pub enum TitleOutcome {
    Title(Seq<u8>),
    Absent,
    Malformed,
}

/// The title carried by the manifest bytes: the text of the first start tag
/// with local name `title`, up to its end tag; `Absent` when the document
/// scans cleanly to its end without such a start tag; `Malformed` when the
/// scan runs into markup it cannot read, or the title element never ends.
pub open spec fn spec_title_scan(m: Seq<u8>) -> TitleOutcome {
    match spec_scan_events(m, 0) {
        StartScan::Absent => TitleOutcome::Absent,
        StartScan::Malformed => TitleOutcome::Malformed,
        StartScan::FoundAt { cs } => match spec_title_end(m, cs) {
            None => TitleOutcome::Malformed,
            Some(e) => TitleOutcome::Title(m.subrange(cs, e)),
        },
    }
}

enum EventScan {
    FoundAt(usize),
    Absent,
    Malformed,
}

/// Walks the events of the manifest for the first title start tag.
fn scan_events(m: &[u8]) -> (r: EventScan)
    ensures
        match r {
            EventScan::FoundAt(cs) => spec_scan_events(m@, 0) == (StartScan::FoundAt {
                cs: cs as int,
            }) && cs <= m@.len(),
            EventScan::Absent => spec_scan_events(m@, 0) == StartScan::Absent,
            EventScan::Malformed => spec_scan_events(m@, 0) == StartScan::Malformed,
        },
{
    let comment_open_pat = comment_open_bytes();
    let comment_close_pat = comment_close_bytes();
    let cdata_open_pat = cdata_open_bytes();
    let cdata_close_pat = cdata_close_bytes();
    let pi_close_pat = pi_close_bytes();
    let gt_pat = gt_bytes();
    let mlen = m.len();
    let mut p: usize = 0;
    let mut in_tag = false;
    let mut in_attr_eq = false;
    let mut in_attr_val = false;
    let mut is_title = false;
    while p < mlen
        invariant
            mlen == m@.len(),
            p <= mlen,
            comment_open_pat@ == comment_open(),
            comment_close_pat@ == comment_close(),
            cdata_open_pat@ == cdata_open(),
            cdata_close_pat@ == cdata_close(),
            pi_close_pat@ == pi_close(),
            gt_pat@ == gt(),
            in_attr_eq ==> in_tag,
            in_attr_val ==> in_tag,
            !(in_attr_eq && in_attr_val),
            !in_tag ==> spec_scan_events(m@, 0) == spec_scan_events(m@, p as int),
            in_tag && !in_attr_eq && !in_attr_val ==> spec_scan_events(m@, 0) == spec_tag_rest(
                m@,
                p as int,
                is_title,
            ),
            in_attr_eq ==> spec_scan_events(m@, 0) == spec_attr_eq(m@, p as int, is_title),
            in_attr_val ==> spec_scan_events(m@, 0) == spec_attr_val(m@, p as int, is_title),
        decreases mlen - p,
    {
        let b = m[p];
        if !in_tag {
            if b != '<' as u8 {
                p = p + 1;
            } else {
                let c_ok = if mlen - p >= 4 {
                    eq_at(m, comment_open_pat.as_slice(), p)
                } else {
                    false
                };
                let cd_ok = if mlen - p >= 9 {
                    eq_at(m, cdata_open_pat.as_slice(), p)
                } else {
                    false
                };
                if c_ok {
                    match find_from(m, comment_close_pat.as_slice(), p + 4) {
                        None => {
                            return EventScan::Malformed;
                        },
                        Some(k) => {
                            proof {
                                lemma_spec_find_ok(m@, comment_close(), p + 4);
                            }
                            p = k + 3;
                        },
                    }
                } else if cd_ok {
                    match find_from(m, cdata_close_pat.as_slice(), p + 9) {
                        None => {
                            return EventScan::Malformed;
                        },
                        Some(k) => {
                            proof {
                                lemma_spec_find_ok(m@, cdata_close(), p + 9);
                            }
                            p = k + 3;
                        },
                    }
                } else if p + 1 < mlen && m[p + 1] == '!' as u8 {
                    match find_from(m, gt_pat.as_slice(), p + 2) {
                        None => {
                            return EventScan::Malformed;
                        },
                        Some(k) => {
                            proof {
                                lemma_spec_find_ok(m@, gt(), p + 2);
                            }
                            p = k + 1;
                        },
                    }
                } else if p + 1 < mlen && m[p + 1] == '?' as u8 {
                    match find_from(m, pi_close_pat.as_slice(), p + 2) {
                        None => {
                            return EventScan::Malformed;
                        },
                        Some(k) => {
                            proof {
                                lemma_spec_find_ok(m@, pi_close(), p + 2);
                            }
                            p = k + 2;
                        },
                    }
                } else if p + 1 < mlen && m[p + 1] == '/' as u8 {
                    match find_from(m, gt_pat.as_slice(), p + 2) {
                        None => {
                            return EventScan::Malformed;
                        },
                        Some(k) => {
                            proof {
                                lemma_spec_find_ok(m@, gt(), p + 2);
                            }
                            p = k + 1;
                        },
                    }
                } else if p + 1 < mlen && is_name_byte_exec(m[p + 1]) {
                    let ne = name_run_end(m, p + 1);
                    is_title = local_is_title(m, p + 1, ne);
                    p = ne;
                    in_tag = true;
                } else {
                    return EventScan::Malformed;
                }
            }
        } else if in_attr_eq {
            if b == 32 || b == 9 || b == 10 || b == 13 {
                p = p + 1;
            } else if b == '=' as u8 {
                p = p + 1;
                in_attr_eq = false;
                in_attr_val = true;
            } else {
                return EventScan::Malformed;
            }
        } else if in_attr_val {
            if b == 32 || b == 9 || b == 10 || b == 13 {
                p = p + 1;
            } else if b == '"' as u8 || b == '\'' as u8 {
                let dv: Vec<u8> = vec![b];
                proof {
                    assert(dv@ =~= seq![b]);
                }
                match find_from(m, dv.as_slice(), p + 1) {
                    None => {
                        return EventScan::Malformed;
                    },
                    Some(r2) => {
                        proof {
                            lemma_spec_find_ok(m@, seq![b], p + 1);
                        }
                        p = r2 + 1;
                        in_attr_val = false;
                    },
                }
            } else {
                return EventScan::Malformed;
            }
        } else {
            // inside a tag, between attributes
            if b == '>' as u8 {
                if is_title {
                    return EventScan::FoundAt(p + 1);
                }
                p = p + 1;
                in_tag = false;
            } else if b == '/' as u8 {
                if p + 1 < mlen && m[p + 1] == '>' as u8 {
                    p = p + 2;
                    in_tag = false;
                } else {
                    return EventScan::Malformed;
                }
            } else if b == 32 || b == 9 || b == 10 || b == 13 {
                p = p + 1;
            } else if is_name_byte_exec(b) {
                let ane = name_run_end(m, p);
                proof {
                    lemma_name_run_end_bounds(m@, p + 1);
                    assert(spec_name_run_end(m@, p as int) == spec_name_run_end(m@, p + 1));
                }
                p = ane;
                in_attr_eq = true;
            } else {
                return EventScan::Malformed;
            }
        }
    }
    if !in_tag {
        EventScan::Absent
    } else {
        EventScan::Malformed
    }
}

/// Finds where the title element's text ends.
fn title_end_from(m: &[u8], cs: usize) -> (r: Option<usize>)
    requires
        cs <= m@.len(),
    ensures
        match r {
            Some(e) => spec_title_end(m@, cs as int) == Some(e as int) && cs <= e <= m@.len(),
            None => spec_title_end(m@, cs as int) is None,
        },
{
    let end_pat = end_open_bytes();
    let mlen = m.len();
    let mut q: usize = cs;
    while mlen - q >= 2
        invariant
            mlen == m@.len(),
            cs <= q <= mlen,
            end_pat@ == end_open(),
            spec_title_end(m@, cs as int) == spec_title_end(m@, q as int),
        decreases mlen - q,
    {
        if eq_at(m, end_pat.as_slice(), q) {
            let ne = name_run_end(m, q + 2);
            let t = local_is_title(m, q + 2, ne);
            let c = closes_after_ws(m, ne);
            if t && c {
                return Some(q);
            }
        }
        q = q + 1;
    }
    None
}

/// Scans the manifest bytes for the work's title, as [`spec_title_scan`]
/// describes: `Ok` is the title element's text; a manifest without the
/// element reports the title missing; markup the scanner cannot read
/// reports the manifest malformed. Both errors are recoverable for the
/// caller, which falls back to an identifier-only file name.
pub fn scan_title(m: &[u8]) -> (r: Result<Vec<u8>, ArchiveError>)
    ensures
        match r {
            Ok(t) => spec_title_scan(m@) == TitleOutcome::Title(t@),
            Err(ArchiveError::TitleMissing) => spec_title_scan(m@) == TitleOutcome::Absent,
            Err(ArchiveError::ManifestMalformed) => spec_title_scan(m@) == TitleOutcome::Malformed,
            Err(_) => false,
        },
{
    match scan_events(m) {
        EventScan::Absent => Err(ArchiveError::TitleMissing),
        EventScan::Malformed => Err(ArchiveError::ManifestMalformed),
        EventScan::FoundAt(cs) => {
            match title_end_from(m, cs) {
                None => Err(ArchiveError::ManifestMalformed),
                Some(e) => {
                    let mut t: Vec<u8> = Vec::new();
                    push_all(&mut t, &m[cs..e]);
                    proof {
                        assert(t@ =~= m@.subrange(cs as int, e as int));
                    }
                    Ok(t)
                },
            }
        },
    }
}

} // verus!
