//! Core data types: work identifiers and the login token, together with the
//! parsing of user-supplied work lines and the per-id deduplication of a
//! download list.

use vstd::prelude::*;

use crate::ao3::works_url_prefix;
use crate::text::{
    digits_value, is_digit, is_u64_str, matches_at, parse_u64, u64_str_value,
};

verus! {

/// A work identifier as supplied by the user: either the bare numeric id, or
/// the id together with the service's last-update timestamp, which lets the
/// download URL be synthesized without fetching the work's page.
#[derive(Clone, Copy, PartialEq, Eq, Structural, Debug)]
pub enum WorkId {
    Bare(usize),
    WithTimestamp { id: usize, timestamp: usize },
}

impl WorkId {
    /// The numeric id common to both variants.
    pub open spec fn spec_id(&self) -> usize {
        match self {
            WorkId::Bare(id) => *id,
            WorkId::WithTimestamp { id, timestamp: _ } => *id,
        }
    }

    /// The variant carries a timestamp.
    pub open spec fn has_timestamp(&self) -> bool {
        match self {
            WorkId::Bare(_) => false,
            WorkId::WithTimestamp { id: _, timestamp: _ } => true,
        }
    }

    pub fn id(&self) -> (r: &usize)
        ensures
            *r == self.spec_id(),
    {
        match self {
            WorkId::Bare(id) => id,
            WorkId::WithTimestamp { id, timestamp: _ } => id,
        }
    }

    /// Whether this identifier already carries its timestamp.
    pub fn is_timestamped(&self) -> (r: bool)
        ensures
            r == self.has_timestamp(),
    {
        match self {
            WorkId::Bare(_) => false,
            WorkId::WithTimestamp { id: _, timestamp: _ } => true,
        }
    }
}

/// The short-lived server-issued token that a login submission must carry as
/// a hidden form field. Held as the bytes of the token string.
pub struct AuthenticityToken {
    pub token: Vec<u8>,
}

/// The string denotes an unsigned integer that fits in `usize`.
pub open spec fn is_usize_str(s: Seq<u8>) -> bool {
    is_u64_str(s) && u64_str_value(s) <= usize::MAX
}

/// Position right after the first occurrence, at or after `from`, of the
/// work-URL prefix followed by at least one digit; that is, the start of the
/// id's digit run. An occurrence of the prefix with no digit after it does
/// not count, and the search goes on past it.
pub open spec fn spec_find_work_url(s: Seq<u8>, from: int) -> Option<int>
    decreases s.len() - from,
    when 0 <= from <= s.len()
{
    let plen = works_url_prefix().len() as int;
    if from + plen > s.len() {
        None
    } else if matches_at(s, works_url_prefix(), from) && from + plen < s.len() && is_digit(
        s[from + plen],
    ) {
        Some(from + plen)
    } else {
        spec_find_work_url(s, from + 1)
    }
}

/// End of the run of digits that starts at `p`: the first position at or
/// after `p` holding a non-digit, or the end of the string.
pub open spec fn spec_digit_run_end(s: Seq<u8>, p: int) -> int
    decreases s.len() - p,
    when 0 <= p <= s.len()
{
    if p < s.len() && is_digit(s[p]) {
        spec_digit_run_end(s, p + 1)
    } else {
        p
    }
}

/// How one line of user input is read: a line that is entirely a decimal
/// integer (fitting `usize`) is that id; otherwise the line is searched for
/// a work URL, and the digit run after its prefix is the id, rejected if it
/// does not fit `usize`. Anything else denotes no work.
pub open spec fn spec_parse_work_line(s: Seq<u8>) -> Option<WorkId> {
    if is_usize_str(s) {
        Some(WorkId::Bare(u64_str_value(s) as usize))
    } else {
        match spec_find_work_url(s, 0) {
            None => None,
            Some(ds) => {
                let de = spec_digit_run_end(s, ds);
                if digits_value(s.subrange(ds, de)) <= usize::MAX {
                    Some(WorkId::Bare(digits_value(s.subrange(ds, de)) as usize))
                } else {
                    None
                }
            },
        }
    }
}

/// Finds the start of the id digit run after the first work-URL prefix
/// occurrence that has one.
fn find_work_url(line: &[u8], pre: &[u8]) -> (r: Option<usize>)
    requires
        pre@ == works_url_prefix(),
    ensures
        match r {
            Some(ds) => spec_find_work_url(line@, 0) == Some(ds as int) && ds < line@.len()
                && is_digit(line@[ds as int]),
            None => spec_find_work_url(line@, 0) is None,
        },
{
    let plen = pre.len();
    let blen = line.len();
    let mut from: usize = 0;
    while blen - from >= plen
        invariant
            blen == line@.len(),
            plen == works_url_prefix().len(),
            pre@ == works_url_prefix(),
            from <= blen,
            spec_find_work_url(line@, 0) == spec_find_work_url(line@, from as int),
        decreases blen - from,
    {
        if crate::text::eq_at(line, pre, from) && blen - from > plen {
            let c = line[from + plen];
            if 48 <= c && c <= 57 {
                return Some(from + plen);
            }
        }
        from = from + 1;
    }
    None
}

/// Walks to the end of the digit run that starts at `p`.
fn digit_run_end(line: &[u8], p: usize) -> (de: usize)
    requires
        p <= line@.len(),
    ensures
        de == spec_digit_run_end(line@, p as int),
        p <= de <= line@.len(),
        forall|k: int| p <= k < de ==> is_digit(#[trigger] line@[k]),
        de < line@.len() ==> !is_digit(line@[de as int]),
{
    let blen = line.len();
    let mut de: usize = p;
    while de < blen
        invariant
            blen == line@.len(),
            p <= de <= blen,
            spec_digit_run_end(line@, p as int) == spec_digit_run_end(line@, de as int),
            forall|k: int| p <= k < de ==> is_digit(#[trigger] line@[k]),
        decreases blen - de,
    {
        let c = line[de];
        if !(48 <= c && c <= 57) {
            proof {
                assert(spec_digit_run_end(line@, de as int) == de);
            }
            return de;
        }
        de = de + 1;
    }
    proof {
        assert(spec_digit_run_end(line@, de as int) == de);
    }
    de
}

/// Parses one line of user input into a work identifier, as
/// [`spec_parse_work_line`] describes.
pub fn parse_work_line(line: &[u8]) -> (r: Option<WorkId>)
    ensures
        r == spec_parse_work_line(line@),
{
    match parse_u64(line) {
        Some(v) => {
            if v <= usize::MAX as u64 {
                return Some(WorkId::Bare(v as usize));
            }
        },
        None => {},
    }
    let pre = crate::ao3::works_url_prefix_bytes();
    match find_work_url(line, pre.as_slice()) {
        None => None,
        Some(ds) => {
            let de = digit_run_end(line, ds);
            proof {
                if de == ds {
                    assert(!is_digit(line@[ds as int]));
                }
            }
            let digits = &line[ds..de];
            proof {
                assert(digits@ =~= line@.subrange(ds as int, de as int));
                assert(digits@[0] == line@[ds as int]);
                assert(crate::text::int_str_digits(digits@) == digits@);
                assert forall|k: int| 0 <= k < digits@.len() implies is_digit(
                    #[trigger] digits@[k],
                ) by {
                    assert(digits@[k] == line@[ds + k]);
                }
            }
            match parse_u64(digits) {
                Some(v) => {
                    if v <= usize::MAX as u64 {
                        Some(WorkId::Bare(v as usize))
                    } else {
                        None
                    }
                },
                None => {
                    proof {
                        assert(digits_value(digits@) > u64::MAX);
                        assert(usize::MAX <= u64::MAX);
                    }
                    None
                },
            }
        },
    }
}

/// Finds the entry holding this numeric id, if one is present.
fn find_by_id(out: &Vec<WorkId>, wid: usize) -> (r: Option<usize>)
    ensures
        match r {
            Some(j) => j < out@.len() && out@[j as int].spec_id() == wid,
            None => forall|k: int| 0 <= k < out@.len() ==> (#[trigger] out@[k]).spec_id() != wid,
        },
{
    let mut j: usize = 0;
    while j < out.len()
        invariant
            j <= out@.len(),
            forall|k: int| 0 <= k < j ==> (#[trigger] out@[k]).spec_id() != wid,
        decreases out@.len() - j,
    {
        if *out[j].id() == wid {
            return Some(j);
        }
        j = j + 1;
    }
    None
}

/// Some entry of `out` holds this numeric id.
pub open spec fn retains_id(out: Seq<WorkId>, id: usize) -> bool {
    exists|j: int| 0 <= j < out.len() && (#[trigger] out[j]).spec_id() == id
}

/// Some entry among the first `upto` of `input` is timestamped and holds
/// this id.
pub open spec fn has_timestamped_for(input: Seq<WorkId>, upto: int, id: usize) -> bool {
    exists|i: int|
        0 <= i < upto && (#[trigger] input[i]).has_timestamp() && input[i].spec_id() == id
}

/// Deduplicates a download list by numeric id. One entry per distinct id is
/// retained; an id keeps a timestamped entry exactly when the input holds a
/// timestamped entry for it, so a timestamped variant always takes priority
/// over a bare one and no extra page fetch is needed for that id.
pub fn dedup_work_ids(input: &Vec<WorkId>) -> (out: Vec<WorkId>)
    ensures
        // every retained entry occurs in the input
        forall|j: int| 0 <= j < out@.len() ==> input@.contains(#[trigger] out@[j]),
        // every input id is retained
        forall|i: int|
            0 <= i < input@.len() ==> retains_id(out@, (#[trigger] input@[i]).spec_id()),
        // no id is retained twice
        forall|j1: int, j2: int|
            0 <= j1 < j2 < out@.len() ==> out@[j1].spec_id() != out@[j2].spec_id(),
        // an id's entry is timestamped exactly when the input holds a
        // timestamped entry for that id
        forall|j: int|
            0 <= j < out@.len() ==> ((#[trigger] out@[j]).has_timestamp() <==> has_timestamped_for(
                input@,
                input@.len() as int,
                out@[j].spec_id(),
            )),
{
    let mut out: Vec<WorkId> = Vec::new();
    let mut i: usize = 0;
    while i < input.len()
        invariant
            i <= input@.len(),
            forall|j: int| 0 <= j < out@.len() ==> input@.contains(#[trigger] out@[j]),
            forall|i2: int|
                0 <= i2 < i ==> retains_id(out@, (#[trigger] input@[i2]).spec_id()),
            forall|j1: int, j2: int|
                0 <= j1 < j2 < out@.len() ==> out@[j1].spec_id() != out@[j2].spec_id(),
            forall|j: int|
                0 <= j < out@.len() ==> ((#[trigger] out@[j]).has_timestamp()
                    <==> has_timestamped_for(input@, i as int, out@[j].spec_id())),
        decreases input@.len() - i,
    {
        let w = input[i];
        let wid = *w.id();
        proof {
            assert(w == input@[i as int]);
        }
        match find_by_id(&out, wid) {
            None => {
                let ghost out0 = out@;
                out.push(w);
                proof {
                    assert(out@ =~= out0.push(w));
                    let last = out@.len() - 1;
                    assert(out@[last] == input@[i as int]);
                    assert(input@.contains(out@[last]));
                    assert forall|i2: int| 0 <= i2 < i + 1 implies retains_id(
                        out@,
                        (#[trigger] input@[i2]).spec_id(),
                    ) by {
                        if i2 == i as int {
                            assert(out@[last].spec_id() == input@[i2].spec_id());
                        } else {
                            let j2 = choose|j2: int|
                                0 <= j2 < out0.len() && (#[trigger] out0[j2]).spec_id() == input@[
                                i2].spec_id();
                            assert(out@[j2].spec_id() == input@[i2].spec_id());
                        }
                    }
                    assert forall|k: int| 0 <= k < out@.len() implies ((
                    #[trigger] out@[k]).has_timestamp() <==> has_timestamped_for(
                        input@,
                        i + 1,
                        out@[k].spec_id(),
                    )) by {
                        let kid = out@[k].spec_id();
                        if k == last {
                            if out@[k].has_timestamp() {
                                assert(input@[i as int].has_timestamp() && input@[
                                i as int].spec_id() == kid);
                                assert(has_timestamped_for(input@, i + 1, kid));
                            } else if has_timestamped_for(input@, i + 1, kid) {
                                let i2 = choose|i2: int|
                                    0 <= i2 < i + 1 && (#[trigger] input@[i2]).has_timestamp()
                                        && input@[i2].spec_id() == kid;
                                if i2 < i {
                                    assert(retains_id(out0, input@[i2].spec_id()));
                                    let j2 = choose|j2: int|
                                        0 <= j2 < out0.len() && (#[trigger] out0[j2]).spec_id()
                                            == input@[i2].spec_id();
                                    assert(out0[j2].spec_id() != wid);
                                    assert(false);
                                } else {
                                    assert(!input@[i as int].has_timestamp());
                                    assert(false);
                                }
                            }
                        } else {
                            assert(out@[k] == out0[k]);
                            if out@[k].has_timestamp() {
                                let i2 = choose|i2: int|
                                    0 <= i2 < i && (#[trigger] input@[i2]).has_timestamp()
                                        && input@[i2].spec_id() == kid;
                                assert(0 <= i2 < i + 1 && input@[i2].has_timestamp() && input@[
                                i2].spec_id() == kid);
                                assert(has_timestamped_for(input@, i + 1, kid));
                            } else if has_timestamped_for(input@, i + 1, kid) {
                                let i2 = choose|i2: int|
                                    0 <= i2 < i + 1 && (#[trigger] input@[i2]).has_timestamp()
                                        && input@[i2].spec_id() == kid;
                                if i2 < i {
                                    assert(has_timestamped_for(input@, i as int, kid));
                                    assert(false);
                                } else {
                                    // the id equals the current one, which
                                    // the search reported absent
                                    assert(out0[k].spec_id() != wid);
                                    assert(false);
                                }
                            }
                        }
                    }
                }
            },
            Some(j) => {
                let replace = w.is_timestamped() && !out[j].is_timestamped();
                let ghost out0 = out@;
                if replace {
                    out.set(j, w);
                }
                proof {
                    if replace {
                        assert(out@ =~= out0.update(j as int, w));
                    }
                    assert(out@.len() == out0.len());
                    assert(out@[j as int].spec_id() == wid);
                    assert(forall|k: int| 0 <= k < out@.len() && k != j ==> out@[k] == out0[k]);
                    assert forall|k: int| 0 <= k < out@.len() implies input@.contains(
                        #[trigger] out@[k],
                    ) by {
                        if k == j as int && replace {
                            assert(out@[k] == input@[i as int]);
                        } else {
                            assert(out@[k] == out0[k]);
                        }
                    }
                    assert forall|i2: int| 0 <= i2 < i + 1 implies retains_id(
                        out@,
                        (#[trigger] input@[i2]).spec_id(),
                    ) by {
                        if i2 == i as int {
                            assert(out@[j as int].spec_id() == input@[i2].spec_id());
                        } else {
                            let j2 = choose|j2: int|
                                0 <= j2 < out0.len() && (#[trigger] out0[j2]).spec_id() == input@[
                                i2].spec_id();
                            assert(out@[j2].spec_id() == input@[i2].spec_id());
                        }
                    }
                    assert forall|k1: int, k2: int|
                        0 <= k1 < k2 < out@.len() implies out@[k1].spec_id()
                        != out@[k2].spec_id() by {
                        assert(out@[k1].spec_id() == out0[k1].spec_id());
                        assert(out@[k2].spec_id() == out0[k2].spec_id());
                    }
                    assert forall|k: int| 0 <= k < out@.len() implies ((
                    #[trigger] out@[k]).has_timestamp() <==> has_timestamped_for(
                        input@,
                        i + 1,
                        out@[k].spec_id(),
                    )) by {
                        let kid = out@[k].spec_id();
                        if k == j as int {
                            if out@[k].has_timestamp() {
                                if replace {
                                    assert(input@[i as int].has_timestamp() && input@[
                                    i as int].spec_id() == kid);
                                    assert(has_timestamped_for(input@, i + 1, kid));
                                } else {
                                    assert(out0[k].has_timestamp());
                                    let i2 = choose|i2: int|
                                        0 <= i2 < i && (#[trigger] input@[i2]).has_timestamp()
                                            && input@[i2].spec_id() == kid;
                                    assert(0 <= i2 < i + 1 && input@[i2].has_timestamp() && input@[
                                    i2].spec_id() == kid);
                                    assert(has_timestamped_for(input@, i + 1, kid));
                                }
                            } else {
                                // not replaced although the old entry is
                                // bare, so the new one is bare too
                                assert(!replace);
                                assert(out@[k] == out0[k]);
                                assert(!w.has_timestamp());
                                if has_timestamped_for(input@, i + 1, kid) {
                                    let i2 = choose|i2: int|
                                        0 <= i2 < i + 1 && (#[trigger] input@[i2]).has_timestamp()
                                            && input@[i2].spec_id() == kid;
                                    if i2 < i {
                                        assert(has_timestamped_for(input@, i as int, kid));
                                        assert(out0[k].has_timestamp());
                                        assert(false);
                                    } else {
                                        assert(input@[i as int] == w);
                                        assert(false);
                                    }
                                }
                            }
                        } else {
                            assert(out@[k] == out0[k]);
                            if out@[k].has_timestamp() {
                                let i2 = choose|i2: int|
                                    0 <= i2 < i && (#[trigger] input@[i2]).has_timestamp()
                                        && input@[i2].spec_id() == kid;
                                assert(0 <= i2 < i + 1 && input@[i2].has_timestamp() && input@[
                                i2].spec_id() == kid);
                                assert(has_timestamped_for(input@, i + 1, kid));
                            } else if has_timestamped_for(input@, i + 1, kid) {
                                let i2 = choose|i2: int|
                                    0 <= i2 < i + 1 && (#[trigger] input@[i2]).has_timestamp()
                                        && input@[i2].spec_id() == kid;
                                if i2 < i {
                                    assert(has_timestamped_for(input@, i as int, kid));
                                    assert(false);
                                } else {
                                    // two distinct entries would share an id
                                    assert(kid == wid);
                                    if k < j as int {
                                        assert(out0[k].spec_id() != out0[j as int].spec_id());
                                    } else {
                                        assert(out0[j as int].spec_id() != out0[k].spec_id());
                                    }
                                    assert(false);
                                }
                            }
                        }
                    }
                }
            },
        }
        i = i + 1;
    }
    out
}

} // verus!
