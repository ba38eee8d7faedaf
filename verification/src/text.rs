//! Verified byte-string utilities: decimal rendering and parsing, and
//! substring search. All higher-level scanning (URLs, markers, manifest tags)
//! is built on these.

use vstd::prelude::*;

verus! {

/// The byte is an ASCII decimal digit.
pub open spec fn is_digit(b: u8) -> bool {
    48 <= b <= 57
}

/// Numeric value of a digit byte (0 for non-digits; only used under
/// `all_digits`).
pub open spec fn digit_val(b: u8) -> nat {
    if is_digit(b) {
        (b - 48) as nat
    } else {
        0
    }
}

/// Every byte of the sequence is an ASCII decimal digit.
pub open spec fn all_digits(s: Seq<u8>) -> bool {
    forall|i: int| 0 <= i < s.len() ==> is_digit(#[trigger] s[i])
}

/// The number denoted by a sequence of digit bytes, most significant first.
pub open spec fn digits_value(s: Seq<u8>) -> nat
    decreases s.len(),
{
    if s.len() == 0 {
        0
    } else {
        digits_value(s.drop_last()) * 10 + digit_val(s.last())
    }
}

/// The canonical decimal rendering of a number: no sign, no leading zeros
/// (except for the single digit `0` itself).
pub open spec fn dec_digits(n: nat) -> Seq<u8>
    decreases n,
{
    if n < 10 {
        seq![(48 + n) as u8]
    } else {
        dec_digits(n / 10).push((48 + n % 10) as u8)
    }
}

/// The canonical rendering consists of digits and denotes the number
/// itself: what the URL and file-name contracts embed via `dec_digits` is
/// faithful decimal notation.
pub proof fn lemma_dec_digits_ok(n: nat)
    ensures
        all_digits(dec_digits(n)),
        digits_value(dec_digits(n)) == n,
        dec_digits(n).len() >= 1,
    decreases n,
{
    if n < 10 {
        lemma_digits_value_push(Seq::<u8>::empty(), (48 + n) as u8);
        assert(dec_digits(n) == Seq::<u8>::empty().push((48 + n) as u8));
        assert(digits_value(Seq::<u8>::empty()) == 0);
    } else {
        lemma_dec_digits_ok(n / 10);
        let prefix = dec_digits(n / 10);
        let d = (48 + n % 10) as u8;
        lemma_digits_value_push(prefix, d);
        assert forall|i: int| 0 <= i < prefix.push(d).len() implies is_digit(
            #[trigger] prefix.push(d)[i],
        ) by {
            if i < prefix.len() {
                assert(prefix.push(d)[i] == prefix[i]);
            }
        }
    }
}

/// Appending one digit multiplies the denoted value by ten and adds it.
pub proof fn lemma_digits_value_push(s: Seq<u8>, b: u8)
    ensures
        digits_value(s.push(b)) == digits_value(s) * 10 + digit_val(b),
{
    assert(s.push(b).drop_last() =~= s);
    assert(s.push(b).last() == b);
}

/// Appends the decimal rendering of `n` to `out`.
pub fn push_decimal(out: &mut Vec<u8>, n: u64)
    ensures
        final(out)@ == old(out)@ + dec_digits(n as nat),
    decreases n,
{
    if n < 10 {
        out.push(48 + n as u8);
        proof {
            assert(out@ =~= old(out)@ + dec_digits(n as nat));
        }
    } else {
        push_decimal(out, n / 10);
        out.push(48 + (n % 10) as u8);
        proof {
            assert(out@ =~= old(out)@ + dec_digits(n as nat));
        }
    }
}

/// The digit part of a decimal integer string: an optional leading `+` sign
/// is dropped, as the standard library's unsigned parser accepts one.
pub open spec fn int_str_digits(s: Seq<u8>) -> Seq<u8> {
    if s.len() > 0 && s[0] == '+' as u8 {
        s.subrange(1, s.len() as int)
    } else {
        s
    }
}

/// The string denotes an unsigned integer that fits in `u64`: an optional
/// `+`, then one or more digits, value at most `u64::MAX`.
pub open spec fn is_u64_str(s: Seq<u8>) -> bool {
    let d = int_str_digits(s);
    d.len() > 0 && all_digits(d) && digits_value(d) <= u64::MAX
}

/// The number denoted by a decimal integer string.
pub open spec fn u64_str_value(s: Seq<u8>) -> nat {
    digits_value(int_str_digits(s))
}

/// Appending digits never decreases the denoted value.
proof fn lemma_digits_value_prefix_le(s: Seq<u8>, i: int, j: int)
    requires
        0 <= i <= j <= s.len(),
    ensures
        digits_value(s.subrange(0, i)) <= digits_value(s.subrange(0, j)),
    decreases j - i,
{
    if i < j {
        lemma_digits_value_prefix_le(s, i, j - 1);
        let p = s.subrange(0, j);
        assert(p.drop_last() =~= s.subrange(0, j - 1));
        assert(digits_value(s.subrange(0, j - 1)) <= digits_value(p));
    }
}

/// Parses a decimal `u64` the way the standard library does: an optional
/// leading `+`, then one or more digits; anything else, or a value over
/// `u64::MAX`, is rejected.
pub fn parse_u64(s: &[u8]) -> (r: Option<u64>)
    ensures
        match r {
            Some(v) => is_u64_str(s@) && v as nat == u64_str_value(s@),
            None => !is_u64_str(s@),
        },
{
    let ghost d = int_str_digits(s@);
    let start: usize = if s.len() > 0 && s[0] == 43 {
        1
    } else {
        0
    };
    proof {
        assert(d =~= s@.subrange(start as int, s@.len() as int));
    }
    if s.len() == start {
        return None;
    }
    let mut acc: u64 = 0;
    let mut i: usize = start;
    while i < s.len()
        invariant
            start <= i <= s@.len(),
            d == int_str_digits(s@),
            d =~= s@.subrange(start as int, s@.len() as int),
            all_digits(d.subrange(0, i - start)),
            acc as nat == digits_value(d.subrange(0, i - start)),
        decreases s@.len() - i,
    {
        let b = s[i];
        if !(48 <= b && b <= 57) {
            proof {
                assert(d[i - start] == b);
                assert(!all_digits(d));
            }
            return None;
        }
        let dv: u64 = (b - 48) as u64;
        if acc > (u64::MAX - dv) / 10 {
            // The value read so far already overflows once this digit is
            // appended, and appending the remaining digits cannot shrink it.
            proof {
                let p = d.subrange(0, i + 1 - start);
                assert(p.drop_last() =~= d.subrange(0, i - start));
                assert(p.last() == b);
                assert(digits_value(p) == acc as nat * 10 + dv);
                assert(acc as nat * 10 + dv > u64::MAX) by (nonlinear_arith)
                    requires
                        acc > (u64::MAX - dv) / 10,
                        0 <= dv <= 9,
                ;
                if all_digits(d) {
                    lemma_digits_value_prefix_le(d, i + 1 - start, d.len() as int);
                    assert(d.subrange(0, d.len() as int) =~= d);
                }
            }
            return None;
        }
        proof {
            let p = d.subrange(0, i + 1 - start);
            assert(p.drop_last() =~= d.subrange(0, i - start));
            assert(p.last() == b);
            assert(acc as nat * 10 + dv <= u64::MAX) by (nonlinear_arith)
                requires
                    acc <= (u64::MAX - dv) / 10,
                    0 <= dv <= 9,
            ;
        }
        acc = acc * 10 + dv;
        i = i + 1;
    }
    proof {
        assert(d.subrange(0, d.len() as int) =~= d);
    }
    Some(acc)
}

/// The needle `n` occurs in `h` starting at position `i`.
pub open spec fn matches_at(h: Seq<u8>, n: Seq<u8>, i: int) -> bool {
    0 <= i && i + n.len() <= h.len() && h.subrange(i, i + n.len() as int) == n
}

/// The needle occurs somewhere in the haystack.
pub open spec fn contains_seq(h: Seq<u8>, n: Seq<u8>) -> bool {
    exists|i: int| matches_at(h, n, i)
}

/// Position of the first occurrence of `n` in `h` at or after `from`.
pub open spec fn spec_find(h: Seq<u8>, n: Seq<u8>, from: int) -> Option<int>
    decreases h.len() - from,
    when 0 <= from <= h.len()
{
    if n.len() == 0 {
        Some(from)
    } else if from + n.len() > h.len() {
        None
    } else if matches_at(h, n, from) {
        Some(from)
    } else {
        spec_find(h, n, from + 1)
    }
}

/// What `spec_find` returns is the first match, and `None` means no match.
pub proof fn lemma_spec_find_ok(h: Seq<u8>, n: Seq<u8>, from: int)
    requires
        0 <= from <= h.len(),
    ensures
        match spec_find(h, n, from) {
            Some(i) => from <= i && matches_at(h, n, i) && forall|j: int|
                from <= j < i ==> !matches_at(h, n, j),
            None => forall|j: int| from <= j ==> !matches_at(h, n, j),
        },
    decreases h.len() - from,
{
    if n.len() == 0 {
        assert(h.subrange(from, from) =~= n);
    } else if from + n.len() > h.len() {
        assert forall|j: int| from <= j implies !matches_at(h, n, j) by {}
    } else if matches_at(h, n, from) {
    } else {
        lemma_spec_find_ok(h, n, from + 1);
    }
}

/// Compares `n` against the bytes of `h` starting at `i`.
pub fn eq_at(h: &[u8], n: &[u8], i: usize) -> (r: bool)
    requires
        i + n@.len() <= h@.len(),
    ensures
        r == matches_at(h@, n@, i as int),
{
    let hlen = h.len();
    let nlen = n.len();
    let mut j: usize = 0;
    while j < nlen
        invariant
            0 <= j <= n@.len(),
            nlen == n@.len(),
            hlen == h@.len(),
            i + n@.len() <= h@.len(),
            forall|k: int| 0 <= k < j ==> h@[i + k] == n@[k],
        decreases n@.len() - j,
    {
        if h[i + j] != n[j] {
            proof {
                let sub = h@.subrange(i as int, i + n@.len());
                assert(sub[j as int] == h@[i + j]);
            }
            return false;
        }
        j = j + 1;
    }
    proof {
        assert(h@.subrange(i as int, i + n@.len()) =~= n@);
    }
    true
}

/// Finds the first occurrence of `n` in `h` at or after `from`.
pub fn find_from(h: &[u8], n: &[u8], from: usize) -> (r: Option<usize>)
    requires
        from <= h@.len(),
    ensures
        match r {
            Some(i) => from <= i && r == Some(i) && spec_find(h@, n@, from as int) == Some(
                i as int,
            ),
            None => spec_find(h@, n@, from as int) is None,
        },
{
    if n.len() == 0 {
        proof {
            assert(h@.subrange(from as int, from as int) =~= n@);
        }
        return Some(from);
    }
    if n.len() > h.len() {
        return None;
    }
    let last = h.len() - n.len();
    let mut i: usize = from;
    while i <= last
        invariant
            1 <= n@.len() <= h@.len(),
            last == h@.len() - n@.len(),
            last < usize::MAX,
            from <= i <= h@.len(),
            spec_find(h@, n@, from as int) == spec_find(h@, n@, i as int),
        decreases h@.len() - i,
    {
        if eq_at(h, n, i) {
            return Some(i);
        }
        i = i + 1;
    }
    None
}

/// The first match found is also a match in the `matches_at` sense; a
/// convenience wrapper around `find_from` for callers that need the
/// quantified characterization.
pub fn find_first(h: &[u8], n: &[u8]) -> (r: Option<usize>)
    ensures
        match r {
            Some(i) => matches_at(h@, n@, i as int) && forall|j: int|
                0 <= j < i ==> !matches_at(h@, n@, j),
            None => !contains_seq(h@, n@),
        },
{
    let r = find_from(h, n, 0);
    proof {
        lemma_spec_find_ok(h@, n@, 0);
        if r is None {
            assert forall|i: int| !matches_at(h@, n@, i) by {
                if i < 0 {
                } else {
                    assert(!matches_at(h@, n@, i));
                }
            }
        }
    }
    r
}

/// Checks that the bytes of `s` from `a` (inclusive) to `b` (exclusive) are
/// all decimal digits.
pub fn digits_in_range(s: &[u8], a: usize, b: usize) -> (r: bool)
    requires
        a <= b <= s@.len(),
    ensures
        r == all_digits(s@.subrange(a as int, b as int)),
{
    let mut i: usize = a;
    while i < b
        invariant
            a <= i <= b <= s@.len(),
            forall|k: int| a <= k < i ==> is_digit(#[trigger] s@[k]),
        decreases b - i,
    {
        let c = s[i];
        if !(48 <= c && c <= 57) {
            proof {
                let sub = s@.subrange(a as int, b as int);
                assert(sub[i - a] == s@[i as int]);
            }
            return false;
        }
        i = i + 1;
    }
    proof {
        let sub = s@.subrange(a as int, b as int);
        assert forall|k: int| 0 <= k < sub.len() implies is_digit(#[trigger] sub[k]) by {
            assert(sub[k] == s@[a + k]);
        }
    }
    true
}

/// Appends a whole slice to a vector.
pub fn push_all(out: &mut Vec<u8>, s: &[u8])
    ensures
        final(out)@ == old(out)@ + s@,
{
    let mut j: usize = 0;
    while j < s.len()
        invariant
            0 <= j <= s@.len(),
            out@ == old(out)@ + s@.subrange(0, j as int),
        decreases s@.len() - j,
    {
        out.push(s[j]);
        proof {
            assert(out@ =~= old(out)@ + s@.subrange(0, j + 1));
        }
        j = j + 1;
    }
    proof {
        assert(s@.subrange(0, s@.len() as int) =~= s@);
    }
}

} // verus!
