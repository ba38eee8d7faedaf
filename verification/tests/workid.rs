//! Work identifiers: parsing input lines and deduplicating download lists.

use ao3dl::ao3::types::{dedup_work_ids, parse_work_line, WorkId};

#[test]
fn id_is_exposed_by_both_variants() {
    assert_eq!(*WorkId::Bare(7).id(), 7);
    assert_eq!(
        *WorkId::WithTimestamp {
            id: 7,
            timestamp: 99
        }
        .id(),
        7
    );
}

#[test]
fn a_plain_integer_line_is_a_bare_id() {
    assert_eq!(parse_work_line(b"12345"), Some(WorkId::Bare(12345)));
    assert_eq!(parse_work_line(b"0"), Some(WorkId::Bare(0)));
    assert_eq!(parse_work_line(b"+12"), Some(WorkId::Bare(12)));
}

#[test]
fn a_work_url_line_yields_the_id_after_the_prefix() {
    assert_eq!(
        parse_work_line(b"https://archiveofourown.org/works/999"),
        Some(WorkId::Bare(999))
    );
    assert_eq!(
        parse_work_line(b"https://archiveofourown.org/works/999/chapters/1"),
        Some(WorkId::Bare(999))
    );
    assert_eq!(
        parse_work_line(b"see https://archiveofourown.org/works/77 for details"),
        Some(WorkId::Bare(77))
    );
}

#[test]
fn a_url_occurrence_without_digits_is_passed_over() {
    assert_eq!(
        parse_work_line(b"https://archiveofourown.org/works/abc"),
        None
    );
    assert_eq!(
        parse_work_line(
            b"https://archiveofourown.org/works/ then https://archiveofourown.org/works/31"
        ),
        Some(WorkId::Bare(31))
    );
}

#[test]
fn unusable_lines_yield_no_work() {
    assert_eq!(parse_work_line(b""), None);
    assert_eq!(parse_work_line(b"  12"), None);
    assert_eq!(parse_work_line(b"hello"), None);
    assert_eq!(parse_work_line(b"12a"), None);
    assert_eq!(parse_work_line(b"+"), None);
    assert_eq!(parse_work_line(b"https://example.org/works/12"), None);
}

#[test]
fn leading_zeros_parse_like_the_std_parser() {
    assert_eq!(parse_work_line(b"007"), Some(WorkId::Bare(7)));
}

#[test]
fn oversized_numbers_are_rejected() {
    assert_eq!(parse_work_line(b"99999999999999999999999999999"), None);
    assert_eq!(
        parse_work_line(b"https://archiveofourown.org/works/99999999999999999999999999999"),
        None
    );
}

#[test]
fn dedup_prefers_the_timestamped_variant() {
    let input = vec![
        WorkId::Bare(5),
        WorkId::WithTimestamp {
            id: 5,
            timestamp: 9,
        },
    ];
    let out = dedup_work_ids(&input);
    assert_eq!(
        out,
        vec![WorkId::WithTimestamp {
            id: 5,
            timestamp: 9,
        }]
    );
}

#[test]
fn dedup_prefers_the_timestamped_variant_in_either_order() {
    let input = vec![
        WorkId::WithTimestamp {
            id: 5,
            timestamp: 9,
        },
        WorkId::Bare(5),
    ];
    let out = dedup_work_ids(&input);
    assert_eq!(
        out,
        vec![WorkId::WithTimestamp {
            id: 5,
            timestamp: 9,
        }]
    );
}

#[test]
fn dedup_keeps_distinct_ids_and_drops_repeats() {
    let input = vec![
        WorkId::Bare(1),
        WorkId::Bare(2),
        WorkId::Bare(1),
        WorkId::WithTimestamp {
            id: 3,
            timestamp: 4,
        },
        WorkId::WithTimestamp {
            id: 2,
            timestamp: 8,
        },
    ];
    let out = dedup_work_ids(&input);
    assert_eq!(out.len(), 3);
    assert!(out.contains(&WorkId::Bare(1)));
    assert!(out.contains(&WorkId::WithTimestamp {
        id: 2,
        timestamp: 8,
    }));
    assert!(out.contains(&WorkId::WithTimestamp {
        id: 3,
        timestamp: 4,
    }));
}

#[test]
fn dedup_of_an_empty_list_is_empty() {
    let out = dedup_work_ids(&Vec::new());
    assert!(out.is_empty());
}
