//! Archive inspection: title lookup inside real zip archives, XML scanning,
//! and file-name handling.

use std::io::{Cursor, Write};

use ao3dl::extractor::{as_zip, build_file_name, sanitize_file_name, title, ArchiveError};
use ao3dl::xmlscan::scan_title;

fn zip_with(entries: &[(&str, &[u8])]) -> Vec<u8> {
    let mut writer = zip::ZipWriter::new(Cursor::new(Vec::new()));
    let options = zip::write::SimpleFileOptions::default();
    for (name, contents) in entries {
        writer.start_file(*name, options).unwrap();
        writer.write_all(contents).unwrap();
    }
    writer.finish().unwrap().into_inner()
}

#[test]
fn the_title_is_read_from_the_manifest() {
    let manifest = b"<?xml version=\"1.0\"?><package><metadata>\
                     <dc:title>Example</dc:title></metadata></package>";
    let bytes = zip_with(&[("content.opf", manifest), ("ch1.html", b"<p>hi</p>")]);
    let mut archive = as_zip(bytes).expect("a real zip parses");
    assert_eq!(title(&mut archive).unwrap(), b"Example".to_vec());
}

#[test]
fn namespace_declarations_and_attributes_are_walked_over() {
    let manifest = b"<?xml version=\"1.0\" encoding=\"utf-8\"?>\
        <package xmlns=\"http://www.idpf.org/2007/opf\" version=\"2.0\">\
        <metadata xmlns:dc=\"http://purl.org/dc/elements/1.1/\">\
        <dc:title>Spaced Out</dc:title></metadata></package>";
    let bytes = zip_with(&[("content.opf", manifest)]);
    let mut archive = as_zip(bytes).unwrap();
    assert_eq!(title(&mut archive).unwrap(), b"Spaced Out".to_vec());
}

#[test]
fn the_title_element_is_matched_by_local_name() {
    let bytes = zip_with(&[("content.opf", b"<p><dcterms:title>Other Prefix</dcterms:title></p>")]);
    let mut archive = as_zip(bytes).unwrap();
    assert_eq!(title(&mut archive).unwrap(), b"Other Prefix".to_vec());
    assert_eq!(
        scan_title(b"<x><title>No Prefix</title></x>"),
        Ok(b"No Prefix".to_vec())
    );
}

#[test]
fn a_manifest_without_the_title_tag_reports_title_missing() {
    let manifest = b"<package><metadata><dc:creator>A</dc:creator></metadata></package>";
    let bytes = zip_with(&[("content.opf", manifest)]);
    let mut archive = as_zip(bytes).unwrap();
    assert_eq!(title(&mut archive), Err(ArchiveError::TitleMissing));
}

#[test]
fn a_malformed_manifest_reports_the_recoverable_xml_error() {
    let bytes = zip_with(&[("content.opf", b"<<dc:title>Example</dc:title>")]);
    let mut archive = as_zip(bytes).unwrap();
    assert_eq!(title(&mut archive), Err(ArchiveError::ManifestMalformed));
}

#[test]
fn an_archive_without_the_manifest_reports_member_missing() {
    let bytes = zip_with(&[("ch1.html", b"<p>hi</p>")]);
    let mut archive = as_zip(bytes).unwrap();
    assert_eq!(title(&mut archive), Err(ArchiveError::MemberMissing));
}

#[test]
fn bytes_that_are_no_archive_are_rejected() {
    assert!(matches!(
        as_zip(b"<html>not found</html>".to_vec()),
        Err(ArchiveError::NotArchive)
    ));
}

#[test]
fn scanning_handles_attributes_and_empty_elements() {
    assert_eq!(
        scan_title(b"<dc:title xml:lang=\"en\">With Attrs</dc:title>"),
        Ok(b"With Attrs".to_vec())
    );
    // a quoted '>' inside an attribute value does not end the tag
    assert_eq!(
        scan_title(b"<dc:title note=\"a>b\">Quoted</dc:title>"),
        Ok(b"Quoted".to_vec())
    );
    // an empty element is not a start tag and is passed over
    assert_eq!(
        scan_title(b"<metadata><dc:title/></metadata>"),
        Err(ArchiveError::TitleMissing)
    );
    assert_eq!(
        scan_title(b"<m><dc:title/><dc:title>Second</dc:title></m>"),
        Ok(b"Second".to_vec())
    );
    // a longer tag name is not the title tag
    assert_eq!(
        scan_title(b"<dc:titlepage>X</dc:titlepage>"),
        Err(ArchiveError::TitleMissing)
    );
    assert_eq!(scan_title(b""), Err(ArchiveError::TitleMissing));
}

#[test]
fn markup_the_scanner_cannot_read_is_malformed() {
    // a stray '<' opens no tag
    assert_eq!(
        scan_title(b"a < b <dc:title>T</dc:title>"),
        Err(ArchiveError::ManifestMalformed)
    );
    // a title element without its end tag
    assert_eq!(
        scan_title(b"<dc:title>Unclosed"),
        Err(ArchiveError::ManifestMalformed)
    );
    // an unterminated comment, tag, or attribute value
    assert_eq!(scan_title(b"<!-- open"), Err(ArchiveError::ManifestMalformed));
    assert_eq!(scan_title(b"<dc:title"), Err(ArchiveError::ManifestMalformed));
    assert_eq!(
        scan_title(b"<dc:title a=\"x>T</dc:title>"),
        Err(ArchiveError::ManifestMalformed)
    );
    // an attribute without a quoted value
    assert_eq!(
        scan_title(b"<dc:title a=b>T</dc:title>"),
        Err(ArchiveError::ManifestMalformed)
    );
}

#[test]
fn comments_and_cdata_hide_their_contents() {
    assert_eq!(
        scan_title(b"<!-- <dc:title>no</dc:title> --><dc:title>yes</dc:title>"),
        Ok(b"yes".to_vec())
    );
    assert_eq!(
        scan_title(b"<m><![CDATA[<dc:title>no</dc:title>]]><dc:title>yes</dc:title></m>"),
        Ok(b"yes".to_vec())
    );
}

#[test]
fn file_names_carry_the_title_and_the_id() {
    assert_eq!(
        build_file_name(Some(&b"Example".to_vec()), &42),
        b"Example [ao3 42].epub".to_vec()
    );
    assert_eq!(build_file_name(None, &42), b"[ao3 42].epub".to_vec());
}

#[test]
fn sanitizing_removes_separators_and_nulls_and_nothing_else() {
    assert_eq!(
        sanitize_file_name(b"a/b\0c [ao3 7].epub"),
        b"abc [ao3 7].epub".to_vec()
    );
    assert_eq!(sanitize_file_name(b"///\0\0\0"), Vec::<u8>::new());
    let untouched = b"Example: a story? (v2) [ao3 9].epub";
    assert_eq!(sanitize_file_name(untouched), untouched.to_vec());
}

#[test]
fn the_whole_naming_pipeline_produces_a_safe_name() {
    let manifest = b"<package><dc:title>A/B Story</dc:title></package>";
    let bytes = zip_with(&[("content.opf", manifest)]);
    let mut archive = as_zip(bytes).unwrap();
    let t = title(&mut archive).unwrap();
    let name = sanitize_file_name(&build_file_name(Some(&t), &7));
    assert_eq!(name, b"AB Story [ao3 7].epub".to_vec());
}
