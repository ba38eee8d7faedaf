//! Archive inspection: opening downloaded bytes as a zip archive, looking
//! the work's title up in the embedded manifest, and deriving the sanitized
//! destination file name.
//!
//! The archive itself is handled by the `zip` crate behind trusted
//! wrappers; what an archive holds is modelled as a map from member names
//! to member contents, and which members can be materialized by a named
//! readability condition. The title lookup and all name handling are
//! verified: the manifest is scanned as XML for the first start tag whose
//! local name is `title` (see the scanner's own module). A missing
//! manifest, a missing title element, and malformed manifest markup are
//! all recoverable: the caller falls back to an identifier-only file name.

use vstd::prelude::*;

use std::io::Read;

use crate::text::{dec_digits, push_all, push_decimal};
use crate::xmlscan::{spec_title_scan, TitleOutcome};

verus! {

/// Why an archive could not be used; every variant is fatal or recoverable
/// per the caller's policy, never both: a body that is not an archive and a
/// member that cannot be materialized are fatal for the work, while a
/// missing member or title only degrades the file name.
#[derive(Clone, Copy, PartialEq, Eq, Structural, Debug)]
pub enum ArchiveError {
    /// The bytes do not parse as a zip archive.
    NotArchive,
    /// The archive holds no member of the requested name.
    MemberMissing,
    /// The member exists but its contents could not be read.
    MemberUnreadable,
    /// The manifest holds no title element at all.
    TitleMissing,
    /// The manifest's markup could not be read as XML.
    ManifestMalformed,
}

#[verifier::external_type_specification]
#[verifier::external_body]
#[verifier::reject_recursive_types(T)]
pub struct ExCursor<T>(std::io::Cursor<T>);

#[verifier::external_type_specification]
#[verifier::external_body]
#[verifier::reject_recursive_types(R)]
pub struct ExZipArchive<R>(zip::read::ZipArchive<R>);

/// The bytes parse as a zip archive.
pub uninterp spec fn zip_ok(bytes: Seq<u8>) -> bool;

/// The members of the archive the bytes parse as: member name to member
/// contents.
pub uninterp spec fn zip_entries_of(bytes: Seq<u8>) -> Map<Seq<char>, Seq<u8>>;

/// What an open archive holds: member name to member contents. The member
/// list of an open archive never changes; reading only moves a cursor.
pub uninterp spec fn zip_contents(a: zip::read::ZipArchive<std::io::Cursor<Vec<u8>>>) -> Map<
    Seq<char>,
    Seq<u8>,
>;

/// The named member is present and its contents can be fully materialized
/// from the open archive: its compressed data decompresses and passes its
/// checks. Like the member list, this is a function of the in-memory
/// archive alone and never changes while it is open.
pub uninterp spec fn member_readable(
    a: zip::read::ZipArchive<std::io::Cursor<Vec<u8>>>,
    name: Seq<char>,
) -> bool;

/// Wraps the downloaded bytes as a random-access zip archive.
///
/// Relies on `zip::ZipArchive::new` over an in-memory cursor: it parses the
/// central directory of the byte buffer, a pure function of the bytes, and
/// fails exactly when they do not form a readable archive.
#[verifier::external_body]
pub fn as_zip(bytes: Vec<u8>) -> (r: Result<
    zip::read::ZipArchive<std::io::Cursor<Vec<u8>>>,
    ArchiveError,
>)
    ensures
        match r {
            Ok(a) => zip_ok(bytes@) && zip_contents(a) == zip_entries_of(bytes@),
            Err(e) => !zip_ok(bytes@) && e == ArchiveError::NotArchive,
        },
{
    match zip::read::ZipArchive::new(std::io::Cursor::new(bytes)) {
        Ok(a) => Ok(a),
        Err(_) => Err(ArchiveError::NotArchive),
    }
}

/// Reads one member of the archive fully into memory.
///
/// Relies on `zip::read::ZipArchive::by_name`, which fails with
/// `FileNotFound` exactly when no member has the name, and on reading the
/// returned member handle to its end, which yields the member's
/// decompressed contents and fails exactly when they cannot be
/// materialized from the in-memory buffer. The member list and what is
/// readable are immutable while the archive is open.
#[verifier::external_body]
fn read_member(
    a: &mut zip::read::ZipArchive<std::io::Cursor<Vec<u8>>>,
    name: &str,
) -> (r: Result<Vec<u8>, ArchiveError>)
    ensures
        zip_contents(*final(a)) == zip_contents(*old(a)),
        forall|n: Seq<char>| member_readable(*final(a), n) == member_readable(*old(a), n),
        match r {
            Ok(b) => zip_contents(*old(a)).contains_key(name@) && member_readable(*old(a), name@)
                && b@ == zip_contents(*old(a)).index(name@),
            Err(ArchiveError::MemberMissing) => !zip_contents(*old(a)).contains_key(name@),
            Err(ArchiveError::MemberUnreadable) => zip_contents(*old(a)).contains_key(name@)
                && !member_readable(*old(a), name@),
            Err(_) => false,
        },
{
    let mut file = match a.by_name(name) {
        Ok(f) => f,
        Err(zip::result::ZipError::FileNotFound) => return Err(ArchiveError::MemberMissing),
        Err(_) => return Err(ArchiveError::MemberUnreadable),
    };
    let mut buf: Vec<u8> = Vec::new();
    match file.read_to_end(&mut buf) {
        Ok(_) => Ok(buf),
        Err(_) => Err(ArchiveError::MemberUnreadable),
    }
}

/// The name of the manifest member that carries the title.
pub open spec fn manifest_name() -> Seq<char> {
    "content.opf"@
}

/// Looks the work's title up in the archive's manifest member. `Ok` is the
/// title's bytes; every `Err` is recoverable for the caller, which falls
/// back to an identifier-only name, and says exactly what stood in the
/// way: no manifest, an unreadable manifest, malformed manifest markup, or
/// a manifest without the title element.
pub fn title(archive: &mut zip::read::ZipArchive<std::io::Cursor<Vec<u8>>>) -> (r: Result<
    Vec<u8>,
    ArchiveError,
>)
    ensures
        zip_contents(*final(archive)) == zip_contents(*old(archive)),
        forall|n: Seq<char>|
            member_readable(*final(archive), n) == member_readable(*old(archive), n),
        match r {
            Ok(t) => zip_contents(*old(archive)).contains_key(manifest_name())
                && member_readable(*old(archive), manifest_name()) && spec_title_scan(
                zip_contents(*old(archive)).index(manifest_name()),
            ) == TitleOutcome::Title(t@),
            Err(ArchiveError::TitleMissing) => zip_contents(*old(archive)).contains_key(
                manifest_name(),
            ) && member_readable(*old(archive), manifest_name()) && spec_title_scan(
                zip_contents(*old(archive)).index(manifest_name()),
            ) == TitleOutcome::Absent,
            Err(ArchiveError::ManifestMalformed) => zip_contents(*old(archive)).contains_key(
                manifest_name(),
            ) && member_readable(*old(archive), manifest_name()) && spec_title_scan(
                zip_contents(*old(archive)).index(manifest_name()),
            ) == TitleOutcome::Malformed,
            Err(ArchiveError::MemberMissing) => !zip_contents(*old(archive)).contains_key(
                manifest_name(),
            ),
            Err(ArchiveError::MemberUnreadable) => zip_contents(*old(archive)).contains_key(
                manifest_name(),
            ) && !member_readable(*old(archive), manifest_name()),
            Err(ArchiveError::NotArchive) => false,
        },
{
    let manifest = match read_member(archive, "content.opf") {
        Ok(m) => m,
        Err(e) => {
            return Err(e);
        },
    };
    crate::xmlscan::scan_title(manifest.as_slice())
}

/// The opening of a file name that has no title: the bytes of `[ao3 `.
pub open spec fn name_open() -> Seq<u8> {
    seq!['[' as u8, 'a' as u8, 'o' as u8, '3' as u8, ' ' as u8]
}

fn name_open_bytes() -> (r: Vec<u8>)
    ensures
        r@ == name_open(),
{
    let v: Vec<u8> = vec!['[' as u8, 'a' as u8, 'o' as u8, '3' as u8, ' ' as u8];
    proof {
        assert(v@ =~= name_open());
    }
    v
}

/// What stands between the title and the id: the bytes of ` [ao3 `.
pub open spec fn name_mid() -> Seq<u8> {
    seq![' ' as u8, '[' as u8, 'a' as u8, 'o' as u8, '3' as u8, ' ' as u8]
}

fn name_mid_bytes() -> (r: Vec<u8>)
    ensures
        r@ == name_mid(),
{
    let v: Vec<u8> = vec![' ' as u8, '[' as u8, 'a' as u8, 'o' as u8, '3' as u8, ' ' as u8];
    proof {
        assert(v@ =~= name_mid());
    }
    v
}

/// The tail of every file name: the bytes of `].epub`.
pub open spec fn name_suffix() -> Seq<u8> {
    seq![']' as u8, '.' as u8, 'e' as u8, 'p' as u8, 'u' as u8, 'b' as u8]
}

fn name_suffix_bytes() -> (r: Vec<u8>)
    ensures
        r@ == name_suffix(),
{
    let v: Vec<u8> = vec![']' as u8, '.' as u8, 'e' as u8, 'p' as u8, 'u' as u8, 'b' as u8];
    proof {
        assert(v@ =~= name_suffix());
    }
    v
}

/// The destination file name before sanitizing: `<title> [ao3 <id>].epub`
/// with a title, `[ao3 <id>].epub` without one.
pub open spec fn spec_file_name(title: Option<Seq<u8>>, id: nat) -> Seq<u8> {
    match title {
        Some(t) => t + name_mid() + dec_digits(id) + name_suffix(),
        None => name_open() + dec_digits(id) + name_suffix(),
    }
}

/// Builds the destination file name from the title, if one was found, and
/// the work's id.
pub fn build_file_name(title: Option<&Vec<u8>>, id: &usize) -> (r: Vec<u8>)
    ensures
        match title {
            Some(t) => r@ == spec_file_name(Some(t@), *id as nat),
            None => r@ == spec_file_name(None, *id as nat),
        },
{
    let mut out: Vec<u8> = Vec::new();
    match title {
        Some(t) => {
            push_all(&mut out, t.as_slice());
            let mid = name_mid_bytes();
            push_all(&mut out, mid.as_slice());
        },
        None => {
            let open = name_open_bytes();
            push_all(&mut out, open.as_slice());
        },
    }
    push_decimal(&mut out, *id as u64);
    let suffix = name_suffix_bytes();
    push_all(&mut out, suffix.as_slice());
    out
}

/// The byte may stay in a destination file name: path separators and nulls
/// are removed so the name cannot escape the intended directory or be
/// truncated at an embedded null.
pub open spec fn keep_name_byte(b: u8) -> bool {
    b != '/' as u8 && b != 0
}

/// A name with every `/` and every null byte removed, and nothing else
/// changed.
pub open spec fn spec_sanitized(s: Seq<u8>) -> Seq<u8> {
    s.filter(|b: u8| keep_name_byte(b))
}

/// Removes path separators and null bytes from a candidate file name,
/// leaving every other byte as it is.
pub fn sanitize_file_name(name: &[u8]) -> (r: Vec<u8>)
    ensures
        r@ == spec_sanitized(name@),
{
    let mut out: Vec<u8> = Vec::new();
    let nlen = name.len();
    let mut i: usize = 0;
    while i < nlen
        invariant
            nlen == name@.len(),
            i <= nlen,
            out@ == spec_sanitized(name@.subrange(0, i as int)),
        decreases nlen - i,
    {
        let b = name[i];
        let ghost p = name@.subrange(0, i as int);
        let ghost p1 = name@.subrange(0, i + 1);
        if b != '/' as u8 && b != 0 {
            out.push(b);
        }
        proof {
            reveal(Seq::filter);
            assert(p1.drop_last() =~= p);
            assert(p1.last() == name@[i as int]);
        }
        i = i + 1;
    }
    proof {
        assert(name@.subrange(0, name@.len() as int) =~= name@);
    }
    out
}

} // verus!
