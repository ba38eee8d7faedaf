//! Verified core of an archive downloader: retry/backoff decisions for a
//! rate-limited HTTP service, login and download-URL resolution helpers, and
//! an archive-inspection pipeline that derives a sanitized file name from an
//! embedded manifest.

pub mod ao3;
pub mod extractor;
pub mod progress;
pub mod text;
pub mod xmlscan;
