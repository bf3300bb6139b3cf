//! Fetching an archive.

use vstd::prelude::*;
use vstd::string::*;

use crate::path_ext::{with_extension, with_extension_of};
use crate::text::{ends_with, has_suffix};

verus! {

/// How an archive is packed.
#[derive(Debug, PartialEq, Eq, Structural)]
pub enum ArchiveFormat {
    /// A tar archive, compressed with gzip.
    TarGz,
    /// A zip archive.
    Zip,
}

/// Where an archive is to be fetched from, and the file to keep it in.
#[derive(Debug)]
pub struct Downloader {
    pub url: String,
    pub file: String,
}

impl Downloader {
    /// What fetches the archive at `url` into `file`, which is given the
    /// extension `ext`.
    pub fn new(url: &str, file: &str, ext: &str) -> (downloader: Downloader)
        ensures
            downloader.url@ == url@,
            downloader.file@ == with_extension(file@, ext@),
    {
        Downloader { url: String::from_str(url), file: with_extension_of(file, ext) }
    }

    /// How the archive is to be unpacked: as a zip archive where its file is
    /// named so, as a compressed tar archive otherwise.
    pub fn format(&self) -> (format: ArchiveFormat)
        ensures
            format == if has_suffix(self.file@, ".zip"@) {
                ArchiveFormat::Zip
            } else {
                ArchiveFormat::TarGz
            },
    {
        if ends_with(self.file.as_str(), ".zip") {
            ArchiveFormat::Zip
        } else {
            ArchiveFormat::TarGz
        }
    }
}

} // verus!
