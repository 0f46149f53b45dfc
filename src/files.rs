//! Planning of output files: how many records a size asks for, rotation
//! names, and which rotated files are compressed.
use crate::text::{append_decimal, decimal_text, ends_with, has_suffix};
use std::io::Write;
use vstd::prelude::*;

verus! {

/// A lower bound assumed for the length of one line, line break included.
pub const MIN_BYTES_OF_A_LOG: u64 = 149;

/// Bytes in one decimal gigabyte.
pub const BYTES_PER_GIGABYTE: u64 = 1_000_000_000;

/// Records to write for a file of `file_size_bytes` bytes: one more than the
/// number of assumed-shortest lines that fit.
pub fn get_number_of_logs_to_write(file_size_bytes: u64) -> (r: u64)
    ensures
        r == file_size_bytes / MIN_BYTES_OF_A_LOG + 1,
        r * MIN_BYTES_OF_A_LOG > file_size_bytes,
{
    file_size_bytes / MIN_BYTES_OF_A_LOG + 1
}

/// The name of the file with rotation suffix `k`; suffix zero is the live file.
pub open spec fn file_name(k: nat) -> Seq<char> {
    if k == 0 {
        "access.log"@
    } else {
        "access.log"@ + "."@ + decimal_text(k)
    }
}

/// Hands out rotation names, oldest first: `access.log.{n-1}` down to
/// `access.log.1`, then `access.log`.
#[derive(Debug)]
pub struct FileNameGenerator {
    pub name_suffix: u8,
}

impl FileNameGenerator {
    pub fn new(number_of_files_to_create: u8) -> (r: FileNameGenerator)
        requires
            number_of_files_to_create >= 1,
        ensures
            r.name_suffix == number_of_files_to_create - 1,
    {
        FileNameGenerator { name_suffix: number_of_files_to_create - 1 }
    }

    /// The next name; once the suffixes are used up, the live file's name.
    pub fn name(&mut self) -> (r: String)
        ensures
            r@ == file_name(old(self).name_suffix as nat),
            final(self).name_suffix == if old(self).name_suffix == 0 {
                0
            } else {
                old(self).name_suffix - 1
            },
    {
        let mut result = String::from_str("access.log");
        if self.name_suffix != 0 {
            result.append(".");
            append_decimal(&mut result, self.name_suffix as u64);
            self.name_suffix = self.name_suffix - 1;
        }
        result
    }
}

/// Whether a file of this name is compressed once written: all but the live
/// file (`.log`) and the first rotation (`.log.1`).
pub open spec fn must_compress(name: Seq<char>) -> bool {
    !has_suffix(name, ".log"@) && !has_suffix(name, ".log.1"@)
}

/// What a gzip encoder at the default level makes of `data`.
pub uninterp spec fn gzip_of(data: Seq<u8>) -> Seq<u8>;

/// Relies on flate2's `GzEncoder` (default compression level, default
/// header) writing into a vector: the gzip stream of `data`, which depends on
/// `data` alone. Writing into a vector does not fail.
#[verifier::external_body]
fn gzip_encode(data: &[u8]) -> (r: Vec<u8>)
    ensures
        r@ == gzip_of(data@),
{
    let mut encoder = flate2::write::GzEncoder::new(Vec::new(), flate2::Compression::default());
    encoder.write_all(data).unwrap();
    encoder.finish().unwrap()
}

/// A written file and the decisions on its compression.
#[derive(Debug)]
pub struct FileCompressor {
    pub file_path_name: String,
}

impl FileCompressor {
    pub fn new(file_path_name: String) -> (r: FileCompressor)
        ensures
            r.file_path_name == file_path_name,
    {
        FileCompressor { file_path_name }
    }

    pub fn must_compress_the_file(&self) -> (r: bool)
        ensures
            r == must_compress(self.file_path_name@),
    {
        !ends_with(self.file_path_name.as_str(), ".log") && !ends_with(
            self.file_path_name.as_str(),
            ".log.1",
        )
    }

    /// Where the compressed copy goes: the same path with `.gz` added.
    pub fn compressed_file_path_name(&self) -> (r: String)
        ensures
            r@ == self.file_path_name@ + ".gz"@,
    {
        let mut r = self.file_path_name.clone();
        r.append(".gz");
        r
    }

    /// The gzip stream that replaces the file's contents.
    pub fn compress_contents(&self, contents: &[u8]) -> (r: Vec<u8>)
        ensures
            r@ == gzip_of(contents@),
    {
        gzip_encode(contents)
    }
}

} // verus!
