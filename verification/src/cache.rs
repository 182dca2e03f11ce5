//! The on-disk cache of the global symbol index: the serialized index is kept
//! gzip-compressed, and read back only while the cache is newer than the
//! workspace manifests.
use vstd::prelude::*;

use std::io::Read;
use std::io::Write;

use crate::global_index::GlobalSymbolIndex;
use crate::global_index::cache_is_valid;

verus! {

/// The bytes that flate2's `GzEncoder`, at the default compression level and
/// with the default header, writes for `data` (empty where it reports an
/// error).
pub uninterp spec fn gzip_of(data: Seq<u8>) -> Seq<u8>;

/// What flate2's `GzDecoder` reads out of `data`: the decompressed bytes of
/// its gzip stream, or `None` where it reports an error.
pub uninterp spec fn gunzip(data: Seq<u8>) -> Option<Seq<u8>>;

/// Compresses `data` with flate2's `GzEncoder` into a `Vec` (default level,
/// default header, so the output depends on `data` alone). Trusted: the result
/// is named `gzip_of(data)`, and, gzip being lossless as flate2 documents it,
/// `GzDecoder` reads `data` back out of it. The error arms are not taken:
/// writing into a `Vec` does not fail, and deflate accepts any input.
#[verifier::external_body]
fn gzip_encode(data: &[u8]) -> (r: Vec<u8>)
    ensures
        r@ == gzip_of(data@),
        gunzip(r@) == Some(data@),
{
    let mut encoder = flate2::write::GzEncoder::new(Vec::new(), flate2::Compression::default());
    match encoder.write_all(data) {
        Ok(()) => encoder.finish().unwrap_or_default(),
        Err(_) => Vec::new(),
    }
}

/// Decompresses `data` with flate2's `GzDecoder`, reading to the end. Trusted:
/// the result is named `gunzip(data)`.
#[verifier::external_body]
fn gzip_decode(data: &[u8]) -> (r: Option<Vec<u8>>)
    ensures
        match r {
            Some(v) => gunzip(data@) == Some(v@),
            None => gunzip(data@) is None,
        },
{
    let mut out = Vec::new();
    match flate2::read::GzDecoder::new(data).read_to_end(&mut out) {
        Ok(_) => Some(out),
        Err(_) => None,
    }
}

/// The bytes written to the cache for a serialized index: its gzip
/// compression, from which decompression gives the serialized index back.
pub fn compressed_cache_bytes(serialized: &[u8]) -> (r: Vec<u8>)
    ensures
        r@ == gzip_of(serialized@),
        gunzip(r@) == Some(serialized@),
{
    gzip_encode(serialized)
}

/// The serialized index held by compressed cache bytes: their decompression,
/// or `None` where they are not a gzip stream that decompresses.
pub fn decompressed_cache_bytes(data: &[u8]) -> (r: Option<Vec<u8>>)
    ensures
        match r {
            Some(v) => gunzip(data@) == Some(v@),
            None => gunzip(data@) is None,
        },
{
    gzip_decode(data)
}

impl GlobalSymbolIndex {
    /// The serialized index held by the cache, read from the cache file's bytes
    /// (`None` where the file could not be read): nothing when the cache is not
    /// valid for the given modification times, or when its bytes do not
    /// decompress; else the decompressed bytes.
    pub fn try_load_from_cache(
        &self,
        cache_file: Option<&[u8]>,
        cache_modified: Option<i128>,
        manifest_modified: &[Option<i128>],
    ) -> (r: Option<Vec<u8>>)
        ensures
            match r {
                Some(v) => cache_is_valid(cache_modified, manifest_modified@) && cache_file is Some
                    && gunzip(cache_file->0@) == Some(v@),
                None => !cache_is_valid(cache_modified, manifest_modified@) || cache_file is None
                    || gunzip(cache_file->0@) is None,
            },
    {
        if !self.is_cache_valid(cache_modified, manifest_modified) {
            return None;
        }
        match cache_file {
            Some(bytes) => gzip_decode(bytes),
            None => None,
        }
    }
}

} // verus!
