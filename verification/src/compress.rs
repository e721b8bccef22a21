use std::io::Write;
use vstd::prelude::*;

verus! {

/// The bytes that the lz4 block format, with the uncompressed size prepended
/// as a little-endian u32, assigns to a byte sequence. The result depends on
/// the input alone.
pub uninterp spec fn lz4_of(data: Seq<u8>) -> Seq<u8>;

/// The bytes that the gzip format assigns to a byte sequence at a given
/// compression level. The result depends on the two arguments alone.
pub uninterp spec fn gzip_of(data: Seq<u8>, level: u8) -> Seq<u8>;

/// Relies on lz4_flex::compress_prepend_size: compresses the bytes and
/// prepends the input length as a little-endian u32, infallibly. The output
/// is a function of the input alone. The input length must fit in a u32 for
/// the prepended size to be faithful.
#[verifier::external_body]
fn lz4_compress(data: &[u8]) -> (r: Vec<u8>)
    requires
        data@.len() <= u32::MAX,
    ensures
        r@ == lz4_of(data@),
{
    lz4_flex::compress_prepend_size(data)
}

/// Relies on lz4_flex::decompress_size_prepended: decompressing what
/// compress_prepend_size produced gives back exactly the original bytes;
/// input that is not valid lz4 data is rejected, and the error is rendered
/// as text.
#[verifier::external_body]
fn lz4_decompress(data: &[u8]) -> (r: Result<Vec<u8>, String>)
    ensures
        r is Ok || !(exists|d: Seq<u8>| d.len() <= u32::MAX && data@ == lz4_of(d)),
        r matches Ok(o) ==> forall|d: Seq<u8>|
            d.len() <= u32::MAX && data@ == lz4_of(d) ==> o@ == d,
{
    match lz4_flex::decompress_size_prepended(data) {
        Ok(v) => Ok(v),
        Err(e) => Err(format!("{}", e)),
    }
}

/// Relies on flate2::write::GzEncoder (new, write_all, finish) with a Vec as
/// the sink: encodes the bytes as one gzip stream at the given level. flate2
/// writes a fixed header (zero mtime, operating-system byte 255), so the
/// output is a function of the bytes and the level alone. The call cannot
/// fail: the encoder's only errors come from its sink, and writing into a
/// Vec never errors, while the pure-Rust deflate backend reports no error
/// for levels up to 9; the error arm below renders the impossible case as
/// text rather than panicking inside the call.
#[verifier::external_body]
pub(crate) fn gzip_compress(data: &[u8], level: u8) -> (r: Result<Vec<u8>, String>)
    requires
        level <= 9,
    ensures
        r is Ok,
        r matches Ok(o) ==> o@ == gzip_of(data@, level),
{
    let mut encoder = flate2::write::GzEncoder::new(
        Vec::new(),
        flate2::Compression::new(level as u32),
    );
    if let Err(e) = encoder.write_all(data) {
        return Err(format!("{}", e));
    }
    match encoder.finish() {
        Ok(v) => Ok(v),
        Err(e) => Err(format!("{}", e)),
    }
}

/// A compression utility built on the lz4 block format. The level given at
/// construction is kept for configuration, capped at 9.
pub struct FastCompressor {
    compression_level: u8,
}

impl FastCompressor {
    /// The level the compressor was built with, after capping.
    pub closed spec fn level(self) -> u8 {
        self.compression_level
    }

    /// Creates a compressor; a level above 9 is capped to 9.
    pub fn new(level: u8) -> (r: Self)
        ensures
            r.level() == if level < 9 {
                level
            } else {
                9u8
            },
    {
        FastCompressor { compression_level: if level < 9 { level } else { 9 } }
    }

    /// Compresses the bytes with the lz4 block format; this never fails. The
    /// input length must fit in a u32, which the prepended size field forces.
    pub fn compress(&self, data: &[u8]) -> (r: Result<Vec<u8>, String>)
        requires
            data@.len() <= u32::MAX,
        ensures
            r matches Ok(o) && o@ == lz4_of(data@),
    {
        Ok(lz4_compress(data))
    }

    /// Decompresses lz4 block data: what `compress` produced comes back
    /// exactly as it went in, and only input that is no encoding's image is
    /// rejected, with a textual error.
    pub fn decompress(&self, compressed_data: &[u8]) -> (r: Result<Vec<u8>, String>)
        ensures
            forall|d: Seq<u8>|
                d.len() <= u32::MAX && compressed_data@ == lz4_of(d) ==> (r matches Ok(o) && o@
                    == d),
            r is Err ==> !(exists|d: Seq<u8>|
                d.len() <= u32::MAX && compressed_data@ == lz4_of(d)),
    {
        lz4_decompress(compressed_data)
    }
}

} // verus!
