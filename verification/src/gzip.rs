//! The compressed form of a response body. Compression itself is done by an
//! outside library; the rest of the crate speaks of its result only through
//! the name `gzip_of`.

use vstd::prelude::*;

verus! {

pub uninterp spec fn gzip_of(data: Seq<u8>) -> Seq<u8>;

/// Relies on flate2's `write::GzEncoder` at the default compression level:
/// its default stream header holds a zero timestamp and the unknown-OS
/// marker, so the compressed bytes are a function of the input bytes alone.
/// Writing into an in-memory `Vec` sink cannot fail, so the unwraps never
/// fire.
#[verifier::external_body]
pub(crate) fn gzip_compress(data: &Vec<u8>) -> (r: Vec<u8>)
    ensures
        r@ == gzip_of(data@),
{
    let mut enc = flate2::write::GzEncoder::new(Vec::new(), flate2::Compression::default());
    std::io::Write::write_all(&mut enc, data.as_slice()).unwrap();
    enc.finish().unwrap()
}

} // verus!
