use vstd::prelude::*;

use ogg::reading::{OggReadError, PacketReader};
use std::io::{Cursor, SeekFrom};

verus! {

#[verifier::external_type_specification]
#[verifier::external_body]
pub struct ExOggReadError(OggReadError);

#[verifier::external_type_specification]
#[verifier::external_body]
pub struct ExIoError(std::io::Error);

/// The Ogg demuxer a stream decodes from: ogg's `PacketReader` over the
/// stream's bytes held in memory, reached only through the functions below.
#[verifier::external_body]
pub struct StreamReader {
    inner: PacketReader<Cursor<Vec<u8>>>,
}

/// Relies on ogg's `PacketReader::new` over a `std::io::Cursor`: a reader
/// positioned at the first byte of `data`.
#[verifier::external_body]
pub(crate) fn open_reader(data: Vec<u8>) -> StreamReader {
    StreamReader { inner: PacketReader::new(Cursor::new(data)) }
}

/// Relies on ogg's `PacketReader::read_packet`: the next packet's bytes,
/// `None` at the end of the physical stream, or the demuxing error. What comes
/// back depends on the reader's position, so nothing more is stated.
#[verifier::external_body]
pub(crate) fn read_packet(reader: &mut StreamReader) -> Result<Option<Vec<u8>>, OggReadError> {
    match reader.inner.read_packet() {
        Ok(Some(packet)) => Ok(Some(packet.data)),
        Ok(None) => Ok(None),
        Err(e) => Err(e),
    }
}

/// Relies on ogg's `PacketReader::seek_bytes`: moves the underlying cursor to
/// byte `pos`, drops queued packets, and returns the new position counted
/// from the start. A `std::io::Cursor` sought to `SeekFrom::Start(pos)`
/// always succeeds with `pos`.
#[verifier::external_body]
pub(crate) fn seek_reader(reader: &mut StreamReader, pos: u64) -> (r: Result<u64, std::io::Error>)
    ensures
        r is Ok,
        r matches Ok(n) ==> n == pos,
{
    reader.inner.seek_bytes(SeekFrom::Start(pos))
}

} // verus!
