use vstd::prelude::*;
use vstd::utf8::{decode_utf8, valid_utf8};
use vstd::string::StringExecFns;
use crate::chunk_type::{lemma_type_len, lossy_text, ChunkType};
use crate::text::{debug_string, debug_text, decimal, decimal_text};

verus! {

broadcast use lemma_type_len;

/// The CRC-32 (IEEE polynomial, as in PNG) of a byte sequence.
pub uninterp spec fn crc32_ieee(bytes: Seq<u8>) -> u32;

/// Relies on `crc::crc32::checksum_ieee`, a pure function of the bytes it reads.
#[verifier::external_body]
fn checksum(bytes: &[u8]) -> (r: u32)
    ensures
        r == crc32_ieee(bytes@),
{
    crc::crc32::checksum_ieee(bytes)
}

/// Relies on `std::str::from_utf8`: it accepts exactly the valid UTF-8 byte
/// sequences and then yields the characters they encode.
#[verifier::external_body]
fn utf8_text(bytes: &[u8]) -> (r: Option<String>)
    ensures
        r.is_some() == valid_utf8(bytes@),
        r matches Some(s) ==> s@ == decode_utf8(bytes@),
{
    match std::str::from_utf8(bytes) {
        Ok(s) => Some(String::from(s)),
        Err(_) => None,
    }
}

/// A payload read as text, or why it cannot be.
pub open spec fn payload_text(data: Seq<u8>) -> Result<Seq<char>, ChunkError> {
    if valid_utf8(data) {
        Ok(decode_utf8(data))
    } else {
        Err(ChunkError::NonUtf8Payload)
    }
}

/// The multi-line summary of a chunk's parts that `Chunk::to_string` writes.
pub open spec fn summary_of(
    length: u32,
    tag: Seq<char>,
    data: Result<Seq<char>, ChunkError>,
    crc: u32,
) -> Seq<char> {
    "length: "@ + decimal_text(length as u64) + "\n type: "@ + tag + "\n data: "@ + match data {
        Ok(t) => "Ok("@ + debug_text(t) + ")"@,
        Err(_) => "Err(NonUtf8Payload)"@,
    } + "\n crc: "@ + decimal_text(crc as u64) + "\n"@
}

/// The message that describes an error.
pub open spec fn chunk_error_message(e: ChunkError) -> Seq<char> {
    match e {
        ChunkError::InvalidDataLength => "Invalid data length"@,
        ChunkError::InvalidCrc => "Incorrect crc"@,
        ChunkError::TruncatedInput => "Truncated input"@,
        ChunkError::NonUtf8Payload => "Payload is not valid UTF-8"@,
    }
}

/// The four big-endian bytes of `x`.
pub open spec fn be_bytes(x: u32) -> Seq<u8> {
    seq![(x >> 24u32) as u8, (x >> 16u32) as u8, (x >> 8u32) as u8, x as u8]
}

/// The integer that the first four bytes of `b` spell in big-endian order.
pub open spec fn be_value(b: Seq<u8>) -> u32
    recommends
        b.len() >= 4,
{
    ((b[0] as u32) << 24u32) | ((b[1] as u32) << 16u32) | ((b[2] as u32) << 8u32) | (b[3] as u32)
}

proof fn lemma_be_round_trip(x: u32)
    ensures
        be_value(be_bytes(x)) == x,
{
    let b0 = (x >> 24u32) as u8;
    let b1 = (x >> 16u32) as u8;
    let b2 = (x >> 8u32) as u8;
    let b3 = x as u8;
    assert(((b0 as u32) << 24u32) | ((b1 as u32) << 16u32) | ((b2 as u32) << 8u32) | (b3 as u32)
        == x) by (bit_vector)
        requires
            b0 == (x >> 24u32) as u8,
            b1 == (x >> 16u32) as u8,
            b2 == (x >> 8u32) as u8,
            b3 == x as u8,
    ;
}

/// Why bytes could not be read as a chunk, or a payload as text.
#[derive(Debug, Clone, Copy, PartialEq, Eq, Structural)]
pub enum ChunkError {
    /// The declared length disagrees with the payload that was read.
    InvalidDataLength,
    /// The stored checksum differs from the one computed over tag and payload.
    InvalidCrc,
    /// The buffer is shorter than the twelve framing bytes plus the declared length.
    TruncatedInput,
    /// The payload is not valid UTF-8.
    NonUtf8Payload,
}

/// What a chunk holds: declared length, tag bytes, payload and checksum.
pub ghost struct ChunkModel {
    pub length: u32,
    pub tag: Seq<u8>,
    pub data: Seq<u8>,
    pub crc: u32,
}

/// The chunk made from a tag and a payload: length and checksum derived.
pub open spec fn model_of(tag: Seq<u8>, data: Seq<u8>) -> ChunkModel {
    ChunkModel { length: data.len() as u32, tag, data, crc: crc32_ieee(tag + data) }
}

/// The wire form of a chunk: length, tag, payload, checksum.
pub open spec fn encode_model(m: ChunkModel) -> Seq<u8> {
    be_bytes(m.length) + m.tag + m.data + be_bytes(m.crc)
}

/// What decoding a buffer gives: the record at its start, or why there is none.
pub open spec fn decode_model(b: Seq<u8>) -> Result<ChunkModel, ChunkError> {
    if b.len() < 12 {
        Err(ChunkError::TruncatedInput)
    } else {
        let length = be_value(b.subrange(0, 4));
        let end = 8 + length;
        if b.len() < end + 4 {
            Err(ChunkError::TruncatedInput)
        } else if crc32_ieee(b.subrange(4, end)) != be_value(b.subrange(end, end + 4)) {
            Err(ChunkError::InvalidCrc)
        } else {
            Ok(
                ChunkModel {
                    length,
                    tag: b.subrange(4, 8),
                    data: b.subrange(8, end),
                    crc: crc32_ieee(b.subrange(4, end)),
                },
            )
        }
    }
}

/// A record of a tag, a payload, and the checksum over both.
#[derive(Debug)]
pub struct Chunk {
    length: u32,
    chunk_type: ChunkType,
    data: Vec<u8>,
    crc: u32,
}

impl ChunkError {
    /// A message that describes the error.
    pub fn to_string(&self) -> (r: String)
        ensures
            r@ == chunk_error_message(*self),
    {
        match self {
            ChunkError::InvalidDataLength => String::from_str("Invalid data length"),
            ChunkError::InvalidCrc => String::from_str("Incorrect crc"),
            ChunkError::TruncatedInput => String::from_str("Truncated input"),
            ChunkError::NonUtf8Payload => String::from_str("Payload is not valid UTF-8"),
        }
    }
}

impl View for Chunk {
    type V = ChunkModel;

    closed spec fn view(&self) -> ChunkModel {
        ChunkModel {
            length: self.length,
            tag: self.chunk_type@,
            data: self.data@,
            crc: self.crc,
        }
    }
}

/// Reads four big-endian bytes of `bytes` from `at` on.
fn read_be(bytes: &[u8], at: usize) -> (r: u32)
    requires
        at + 4 <= bytes@.len(),
    ensures
        r == be_value(bytes@.subrange(at as int, at + 4)),
{
    ((bytes[at] as u32) << 24u32) | ((bytes[at + 1] as u32) << 16u32) | ((bytes[at + 2] as u32)
        << 8u32) | (bytes[at + 3] as u32)
}

/// Appends the four big-endian bytes of `x`.
fn push_be(out: &mut Vec<u8>, x: u32)
    ensures
        final(out)@ == old(out)@ + be_bytes(x),
{
    out.push((x >> 24u32) as u8);
    out.push((x >> 16u32) as u8);
    out.push((x >> 8u32) as u8);
    out.push(x as u8);
    assert(final(out)@ =~= old(out)@ + be_bytes(x));
}

/// Appends the bytes of `src` from `from` up to `to`.
fn push_range(out: &mut Vec<u8>, src: &[u8], from: usize, to: usize)
    requires
        from <= to <= src@.len(),
    ensures
        final(out)@ == old(out)@ + src@.subrange(from as int, to as int),
{
    let mut i: usize = from;
    while i < to
        invariant
            from <= i <= to,
            to <= src@.len(),
            out@ == old(out)@ + src@.subrange(from as int, i as int),
        decreases to - i,
    {
        out.push(src[i]);
        assert(src@.subrange(from as int, i + 1) =~= src@.subrange(from as int, i as int).push(
            src@[i as int],
        ));
        i = i + 1;
    }
}

impl Chunk {
    /// The chunk's invariant: the length is the payload's, and the checksum
    /// is the one over tag and payload.
    pub open spec fn wf(&self) -> bool {
        &&& self@.length == self@.data.len()
        &&& self@.crc == crc32_ieee(self@.tag + self@.data)
    }

    /// Builds a chunk from a tag and a payload, deriving length and checksum.
    pub fn new(chunk_type: ChunkType, data: Vec<u8>) -> (r: Chunk)
        requires
            data@.len() <= u32::MAX,
        ensures
            r@ == model_of(chunk_type@, data@),
            r.wf(),
    {
        let tag = chunk_type.bytes();
        let mut crc_data: Vec<u8> = Vec::new();
        push_range(&mut crc_data, tag.as_slice(), 0, 4);
        push_range(&mut crc_data, data.as_slice(), 0, data.len());
        assert(crc_data@ =~= chunk_type@ + data@);
        let crc = checksum(crc_data.as_slice());
        Chunk { length: data.len() as u32, chunk_type, data, crc }
    }

    /// Decodes the record at the start of `bytes`.
    pub fn try_from(bytes: &[u8]) -> (r: Result<Chunk, ChunkError>)
        ensures
            match r {
                Ok(c) => decode_model(bytes@) == Ok::<ChunkModel, ChunkError>(c@) && c.wf(),
                Err(e) => decode_model(bytes@) == Err::<ChunkModel, ChunkError>(e),
            },
    {
        let n = bytes.len();
        if n < 12 {
            return Err(ChunkError::TruncatedInput);
        }
        let length = read_be(bytes, 0);
        if n - 12 < length as usize {
            return Err(ChunkError::TruncatedInput);
        }
        let end: usize = 8 + length as usize;
        let chunk_type = ChunkType::from_bytes([bytes[4], bytes[5], bytes[6], bytes[7]]);
        assert(chunk_type@ =~= bytes@.subrange(4, 8));
        let mut data: Vec<u8> = Vec::new();
        push_range(&mut data, bytes, 8, end);
        let mut region: Vec<u8> = Vec::new();
        push_range(&mut region, bytes, 4, end);
        let correct_crc = checksum(region.as_slice());
        let provided_crc = read_be(bytes, end);
        assert(region@ =~= bytes@.subrange(4, end as int));
        if correct_crc != provided_crc {
            return Err(ChunkError::InvalidCrc);
        }
        if data.len() != length as usize {
            return Err(ChunkError::InvalidDataLength);
        }
        assert(data@ =~= bytes@.subrange(8, end as int));
        assert(region@ =~= chunk_type@ + data@);
        Ok(Chunk { length, chunk_type, data, crc: correct_crc })
    }

    /// The payload's length.
    pub fn length(&self) -> (r: u32)
        ensures
            r == self@.length,
    {
        self.length
    }

    /// The type tag.
    pub fn chunk_type(&self) -> (r: &ChunkType)
        ensures
            r@ == self@.tag,
    {
        &self.chunk_type
    }

    /// The payload.
    pub fn data(&self) -> (r: &[u8])
        ensures
            r@ == self@.data,
    {
        self.data.as_slice()
    }

    /// The checksum over tag and payload.
    pub fn crc(&self) -> (r: u32)
        ensures
            r == self@.crc,
    {
        self.crc
    }

    /// The payload read as UTF-8 text.
    pub fn data_as_string(&self) -> (r: Result<String, ChunkError>)
        ensures
            match r {
                Ok(s) => valid_utf8(self@.data) && s@ == decode_utf8(self@.data),
                Err(e) => !valid_utf8(self@.data) && e == ChunkError::NonUtf8Payload,
            },
    {
        match utf8_text(self.data.as_slice()) {
            Some(s) => Ok(s),
            None => Err(ChunkError::NonUtf8Payload),
        }
    }

    /// A multi-line summary: length, tag text, payload text (or why there is
    /// none) and checksum.
    pub fn to_string(&self) -> (r: String)
        ensures
            r@ == summary_of(
                self@.length,
                lossy_text(self@.tag),
                payload_text(self@.data),
                self@.crc,
            ),
    {
        let mut out = String::from_str("length: ");
        out.append(decimal(self.length as u64).as_str());
        out.append("\n type: ");
        out.append(self.chunk_type.to_string().as_str());
        out.append("\n data: ");
        let ghost head = out@;
        match self.data_as_string() {
            Ok(text) => {
                out.append("Ok(");
                out.append(debug_string(&text).as_str());
                out.append(")");
                assert(out@ =~= head + ("Ok("@ + debug_text(text@) + ")"@));
            },
            Err(_) => {
                out.append("Err(NonUtf8Payload)");
            },
        }
        out.append("\n crc: ");
        out.append(decimal(self.crc as u64).as_str());
        out.append("\n");
        out
    }

    /// The wire form: big-endian length, tag, payload, big-endian checksum.
    pub fn as_bytes(&self) -> (r: Vec<u8>)
        ensures
            r@ == encode_model(self@),
    {
        let mut out: Vec<u8> = Vec::new();
        push_be(&mut out, self.length);
        let tag = self.chunk_type.bytes();
        push_range(&mut out, tag.as_slice(), 0, 4);
        push_range(&mut out, self.data.as_slice(), 0, self.data.len());
        push_be(&mut out, self.crc);
        assert(tag@.subrange(0, 4) =~= self@.tag);
        assert(self.data@.subrange(0, self.data@.len() as int) =~= self@.data);
        out
    }
}

/// Decoding the wire form of a well-formed chunk gives back that chunk:
/// the same length, tag bytes, payload and checksum.
pub proof fn lemma_round_trip(c: Chunk)
    requires
        c.wf(),
    ensures
        decode_model(encode_model(c@)) == Ok::<ChunkModel, ChunkError>(c@),
{
    let m = c@;
    let b = encode_model(m);
    let len = m.data.len() as int;
    lemma_be_round_trip(m.length);
    lemma_be_round_trip(m.crc);
    assert(b.subrange(0, 4) =~= be_bytes(m.length));
    assert(b.subrange(4, 8) =~= m.tag);
    assert(b.subrange(8, 8 + len) =~= m.data);
    assert(b.subrange(4, 8 + len) =~= m.tag + m.data);
    assert(b.subrange(8 + len, 12 + len) =~= be_bytes(m.crc));
}

/// Two chunks built from the same tag and payload carry the same checksum,
/// and agree in every other part as well.
pub proof fn lemma_checksum_deterministic(t: ChunkType, d: Seq<u8>, a: Chunk, b: Chunk)
    requires
        a@ == model_of(t@, d),
        b@ == model_of(t@, d),
    ensures
        a@.crc == b@.crc,
        a@ == b@,
{
}

/// Replacing the stored checksum of a well-formed chunk's wire form by any
/// other value makes decoding fail with `InvalidCrc`.
pub proof fn lemma_wrong_checksum_rejected(c: Chunk, v: u32)
    requires
        c.wf(),
        v != c@.crc,
    ensures
        decode_model(encode_model(ChunkModel { crc: v, ..c@ })) == Err::<ChunkModel, ChunkError>(
            ChunkError::InvalidCrc,
        ),
{
    let m = ChunkModel { crc: v, ..c@ };
    let b = encode_model(m);
    let len = m.data.len() as int;
    lemma_be_round_trip(m.length);
    lemma_be_round_trip(v);
    assert(b.subrange(0, 4) =~= be_bytes(m.length));
    assert(b.subrange(4, 8 + len) =~= m.tag + m.data);
    assert(b.subrange(8 + len, 12 + len) =~= be_bytes(v));
}

/// Flipping one bit of the tag or payload of a well-formed chunk's wire form:
/// decoding never gives back the original chunk, and it fails with
/// `InvalidCrc` whenever the checksum of the altered tag and payload differs
/// from the stored one.
pub proof fn lemma_tampered_record(c: Chunk, i: int, k: u8)
    requires
        c.wf(),
        4 <= i < 8 + c@.data.len(),
        k < 8,
    ensures
        ({
            let b = encode_model(c@);
            let t = b.update(i, b[i] ^ (1u8 << k));
            &&& decode_model(t) != Ok::<ChunkModel, ChunkError>(c@)
            &&& crc32_ieee(t.subrange(4, 8 + c@.data.len() as int)) != c@.crc ==> decode_model(t)
                == Err::<ChunkModel, ChunkError>(ChunkError::InvalidCrc)
        }),
{
    let m = c@;
    let b = encode_model(m);
    let len = m.data.len() as int;
    let v = b[i];
    let flipped = v ^ (1u8 << k);
    assert(flipped != v) by (bit_vector)
        requires
            k < 8,
            flipped == v ^ (1u8 << k),
    ;
    let t = b.update(i, flipped);
    lemma_be_round_trip(m.length);
    lemma_be_round_trip(m.crc);
    assert(t.subrange(0, 4) =~= be_bytes(m.length));
    assert(t.subrange(8 + len, 12 + len) =~= be_bytes(m.crc));
    if i < 8 {
        assert(t.subrange(4, 8)[i - 4] != m.tag[i - 4]);
    } else {
        assert(t.subrange(8, 8 + len)[i - 8] != m.data[i - 8]);
    }
}

} // verus!
