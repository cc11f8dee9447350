//! The message codec: a length-prefixed, checksummed binary frame.
//!
//! A frame is laid out as four big-endian regions: a `length` field holding
//! the total frame size (including itself), a four-byte `method` code, the
//! payload, and a trailing CRC-32 (IEEE) checksum over everything before it.

use vstd::prelude::*;
use vstd::slice::{slice_subrange, slice_to_vec};
use byteorder::{BigEndian, ByteOrder};

verus! {

/// The CRC-32 (IEEE polynomial) of a byte sequence, as computed by the `crc`
/// crate; a function of the bytes alone.
pub uninterp spec fn crc32_of(b: Seq<u8>) -> u32;

/// The value of four bytes read as a big-endian 32-bit integer.
pub open spec fn be_u32_of(b: Seq<u8>) -> u32 {
    (((b[0] as u32) << 24) | ((b[1] as u32) << 16) | ((b[2] as u32) << 8) | (b[3] as u32))
}

/// The four bytes of `n`, most significant first.
pub open spec fn u32_be_bytes(n: u32) -> Seq<u8> {
    seq![(n >> 24) as u8, (n >> 16) as u8, (n >> 8) as u8, n as u8]
}

/// The encoded frame for a method code and payload: length field, method,
/// payload, then the checksum of those bytes.
pub open spec fn frame_of(method: Seq<u8>, payload: Seq<u8>) -> Seq<u8> {
    let body = u32_be_bytes((payload.len() + 12) as u32) + method + payload;
    body + u32_be_bytes(crc32_of(body))
}

/// The length field of `b` declares exactly the size of `b` itself.
pub open spec fn length_field_ok(b: Seq<u8>) -> bool {
    b.len() >= 4 && be_u32_of(b.subrange(0, 4)) as int == b.len() as int
}

/// The last four bytes of `b` hold the checksum of all bytes before them.
pub open spec fn checksum_matches(b: Seq<u8>) -> bool {
    be_u32_of(b.subrange(b.len() - 4, b.len() as int)) == crc32_of(b.subrange(0, b.len() - 4))
}

/// `b` is a complete well-formed frame: big enough to hold the three header
/// regions, with a truthful length field and a matching checksum.
pub open spec fn valid_frame(b: Seq<u8>) -> bool {
    b.len() >= 12 && length_field_ok(b) && checksum_matches(b)
}

pub proof fn lemma_u32_be_bytes_inverse(n: u32)
    ensures
        u32_be_bytes(n).len() == 4,
        be_u32_of(u32_be_bytes(n)) == n,
{
    assert(((((n >> 24) as u8) as u32) << 24) | ((((n >> 16) as u8) as u32) << 16)
        | ((((n >> 8) as u8) as u32) << 8) | ((n as u8) as u32) == n) by (bit_vector);
}

pub proof fn lemma_be_u32_of_inverse(b: Seq<u8>)
    requires
        b.len() == 4,
    ensures
        u32_be_bytes(be_u32_of(b)) == b,
{
    let b0 = b[0];
    let b1 = b[1];
    let b2 = b[2];
    let b3 = b[3];
    assert(((((b0 as u32) << 24) | ((b1 as u32) << 16) | ((b2 as u32) << 8) | (b3 as u32)) >> 24) as u8
        == b0) by (bit_vector);
    assert(((((b0 as u32) << 24) | ((b1 as u32) << 16) | ((b2 as u32) << 8) | (b3 as u32)) >> 16) as u8
        == b1) by (bit_vector);
    assert(((((b0 as u32) << 24) | ((b1 as u32) << 16) | ((b2 as u32) << 8) | (b3 as u32)) >> 8) as u8
        == b2) by (bit_vector);
    assert((((b0 as u32) << 24) | ((b1 as u32) << 16) | ((b2 as u32) << 8) | (b3 as u32)) as u8
        == b3) by (bit_vector);
    assert(u32_be_bytes(be_u32_of(b)) =~= b);
}

/// Why a byte sequence failed to decode as a frame.
#[derive(Clone, Debug, PartialOrd, PartialEq, Eq, Structural)]
pub enum DeserializeError {
    LengthError,
    ChecksumError,
}

/// One request or response unit: an opaque four-byte method code and a raw
/// byte payload.
#[derive(Clone, Debug, PartialOrd, PartialEq)]
pub struct Message {
    pub method: [u8; 4],
    pub data: Vec<u8>,
}

/// Relies on byteorder's `BigEndian::read_u32`: the first four bytes of the
/// slice, read as a big-endian 32-bit integer.
#[verifier::external_body]
pub(crate) fn read_u32_be(buf: &[u8]) -> (r: u32)
    requires
        buf@.len() >= 4,
    ensures
        r == be_u32_of(buf@.subrange(0, 4)),
{
    BigEndian::read_u32(buf)
}

/// Relies on byteorder's `BigEndian::write_u32`: the four bytes of `n`, most
/// significant first.
#[verifier::external_body]
fn u32_to_be(n: u32) -> (r: Vec<u8>)
    ensures
        r@ == u32_be_bytes(n),
{
    let mut buf = [0u8; 4];
    BigEndian::write_u32(&mut buf, n);
    buf.to_vec()
}

/// Relies on crc's `crc32::checksum_ieee`: the CRC-32 (IEEE) of the bytes, a
/// function of the byte sequence alone.
#[verifier::external_body]
fn crc32_ieee(bytes: &[u8]) -> (r: u32)
    ensures
        r == crc32_of(bytes@),
{
    crc::crc32::checksum_ieee(bytes)
}

impl Message {
    /// Creates a new message
    pub fn new(method: [u8; 4], data: Vec<u8>) -> (m: Message)
        ensures
            m.method@ == method@,
            m.data@ == data@,
    {
        Message { method, data }
    }

    /// Deserializes a vector of bytes into the message
    pub fn from_bytes(bytes: &Vec<u8>) -> (r: Result<Message, DeserializeError>)
        ensures
            r matches Ok(m) ==> valid_frame(bytes@)
                && m.method@ == bytes@.subrange(4, 8)
                && m.data@ == bytes@.subrange(8, bytes@.len() - 4)
                && bytes@ == frame_of(m.method@, m.data@),
            valid_frame(bytes@) ==> r is Ok,
            !length_field_ok(bytes@)
                ==> r == Err::<Message, DeserializeError>(DeserializeError::LengthError),
            length_field_ok(bytes@) && !checksum_matches(bytes@)
                ==> r == Err::<Message, DeserializeError>(DeserializeError::ChecksumError),
            length_field_ok(bytes@) && checksum_matches(bytes@) && bytes@.len() < 12
                ==> r == Err::<Message, DeserializeError>(DeserializeError::LengthError),
    {
        if bytes.len() < 4 {
            return Err(DeserializeError::LengthError);
        }

        let length = read_u32_be(bytes.as_slice());
        if bytes.len() != length as usize {
            return Err(DeserializeError::LengthError);
        }

        let n = bytes.len();
        let crc_slice = slice_subrange(bytes.as_slice(), n - 4, n);
        let crc = read_u32_be(crc_slice);
        proof {
            assert(crc_slice@.subrange(0, 4) =~= bytes@.subrange(n - 4, n as int));
        }
        let calc_crc = crc32_ieee(slice_subrange(bytes.as_slice(), 0, n - 4));

        if calc_crc != crc {
            return Err(DeserializeError::ChecksumError);
        }

        if n < 12 {
            return Err(DeserializeError::LengthError);
        }

        let method: [u8; 4] = [bytes[4], bytes[5], bytes[6], bytes[7]];
        let data = slice_to_vec(slice_subrange(bytes.as_slice(), 8, n - 4));

        proof {
            assert(method@ =~= bytes@.subrange(4, 8));
            lemma_valid_frame_reencodes(bytes@);
        }

        Ok(Message { method, data })
    }

    /// Returns the serialized bytes version
    pub fn to_bytes(&self) -> (r: Vec<u8>)
        requires
            self.data@.len() + 12 <= u32::MAX,
        ensures
            r@ == frame_of(self.method@, self.data@),
            r@.len() == self.data@.len() + 12,
            be_u32_of(r@.subrange(0, 4)) as int == r@.len() as int,
    {
        let length: u32 = (self.data.len() as u32) + 12;
        let mut data = u32_to_be(length);

        let mut i: usize = 0;
        while i < 4
            invariant
                i <= 4,
                data@ == u32_be_bytes(length) + self.method@.subrange(0, i as int),
            decreases 4 - i,
        {
            data.push(self.method[i]);
            proof {
                assert(data@ =~= u32_be_bytes(length) + self.method@.subrange(0, i + 1));
            }
            i += 1;
        }
        proof {
            assert(self.method@.subrange(0, 4) =~= self.method@);
        }

        let mut j: usize = 0;
        while j < self.data.len()
            invariant
                j <= self.data@.len(),
                data@ == u32_be_bytes(length) + self.method@ + self.data@.subrange(0, j as int),
            decreases self.data@.len() - j,
        {
            data.push(self.data[j]);
            proof {
                assert(data@ =~= u32_be_bytes(length) + self.method@ + self.data@.subrange(
                    0,
                    j + 1,
                ));
            }
            j += 1;
        }
        proof {
            assert(self.data@.subrange(0, self.data@.len() as int) =~= self.data@);
        }

        let crc_sum = crc32_ieee(data.as_slice());
        let mut checksum_raw = u32_to_be(crc_sum);
        data.append(&mut checksum_raw);

        proof {
            assert(length == (self.data@.len() + 12) as u32);
            assert(data@ =~= frame_of(self.method@, self.data@));
            lemma_u32_be_bytes_inverse(length);
            assert(data@.subrange(0, 4) =~= u32_be_bytes(length));
        }

        data
    }
}

/// Encoding law: a frame built from any four-byte method code and any payload
/// that fits the length field is a valid frame of exactly `12 + payload.len()`
/// bytes, and decoding it recovers the same method code and payload.
pub proof fn lemma_round_trip(method: Seq<u8>, payload: Seq<u8>)
    requires
        method.len() == 4,
        payload.len() + 12 <= u32::MAX,
    ensures
        frame_of(method, payload).len() == payload.len() + 12,
        valid_frame(frame_of(method, payload)),
        frame_of(method, payload).subrange(4, 8) == method,
        frame_of(method, payload).subrange(8, frame_of(method, payload).len() - 4) == payload,
{
    let len32 = (payload.len() + 12) as u32;
    let body = u32_be_bytes(len32) + method + payload;
    let b = frame_of(method, payload);
    lemma_u32_be_bytes_inverse(len32);
    lemma_u32_be_bytes_inverse(crc32_of(body));
    assert(b.subrange(0, 4) =~= u32_be_bytes(len32));
    assert(b.subrange(4, 8) =~= method);
    assert(b.subrange(8, b.len() - 4) =~= payload);
    assert(b.subrange(0, b.len() - 4) =~= body);
    assert(b.subrange(b.len() - 4, b.len() as int) =~= u32_be_bytes(crc32_of(body)));
}

/// Re-encoding law: a message decoded from a valid frame encodes back to the
/// very same bytes.
pub proof fn lemma_valid_frame_reencodes(b: Seq<u8>)
    requires
        valid_frame(b),
    ensures
        frame_of(b.subrange(4, 8), b.subrange(8, b.len() - 4)) == b,
{
    let method = b.subrange(4, 8);
    let payload = b.subrange(8, b.len() - 4);
    let head = b.subrange(0, 4);
    let tail = b.subrange(b.len() - 4, b.len() as int);
    let len32 = (payload.len() + 12) as u32;
    let body = u32_be_bytes(len32) + method + payload;

    lemma_be_u32_of_inverse(head);
    assert(len32 == be_u32_of(head));
    assert(u32_be_bytes(len32) == head);
    assert(body =~= b.subrange(0, b.len() - 4));

    lemma_be_u32_of_inverse(tail);
    assert(u32_be_bytes(crc32_of(body)) == tail);
    assert(frame_of(method, payload) =~= b);
}

/// Corruption law: changing a valid frame in any single byte past the length
/// field leaves the length field truthful but breaks the checksum — provided,
/// for a change inside the checksummed region, that the two checksums do not
/// collide.
pub proof fn lemma_corruption_detected(b: Seq<u8>, c: Seq<u8>, i: int)
    requires
        valid_frame(b),
        c.len() == b.len(),
        4 <= i < b.len(),
        c == b.update(i, c[i]),
        c[i] != b[i],
        i < b.len() - 4 ==> crc32_of(c.subrange(0, c.len() - 4)) != crc32_of(
            b.subrange(0, b.len() - 4),
        ),
    ensures
        length_field_ok(c),
        !checksum_matches(c),
        !valid_frame(c),
{
    assert(c.subrange(0, 4) =~= b.subrange(0, 4));
    let tb = b.subrange(b.len() - 4, b.len() as int);
    let tc = c.subrange(c.len() - 4, c.len() as int);
    if i < b.len() - 4 {
        assert(tc =~= tb);
    } else {
        assert(c.subrange(0, c.len() - 4) =~= b.subrange(0, b.len() - 4));
        let k = i - (b.len() - 4);
        assert(tc[k] == c[i] && tb[k] == b[i]);
        assert(tc != tb);
        if be_u32_of(tc) == be_u32_of(tb) {
            lemma_be_u32_of_inverse(tb);
            lemma_be_u32_of_inverse(tc);
            assert(false);
        }
    }
}

/// Truncation law: no strict prefix of a valid frame has a truthful length
/// field, so decoding any such prefix reports a length failure.
pub proof fn lemma_truncation_rejected(b: Seq<u8>, n: int)
    requires
        valid_frame(b),
        0 <= n < b.len(),
    ensures
        !length_field_ok(b.subrange(0, n)),
        !valid_frame(b.subrange(0, n)),
{
    let p = b.subrange(0, n);
    if n >= 4 {
        assert(p.subrange(0, 4) =~= b.subrange(0, 4));
    }
}

} // verus!
