//! The on-disk header and its codec.
//!
//! A file begins with: the 4-byte magic tag `MMAP`, the record type
//! identity as a length-prefixed byte string (8-byte little-endian length,
//! then the bytes), and the record count as a fixed-width 8-byte
//! little-endian integer.  Every integer is fixed width, so the encoded
//! size depends only on the type identity, never on the count's value.

use crate::error::MmapError;
use vstd::bytes::{
    lemma_auto_spec_u64_to_from_le_bytes, spec_u64_from_le_bytes, spec_u64_to_le_bytes,
    u64_from_le_bytes, u64_to_le_bytes,
};
use vstd::prelude::*;
use vstd::slice::slice_subrange;

verus! {

/// The longest type identity the format accepts, in bytes.
pub const MAX_TYPENAME_LEN: usize = 0x1000_0000;

/// Byte length of the fixed part of the header: magic tag, length prefix,
/// record count.
pub const HEADER_FIXED_LEN: usize = 20;

/// The magic tag that opens every header: the bytes of `MMAP`.
pub open spec fn spec_magic() -> Seq<u8> {
    seq![77u8, 77u8, 65u8, 80u8]
}

/// The encoding of a header with the given type identity and record count.
pub open spec fn spec_encoding(typename: Seq<u8>, count: u64) -> Seq<u8> {
    spec_magic() + spec_u64_to_le_bytes(typename.len() as u64) + typename
        + spec_u64_to_le_bytes(count)
}

/// The self-describing preamble of a mapped file: magic tag, record type
/// identity, record count.  Built once when the file is created and never
/// mutated afterwards.
#[derive(Debug)]
pub struct MmapFileHdr {
    pub magic: [u8; 4],
    pub typename: Vec<u8>,
    pub size: u64,
}

impl MmapFileHdr {
    /// A well-formed header carries the magic tag and a type identity of
    /// accepted length.
    pub open spec fn wf(self) -> bool {
        self.magic@ == spec_magic() && self.typename@.len() <= MAX_TYPENAME_LEN
    }

    /// The type identity stored in the header.
    pub open spec fn spec_typename(self) -> Seq<u8> {
        self.typename@
    }

    /// The record count stored in the header.
    pub open spec fn spec_size(self) -> u64 {
        self.size
    }

    /// The bytes this header encodes to.
    pub open spec fn spec_enc(self) -> Seq<u8> {
        spec_encoding(self.typename@, self.size)
    }

    /// Build the header for a file of `size` records of the type named
    /// `typename`.
    pub fn new(typename: Vec<u8>, size: u64) -> (h: Self)
        requires
            typename@.len() <= MAX_TYPENAME_LEN,
        ensures
            h.wf(),
            h.spec_typename() == typename@,
            h.spec_size() == size,
    {
        let magic: [u8; 4] = [77u8, 77u8, 65u8, 80u8];
        proof {
            assert(magic@ =~= spec_magic());
        }
        MmapFileHdr { magic, typename, size }
    }
}

/// An encoding is 20 bytes plus the type identity.
pub proof fn lemma_encoding_len(typename: Seq<u8>, count: u64)
    ensures
        spec_encoding(typename, count).len() == HEADER_FIXED_LEN + typename.len(),
{
    lemma_auto_spec_u64_to_from_le_bytes();
}

/// The encoded size of a header does not depend on the numeric value of
/// its record count: counts of any magnitude encode to the same length.
pub proof fn lemma_serialized_size_independent_of_count(typename: Seq<u8>, a: u64, b: u64)
    ensures
        spec_encoding(typename, a).len() == spec_encoding(typename, b).len(),
{
    lemma_encoding_len(typename, a);
    lemma_encoding_len(typename, b);
}

impl MmapFileHdr {
    /// Append the header's encoding to `out`.
    pub fn serialize_into(&self, out: &mut Vec<u8>)
        requires
            self.wf(),
            old(out)@.len() + HEADER_FIXED_LEN + self.spec_typename().len() <= usize::MAX,
        ensures
            final(out)@ == old(out)@ + self.spec_enc(),
    {
        proof {
            lemma_auto_spec_u64_to_from_le_bytes();
        }
        out.push(self.magic[0]);
        out.push(self.magic[1]);
        out.push(self.magic[2]);
        out.push(self.magic[3]);
        let len_bytes = u64_to_le_bytes(self.typename.len() as u64);
        append_bytes(out, len_bytes.as_slice());
        append_bytes(out, self.typename.as_slice());
        let count_bytes = u64_to_le_bytes(self.size);
        append_bytes(out, count_bytes.as_slice());
        proof {
            assert(out@ =~= old(out)@ + self.spec_enc());
        }
    }

    /// The exact byte length of this header's encoding, found by encoding
    /// it: the type identity is variable length, so the size cannot be a
    /// constant.
    pub fn serialized_size(&self) -> (n: u64)
        requires
            self.wf(),
        ensures
            n == self.spec_enc().len(),
            n == HEADER_FIXED_LEN + self.spec_typename().len(),
    {
        proof {
            lemma_encoding_len(self.typename@, self.size);
        }
        let mut buf: Vec<u8> = Vec::new();
        self.serialize_into(&mut buf);
        buf.len() as u64
    }

    /// The header's encoded size rounded up to a record type's own
    /// alignment.  The format's data offset is governed by the page size
    /// alone (see [`crate::view::spec_data_offset`]), which also satisfies
    /// any record alignment up to a page; this helper only reports what
    /// record-level alignment would ask for.
    pub fn padded_size(&self, elem_align: u64) -> (r: u64)
        requires
            self.wf(),
            1 <= elem_align,
            elem_align <= crate::align::PAGE_SIZE,
        ensures
            r == crate::align::spec_align_up(self.spec_enc().len() as int, elem_align as int),
    {
        let own_size = self.serialized_size();
        if elem_align > 1 {
            crate::align::align_up(own_size, elem_align)
        } else {
            proof {
                crate::align::lemma_align_up_bounds(own_size as int, 1);
            }
            own_size
        }
    }
}

/// How many bytes the full header occupies, read off a prefix of at least
/// twelve stored bytes: the fixed part plus the type-identity length the
/// prefix declares.  A caller that has read the start of a file uses this
/// to learn how much more of the header to read.
pub fn header_len_from_prefix(prefix: &[u8]) -> (r: Result<u64, MmapError>)
    ensures
        match r {
            Ok(n) => {
                &&& prefix@.len() >= 12
                &&& prefix@.subrange(0, 4) == spec_magic()
                &&& spec_name_len(prefix@) <= MAX_TYPENAME_LEN
                &&& n == HEADER_FIXED_LEN + spec_name_len(prefix@)
            },
            Err(e) => {
                &&& (prefix@.len() < 12 || prefix@.subrange(0, 4) != spec_magic()
                    || spec_name_len(prefix@) > MAX_TYPENAME_LEN)
                &&& e == (if prefix@.len() >= 4 && prefix@.subrange(0, 4) != spec_magic() {
                    MmapError::BadMagic
                } else {
                    MmapError::TruncatedHeader
                })
            },
        },
{
    if prefix.len() < 4 {
        return Err(MmapError::TruncatedHeader);
    }
    let m0 = *vstd::slice::slice_index_get(prefix, 0);
    let m1 = *vstd::slice::slice_index_get(prefix, 1);
    let m2 = *vstd::slice::slice_index_get(prefix, 2);
    let m3 = *vstd::slice::slice_index_get(prefix, 3);
    if !(m0 == 77 && m1 == 77 && m2 == 65 && m3 == 80) {
        proof {
            assert(prefix@.subrange(0, 4) != spec_magic()) by {
                assert(prefix@.subrange(0, 4)[0] == m0);
                assert(prefix@.subrange(0, 4)[1] == m1);
                assert(prefix@.subrange(0, 4)[2] == m2);
                assert(prefix@.subrange(0, 4)[3] == m3);
                assert(spec_magic()[0] == 77 && spec_magic()[1] == 77 && spec_magic()[2] == 65
                    && spec_magic()[3] == 80);
            }
        }
        return Err(MmapError::BadMagic);
    }
    proof {
        assert(prefix@.subrange(0, 4) =~= spec_magic());
    }
    if prefix.len() < 12 {
        return Err(MmapError::TruncatedHeader);
    }
    let name_len = u64_from_le_bytes(slice_subrange(prefix, 4, 12));
    if name_len > MAX_TYPENAME_LEN as u64 {
        return Err(MmapError::TruncatedHeader);
    }
    Ok(HEADER_FIXED_LEN as u64 + name_len)
}

/// The type-identity length claimed by the length prefix of `bytes`.
pub open spec fn spec_name_len(bytes: Seq<u8>) -> int
    recommends
        bytes.len() >= 12,
{
    spec_u64_from_le_bytes(bytes.subrange(4, 12)) as int
}

/// Whether `bytes` begins with a complete, well-formed header encoding.
pub open spec fn spec_can_decode(bytes: Seq<u8>) -> bool {
    &&& bytes.len() >= HEADER_FIXED_LEN
    &&& bytes.subrange(0, 4) == spec_magic()
    &&& spec_name_len(bytes) <= MAX_TYPENAME_LEN
    &&& bytes.len() >= HEADER_FIXED_LEN + spec_name_len(bytes)
}

/// The type identity stored in a decodable `bytes`.
pub open spec fn spec_decoded_typename(bytes: Seq<u8>) -> Seq<u8>
    recommends
        spec_can_decode(bytes),
{
    bytes.subrange(12, 12 + spec_name_len(bytes))
}

/// The record count stored in a decodable `bytes`.
pub open spec fn spec_decoded_size(bytes: Seq<u8>) -> u64
    recommends
        spec_can_decode(bytes),
{
    spec_u64_from_le_bytes(
        bytes.subrange(12 + spec_name_len(bytes), HEADER_FIXED_LEN + spec_name_len(bytes)),
    )
}

/// The error reported for a `bytes` that does not decode: a wrong magic
/// tag is `BadMagic`; everything else — too few bytes, or a length prefix
/// beyond the accepted maximum — is `TruncatedHeader`.
pub open spec fn spec_decode_err(bytes: Seq<u8>) -> MmapError {
    if bytes.len() >= 4 && bytes.subrange(0, 4) != spec_magic() {
        MmapError::BadMagic
    } else {
        MmapError::TruncatedHeader
    }
}

impl MmapFileHdr {
    /// Decode a header from the start of `bytes`.  Succeeds exactly when
    /// `bytes` begins with a complete header encoding; on success the
    /// decoded header re-encodes to that very prefix.
    pub fn deserialize_from(bytes: &[u8]) -> (r: Result<Self, MmapError>)
        ensures
            r is Ok <==> spec_can_decode(bytes@),
            r matches Ok(h) ==> {
                &&& h.wf()
                &&& h.spec_typename() == spec_decoded_typename(bytes@)
                &&& h.spec_size() == spec_decoded_size(bytes@)
                &&& h.spec_enc() == bytes@.subrange(
                    0,
                    HEADER_FIXED_LEN + spec_name_len(bytes@),
                )
            },
            r matches Err(e) ==> e == spec_decode_err(bytes@),
    {
        proof {
            lemma_auto_spec_u64_to_from_le_bytes();
        }
        if bytes.len() < 4 {
            return Err(MmapError::TruncatedHeader);
        }
        let m0 = *vstd::slice::slice_index_get(bytes, 0);
        let m1 = *vstd::slice::slice_index_get(bytes, 1);
        let m2 = *vstd::slice::slice_index_get(bytes, 2);
        let m3 = *vstd::slice::slice_index_get(bytes, 3);
        if !(m0 == 77 && m1 == 77 && m2 == 65 && m3 == 80) {
            proof {
                assert(bytes@.subrange(0, 4) != spec_magic()) by {
                    assert(bytes@.subrange(0, 4)[0] == m0);
                    assert(bytes@.subrange(0, 4)[1] == m1);
                    assert(bytes@.subrange(0, 4)[2] == m2);
                    assert(bytes@.subrange(0, 4)[3] == m3);
                    assert(spec_magic()[0] == 77 && spec_magic()[1] == 77 && spec_magic()[2]
                        == 65 && spec_magic()[3] == 80);
                }
            }
            return Err(MmapError::BadMagic);
        }
        proof {
            assert(bytes@.subrange(0, 4) =~= spec_magic());
        }
        if bytes.len() < HEADER_FIXED_LEN {
            return Err(MmapError::TruncatedHeader);
        }
        let name_len = u64_from_le_bytes(slice_subrange(bytes, 4, 12));
        if name_len > MAX_TYPENAME_LEN as u64 {
            return Err(MmapError::TruncatedHeader);
        }
        let nl = name_len as usize;
        if bytes.len() < HEADER_FIXED_LEN + nl {
            return Err(MmapError::TruncatedHeader);
        }
        let typename = vstd::slice::slice_to_vec(slice_subrange(bytes, 12, 12 + nl));
        let size = u64_from_le_bytes(slice_subrange(bytes, 12 + nl, HEADER_FIXED_LEN + nl));
        let magic: [u8; 4] = [77u8, 77u8, 65u8, 80u8];
        let h = MmapFileHdr { magic, typename, size };
        proof {
            assert(magic@ =~= spec_magic());
            assert(h.typename@ == spec_decoded_typename(bytes@));
            assert(h.size == spec_decoded_size(bytes@));
            assert(spec_u64_to_le_bytes(name_len) =~= bytes@.subrange(4, 12));
            assert(spec_u64_to_le_bytes(size) =~= bytes@.subrange(
                12 + name_len as int,
                HEADER_FIXED_LEN + name_len as int,
            ));
            assert(h.spec_enc() =~= bytes@.subrange(0, HEADER_FIXED_LEN + spec_name_len(bytes@)));
        }
        Ok(h)
    }
}

/// Round trip of the codec: an encoding followed by anything at all — the
/// padding and data that share the file — decodes back to the same type
/// identity and record count.
pub proof fn lemma_decode_encode(typename: Seq<u8>, count: u64, tail: Seq<u8>)
    requires
        typename.len() <= MAX_TYPENAME_LEN,
    ensures
        spec_can_decode(spec_encoding(typename, count) + tail),
        spec_decoded_typename(spec_encoding(typename, count) + tail) == typename,
        spec_decoded_size(spec_encoding(typename, count) + tail) == count,
{
    lemma_auto_spec_u64_to_from_le_bytes();
    let bytes = spec_encoding(typename, count) + tail;
    let nl = typename.len() as u64;
    assert(bytes.subrange(0, 4) =~= spec_magic());
    assert(bytes.subrange(4, 12) =~= spec_u64_to_le_bytes(nl));
    assert(spec_name_len(bytes) == typename.len());
    assert(bytes.subrange(12, 12 + spec_name_len(bytes)) =~= typename);
    assert(bytes.subrange(12 + spec_name_len(bytes), HEADER_FIXED_LEN + spec_name_len(bytes))
        =~= spec_u64_to_le_bytes(count));
}

/// Append every byte of `src` to `out`.
fn append_bytes(out: &mut Vec<u8>, src: &[u8])
    requires
        old(out)@.len() + src@.len() <= usize::MAX,
    ensures
        final(out)@ == old(out)@ + src@,
{
    let mut i: usize = 0;
    while i < src.len()
        invariant
            i <= src@.len(),
            out@ == old(out)@ + src@.subrange(0, i as int),
        decreases src@.len() - i,
    {
        out.push(*vstd::slice::slice_index_get(src, i));
        proof {
            assert(src@.subrange(0, i + 1) =~= src@.subrange(0, i as int).push(src@[i as int]));
        }
        i = i + 1;
    }
    proof {
        assert(src@.subrange(0, src@.len() as int) =~= src@);
    }
}

} // verus!
