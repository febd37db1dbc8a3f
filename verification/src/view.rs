//! The typed view over a mapped byte region, and the plans that decide how
//! a backing file is created or reopened.
//!
//! The view never performs file or mapping system calls itself: a caller
//! maps the data region of the file, hands the region in through the
//! [`Mmap`] trait, and the view reinterprets its bytes as a sequence of
//! fixed-size records.  The plans do every computation and every check
//! that creation and reopening need — header encoding and decoding, type
//! identity comparison, page alignment, size arithmetic — so the caller is
//! left with nothing but the raw file operations.

use crate::align::{lemma_align_up_bounds, page_align, spec_align_up, PAGE_SIZE};
use crate::error::MmapError;
use crate::header::{
    lemma_decode_encode, lemma_encoding_len, spec_can_decode, spec_decode_err, spec_decoded_size,
    spec_decoded_typename, spec_encoding, MmapFileHdr, HEADER_FIXED_LEN, MAX_TYPENAME_LEN,
};
use vstd::prelude::*;
use vstd::slice::slice_index_get;

verus! {

/// A byte region mapped into the address space.  The library's own
/// [`HeapRegion`] is a plain in-memory implementor; a caller that maps a
/// real file implements this for its mapping handle.  The region is
/// exclusively owned by whoever holds it, and its release travels with
/// that ownership.
pub trait Mmap: Sized {
    /// The bytes the region holds.  The default leaves them arbitrary;
    /// an implementor verified here overrides it with the real contents.
    open spec fn bytes(&self) -> Seq<u8> {
        arbitrary()
    }

    /// The region's length in bytes.
    fn size(&self) -> (r: usize)
        ensures
            r == self.bytes().len(),
    ;

    /// Read access to the whole region.
    fn as_slice(&self) -> (r: &[u8])
        ensures
            r@ == self.bytes(),
    ;

    /// Write access to the whole region: whatever the caller writes
    /// through the slice is what the region holds afterwards.
    fn as_slice_mut(&mut self) -> (r: &mut [u8])
        ensures
            r@ == old(self).bytes(),
            final(self).bytes() == final(r)@,
    ;
}

/// A heap-allocated byte region: an in-memory stand-in for a file mapping.
pub struct HeapRegion {
    pub data: Vec<u8>,
}

impl HeapRegion {
    /// A zero-filled region of `len` bytes, holding what a freshly
    /// created, never-written file presents.
    pub fn new_zeroed(len: usize) -> (r: Self)
        ensures
            r.bytes().len() == len,
            forall|i: int| 0 <= i < len ==> r.bytes()[i] == 0u8,
    {
        let mut data: Vec<u8> = Vec::new();
        let mut i: usize = 0;
        while i < len
            invariant
                i <= len,
                data@.len() == i,
                forall|j: int| 0 <= j < i ==> data@[j] == 0u8,
            decreases len - i,
        {
            data.push(0u8);
            i = i + 1;
        }
        HeapRegion { data }
    }
}

impl Mmap for HeapRegion {
    open spec fn bytes(&self) -> Seq<u8> {
        self.data@
    }

    fn size(&self) -> usize {
        self.data.len()
    }

    fn as_slice(&self) -> &[u8] {
        self.data.as_slice()
    }

    fn as_slice_mut(&mut self) -> &mut [u8] {
        self.data.as_mut_slice()
    }
}

/// A typed view: exclusive owner of one mapped region, reinterpreted as a
/// logical sequence of `count` records of `record_size` bytes each.  The
/// region holds exactly the records — no padding byte of the file is part
/// of it.
pub struct MmapFile<M: Mmap> {
    pub map: M,
    pub record_size: usize,
    pub count: usize,
}

impl<M: Mmap> MmapFile<M> {
    /// The number of records in the view.
    pub open spec fn spec_count(self) -> usize {
        self.count
    }

    /// The byte size of one record.
    pub open spec fn spec_record_size(self) -> usize {
        self.record_size
    }

    /// The bytes of the viewed region.
    pub open spec fn spec_bytes(self) -> Seq<u8> {
        self.map.bytes()
    }

    /// Well-formed: records are at least one byte, and the region holds
    /// exactly `count * record_size` bytes.
    pub open spec fn wf(self) -> bool {
        &&& 1 <= self.record_size
        &&& self.count * self.record_size <= usize::MAX
        &&& self.map.bytes().len() == self.count * self.record_size
    }

    /// Take ownership of `region` and view it as `capacity` records of
    /// `record_size` bytes each.  Succeeds exactly when the region's
    /// length is `capacity * record_size`.
    pub fn map(region: M, capacity: usize, record_size: usize) -> (r: Result<Self, MmapError>)
        requires
            1 <= record_size,
        ensures
            match r {
                Ok(v) => {
                    &&& capacity * record_size <= usize::MAX
                    &&& region.bytes().len() == capacity * record_size
                    &&& v.wf()
                    &&& v.spec_count() == capacity
                    &&& v.spec_record_size() == record_size
                    &&& v.spec_bytes() == region.bytes()
                },
                Err(e) => {
                    &&& (capacity * record_size > usize::MAX || region.bytes().len() != capacity
                        * record_size)
                    &&& e == (if capacity * record_size > usize::MAX {
                        MmapError::SizeOverflow
                    } else {
                        MmapError::RegionSizeMismatch
                    })
                },
            },
    {
        let data_len = match capacity.checked_mul(record_size) {
            Some(n) => n,
            None => {
                return Err(MmapError::SizeOverflow);
            },
        };
        if region.size() != data_len {
            return Err(MmapError::RegionSizeMismatch);
        }
        Ok(MmapFile { map: region, record_size, count: capacity })
    }

    /// The view's byte length: record count times record size.
    pub fn size(&self) -> (r: usize)
        requires
            self.wf(),
        ensures
            r == self.spec_bytes().len(),
            r == self.spec_count() * self.spec_record_size(),
    {
        self.map.size()
    }

    /// The number of records in the view.
    pub fn len(&self) -> (r: usize)
        ensures
            r == self.spec_count(),
    {
        self.count
    }

    /// The records' bytes, exactly: the file's padding is not part of the
    /// slice.
    pub fn as_slice(&self) -> (r: &[u8])
        ensures
            r@ == self.spec_bytes(),
    {
        self.map.as_slice()
    }

    /// Write access to the records' bytes; whatever the caller writes
    /// through the slice is what the view holds afterwards.
    pub fn as_slice_mut(&mut self) -> (r: &mut [u8])
        ensures
            r@ == old(self).spec_bytes(),
            final(self).spec_bytes() == final(r)@,
            final(self).spec_count() == old(self).spec_count(),
            final(self).spec_record_size() == old(self).spec_record_size(),
    {
        self.map.as_slice_mut()
    }
}

/// The file offset of the data region for a given type identity: the
/// header's encoded size rounded up to the page size.
pub open spec fn spec_data_offset(typename: Seq<u8>) -> int {
    spec_align_up(HEADER_FIXED_LEN + typename.len(), PAGE_SIZE as int)
}

/// The data region's file offset is an exact multiple of the page size,
/// for every type identity, however long — and it lies past the header.
pub proof fn lemma_data_offset_page_aligned(typename: Seq<u8>)
    ensures
        spec_data_offset(typename) % (PAGE_SIZE as int) == 0,
        HEADER_FIXED_LEN + typename.len() <= spec_data_offset(typename),
        spec_data_offset(typename) < HEADER_FIXED_LEN + typename.len() + PAGE_SIZE,
{
    lemma_align_up_bounds(HEADER_FIXED_LEN + typename.len(), PAGE_SIZE as int);
}

/// How to lay a new file out: the encoded header to write at offset zero,
/// the page-aligned offset of the data region, the exact byte length of
/// the data region, and the padded total file length.
#[derive(Debug)]
pub struct CreatePlan {
    pub header_bytes: Vec<u8>,
    pub data_offset: u64,
    pub data_len: u64,
    pub file_len: u64,
}

/// Whether a file of `capacity` records of `record_size` bytes each, under
/// a header for `typename`, fits the representable sizes.
pub open spec fn spec_create_ok(typename: Seq<u8>, capacity: u64, record_size: u64) -> bool {
    &&& capacity * record_size <= u64::MAX
    &&& spec_data_offset(typename) + capacity * record_size <= u64::MAX - (PAGE_SIZE - 1)
}

/// Decide the layout of a new file of `capacity` records: encode the
/// header, place the data region at the next page boundary, and pad the
/// file length to a page boundary.  Fails exactly when a size would
/// overflow the representable range.
pub fn create_plan(typename: Vec<u8>, capacity: u64, record_size: u64) -> (r: Result<
    CreatePlan,
    MmapError,
>)
    requires
        typename@.len() <= MAX_TYPENAME_LEN,
        1 <= record_size,
    ensures
        r is Ok <==> spec_create_ok(typename@, capacity, record_size),
        r matches Ok(p) ==> {
            &&& p.header_bytes@ == spec_encoding(typename@, capacity)
            &&& p.data_offset == spec_data_offset(typename@)
            &&& p.data_len == capacity * record_size
            &&& p.file_len == spec_align_up(
                spec_data_offset(typename@) + capacity * record_size,
                PAGE_SIZE as int,
            )
        },
        r matches Err(e) ==> e == MmapError::SizeOverflow,
{
    proof {
        lemma_encoding_len(typename@, capacity);
    }
    let hdr = MmapFileHdr::new(typename, capacity);
    let mut header_bytes: Vec<u8> = Vec::new();
    hdr.serialize_into(&mut header_bytes);
    let hdr_size = header_bytes.len() as u64;
    let data_offset = page_align(hdr_size);
    let data_len = match capacity.checked_mul(record_size) {
        Some(n) => n,
        None => {
            return Err(MmapError::SizeOverflow);
        },
    };
    let total = match data_offset.checked_add(data_len) {
        Some(n) => n,
        None => {
            return Err(MmapError::SizeOverflow);
        },
    };
    if total > u64::MAX - (PAGE_SIZE - 1) {
        return Err(MmapError::SizeOverflow);
    }
    let file_len = page_align(total);
    Ok(CreatePlan { header_bytes, data_offset, data_len, file_len })
}

/// How to reopen an existing file: the page-aligned offset of the data
/// region, its exact byte length, and the record count its header
/// declares.
#[derive(Debug)]
pub struct OpenPlan {
    pub data_offset: u64,
    pub data_len: u64,
    pub count: u64,
}

/// What reopening decides, over the stored header bytes: a header that
/// does not decode keeps its decode error; a decoded type identity other
/// than the requested one is a type mismatch; a data region beyond the
/// representable or addressable sizes is a capacity error, as is a file
/// shorter than the data region's end.  Otherwise the data region is at
/// the page-aligned offset, `count * record_size` bytes long.
pub open spec fn spec_open_result(
    bytes: Seq<u8>,
    expected_typename: Seq<u8>,
    record_size: u64,
    file_len: u64,
) -> Result<(int, int, u64), MmapError> {
    if !spec_can_decode(bytes) {
        Err(spec_decode_err(bytes))
    } else if spec_decoded_typename(bytes) != expected_typename {
        Err(MmapError::TypeMismatch)
    } else {
        let count = spec_decoded_size(bytes);
        let data_offset = spec_data_offset(expected_typename);
        if count * record_size > u64::MAX {
            Err(MmapError::SizeOverflow)
        } else if count * record_size > usize::MAX {
            Err(MmapError::FileTooLarge)
        } else if file_len < data_offset + count * record_size {
            Err(MmapError::FileTooSmall)
        } else {
            Ok((data_offset, count * record_size, count))
        }
    }
}

/// Decide how to reopen a file from its stored header bytes, the record
/// type the caller requests (identity and byte size), and the file's
/// length.  Returns exactly what [`spec_open_result`] states.
pub fn open_plan(
    header_bytes: &[u8],
    expected_typename: &[u8],
    record_size: u64,
    file_len: u64,
) -> (r: Result<OpenPlan, MmapError>)
    requires
        expected_typename@.len() <= MAX_TYPENAME_LEN,
        1 <= record_size,
    ensures
        ({
            let s = spec_open_result(header_bytes@, expected_typename@, record_size, file_len);
            match r {
                Ok(p) => s == Ok::<_, MmapError>(
                    (p.data_offset as int, p.data_len as int, p.count),
                ),
                Err(e) => s == Err::<(int, int, u64), _>(e),
            }
        }),
{
    let hdr = match MmapFileHdr::deserialize_from(header_bytes) {
        Ok(h) => h,
        Err(e) => {
            return Err(e);
        },
    };
    if !bytes_equal(hdr.typename.as_slice(), expected_typename) {
        return Err(MmapError::TypeMismatch);
    }
    let hdr_size = hdr.serialized_size();
    let data_offset = page_align(hdr_size);
    let count = hdr.size;
    let data_len = match count.checked_mul(record_size) {
        Some(n) => n,
        None => {
            return Err(MmapError::SizeOverflow);
        },
    };
    if data_len > usize::MAX as u64 {
        return Err(MmapError::FileTooLarge);
    }
    let end = match data_offset.checked_add(data_len) {
        Some(n) => n,
        None => {
            return Err(MmapError::FileTooSmall);
        },
    };
    if file_len < end {
        return Err(MmapError::FileTooSmall);
    }
    Ok(OpenPlan { data_offset, data_len, count })
}

/// Whether two byte strings are equal.
fn bytes_equal(a: &[u8], b: &[u8]) -> (r: bool)
    ensures
        r == (a@ == b@),
{
    if a.len() != b.len() {
        return false;
    }
    let mut i: usize = 0;
    while i < a.len()
        invariant
            i <= a@.len(),
            a@.len() == b@.len(),
            forall|j: int| 0 <= j < i ==> a@[j] == b@[j],
        decreases a@.len() - i,
    {
        if *slice_index_get(a, i) != *slice_index_get(b, i) {
            return false;
        }
        i = i + 1;
    }
    proof {
        assert(a@ =~= b@);
    }
    true
}

/// Creating a file and then reopening it agree: the header written at
/// creation decodes back, matches the same type identity, and reopening
/// finds the same data offset, the same data length, and exactly
/// `capacity` records — whatever bytes follow the header in the file.
pub proof fn lemma_create_then_open(
    typename: Seq<u8>,
    capacity: u64,
    record_size: u64,
    tail: Seq<u8>,
)
    requires
        typename.len() <= MAX_TYPENAME_LEN,
        1 <= record_size,
        spec_create_ok(typename, capacity, record_size),
        capacity * record_size <= usize::MAX,
    ensures
        ({
            let bytes = spec_encoding(typename, capacity) + tail;
            let file_len = spec_align_up(
                spec_data_offset(typename) + capacity * record_size,
                PAGE_SIZE as int,
            );
            spec_open_result(bytes, typename, record_size, file_len as u64) == Ok::<_, MmapError>(
                (spec_data_offset(typename), (capacity * record_size) as int, capacity),
            )
        }),
{
    lemma_decode_encode(typename, capacity, tail);
    lemma_data_offset_page_aligned(typename);
    lemma_align_up_bounds(
        spec_data_offset(typename) + capacity * record_size,
        PAGE_SIZE as int,
    );
}

/// A file created for one record type never reopens as another: whatever
/// the capacity, the file's length, the record sizes, and the bytes past
/// the header, asking for a different type identity fails with a type
/// mismatch — it is never silently reinterpreted.
pub proof fn lemma_open_other_type_fails(
    typename: Seq<u8>,
    capacity: u64,
    requested: Seq<u8>,
    record_size: u64,
    tail: Seq<u8>,
    file_len: u64,
)
    requires
        typename.len() <= MAX_TYPENAME_LEN,
        requested != typename,
    ensures
        spec_open_result(spec_encoding(typename, capacity) + tail, requested, record_size, file_len)
            == Err::<(int, int, u64), _>(MmapError::TypeMismatch),
{
    lemma_decode_encode(typename, capacity, tail);
}

/// Round trip of the data region: take any file whose header still reads
/// "`capacity` records of `typename`" and whose length reaches the data
/// region's end — in particular a file whose data region was overwritten
/// with any byte pattern and released.  Reopening maps exactly the same
/// region, at the same offset and length, so every byte written into the
/// region is the byte read back.
pub proof fn lemma_write_then_reopen(
    typename: Seq<u8>,
    capacity: u64,
    record_size: u64,
    file_image: Seq<u8>,
)
    requires
        typename.len() <= MAX_TYPENAME_LEN,
        1 <= record_size,
        capacity * record_size <= usize::MAX,
        spec_encoding(typename, capacity).is_prefix_of(file_image),
        spec_data_offset(typename) + capacity * record_size <= file_image.len() <= u64::MAX,
    ensures
        spec_open_result(file_image, typename, record_size, file_image.len() as u64) == Ok::<
            _,
            MmapError,
        >((spec_data_offset(typename), (capacity * record_size) as int, capacity)),
{
    let enc = spec_encoding(typename, capacity);
    let tail = file_image.skip(enc.len() as int);
    assert(file_image =~= enc + tail);
    lemma_decode_encode(typename, capacity, tail);
    lemma_data_offset_page_aligned(typename);
}

} // verus!
