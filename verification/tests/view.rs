//! The typed view and the create/open plans, exercised end to end over an
//! in-memory stand-in for the mapped file.

use mmapfile::error::MmapError;
use mmapfile::view::{create_plan, open_plan, CreatePlan, HeapRegion, MmapFile, OpenPlan};

/// The byte image of a freshly created file: the encoded header at offset
/// zero, zero everywhere else, padded to the planned file length.
fn fresh_file(plan: &CreatePlan) -> Vec<u8> {
    let mut file = vec![0u8; plan.file_len as usize];
    file[..plan.header_bytes.len()].copy_from_slice(&plan.header_bytes);
    file
}

/// Reopen a file image as a view, the way a caller maps the data region.
fn reopen(file: &[u8], typename: &[u8], record_size: u64) -> Result<MmapFile<HeapRegion>, MmapError> {
    let plan: OpenPlan = open_plan(file, typename, record_size, file.len() as u64)?;
    let start = plan.data_offset as usize;
    let end = start + plan.data_len as usize;
    let region = HeapRegion {
        data: file[start..end].to_vec(),
    };
    MmapFile::map(region, plan.count as usize, record_size as usize)
}

#[test]
fn as_slice() {
    let plan = create_plan(b"u8".to_vec(), 4096, 1).unwrap();
    let file = fresh_file(&plan);
    let fa = reopen(&file, b"u8", 1).unwrap();
    let slice: &[u8] = fa.as_slice();
    assert_eq!(slice, &[0u8; 4096]);
}

#[test]
fn as_slice_mut() {
    let plan = create_plan(b"u8".to_vec(), 4096, 1).unwrap();
    let file = fresh_file(&plan);
    let mut fa = reopen(&file, b"u8", 1).unwrap();
    let slice = fa.as_slice_mut();
    assert_eq!(slice, &[0u8; 4096]);
    for i in 0..slice.len() {
        slice[i] = 1;
    }
    assert_eq!(slice, &[1u8; 4096]);
}

#[test]
fn as_slice_mut_unaligned() {
    let plan = create_plan(b"u8".to_vec(), 4000, 1).unwrap();
    let file = fresh_file(&plan);
    let mut fa = reopen(&file, b"u8", 1).unwrap();
    let slice = fa.as_slice_mut();
    assert_eq!(slice.len(), 4000);
    assert_eq!(slice, &[0u8; 4000]);
    for i in 0..slice.len() {
        slice[i] = 1;
    }
    assert_eq!(slice, &[1u8; 4000]);
}

#[test]
fn create_then_open_zeroed() {
    let plan = create_plan(b"record".to_vec(), 10, 8).unwrap();
    assert_eq!(plan.data_offset, 4096);
    assert_eq!(plan.data_len, 80);
    assert_eq!(plan.file_len, 8192);
    let file = fresh_file(&plan);
    let fa = reopen(&file, b"record", 8).unwrap();
    assert_eq!(fa.len(), 10);
    assert_eq!(fa.size(), 80);
    assert!(fa.as_slice().iter().all(|&b| b == 0));
}

#[test]
fn write_then_reopen_round_trip() {
    let record_size = 4u64;
    let plan = create_plan(b"quad".to_vec(), 6, record_size).unwrap();
    let mut file = fresh_file(&plan);

    // Write a pattern through the mutable view of the data region.
    let mut fa = reopen(&file, b"quad", record_size).unwrap();
    let slice = fa.as_slice_mut();
    for i in 0..slice.len() {
        slice[i] = (i * 7 % 251) as u8;
    }

    // Persist the view's bytes back into the file image, release the
    // view, and reopen: every byte written comes back identical.
    let start = plan.data_offset as usize;
    file[start..start + plan.data_len as usize].copy_from_slice(fa.as_slice());
    drop(fa);
    let reopened = reopen(&file, b"quad", record_size).unwrap();
    assert_eq!(reopened.len(), 6);
    let back = reopened.as_slice();
    for i in 0..back.len() {
        assert_eq!(back[i], (i * 7 % 251) as u8);
    }
}

#[test]
fn open_type_mismatch() {
    // Create for one record type, reopen asking for another: an error,
    // not a reinterpretation, whether the size or only the name differs.
    let plan = create_plan(b"type_a".to_vec(), 10, 2).unwrap();
    let file = fresh_file(&plan);
    assert_eq!(
        reopen(&file, b"type_b", 4).err().unwrap(),
        MmapError::TypeMismatch
    );
    assert_eq!(
        reopen(&file, b"type_c", 2).err().unwrap(),
        MmapError::TypeMismatch
    );
    assert!(reopen(&file, b"type_a", 2).is_ok());
}

#[test]
fn open_file_too_small() {
    let plan = create_plan(b"u8".to_vec(), 100, 1).unwrap();
    let file = fresh_file(&plan);
    let truncated = &file[..plan.data_offset as usize + 50];
    assert_eq!(
        open_plan(truncated, b"u8", 1, truncated.len() as u64).unwrap_err(),
        MmapError::FileTooSmall
    );
}

#[test]
fn open_bad_header() {
    let mut file = fresh_file(&create_plan(b"u8".to_vec(), 4, 1).unwrap());
    file[2] = b'!';
    assert_eq!(
        open_plan(&file, b"u8", 1, file.len() as u64).unwrap_err(),
        MmapError::BadMagic
    );
    assert_eq!(
        open_plan(&file[..6], b"u8", 1, 6).unwrap_err(),
        MmapError::BadMagic
    );
}

#[test]
fn create_size_overflow() {
    assert_eq!(
        create_plan(b"u8".to_vec(), u64::MAX, 8).unwrap_err(),
        MmapError::SizeOverflow
    );
    assert_eq!(
        create_plan(b"u8".to_vec(), u64::MAX / 2, 2).unwrap_err(),
        MmapError::SizeOverflow
    );
}

#[test]
fn data_offset_page_aligned_for_long_names() {
    // A type identity short enough for one page, and one that pushes the
    // header past a page: the data offset stays a page multiple.
    let short = create_plan(b"u8".to_vec(), 1, 1).unwrap();
    assert_eq!(short.data_offset, 4096);
    let long_name = vec![b'x'; 5000];
    let long = create_plan(long_name, 1, 1).unwrap();
    assert_eq!(long.header_bytes.len(), 5020);
    assert_eq!(long.data_offset, 8192);
    assert_eq!(long.data_offset % 4096, 0);
}

#[test]
fn map_region_size_mismatch() {
    let region = HeapRegion::new_zeroed(5);
    assert_eq!(
        MmapFile::map(region, 4, 2).err().unwrap(),
        MmapError::RegionSizeMismatch
    );
    let region = HeapRegion::new_zeroed(8);
    let fa = MmapFile::map(region, 4, 2).unwrap();
    assert_eq!(fa.len(), 4);
    assert_eq!(fa.size(), 8);
}

#[test]
fn map_capacity_overflow() {
    let region = HeapRegion::new_zeroed(16);
    assert_eq!(
        MmapFile::map(region, usize::MAX, 2).err().unwrap(),
        MmapError::SizeOverflow
    );
}
