use stfs::StfsEntry;
use stfs::StfsError;
use stfs::StfsPackage;
use stfs::StfsPackageSex;

fn put_u16_le(buf: &mut Vec<u8>, off: usize, v: u16) {
    buf[off] = v as u8;
    buf[off + 1] = (v >> 8) as u8;
}

fn put_u24_le(buf: &mut Vec<u8>, off: usize, v: u32) {
    buf[off] = v as u8;
    buf[off + 1] = (v >> 8) as u8;
    buf[off + 2] = (v >> 16) as u8;
}

fn put_u24_be(buf: &mut Vec<u8>, off: usize, v: u32) {
    buf[off] = (v >> 16) as u8;
    buf[off + 1] = (v >> 8) as u8;
    buf[off + 2] = v as u8;
}

fn put_u16_be(buf: &mut Vec<u8>, off: usize, v: u16) {
    buf[off] = (v >> 8) as u8;
    buf[off + 1] = v as u8;
}

fn put_u32_be(buf: &mut Vec<u8>, off: usize, v: u32) {
    buf[off] = (v >> 24) as u8;
    buf[off + 1] = (v >> 16) as u8;
    buf[off + 2] = (v >> 8) as u8;
    buf[off + 3] = v as u8;
}

/// A female package whose first hash table sits at 0x1000: the file table
/// occupies block 0 (byte 0x2000), and `allocated` blocks are declared.
///
/// The level-0 hash table for blocks 0..169 sits at byte 0x1000, one
/// 24-byte entry per block.
fn base_package(allocated: u32) -> Vec<u8> {
    let mut buf = vec![0u8; 0x10000];
    buf[..4].copy_from_slice(b"LIVE");
    put_u32_be(&mut buf, 0x340, 0x1000);  // header size: first table at 0x1000
    // volume descriptor at 0x379
    buf[0x37B] = 1;  // block separation: female
    put_u16_le(&mut buf, 0x37C, 1);  // one file-table block
    put_u24_le(&mut buf, 0x37E, 0);  // file table starts at block 0
    put_u32_be(&mut buf, 0x395, allocated);
    buf
}

/// Writes file-table entry `slot` of the table at 0x2000.
fn put_entry(
    buf: &mut Vec<u8>,
    slot: usize,
    name: &[u8],
    flags: u8,
    block_count: u32,
    starting_block: u32,
    path_indicator: u16,
    file_size: u32,
) {
    let base = 0x2000 + slot * 0x40;
    buf[base..base + name.len()].copy_from_slice(name);
    buf[base + 0x28] = (flags << 6) | (name.len() as u8);
    put_u24_le(buf, base + 0x29, block_count);
    put_u24_le(buf, base + 0x2F, starting_block);
    put_u16_be(buf, base + 0x32, path_indicator);
    put_u32_be(buf, base + 0x34, file_size);
}

#[test]
fn decode_single_file_package() {
    let mut buf = base_package(2);
    // one consecutive file of five bytes in block 1 (byte 0x3000)
    put_entry(&mut buf, 0, b"a", 1, 1, 1, 0xFFFF, 5);
    buf[0x3000..0x3005].copy_from_slice(b"hello");
    let package = StfsPackage::try_from(&buf).expect("decode");
    assert!(matches!(package.sex, StfsPackageSex::Female));
    assert_eq!(package.hash_table_meta.first_table_address, 0x1000);
    assert_eq!(package.entries.len(), 1);
    assert_eq!(package.entries[0].name, b"a".to_vec());
    assert_eq!(package.entries[0].file_size, 5);
    match &package.files {
        StfsEntry::Folder { entry: _, files } => {
            assert_eq!(files.len(), 1);
            assert_eq!(files[0].name(), &b"a".to_vec());
        },
        StfsEntry::File(_) => panic!("root must be a folder"),
    }
    let data = package
        .extract_file(&buf, &package.entries[0])
        .expect("extract");
    assert_eq!(data, b"hello".to_vec());
}

#[test]
fn extract_empty_file_writes_nothing() {
    let mut buf = base_package(2);
    put_entry(&mut buf, 0, b"e", 0, 0, 1, 0xFFFF, 0);
    let package = StfsPackage::try_from(&buf).expect("decode");
    let data = package
        .extract_file(&buf, &package.entries[0])
        .expect("extract");
    assert_eq!(data.len(), 0);
}

#[test]
fn extract_chained_file_in_block_order() {
    let mut buf = base_package(3);
    // chained file: block 1 -> block 2 -> end, 4096 + 1 bytes
    put_entry(&mut buf, 0, b"c", 0, 2, 1, 0xFFFF, 4097);
    // level-0 hash entries at 0x1000, 24 bytes each: next_block at +0x15
    put_u24_be(&mut buf, 0x1000 + 1 * 0x18 + 0x15, 2);
    put_u24_be(&mut buf, 0x1000 + 2 * 0x18 + 0x15, 0xFFFFFF);
    for i in 0..4096usize {
        buf[0x3000 + i] = (i % 251) as u8;
    }
    buf[0x4000] = 0x7E;
    let package = StfsPackage::try_from(&buf).expect("decode");
    let data = package
        .extract_file(&buf, &package.entries[0])
        .expect("extract");
    assert_eq!(data.len(), 4097);
    for i in 0..4096usize {
        assert_eq!(data[i], (i % 251) as u8);
    }
    assert_eq!(data[4096], 0x7E);
}

#[test]
fn chained_file_ending_early_is_refused() {
    let mut buf = base_package(3);
    put_entry(&mut buf, 0, b"c", 0, 2, 1, 0xFFFF, 8192);
    put_u24_be(&mut buf, 0x1000 + 1 * 0x18 + 0x15, 0xFFFFFF);
    let package = StfsPackage::try_from(&buf).expect("decode");
    assert!(matches!(
        package.extract_file(&buf, &package.entries[0]),
        Err(StfsError::InvalidHeader)
    ));
}

#[test]
fn chained_block_out_of_range_is_refused() {
    let mut buf = base_package(2);
    put_entry(&mut buf, 0, b"c", 0, 2, 1, 0xFFFF, 8192);
    // chain points at block 9, beyond the two allocated blocks
    put_u24_be(&mut buf, 0x1000 + 1 * 0x18 + 0x15, 9);
    let package = StfsPackage::try_from(&buf).expect("decode");
    assert!(matches!(
        package.extract_file(&buf, &package.entries[0]),
        Err(StfsError::BlockOutOfRange)
    ));
}

#[test]
fn directories_collect_their_children() {
    let mut buf = base_package(2);
    put_entry(&mut buf, 0, b"dir", 2, 0, 0, 0xFFFF, 0);  // directory, index 0
    put_entry(&mut buf, 1, b"inner", 0, 0, 1, 0, 0);  // file under entry 0
    put_entry(&mut buf, 2, b"top", 0, 0, 1, 0xFFFF, 0);  // file under the root
    let package = StfsPackage::try_from(&buf).expect("decode");
    assert_eq!(package.entries.len(), 3);
    match &package.files {
        StfsEntry::Folder { entry: _, files } => {
            assert_eq!(files.len(), 2);
            match &files[0] {
                StfsEntry::Folder { entry, files: children } => {
                    assert_eq!(entry.name, b"dir".to_vec());
                    assert_eq!(children.len(), 1);
                    assert_eq!(children[0].name(), &b"inner".to_vec());
                },
                StfsEntry::File(_) => panic!("first child must be the directory"),
            }
            assert_eq!(files[1].name(), &b"top".to_vec());
        },
        StfsEntry::File(_) => panic!("root must be a folder"),
    }
}

#[test]
fn missing_parent_is_refused() {
    let mut buf = base_package(2);
    put_entry(&mut buf, 0, b"lost", 0, 0, 1, 5, 0);  // parent index 5 absent
    assert!(matches!(
        StfsPackage::try_from(&buf),
        Err(StfsError::CorruptDirectory)
    ));
}

#[test]
fn self_parenting_directory_is_refused() {
    let mut buf = base_package(2);
    put_entry(&mut buf, 0, b"loop", 2, 0, 0, 0, 0);  // its own parent
    assert!(matches!(
        StfsPackage::try_from(&buf),
        Err(StfsError::CorruptDirectory)
    ));
}

#[test]
fn file_table_block_out_of_range_is_refused() {
    let mut buf = base_package(2);
    put_u24_le(&mut buf, 0x37E, 10);  // file table claims block 10 of 2
    assert!(matches!(
        StfsPackage::try_from(&buf),
        Err(StfsError::BlockOutOfRange)
    ));
}

#[test]
fn deleted_slots_are_skipped() {
    let mut buf = base_package(2);
    // slot 0: deleted entry (flags but no name length)
    buf[0x2028] = 0x80;
    put_entry(&mut buf, 1, b"kept", 0, 0, 1, 0xFFFF, 0);
    let package = StfsPackage::try_from(&buf).expect("decode");
    assert_eq!(package.entries.len(), 1);
    assert_eq!(package.entries[0].name, b"kept".to_vec());
    assert_eq!(package.entries[0].index, 1);
}

#[test]
fn single_slice_fast_path_boundary() {
    // a consecutive file starting at block 1: 169 blocks remain before the
    // next hash table, and a block count of exactly 169 stays in one slice
    let mut buf = base_package(170);
    let size: u32 = 169 * 4096;
    put_entry(&mut buf, 0, b"big", 1, 169, 1, 0xFFFF, size);
    let mut big = vec![0u8; 0x200000];
    big[..buf.len()].copy_from_slice(&buf);
    for i in 0..size as usize {
        big[0x3000 + i] = (i % 241) as u8;
    }
    let package = StfsPackage::try_from(&big).expect("decode");
    let data = package
        .extract_file(&big, &package.entries[0])
        .expect("extract");
    assert_eq!(data.len(), size as usize);
    assert_eq!(&data[..], &big[0x3000..0x3000 + size as usize]);
}

#[test]
fn dfs_extraction_matches_block_concatenation() {
    // two chained files; extracting them in tree order yields the bytes of
    // their data blocks in entry order, each truncated to its file size
    let mut buf = base_package(5);
    put_entry(&mut buf, 0, b"one", 0, 1, 1, 0xFFFF, 100);
    put_entry(&mut buf, 1, b"two", 0, 2, 2, 0xFFFF, 4100);
    put_u24_be(&mut buf, 0x1000 + 1 * 0x18 + 0x15, 0xFFFFFF);
    put_u24_be(&mut buf, 0x1000 + 2 * 0x18 + 0x15, 3);
    put_u24_be(&mut buf, 0x1000 + 3 * 0x18 + 0x15, 0xFFFFFF);
    for i in 0..0x3000usize {
        buf[0x3000 + i] = (i % 239) as u8;
    }
    let package = StfsPackage::try_from(&buf).expect("decode");
    let mut extracted = Vec::new();
    for entry in &package.entries {
        extracted.extend(package.extract_file(&buf, entry).expect("extract"));
    }
    // blocks 1 (0x3000), then 2 (0x4000) and 3 (0x5000)
    let mut expected = Vec::new();
    expected.extend(&buf[0x3000..0x3000 + 100]);
    expected.extend(&buf[0x4000..0x5000]);
    expected.extend(&buf[0x5000..0x5000 + 4]);
    assert_eq!(extracted, expected);
}

#[test]
fn walker_truncated_buffer_is_refused() {
    // the file table claims a block whose 4KB unit ends past the buffer
    let mut buf = base_package(4);
    buf.truncate(0x5800);
    put_u24_le(&mut buf, 0x37E, 3);  // file table at block 3: bytes 0x5000..0x6000
    assert!(matches!(StfsPackage::try_from(&buf), Err(StfsError::Truncated)));
}

#[test]
fn root_mirror_follows_block_separation() {
    // bit 1 of block_separation selects the second copy of the root table,
    // and the hash addresses move with it
    let mut buf = base_package(2);
    buf[0x37B] = 3;  // female, live mirror second
    // the top table is then read from 0x2000; keep the walker out of it
    put_u16_le(&mut buf, 0x37C, 0);  // no file-table blocks
    let package = StfsPackage::try_from(&buf).expect("decode");
    assert_eq!(package.hash_table_meta.top_table.address_in_file, 0x2000);
    let addr = package.block_hash_address(0, &buf).expect("resolve");
    assert_eq!(addr, 0x2000);

    buf[0x37B] = 1;  // live mirror first
    let package = StfsPackage::try_from(&buf).expect("decode");
    assert_eq!(package.hash_table_meta.top_table.address_in_file, 0x1000);
    assert_eq!(package.block_hash_address(0, &buf).expect("resolve"), 0x1000);
}

#[test]
fn level_zero_mirror_follows_top_table_status() {
    // with a level-1 root, bit 6 of the covering top-table entry selects
    // the live copy of each level-0 table
    let mut buf = vec![0u8; 0xB0000];
    buf[..4].copy_from_slice(b"LIVE");
    put_u32_be(&mut buf, 0x340, 0x1000);
    buf[0x37B] = 1;  // female
    put_u16_le(&mut buf, 0x37C, 0);  // no file-table blocks
    put_u32_be(&mut buf, 0x395, 171);  // promotes the root to level 1
    let package = StfsPackage::try_from(&buf).expect("decode");
    // the top table sits at the level-0 step: 0xAB units past 0x1000
    assert_eq!(package.hash_table_meta.top_table.address_in_file, 0xAC000);
    assert_eq!(package.hash_table_meta.top_table.entry_count, 2);
    assert_eq!(package.block_hash_address(0, &buf).expect("resolve"), 0x1000);

    buf[0xAC000 + 0x14] = 0x40;  // entry 0: live mirror second
    let package = StfsPackage::try_from(&buf).expect("decode");
    assert_eq!(package.block_hash_address(0, &buf).expect("resolve"), 0x2000);
    assert_eq!(package.block_hash_address(5, &buf).expect("resolve"), 0x2000 + 5 * 0x18);
}
