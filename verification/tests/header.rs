use stfs::ConsoleTypeFlags;
use stfs::ContentType;
use stfs::EnumField;
use stfs::FileSystem;
use stfs::FileSystemType;
use stfs::HashTableLevel;
use stfs::LicenseType;
use stfs::PackageType;
use stfs::StfsError;
use stfs::Version;
use stfs::header::xcontent_header_parser;

fn put_u32_be(buf: &mut Vec<u8>, off: usize, v: u32) {
    buf[off] = (v >> 24) as u8;
    buf[off + 1] = (v >> 16) as u8;
    buf[off + 2] = (v >> 8) as u8;
    buf[off + 3] = v as u8;
}

/// A minimal well-formed header buffer: zeroed, so every string terminates
/// at once and every license entry is unused.
fn base_buffer(magic: &[u8; 4]) -> Vec<u8> {
    let mut buf = vec![0u8; 0x6000];
    buf[..4].copy_from_slice(magic);
    buf
}

#[test]
fn con_magic_decodes() {
    let buf = base_buffer(b"CON ");
    let header = xcontent_header_parser(&buf).expect("decode");
    assert!(matches!(header.package_type, PackageType::Con));
    assert!(header.certificate.is_some());
    assert!(header.package_signature.is_none());
}

#[test]
fn pirs_magic_decodes_without_certificate() {
    let buf = base_buffer(b"PIRS");
    let header = xcontent_header_parser(&buf).expect("decode");
    assert!(matches!(header.package_type, PackageType::Pirs));
    assert!(header.certificate.is_none());
    assert!(header.package_signature.is_some());
}

#[test]
fn live_magic_decodes() {
    let buf = base_buffer(b"LIVE");
    let header = xcontent_header_parser(&buf).expect("decode");
    assert!(matches!(header.package_type, PackageType::Live));
}

#[test]
fn unknown_magic_is_refused() {
    let buf = base_buffer(b"XXXX");
    assert!(matches!(
        xcontent_header_parser(&buf),
        Err(StfsError::InvalidHeader)
    ));
}

#[test]
fn short_buffer_is_truncated() {
    let buf = vec![0x43u8, 0x4F, 0x4E];
    assert!(matches!(
        xcontent_header_parser(&buf),
        Err(StfsError::Truncated)
    ));
    let buf = base_buffer(b"CON ")[..0x200].to_vec();
    assert!(matches!(
        xcontent_header_parser(&buf),
        Err(StfsError::Truncated)
    ));
}

#[test]
fn bad_license_type_is_refused() {
    let mut buf = base_buffer(b"PIRS");
    // second license entry: type code 0x1234 in the top sixteen bits
    buf[0x23C] = 0x12;
    buf[0x23D] = 0x34;
    assert!(matches!(
        xcontent_header_parser(&buf),
        Err(StfsError::InvalidEnum(EnumField::LicenseType, 0x1234))
    ));
}

#[test]
fn filesystem_codes() {
    let mut buf = base_buffer(b"PIRS");
    put_u32_be(&mut buf, 0x3A9, 1);
    let header = xcontent_header_parser(&buf).expect("decode svod");
    assert!(matches!(header.filesystem_type, FileSystemType::SVOD));
    assert!(matches!(header.volume_descriptor, FileSystem::SVOD(_)));

    put_u32_be(&mut buf, 0x3A9, 2);
    assert!(matches!(
        xcontent_header_parser(&buf),
        Err(StfsError::InvalidPackageType)
    ));

    put_u32_be(&mut buf, 0x3A9, 7);
    assert!(matches!(
        xcontent_header_parser(&buf),
        Err(StfsError::InvalidEnum(EnumField::FileSystemType, 7))
    ));
}

#[test]
fn header_fields_are_read_at_their_offsets() {
    let mut buf = base_buffer(b"PIRS");
    put_u32_be(&mut buf, 0x340, 0x1000);  // header size
    put_u32_be(&mut buf, 0x344, 0x7000);  // content type: game on demand
    put_u32_be(&mut buf, 0x354, 0xDEAD_BEEF);  // media id
    buf[0x364] = 9;  // platform
    buf[0x411] = 0;
    buf[0x412] = 0x41;  // display name: one big-endian unit 0x0041
    let header = xcontent_header_parser(&buf).expect("decode");
    assert_eq!(header.header_size, 0x1000);
    assert!(matches!(header.content_type, ContentType::GameOnDemand));
    assert_eq!(header.media_id, 0xDEAD_BEEF);
    assert_eq!(header.platform, 9);
    // the pair at 0x411 reads big-endian as 0x0041; the next pair is the
    // terminator
    assert_eq!(header.display_name, vec![0x0041u16]);
}

#[test]
fn display_name_units_are_big_endian() {
    let mut buf = base_buffer(b"PIRS");
    buf[0x411] = 0x00;
    buf[0x412] = 0x41;
    buf[0x413] = 0x01;
    buf[0x414] = 0x02;
    let header = xcontent_header_parser(&buf).expect("decode");
    assert_eq!(header.display_name, vec![0x0041u16, 0x0102]);
}

#[test]
fn unterminated_display_name_is_refused() {
    let mut buf = base_buffer(b"PIRS");
    for i in 0..0x480 {
        buf[0x411 + 2 * i] = 0x30;
    }
    assert!(matches!(
        xcontent_header_parser(&buf),
        Err(StfsError::InvalidHeader)
    ));
}

#[test]
fn oversized_thumbnail_is_refused() {
    let mut buf = base_buffer(b"PIRS");
    put_u32_be(&mut buf, 0x1712, 0x4001);
    assert!(matches!(
        xcontent_header_parser(&buf),
        Err(StfsError::InvalidHeader)
    ));
    put_u32_be(&mut buf, 0x1712, 0x10);
    let header = xcontent_header_parser(&buf).expect("decode");
    assert_eq!(header.thumbnail_image_size, 0x10);
    assert_eq!(header.thumbnail_image.len(), 0x10);
}

#[test]
fn root_level_promotion() {
    let mut buf = base_buffer(b"PIRS");
    let set_allocated = |buf: &mut Vec<u8>, v: u32| {
        buf[0x395] = (v >> 24) as u8;
        buf[0x396] = (v >> 16) as u8;
        buf[0x397] = (v >> 8) as u8;
        buf[0x398] = v as u8;
    };
    set_allocated(&mut buf, 170);
    let header = xcontent_header_parser(&buf).expect("decode");
    assert!(matches!(header.root_hash_table_level(), Ok(HashTableLevel::First)));

    set_allocated(&mut buf, 171);
    let header = xcontent_header_parser(&buf).expect("decode");
    assert!(matches!(header.root_hash_table_level(), Ok(HashTableLevel::Second)));

    set_allocated(&mut buf, 28900);
    let header = xcontent_header_parser(&buf).expect("decode");
    assert!(matches!(header.root_hash_table_level(), Ok(HashTableLevel::Second)));

    set_allocated(&mut buf, 28901);
    let header = xcontent_header_parser(&buf).expect("decode");
    assert!(matches!(header.root_hash_table_level(), Ok(HashTableLevel::Third)));

    set_allocated(&mut buf, 4913000);
    let header = xcontent_header_parser(&buf).expect("decode");
    assert!(matches!(header.root_hash_table_level(), Ok(HashTableLevel::Third)));

    set_allocated(&mut buf, 4913001);
    let header = xcontent_header_parser(&buf).expect("decode");
    assert_eq!(header.root_hash_table_level(), Err(StfsError::InvalidHeader));
}

#[test]
fn version_unpacks_its_nibbles() {
    let v = Version::from(0x12345678);
    assert_eq!(v.major, 0x1);
    assert_eq!(v.minor, 0x2);
    assert_eq!(v.build, 0x3456);
    assert_eq!(v.revision, 0x78);
}

#[test]
fn license_types_decode() {
    assert_eq!(LicenseType::from_code(0), Ok(LicenseType::Unused));
    assert_eq!(LicenseType::from_code(0xFFFF), Ok(LicenseType::Unrestricted));
    assert_eq!(LicenseType::from_code(0xB000), Ok(LicenseType::UserPrivileges));
    assert_eq!(
        LicenseType::from_code(0x1234),
        Err(StfsError::InvalidEnum(EnumField::LicenseType, 0x1234))
    );
}

#[test]
fn console_flags_reject_undeclared_bits() {
    assert!(ConsoleTypeFlags::from_bits(0xC0000000).is_some());
    assert!(ConsoleTypeFlags::from_bits(0x40000000).is_some());
    assert!(ConsoleTypeFlags::from_bits(0x00000001).is_none());
    let flags = ConsoleTypeFlags::from_bits(0x40000000).unwrap();
    assert!(flags.testkit());
    assert!(!flags.recovery_generated());
}
