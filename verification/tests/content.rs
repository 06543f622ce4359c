use stfs::AssetSubcategory;
use stfs::ContentMetadata;
use stfs::ContentType;
use stfs::EnumField;
use stfs::InstallerMeta;
use stfs::InstallerType;
use stfs::OnlineContentResumeState;
use stfs::SkeletonVersion;
use stfs::StfsError;
use stfs::header::xcontent_header_parser;

fn put_u32_be(buf: &mut Vec<u8>, off: usize, v: u32) {
    buf[off] = (v >> 24) as u8;
    buf[off + 1] = (v >> 16) as u8;
    buf[off + 2] = (v >> 8) as u8;
    buf[off + 3] = v as u8;
}

fn put_u32_le(buf: &mut Vec<u8>, off: usize, v: u32) {
    buf[off] = v as u8;
    buf[off + 1] = (v >> 8) as u8;
    buf[off + 2] = (v >> 16) as u8;
    buf[off + 3] = (v >> 24) as u8;
}

fn base_buffer(magic: &[u8; 4]) -> Vec<u8> {
    let mut buf = vec![0u8; 0x6000];
    buf[..4].copy_from_slice(magic);
    buf
}

#[test]
fn content_type_codes() {
    assert!(matches!(ContentType::from_code(1), ContentType::SavedGame));
    assert!(matches!(ContentType::from_code(0x9000), ContentType::AvatarItem));
    assert!(matches!(ContentType::from_code(0x200000), ContentType::Video));
    assert!(matches!(ContentType::from_code(0xD0000), ContentType::ArcadeGame));
    assert!(matches!(ContentType::from_code(0x123), ContentType::Unknown(0x123)));
}

#[test]
fn asset_subcategory_codes() {
    assert!(matches!(AssetSubcategory::from_code(0x44C), AssetSubcategory::CarryableCarryable));
    assert!(matches!(AssetSubcategory::from_code(100), AssetSubcategory::CostumeShortDress));
    assert!(matches!(AssetSubcategory::from_code(0x321), AssetSubcategory::WristwearWatch));
    assert!(matches!(AssetSubcategory::from_code(12345), AssetSubcategory::Unknown(12345)));
}

#[test]
fn avatar_item_metadata_is_little_endian() {
    let mut buf = base_buffer(b"PIRS");
    put_u32_be(&mut buf, 0x344, 0x9000);  // content type: avatar item
    put_u32_le(&mut buf, 0x3D9, 0x69);  // subcategory: costume
    put_u32_le(&mut buf, 0x3DD, 1);  // colorizable
    buf[0x3E1] = 0xAB;  // first guid byte
    buf[0x3F1] = 2;  // skeleton: natal
    let header = xcontent_header_parser(&buf).expect("decode");
    match header.content_metadata {
        Some(ContentMetadata::AvatarItem(a)) => {
            assert!(matches!(a.subcategory, AssetSubcategory::CostumeCostume));
            assert_eq!(a.colorizable, 1);
            assert_eq!(a.guid.len(), 16);
            assert_eq!(a.guid[0], 0xAB);
            assert!(matches!(a.skeleton_version, SkeletonVersion::Natal));
        },
        other => panic!("unexpected metadata: {:?}", other),
    }
}

#[test]
fn bad_skeleton_version_is_refused() {
    let mut buf = base_buffer(b"PIRS");
    put_u32_be(&mut buf, 0x344, 0x9000);
    buf[0x3F1] = 9;
    assert!(matches!(
        xcontent_header_parser(&buf),
        Err(StfsError::InvalidEnum(EnumField::SkeletonVersion, 9))
    ));
}

#[test]
fn video_metadata_is_big_endian() {
    let mut buf = base_buffer(b"PIRS");
    put_u32_be(&mut buf, 0x344, 0x200000);  // content type: video
    buf[0x3F9] = 0x01;
    buf[0x3FA] = 0x02;  // season number 0x0102
    buf[0x3FB] = 0x00;
    buf[0x3FC] = 0x07;  // episode number 7
    let header = xcontent_header_parser(&buf).expect("decode");
    match header.content_metadata {
        Some(ContentMetadata::Video(m)) => {
            assert_eq!(m.season_number, 0x0102);
            assert_eq!(m.episode_number, 7);
            assert_eq!(m.series_id.len(), 16);
            assert_eq!(m.season_id.len(), 16);
        },
        other => panic!("unexpected metadata: {:?}", other),
    }
}

#[test]
fn full_installer_metadata() {
    let mut buf = vec![0u8; 0xC000];
    buf[..4].copy_from_slice(b"PIRS");
    put_u32_be(&mut buf, 0x340, 0xB001);  // header rounds up to 0xC000
    put_u32_be(&mut buf, 0x971A, 0x53555044);  // system update
    put_u32_be(&mut buf, 0x971E, 0x12345678);
    put_u32_be(&mut buf, 0x9722, 0x20000001);
    let header = xcontent_header_parser(&buf).expect("decode");
    assert!(matches!(header.installer_type, Some(InstallerType::SystemUpdate)));
    match header.installer_meta {
        Some(InstallerMeta::FullInstaller(f)) => {
            assert_eq!(f.installer_base_version.major, 1);
            assert_eq!(f.installer_base_version.build, 0x3456);
            assert_eq!(f.installer_version.major, 2);
            assert_eq!(f.installer_version.revision, 1);
        },
        other => panic!("unexpected meta: {:?}", other),
    }
}

#[test]
fn progress_cache_metadata() {
    let mut buf = vec![0u8; 0xC000];
    buf[..4].copy_from_slice(b"PIRS");
    put_u32_be(&mut buf, 0x340, 0xC000);
    put_u32_be(&mut buf, 0x971A, 0x50245455);  // title update progress cache
    put_u32_be(&mut buf, 0x971E, 0x666F6C64);  // resume state: new folder
    put_u32_be(&mut buf, 0x9722, 3);  // current file index
    put_u32_be(&mut buf, 0x9736, 0x01D00000);  // high date-time word
    put_u32_be(&mut buf, 0x973A, 0x00000005);  // low date-time word
    let header = xcontent_header_parser(&buf).expect("decode");
    match header.installer_meta {
        Some(InstallerMeta::InstallerProgressCache(p)) => {
            assert!(matches!(p.resume_state, OnlineContentResumeState::NewFolder));
            assert_eq!(p.current_file_index, 3);
            assert_eq!(p.last_modified_filetime(), 0x01D0000000000005);
            assert_eq!(p.cab_resume_data.len(), 0xC000 - 0x973E);
        },
        other => panic!("unexpected meta: {:?}", other),
    }
}

#[test]
fn unknown_installer_type_is_refused() {
    let mut buf = vec![0u8; 0xC000];
    buf[..4].copy_from_slice(b"PIRS");
    put_u32_be(&mut buf, 0x340, 0xC000);
    put_u32_be(&mut buf, 0x971A, 0x11111111);
    assert!(matches!(
        xcontent_header_parser(&buf),
        Err(StfsError::InvalidEnum(EnumField::InstallerType, 0x11111111))
    ));
}

#[test]
fn bad_resume_state_is_refused() {
    let mut buf = vec![0u8; 0xC000];
    buf[..4].copy_from_slice(b"PIRS");
    put_u32_be(&mut buf, 0x340, 0xC000);
    put_u32_be(&mut buf, 0x971A, 0x50245443);  // title content progress cache
    put_u32_be(&mut buf, 0x971E, 0x22222222);
    assert!(matches!(
        xcontent_header_parser(&buf),
        Err(StfsError::InvalidEnum(EnumField::ResumeState, 0x22222222))
    ));
}

#[test]
fn no_installer_region_below_the_threshold() {
    let mut buf = vec![0u8; 0xC000];
    buf[..4].copy_from_slice(b"PIRS");
    put_u32_be(&mut buf, 0x340, 0xA000);  // rounds to 0xA000: leaves too little
    put_u32_be(&mut buf, 0x971A, 0x11111111);  // would be refused if read
    let header = xcontent_header_parser(&buf).expect("decode");
    assert!(header.installer_type.is_none());
    assert!(header.installer_meta.is_none());
}
