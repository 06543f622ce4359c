//! The package header: magic, console certificate or package signature,
//! license table, fixed metadata fields, volume descriptors, display strings,
//! thumbnails and trailing installer metadata.  Every field sits at an
//! absolute offset; multi-byte fields are big-endian unless noted.

use vstd::prelude::*;
use crate::bytes::cstr16_len;
use crate::bytes::cstr16_terminated;
use crate::bytes::padded_bytes;
use crate::bytes::read_bytes;
use crate::bytes::read_padded_bytes;
use crate::bytes::read_u16_be;
use crate::bytes::read_u16_le;
use crate::bytes::read_u24_le;
use crate::bytes::read_u24_be;
use crate::bytes::read_u32_be;
use crate::bytes::read_u64_be;
use crate::bytes::read_u8;
use crate::bytes::read_utf16_cstr;
use crate::bytes::u16_be;
use crate::bytes::u16_le;
use crate::bytes::u24_be;
use crate::bytes::u24_le;
use crate::bytes::u32_be;
use crate::bytes::u64_be;
use crate::bytes::utf16_units;
use crate::content::AvatarAssetInformation;
use crate::content::ContentMetadata;
use crate::content::ContentType;
use crate::content::FullInstallerMeta;
use crate::content::InstallerMeta;
use crate::content::InstallerProgressCache;
use crate::content::InstallerType;
use crate::content::MediaInformation;
use crate::content::OnlineContentResumeState;
use crate::content::Version;
use crate::content::spec_content_type_of;
use crate::content::spec_installer_type_of;
use crate::content::spec_resume_state_of;
use crate::content::spec_skeleton_version_of;
use crate::content::spec_version_of;
use crate::content::avatar_asset_matches;
use crate::content::media_information_matches;
use crate::errors::EnumField;
use crate::errors::StfsError;
use crate::geometry::HashTableLevel;
use crate::geometry::spec_first_table_address;
use crate::geometry::spec_root_level;

verus! {

broadcast use vstd::slice::axiom_spec_len;

/// How a package was signed, read from the four magic bytes.
#[derive(Debug, Copy, Clone, PartialEq, Eq, Structural)]
pub enum PackageType {
    /// User container packages that are created by an Xbox 360 console and
    /// signed by the user's private key.
    Con,
    /// Xbox LIVE-distributed package that is signed by Microsoft's private
    /// key.
    Live,
    /// Offline-distributed package that is signed by Microsoft's private
    /// key.
    Pirs,
}

/// The package type named by the four magic bytes at the start of `s`:
/// `"CON "`, `"LIVE"` or `"PIRS"`.
pub open spec fn spec_magic_type(s: Seq<u8>) -> Option<PackageType> {
    if s[0] == 0x43 && s[1] == 0x4F && s[2] == 0x4E && s[3] == 0x20 {
        Some(PackageType::Con)
    } else if s[0] == 0x4C && s[1] == 0x49 && s[2] == 0x56 && s[3] == 0x45 {
        Some(PackageType::Live)
    } else if s[0] == 0x50 && s[1] == 0x49 && s[2] == 0x52 && s[3] == 0x53 {
        Some(PackageType::Pirs)
    } else {
        None
    }
}

impl PackageType {
    /// Decodes the four magic bytes; an unknown magic is refused.
    pub fn try_from(value: [u8; 4]) -> (r: Result<PackageType, StfsError>)
        ensures
            match r {
                Ok(t) => spec_magic_type(value@) == Some(t),
                Err(e) => {
                    &&& spec_magic_type(value@) is None
                    &&& e == StfsError::InvalidHeader
                },
            },
    {
        let b0 = value[0];
        let b1 = value[1];
        let b2 = value[2];
        let b3 = value[3];
        if b0 == 0x43 && b1 == 0x4F && b2 == 0x4E && b3 == 0x20 {
            Ok(PackageType::Con)
        } else if b0 == 0x4C && b1 == 0x49 && b2 == 0x56 && b3 == 0x45 {
            Ok(PackageType::Live)
        } else if b0 == 0x50 && b1 == 0x49 && b2 == 0x52 && b3 == 0x53 {
            Ok(PackageType::Pirs)
        } else {
            Err(StfsError::InvalidHeader)
        }
    }
}

/// Whether a console is a development kit or a retail unit.
#[derive(Debug, Copy, Clone, PartialEq, Eq, Structural)]
pub enum ConsoleType {
    DevKit,
    Retail,
}

/// The console type encoded in the low two bits of the certificate's
/// console-type word, if those bits name one.
pub open spec fn spec_console_type_of(code: int) -> Option<ConsoleType> {
    if code == 1 {
        Some(ConsoleType::DevKit)
    } else if code == 2 {
        Some(ConsoleType::Retail)
    } else {
        None
    }
}

/// The flag bits of the certificate's console-type word.  Only the top two
/// bits are declared; a word with any other bit set has no flag reading.
#[derive(Debug, Copy, Clone, PartialEq, Eq, Structural)]
pub struct ConsoleTypeFlags {
    pub bits: u32,
}

/// The flags encoded by `bits`, if no undeclared bit is set.
pub open spec fn spec_console_flags_of(bits: u32) -> Option<ConsoleTypeFlags> {
    if bits % 0x40000000 == 0 {
        Some(ConsoleTypeFlags { bits })
    } else {
        None
    }
}

impl ConsoleTypeFlags {
    /// Reads the flag word; a word with an undeclared bit set is refused.
    pub fn from_bits(bits: u32) -> (r: Option<ConsoleTypeFlags>)
        ensures
            r == spec_console_flags_of(bits),
    {
        if bits % 0x40000000 == 0 {
            Some(ConsoleTypeFlags { bits })
        } else {
            None
        }
    }

    /// Whether the console is a test kit.
    pub fn testkit(&self) -> (r: bool)
        ensures
            r == (self.bits / 0x40000000 % 2 == 1),
    {
        self.bits / 0x40000000 % 2 == 1
    }

    /// Whether the certificate was generated by a recovery.
    pub fn recovery_generated(&self) -> (r: bool)
        ensures
            r == (self.bits / 0x80000000 == 1),
    {
        self.bits / 0x80000000 == 1
    }
}

/// The console certificate carried by console-signed (CON) packages at
/// offset 0x4.
#[derive(Debug, Clone)]
pub struct Certificate {
    pub pubkey_cert_size: u16,
    pub owner_console_id: Vec<u8>,
    /// The console part number, NUL-trimmed ASCII.
    pub owner_console_part_number: Vec<u8>,
    pub owner_console_type: Option<ConsoleType>,
    pub console_type_flags: Option<ConsoleTypeFlags>,
    /// The generation date as eight ASCII bytes.
    pub date_generation: Vec<u8>,
    pub public_exponent: u32,
    pub public_modulus: Vec<u8>,
    pub certificate_signature: Vec<u8>,
    pub signature: Vec<u8>,
}

/// How a Certificate relates to the header bytes.  The console-type word at
/// 0x1C carries the flag bits in its upper 30 bits and the console type in
/// its low two.
pub open spec fn certificate_matches(c: Certificate, s: Seq<u8>) -> bool {
    let console_word = u32_be(s, 0x1C);
    &&& c.pubkey_cert_size == u16_be(s, 0x4)
    &&& c.owner_console_id@ == s.subrange(0x6, 0xB)
    &&& c.owner_console_part_number@ == padded_bytes(s, 0xB, 0x11)
    &&& c.owner_console_type == spec_console_type_of(console_word % 4)
    &&& c.console_type_flags == spec_console_flags_of((((console_word / 4) * 4) as u32))
    &&& c.date_generation@ == s.subrange(0x20, 0x28)
    &&& c.public_exponent == u32_be(s, 0x28)
    &&& c.public_modulus@ == s.subrange(0x2C, 0xAC)
    &&& c.certificate_signature@ == s.subrange(0xAC, 0x1AC)
    &&& c.signature@ == s.subrange(0x1AC, 0x22C)
}

/// Reads the console certificate that starts at offset 0x4 and runs to 0x22C.
pub fn certificate_parser(input: &[u8]) -> (r: Result<Certificate, StfsError>)
    ensures
        match r {
            Ok(c) => {
                &&& input.len() >= 0x22C
                &&& certificate_matches(c, input@)
            },
            Err(e) => {
                &&& input.len() < 0x22C
                &&& e == StfsError::Truncated
            },
        },
{
    if input.len() < 0x22C {
        return Err(StfsError::Truncated);
    }
    let pubkey_cert_size = read_u16_be(input, 0x4);
    let owner_console_id = read_bytes(input, 0x6, 0x5);
    let owner_console_part_number = read_padded_bytes(input, 0xB, 0x11);
    let console_word = read_u32_be(input, 0x1C);
    let owner_console_type = if console_word % 4 == 1 {
        Some(ConsoleType::DevKit)
    } else if console_word % 4 == 2 {
        Some(ConsoleType::Retail)
    } else {
        None
    };
    let console_type_flags = ConsoleTypeFlags::from_bits((console_word / 4) * 4);
    let date_generation = read_bytes(input, 0x20, 0x8);
    let public_exponent = read_u32_be(input, 0x28);
    let public_modulus = read_bytes(input, 0x2C, 0x80);
    let certificate_signature = read_bytes(input, 0xAC, 0x100);
    let signature = read_bytes(input, 0x1AC, 0x80);
    Ok(
        Certificate {
            pubkey_cert_size,
            owner_console_id,
            owner_console_part_number,
            owner_console_type,
            console_type_flags,
            date_generation,
            public_exponent,
            public_modulus,
            certificate_signature,
            signature,
        },
    )
}

/// The rights a license entry grants.
#[derive(Debug, Copy, Clone, PartialEq, Eq, Structural)]
pub enum LicenseType {
    Unused,
    Unrestricted,
    ConsoleProfileLicense,
    WindowsProfileLicense,
    ConsoleLicense,
    MediaFlags,
    KeyVaultPrivileges,
    HyperVisorFlags,
    UserPrivileges,
}

/// The LicenseType declared by an on-disk code, if the code is declared.
pub open spec fn spec_license_type_of(code: int) -> Option<LicenseType> {
    if code == 0x0000 {
        Some(LicenseType::Unused)
    } else if code == 0xFFFF {
        Some(LicenseType::Unrestricted)
    } else if code == 0x0009 {
        Some(LicenseType::ConsoleProfileLicense)
    } else if code == 0x0003 {
        Some(LicenseType::WindowsProfileLicense)
    } else if code == 0xF000 {
        Some(LicenseType::ConsoleLicense)
    } else if code == 0xE000 {
        Some(LicenseType::MediaFlags)
    } else if code == 0xD000 {
        Some(LicenseType::KeyVaultPrivileges)
    } else if code == 0xC000 {
        Some(LicenseType::HyperVisorFlags)
    } else if code == 0xB000 {
        Some(LicenseType::UserPrivileges)
    } else {
        None
    }
}

impl LicenseType {
    /// Decodes an on-disk code; a code outside the declared set is refused.
    pub fn from_code(code: u16) -> (r: Result<LicenseType, StfsError>)
        ensures
            match r {
                Ok(t) => spec_license_type_of(code as int) == Some(t),
                Err(e) => {
                    &&& spec_license_type_of(code as int) is None
                    &&& e == StfsError::InvalidEnum(EnumField::LicenseType, code as u32)
                },
            },
    {
        match code {
            0x0000 => Ok(LicenseType::Unused),
            0xFFFF => Ok(LicenseType::Unrestricted),
            0x0009 => Ok(LicenseType::ConsoleProfileLicense),
            0x0003 => Ok(LicenseType::WindowsProfileLicense),
            0xF000 => Ok(LicenseType::ConsoleLicense),
            0xE000 => Ok(LicenseType::MediaFlags),
            0xD000 => Ok(LicenseType::KeyVaultPrivileges),
            0xC000 => Ok(LicenseType::HyperVisorFlags),
            0xB000 => Ok(LicenseType::UserPrivileges),
            _ => Err(StfsError::InvalidEnum(EnumField::LicenseType, code as u32)),
        }
    }
}

impl core::default::Default for LicenseType {
    /// An absent license entry is `Unused`.
    fn default() -> (r: LicenseType)
        ensures
            r == LicenseType::Unused,
    {
        LicenseType::Unused
    }
}

/// One of the sixteen entries of the license table at 0x22C.  The first
/// eight bytes pack the type into the top 16 bits and the license data into
/// the low 48.
#[derive(Debug, Copy, Clone, PartialEq, Eq, Structural)]
pub struct LicenseEntry {
    pub ty: LicenseType,
    pub data: u64,
    pub bits: u32,
    pub flags: u32,
}

/// How the license entry at index `i` relates to the header bytes.
pub open spec fn license_matches(e: LicenseEntry, s: Seq<u8>, i: int) -> bool {
    let packed = u64_be(s, 0x22C + 16 * i);
    &&& spec_license_type_of(packed / 0x1000000000000) == Some(e.ty)
    &&& e.data == packed % 0x1000000000000
    &&& e.bits == u32_be(s, 0x22C + 16 * i + 8)
    &&& e.flags == u32_be(s, 0x22C + 16 * i + 12)
}

/// Whether every entry of the license table carries a declared license type.
pub open spec fn licenses_ok(s: Seq<u8>) -> bool {
    forall|i: int|
        0 <= i < 16 ==> spec_license_type_of(
            #[trigger] u64_be(s, 0x22C + 16 * i) / 0x1000000000000,
        ) is Some
}

/// The index of the first license entry at or past `k` whose type code is
/// not declared, or 16 if every entry from `k` on is declared.
pub open spec fn first_bad_license(s: Seq<u8>, k: int) -> int
    decreases 16 - k,
{
    if k < 0 || k >= 16 {
        16
    } else if spec_license_type_of(u64_be(s, 0x22C + 16 * k) / 0x1000000000000) is None {
        k
    } else {
        first_bad_license(s, k + 1)
    }
}

/// The filesystem variants a package can declare.
#[derive(Debug, Copy, Clone, PartialEq, Eq, Structural)]
pub enum FileSystemType {
    STFS,
    SVOD,
    FATX,
}

/// The FileSystemType declared by an on-disk code, if the code is declared.
pub open spec fn spec_filesystem_type_of(code: u32) -> Option<FileSystemType> {
    if code == 0 {
        Some(FileSystemType::STFS)
    } else if code == 1 {
        Some(FileSystemType::SVOD)
    } else if code == 2 {
        Some(FileSystemType::FATX)
    } else {
        None
    }
}

impl FileSystemType {
    /// Decodes an on-disk code; a code outside the declared set is refused.
    pub fn from_code(code: u32) -> (r: Result<FileSystemType, StfsError>)
        ensures
            match r {
                Ok(t) => spec_filesystem_type_of(code) == Some(t),
                Err(e) => {
                    &&& spec_filesystem_type_of(code) is None
                    &&& e == StfsError::InvalidEnum(EnumField::FileSystemType, code)
                },
            },
    {
        match code {
            0 => Ok(FileSystemType::STFS),
            1 => Ok(FileSystemType::SVOD),
            2 => Ok(FileSystemType::FATX),
            _ => Err(StfsError::InvalidEnum(EnumField::FileSystemType, code)),
        }
    }
}

/// The STFS volume descriptor at offset 0x379 of the header.
#[derive(Debug, Clone)]
pub struct StfsVolumeDescriptor {
    pub size: u8,
    pub reserved: u8,
    /// Bit 0 selects the hash-table sex; bit 1 selects which of the two
    /// mirrored root tables is live.
    pub block_separation: u8,
    pub file_table_block_count: u16,
    /// Encoded on disk as a 24-bit little-endian integer.
    pub file_table_block_num: u32,
    pub top_hash_table_hash: Vec<u8>,
    pub allocated_block_count: u32,
    pub unallocated_block_count: u32,
}

/// How an StfsVolumeDescriptor relates to the 36 bytes at `off`.
pub open spec fn stfs_descriptor_matches(v: StfsVolumeDescriptor, s: Seq<u8>, off: int) -> bool {
    &&& v.size == s[off]
    &&& v.reserved == s[off + 1]
    &&& v.block_separation == s[off + 2]
    &&& v.file_table_block_count == u16_le(s, off + 3)
    &&& v.file_table_block_num == u24_le(s, off + 5)
    &&& v.top_hash_table_hash@ == s.subrange(off + 8, off + 0x1C)
    &&& v.allocated_block_count == u32_be(s, off + 0x1C)
    &&& v.unallocated_block_count == u32_be(s, off + 0x20)
}

impl StfsVolumeDescriptor {
    /// Reads the 36-byte descriptor at `off`.
    pub fn parse(input: &[u8], off: usize) -> (r: Result<StfsVolumeDescriptor, StfsError>)
        ensures
            match r {
                Ok(v) => {
                    &&& off + 0x24 <= input.len()
                    &&& stfs_descriptor_matches(v, input@, off as int)
                },
                Err(e) => {
                    &&& off + 0x24 > input.len()
                    &&& e == StfsError::Truncated
                },
            },
    {
        if input.len() < 0x24 || off > input.len() - 0x24 {
            return Err(StfsError::Truncated);
        }
        Ok(
            StfsVolumeDescriptor {
                size: read_u8(input, off),
                reserved: read_u8(input, off + 1),
                block_separation: read_u8(input, off + 2),
                file_table_block_count: read_u16_le(input, off + 3),
                file_table_block_num: read_u24_le(input, off + 5),
                top_hash_table_hash: read_bytes(input, off + 8, 0x14),
                allocated_block_count: read_u32_be(input, off + 0x1C),
                unallocated_block_count: read_u32_be(input, off + 0x20),
            },
        )
    }
}

/// The SVOD volume descriptor.  It is parsed so that a caller can inspect it,
/// but SVOD extraction is outside the decoder's scope.
#[derive(Debug, Clone)]
pub struct SvodVolumeDescriptor {
    pub size: u8,
    pub block_cache_element_count: u8,
    pub worker_thread_processor: u8,
    pub worker_thread_priority: u8,
    pub root_hash: Vec<u8>,
    pub flags: u8,
    /// Encoded on disk as a 24-bit big-endian integer.
    pub data_block_count: u32,
    /// Encoded on disk as a 24-bit big-endian integer.
    pub data_block_offset: u32,
    pub reserved: Vec<u8>,
}

/// How an SvodVolumeDescriptor relates to the 36 bytes at `off`.
pub open spec fn svod_descriptor_matches(v: SvodVolumeDescriptor, s: Seq<u8>, off: int) -> bool {
    &&& v.size == s[off]
    &&& v.block_cache_element_count == s[off + 1]
    &&& v.worker_thread_processor == s[off + 2]
    &&& v.worker_thread_priority == s[off + 3]
    &&& v.root_hash@ == s.subrange(off + 4, off + 0x18)
    &&& v.flags == s[off + 0x18]
    &&& v.data_block_count == u24_be(s, off + 0x19)
    &&& v.data_block_offset == u24_be(s, off + 0x1C)
    &&& v.reserved@ == s.subrange(off + 0x1F, off + 0x24)
}

impl SvodVolumeDescriptor {
    /// Reads the 36-byte descriptor at `off`.
    pub fn parse(input: &[u8], off: usize) -> (r: Result<SvodVolumeDescriptor, StfsError>)
        ensures
            match r {
                Ok(v) => {
                    &&& off + 0x24 <= input.len()
                    &&& svod_descriptor_matches(v, input@, off as int)
                },
                Err(e) => {
                    &&& off + 0x24 > input.len()
                    &&& e == StfsError::Truncated
                },
            },
    {
        if input.len() < 0x24 || off > input.len() - 0x24 {
            return Err(StfsError::Truncated);
        }
        Ok(
            SvodVolumeDescriptor {
                size: read_u8(input, off),
                block_cache_element_count: read_u8(input, off + 1),
                worker_thread_processor: read_u8(input, off + 2),
                worker_thread_priority: read_u8(input, off + 3),
                root_hash: read_bytes(input, off + 4, 0x14),
                flags: read_u8(input, off + 0x18),
                data_block_count: read_u24_be(input, off + 0x19),
                data_block_offset: read_u24_be(input, off + 0x1C),
                reserved: read_bytes(input, off + 0x1F, 0x5),
            },
        )
    }
}

/// The volume descriptor of whichever filesystem the package declares.
#[derive(Debug, Clone)]
pub enum FileSystem {
    STFS(StfsVolumeDescriptor),
    SVOD(SvodVolumeDescriptor),
}

impl FileSystem {
    /// The STFS descriptor.  Calling this on an SVOD package is a caller
    /// error, so the variant is required.
    pub fn stfs_ref(&self) -> (r: &StfsVolumeDescriptor)
        requires
            self is STFS,
        ensures
            *self == FileSystem::STFS(*r),
    {
        match self {
            FileSystem::STFS(volume_descriptor) => volume_descriptor,
            FileSystem::SVOD(_) => unreached(),
        }
    }

    /// The SVOD descriptor.  Calling this on an STFS package is a caller
    /// error, so the variant is required.
    pub fn svod_ref(&self) -> (r: &SvodVolumeDescriptor)
        requires
            self is SVOD,
        ensures
            *self == FileSystem::SVOD(*r),
    {
        match self {
            FileSystem::SVOD(volume_descriptor) => volume_descriptor,
            FileSystem::STFS(_) => unreached(),
        }
    }
}


/// The fully decoded package header.
#[derive(Debug, Clone)]
pub struct XContentHeader {
    pub package_type: PackageType,
    /// Only present in console-signed packages.
    pub certificate: Option<Certificate>,
    /// Only present in strong-signed packages.
    pub package_signature: Option<Vec<u8>>,
    /// The sixteen entries of the license table.
    pub license_data: Vec<LicenseEntry>,
    pub header_hash: Vec<u8>,
    pub header_size: u32,
    pub content_type: ContentType,
    pub metadata_version: u32,
    pub content_size: u64,
    pub media_id: u32,
    pub version: u32,
    pub base_version: u32,
    pub title_id: u32,
    pub platform: u8,
    pub executable_type: u8,
    pub disc_number: u8,
    pub disc_in_set: u8,
    pub savegame_id: u32,
    pub console_id: Vec<u8>,
    pub profile_id: Vec<u8>,
    pub volume_descriptor: FileSystem,
    pub filesystem_type: FileSystemType,
    /// Only meaningful in PEC packages, where it must be set; never read
    /// from the buffer.
    pub enabled: bool,
    pub data_file_count: u32,
    pub data_file_combined_size: u64,
    pub device_id: Vec<u8>,
    /// UTF-16 code units, read big-endian up to the NUL terminator.
    pub display_name: Vec<u16>,
    pub display_description: Vec<u16>,
    pub publisher_name: Vec<u16>,
    pub title_name: Vec<u16>,
    pub transfer_flags: u8,
    pub thumbnail_image_size: usize,
    pub thumbnail_image: Vec<u8>,
    pub title_thumbnail_image_size: usize,
    pub title_image: Vec<u8>,
    pub installer_type: Option<InstallerType>,
    pub installer_meta: Option<InstallerMeta>,
    pub content_metadata: Option<ContentMetadata>,
}

/// The content type a header's bytes declare.
pub open spec fn spec_content_type(s: Seq<u8>) -> ContentType {
    spec_content_type_of(u32_be(s, 0x344) as u32)
}

/// Whether the header is followed by installer metadata: the header region,
/// rounded up to a 4KB boundary, leaves room for it past offset 0x971A.
pub open spec fn spec_installer_present(s: Seq<u8>) -> bool {
    spec_first_table_address(u32_be(s, 0x340)) - 0x971A > 0x15F4
}

/// How the installer metadata fields relate to the header bytes.
pub open spec fn installer_matches(h: XContentHeader, s: Seq<u8>) -> bool {
    if !spec_installer_present(s) {
        &&& h.installer_type is None
        &&& h.installer_meta is None
    } else {
        let fta = spec_first_table_address(u32_be(s, 0x340));
        &&& h.installer_type == spec_installer_type_of(u32_be(s, 0x971A) as u32)
        &&& match spec_installer_type_of(u32_be(s, 0x971A) as u32) {
            Some(InstallerType::SystemUpdate) | Some(InstallerType::TitleUpdate) => {
                &&& h.installer_meta matches Some(InstallerMeta::FullInstaller(f))
                &&& f.installer_base_version == spec_version_of(u32_be(s, 0x971E) as u32)
                &&& f.installer_version == spec_version_of(u32_be(s, 0x9722) as u32)
            },
            Some(InstallerType::SystemUpdateProgressCache)
            | Some(InstallerType::TitleUpdateProgressCache)
            | Some(InstallerType::TitleContentProgressCache) => {
                &&& h.installer_meta matches Some(InstallerMeta::InstallerProgressCache(p))
                &&& spec_resume_state_of(u32_be(s, 0x971E) as u32) == Some(p.resume_state)
                &&& p.current_file_index == u32_be(s, 0x9722)
                &&& p.current_file_offset == u64_be(s, 0x9726)
                &&& p.bytes_processed == u64_be(s, 0x972E)
                &&& p.high_date_time == u32_be(s, 0x9736)
                &&& p.low_date_time == u32_be(s, 0x973A)
                &&& p.cab_resume_data@ == s.subrange(0x973E, fta)
            },
            Some(InstallerType::NoInstaller) => h.installer_meta is None,
            None => false,
        }
    }
}

/// How the content metadata variant relates to the header bytes.
pub open spec fn content_metadata_matches(h: XContentHeader, s: Seq<u8>) -> bool {
    if spec_content_type(s) == ContentType::AvatarItem {
        &&& h.content_metadata matches Some(ContentMetadata::AvatarItem(a))
        &&& avatar_asset_matches(a, s, 0x3D9)
    } else if spec_content_type(s) == ContentType::Video {
        &&& h.content_metadata matches Some(ContentMetadata::Video(m))
        &&& media_information_matches(m, s, 0x3D9)
    } else {
        h.content_metadata is None
    }
}

/// How a decoded XContentHeader relates to the bytes it was read from.
/// Together with `spec_header_ok` this pins down every field the parser
/// returns.
pub open spec fn header_matches(h: XContentHeader, s: Seq<u8>) -> bool {
    let fscode = u32_be(s, 0x3A9);
    let data_file_off: int = if fscode == 1 { 0x3D1 } else { 0x39D };
    &&& Some(h.package_type) == spec_magic_type(s)
    &&& (h.package_type is Con ==> (h.certificate matches Some(c) && certificate_matches(c, s)))
    &&& (!(h.package_type is Con) ==> h.certificate is None)
    &&& (!(h.package_type is Con) ==> (h.package_signature matches Some(sig) && sig@ == s.subrange(
        0x4,
        0x104,
    )))
    &&& (h.package_type is Con ==> h.package_signature is None)
    &&& h.license_data@.len() == 16
    &&& (forall|i: int| 0 <= i < 16 ==> license_matches(#[trigger] h.license_data@[i], s, i))
    &&& h.header_hash@ == s.subrange(0x32C, 0x340)
    &&& h.header_size == u32_be(s, 0x340)
    &&& h.content_type == spec_content_type(s)
    &&& h.metadata_version == u32_be(s, 0x348)
    &&& h.content_size == u64_be(s, 0x34C)
    &&& h.media_id == u32_be(s, 0x354)
    &&& h.version == u32_be(s, 0x358)
    &&& h.base_version == u32_be(s, 0x35C)
    &&& h.title_id == u32_be(s, 0x360)
    &&& h.platform == s[0x364]
    &&& h.executable_type == s[0x365]
    &&& h.disc_number == s[0x366]
    &&& h.disc_in_set == s[0x367]
    &&& h.savegame_id == u32_be(s, 0x368)
    &&& h.console_id@ == s.subrange(0x36C, 0x371)
    &&& h.profile_id@ == s.subrange(0x371, 0x379)
    &&& spec_filesystem_type_of(fscode as u32) == Some(h.filesystem_type)
    &&& (fscode == 0 ==> (h.volume_descriptor matches FileSystem::STFS(v)
        && stfs_descriptor_matches(v, s, 0x379)))
    &&& (fscode == 1 ==> (h.volume_descriptor matches FileSystem::SVOD(v)
        && svod_descriptor_matches(v, s, 0x3AD)))
    &&& h.data_file_count == u32_be(s, data_file_off)
    &&& h.data_file_combined_size == u64_be(s, data_file_off + 4)
    &&& content_metadata_matches(h, s)
    &&& h.device_id@ == s.subrange(0x3FD, 0x411)
    &&& h.display_name@ == utf16_units(s, 0x411, cstr16_len(s, 0x411, 0x480))
    &&& h.display_description@ == utf16_units(s, 0xD11, cstr16_len(s, 0xD11, 0x480))
    &&& h.publisher_name@ == utf16_units(s, 0x1611, cstr16_len(s, 0x1611, 0x40))
    &&& h.title_name@ == utf16_units(s, 0x1691, cstr16_len(s, 0x1691, 0x40))
    &&& h.transfer_flags == s[0x1711]
    &&& h.thumbnail_image_size == u32_be(s, 0x1712)
    &&& h.title_thumbnail_image_size == u32_be(s, 0x1716)
    &&& h.thumbnail_image@ == s.subrange(0x171A, 0x171A + u32_be(s, 0x1712))
    &&& h.title_image@ == s.subrange(0x571A, 0x571A + u32_be(s, 0x1716))
    &&& installer_matches(h, s)
    &&& h.enabled == false
}

/// Every condition a buffer must meet for the header parse to succeed.
/// The parser returns `Ok` exactly on buffers meeting all of them.
pub open spec fn spec_header_ok(s: Seq<u8>) -> bool {
    let len = s.len() as int;
    let magic = spec_magic_type(s);
    let ct = spec_content_type(s);
    let fscode = u32_be(s, 0x3A9);
    let tsize = u32_be(s, 0x1712);
    let ttsize = u32_be(s, 0x1716);
    &&& len >= 4
    &&& magic is Some
    &&& (magic == Some(PackageType::Con) ==> len >= 0x22C)
    &&& (magic != Some(PackageType::Con) ==> len >= 0x104)
    &&& len >= 0x32C
    &&& licenses_ok(s)
    &&& len >= 0x3AD
    &&& (fscode == 0 || fscode == 1)
    &&& (fscode == 1 ==> len >= 0x3DD)
    &&& (ct == ContentType::AvatarItem ==> len >= 0x3F2 && spec_skeleton_version_of(s[0x3F1]) is Some)
    &&& (ct == ContentType::Video ==> len >= 0x3FD)
    &&& len >= 0xD11
    &&& cstr16_terminated(s, 0x411, 0x480)
    &&& len >= 0x1611
    &&& cstr16_terminated(s, 0xD11, 0x480)
    &&& len >= 0x1691
    &&& cstr16_terminated(s, 0x1611, 0x40)
    &&& len >= 0x1711
    &&& cstr16_terminated(s, 0x1691, 0x40)
    &&& len >= 0x171A
    &&& tsize <= 0x4000
    &&& len >= 0x171A + tsize
    &&& ttsize <= 0x4000
    &&& len >= 0x571A + ttsize
    &&& spec_installer_ok(s)
}

/// The conditions the installer region must meet, where one is present.
pub open spec fn spec_installer_ok(s: Seq<u8>) -> bool {
    let len = s.len() as int;
    if !spec_installer_present(s) {
        true
    } else {
        let itype = spec_installer_type_of(u32_be(s, 0x971A) as u32);
        &&& len >= 0x971E
        &&& itype is Some
        &&& ((itype == Some(InstallerType::SystemUpdate)
            || itype == Some(InstallerType::TitleUpdate)) ==> len >= 0x9726)
        &&& (spec_installer_is_cache(itype) ==> {
            &&& len >= 0x9722
            &&& spec_resume_state_of(u32_be(s, 0x971E) as u32) is Some
            &&& len >= 0x973E
            &&& len >= spec_first_table_address(u32_be(s, 0x340))
        })
    }
}

/// Whether an installer type is one of the progress caches.
pub open spec fn spec_installer_is_cache(itype: Option<InstallerType>) -> bool {
    ||| itype == Some(InstallerType::SystemUpdateProgressCache)
    ||| itype == Some(InstallerType::TitleUpdateProgressCache)
    ||| itype == Some(InstallerType::TitleContentProgressCache)
}

/// The error the parser returns on a buffer that fails `spec_header_ok`:
/// the checks run in the order the fields are read, and the first to fail
/// names the error.
pub open spec fn spec_header_err(s: Seq<u8>) -> StfsError {
    let len = s.len() as int;
    let magic = spec_magic_type(s);
    let ct = spec_content_type(s);
    let fscode = u32_be(s, 0x3A9);
    let tsize = u32_be(s, 0x1712);
    let ttsize = u32_be(s, 0x1716);
    if len < 4 {
        StfsError::Truncated
    } else if magic is None {
        StfsError::InvalidHeader
    } else if magic == Some(PackageType::Con) && len < 0x22C {
        StfsError::Truncated
    } else if magic != Some(PackageType::Con) && len < 0x104 {
        StfsError::Truncated
    } else if len < 0x32C {
        StfsError::Truncated
    } else if !licenses_ok(s) {
        StfsError::InvalidEnum(
            EnumField::LicenseType,
            ((u64_be(s, 0x22C + 16 * first_bad_license(s, 0)) / 0x1000000000000) as u32),
        )
    } else if len < 0x3AD {
        StfsError::Truncated
    } else if spec_filesystem_type_of(fscode as u32) is None {
        StfsError::InvalidEnum(EnumField::FileSystemType, fscode as u32)
    } else if fscode == 2 {
        StfsError::InvalidPackageType
    } else if fscode == 1 && len < 0x3DD {
        StfsError::Truncated
    } else if ct == ContentType::AvatarItem && len < 0x3F2 {
        StfsError::Truncated
    } else if ct == ContentType::AvatarItem && spec_skeleton_version_of(s[0x3F1]) is None {
        StfsError::InvalidEnum(EnumField::SkeletonVersion, s[0x3F1] as u32)
    } else if ct == ContentType::Video && len < 0x3FD {
        StfsError::Truncated
    } else if len < 0xD11 {
        StfsError::Truncated
    } else if !cstr16_terminated(s, 0x411, 0x480) {
        StfsError::InvalidHeader
    } else if len < 0x1611 {
        StfsError::Truncated
    } else if !cstr16_terminated(s, 0xD11, 0x480) {
        StfsError::InvalidHeader
    } else if len < 0x1691 {
        StfsError::Truncated
    } else if !cstr16_terminated(s, 0x1611, 0x40) {
        StfsError::InvalidHeader
    } else if len < 0x1711 {
        StfsError::Truncated
    } else if !cstr16_terminated(s, 0x1691, 0x40) {
        StfsError::InvalidHeader
    } else if len < 0x171A {
        StfsError::Truncated
    } else if tsize > 0x4000 {
        StfsError::InvalidHeader
    } else if len < 0x171A + tsize {
        StfsError::Truncated
    } else if ttsize > 0x4000 {
        StfsError::InvalidHeader
    } else if len < 0x571A + ttsize {
        StfsError::Truncated
    } else {
        spec_installer_err(s)
    }
}

/// The error named by the installer region, reached once everything before
/// it has parsed.
pub open spec fn spec_installer_err(s: Seq<u8>) -> StfsError {
    let len = s.len() as int;
    let itype = spec_installer_type_of(u32_be(s, 0x971A) as u32);
    if len < 0x971E {
        StfsError::Truncated
    } else if itype is None {
        StfsError::InvalidEnum(EnumField::InstallerType, (u32_be(s, 0x971A) as u32))
    } else if (itype == Some(InstallerType::SystemUpdate) || itype == Some(
        InstallerType::TitleUpdate,
    )) && len < 0x9726 {
        StfsError::Truncated
    } else if spec_installer_is_cache(itype) && len < 0x9722 {
        StfsError::Truncated
    } else if spec_installer_is_cache(itype) && spec_resume_state_of(
        u32_be(s, 0x971E) as u32,
    ) is None {
        StfsError::InvalidEnum(EnumField::ResumeState, (u32_be(s, 0x971E) as u32))
    } else if spec_installer_is_cache(itype) && len < 0x973E {
        StfsError::Truncated
    } else {
        StfsError::Truncated
    }
}

proof fn lemma_first_bad_license_step(s: Seq<u8>, k: int)
    requires
        0 <= k < 16,
        spec_license_type_of(u64_be(s, 0x22C + 16 * k) / 0x1000000000000) is Some,
    ensures
        first_bad_license(s, k) == first_bad_license(s, k + 1),
{
}

proof fn lemma_first_bad_license_is(s: Seq<u8>, k: int, i: int)
    requires
        0 <= k <= i < 16,
        forall|j: int|
            k <= j < i ==> spec_license_type_of(
                #[trigger] u64_be(s, 0x22C + 16 * j) / 0x1000000000000,
            ) is Some,
        spec_license_type_of(u64_be(s, 0x22C + 16 * i) / 0x1000000000000) is None,
    ensures
        first_bad_license(s, k) == i,
    decreases i - k,
{
    if k < i {
        lemma_first_bad_license_is(s, k + 1, i);
    }
}

/// Reads the sixteen entries of the license table at 0x22C.  Fails on the
/// first entry whose type code is not declared.
fn parse_license_table(input: &[u8]) -> (r: Result<Vec<LicenseEntry>, StfsError>)
    requires
        input.len() >= 0x32C,
    ensures
        match r {
            Ok(v) => {
                &&& licenses_ok(input@)
                &&& v@.len() == 16
                &&& forall|j: int| 0 <= j < 16 ==> license_matches(#[trigger] v@[j], input@, j)
            },
            Err(e) => {
                &&& !licenses_ok(input@)
                &&& e == StfsError::InvalidEnum(
                    EnumField::LicenseType,
                    ((u64_be(input@, 0x22C + 16 * first_bad_license(input@, 0))
                        / 0x1000000000000) as u32),
                )
            },
        },
{
    let ghost s = input@;
    let mut license_data: Vec<LicenseEntry> = Vec::new();
    let mut i: usize = 0;
    while i < 16
        invariant
            i <= 16,
            input.len() >= 0x32C,
            s == input@,
            license_data@.len() == i,
            forall|j: int|
                0 <= j < i ==> spec_license_type_of(
                    #[trigger] u64_be(s, 0x22C + 16 * j) / 0x1000000000000,
                ) is Some,
            forall|j: int| 0 <= j < i ==> license_matches(#[trigger] license_data@[j], s, j),
        decreases 16 - i,
    {
        let packed = read_u64_be(input, 0x22C + 16 * i);
        let code16: u16 = (packed / 0x1000000000000) as u16;
        let ty = match LicenseType::from_code(code16) {
            Ok(t) => t,
            Err(e) => {
                proof {
                    lemma_first_bad_license_is(s, 0, i as int);
                    assert(!licenses_ok(s));
                }
                return Err(e);
            },
        };
        let data = packed % 0x1000000000000;
        let bits = read_u32_be(input, 0x22C + 16 * i + 8);
        let flags = read_u32_be(input, 0x22C + 16 * i + 12);
        license_data.push(LicenseEntry { ty, data, bits, flags });
        i = i + 1;
    }
    Ok(license_data)
}

/// Reads the whole header from the start of the package buffer.  Succeeds
/// exactly on the buffers `spec_header_ok` admits; on any other buffer the
/// first check to fail, in read order, names the error.
#[verifier::rlimit(100)]
pub fn xcontent_header_parser(input: &[u8]) -> (r: Result<XContentHeader, StfsError>)
    ensures
        match r {
            Ok(h) => {
                &&& spec_header_ok(input@)
                &&& header_matches(h, input@)
            },
            Err(e) => {
                &&& !spec_header_ok(input@)
                &&& e == spec_header_err(input@)
            },
        },
{
    let ghost s = input@;
    if input.len() < 4 {
        return Err(StfsError::Truncated);
    }
    let magic: [u8; 4] = [input[0], input[1], input[2], input[3]];
    proof {
        assert(magic@[0] == s[0] && magic@[1] == s[1] && magic@[2] == s[2] && magic@[3] == s[3]);
    }
    let package_type = match PackageType::try_from(magic) {
        Ok(t) => t,
        Err(e) => {
            return Err(e);
        },
    };

    let certificate = match package_type {
        PackageType::Con => {
            match certificate_parser(input) {
                Ok(c) => Some(c),
                Err(e) => {
                    return Err(e);
                },
            }
        },
        _ => None,
    };
    let package_signature = match package_type {
        PackageType::Con => None,
        _ => {
            if input.len() < 0x104 {
                return Err(StfsError::Truncated);
            }
            Some(read_bytes(input, 0x4, 0x100))
        },
    };

    if input.len() < 0x32C {
        return Err(StfsError::Truncated);
    }
    let license_data = match parse_license_table(input) {
        Ok(v) => v,
        Err(e) => {
            return Err(e);
        },
    };

    if input.len() < 0x3AD {
        return Err(StfsError::Truncated);
    }
    let header_hash = read_bytes(input, 0x32C, 0x14);
    let header_size = read_u32_be(input, 0x340);
    let content_type = ContentType::from_code(read_u32_be(input, 0x344));
    let metadata_version = read_u32_be(input, 0x348);
    let content_size = read_u64_be(input, 0x34C);
    let media_id = read_u32_be(input, 0x354);
    let version = read_u32_be(input, 0x358);
    let base_version = read_u32_be(input, 0x35C);
    let title_id = read_u32_be(input, 0x360);
    let platform = read_u8(input, 0x364);
    let executable_type = read_u8(input, 0x365);
    let disc_number = read_u8(input, 0x366);
    let disc_in_set = read_u8(input, 0x367);
    let savegame_id = read_u32_be(input, 0x368);
    let console_id = read_bytes(input, 0x36C, 0x5);
    let profile_id = read_bytes(input, 0x371, 0x8);

    let fscode = read_u32_be(input, 0x3A9);
    let filesystem_type = match FileSystemType::from_code(fscode) {
        Ok(t) => t,
        Err(e) => {
            return Err(e);
        },
    };
    if matches!(filesystem_type, FileSystemType::FATX) {
        return Err(StfsError::InvalidPackageType);
    }
    let volume_descriptor = match filesystem_type {
        FileSystemType::STFS => {
            match StfsVolumeDescriptor::parse(input, 0x379) {
                Ok(v) => FileSystem::STFS(v),
                Err(_) => unreached(),
            }
        },
        _ => {
            if input.len() < 0x3DD {
                return Err(StfsError::Truncated);
            }
            match SvodVolumeDescriptor::parse(input, 0x3AD) {
                Ok(v) => FileSystem::SVOD(v),
                Err(_) => unreached(),
            }
        },
    };
    let data_file_off: usize = match filesystem_type {
        FileSystemType::STFS => 0x39D,
        _ => 0x3D1,
    };
    let data_file_count = read_u32_be(input, data_file_off);
    let data_file_combined_size = read_u64_be(input, data_file_off + 4);

    let content_metadata = match content_type {
        ContentType::AvatarItem => {
            match AvatarAssetInformation::parse(input, 0x3D9) {
                Ok(a) => Some(ContentMetadata::AvatarItem(a)),
                Err(e) => {
                    return Err(e);
                },
            }
        },
        ContentType::Video => {
            match MediaInformation::parse(input, 0x3D9) {
                Ok(m) => Some(ContentMetadata::Video(m)),
                Err(e) => {
                    return Err(e);
                },
            }
        },
        _ => None,
    };

    if input.len() < 0xD11 {
        return Err(StfsError::Truncated);
    }
    let device_id = read_bytes(input, 0x3FD, 0x14);
    let display_name = match read_utf16_cstr(input, 0x411, 0x480) {
        Ok(u) => u,
        Err(e) => {
            return Err(e);
        },
    };
    if input.len() < 0x1611 {
        return Err(StfsError::Truncated);
    }
    let display_description = match read_utf16_cstr(input, 0xD11, 0x480) {
        Ok(u) => u,
        Err(e) => {
            return Err(e);
        },
    };
    if input.len() < 0x1691 {
        return Err(StfsError::Truncated);
    }
    let publisher_name = match read_utf16_cstr(input, 0x1611, 0x40) {
        Ok(u) => u,
        Err(e) => {
            return Err(e);
        },
    };
    if input.len() < 0x1711 {
        return Err(StfsError::Truncated);
    }
    let title_name = match read_utf16_cstr(input, 0x1691, 0x40) {
        Ok(u) => u,
        Err(e) => {
            return Err(e);
        },
    };
    if input.len() < 0x171A {
        return Err(StfsError::Truncated);
    }
    let transfer_flags = read_u8(input, 0x1711);
    let thumbnail_size_word = read_u32_be(input, 0x1712);
    let title_thumbnail_size_word = read_u32_be(input, 0x1716);
    if thumbnail_size_word > 0x4000 {
        return Err(StfsError::InvalidHeader);
    }
    let thumbnail_image_size: usize = thumbnail_size_word as usize;
    if input.len() - 0x171A < thumbnail_image_size {
        return Err(StfsError::Truncated);
    }
    let thumbnail_image = read_bytes(input, 0x171A, thumbnail_image_size);
    if title_thumbnail_size_word > 0x4000 {
        return Err(StfsError::InvalidHeader);
    }
    let title_thumbnail_image_size: usize = title_thumbnail_size_word as usize;
    if input.len() < 0x571A || input.len() - 0x571A < title_thumbnail_image_size {
        return Err(StfsError::Truncated);
    }
    let title_image = read_bytes(input, 0x571A, title_thumbnail_image_size);

    let first_table_address = crate::geometry::round_to_block_boundary(header_size);
    let mut installer_type: Option<InstallerType> = None;
    let mut installer_meta: Option<InstallerMeta> = None;
    if first_table_address > 0x971A + 0x15F4 {
        if input.len() < 0x971E {
            return Err(StfsError::Truncated);
        }
        let installer_code = read_u32_be(input, 0x971A);
        let itype = match InstallerType::from_code(installer_code) {
            Ok(t) => t,
            Err(e) => {
                return Err(e);
            },
        };
        installer_type = Some(itype);
        match itype {
            InstallerType::SystemUpdate | InstallerType::TitleUpdate => {
                if input.len() < 0x9726 {
                    return Err(StfsError::Truncated);
                }
                let installer_base_version = Version::from(read_u32_be(input, 0x971E));
                let installer_version = Version::from(read_u32_be(input, 0x9722));
                installer_meta = Some(
                    InstallerMeta::FullInstaller(
                        FullInstallerMeta { installer_base_version, installer_version },
                    ),
                );
            },
            InstallerType::SystemUpdateProgressCache
            | InstallerType::TitleUpdateProgressCache
            | InstallerType::TitleContentProgressCache => {
                if input.len() < 0x9722 {
                    return Err(StfsError::Truncated);
                }
                let resume_code = read_u32_be(input, 0x971E);
                let resume_state = match OnlineContentResumeState::from_code(resume_code) {
                    Ok(v) => v,
                    Err(e) => {
                        return Err(e);
                    },
                };
                if input.len() < 0x973E {
                    return Err(StfsError::Truncated);
                }
                let current_file_index = read_u32_be(input, 0x9722);
                let current_file_offset = read_u64_be(input, 0x9726);
                let bytes_processed = read_u64_be(input, 0x972E);
                let high_date_time = read_u32_be(input, 0x9736);
                let low_date_time = read_u32_be(input, 0x973A);
                if (input.len() as u64) < first_table_address {
                    return Err(StfsError::Truncated);
                }
                let cab_resume_data = read_bytes(
                    input,
                    0x973E,
                    (first_table_address as usize) - 0x973E,
                );
                installer_meta = Some(
                    InstallerMeta::InstallerProgressCache(
                        InstallerProgressCache {
                            resume_state,
                            current_file_index,
                            current_file_offset,
                            bytes_processed,
                            high_date_time,
                            low_date_time,
                            cab_resume_data,
                        },
                    ),
                );
            },
            InstallerType::NoInstaller => {},
        }
    }

    let enabled = false;
    Ok(
        XContentHeader {
            package_type,
            certificate,
            package_signature,
            license_data,
            header_hash,
            header_size,
            content_type,
            metadata_version,
            content_size,
            media_id,
            version,
            base_version,
            title_id,
            platform,
            executable_type,
            disc_number,
            disc_in_set,
            savegame_id,
            console_id,
            profile_id,
            volume_descriptor,
            filesystem_type,
            enabled,
            data_file_count,
            data_file_combined_size,
            device_id,
            display_name,
            display_description,
            publisher_name,
            title_name,
            transfer_flags,
            thumbnail_image_size,
            thumbnail_image,
            title_thumbnail_image_size,
            title_image,
            installer_type,
            installer_meta,
            content_metadata,
        },
    )
}

impl XContentHeader {
    /// The level the root hash table sits at: the shallowest level whose
    /// forest can describe every allocated block.  A package whose block
    /// count exceeds the deepest level is refused, as is one without an
    /// STFS descriptor.
    pub fn root_hash_table_level(&self) -> (r: Result<HashTableLevel, StfsError>)
        ensures
            match r {
                Ok(level) => {
                    &&& self.volume_descriptor matches FileSystem::STFS(v) && spec_root_level(
                        v.allocated_block_count as int,
                    ) == Some(level)
                },
                Err(e) => {
                    if self.volume_descriptor is STFS {
                        &&& spec_root_level(
                            self.volume_descriptor->STFS_0.allocated_block_count as int,
                        ) is None
                        &&& e == StfsError::InvalidHeader
                    } else {
                        e == StfsError::InvalidPackageType
                    }
                },
            },
    {
        match &self.volume_descriptor {
            FileSystem::STFS(volume_descriptor) => {
                let allocated = volume_descriptor.allocated_block_count;
                if allocated <= 0xAA {
                    Ok(HashTableLevel::First)
                } else if allocated <= 0x70E4 {
                    Ok(HashTableLevel::Second)
                } else if allocated <= 0x4AF768 {
                    Ok(HashTableLevel::Third)
                } else {
                    Err(StfsError::InvalidHeader)
                }
            },
            FileSystem::SVOD(_) => Err(StfsError::InvalidPackageType),
        }
    }
}

} // verus!
