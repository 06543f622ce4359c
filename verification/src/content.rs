//! Content metadata: the content-type enumerator, the avatar-item and video
//! metadata variants, and the installer metadata that can trail the header.

use vstd::prelude::*;
use crate::bytes::u16_be;
use crate::bytes::u32_le;
use crate::bytes::read_u8;
use crate::bytes::read_u16_be;
use crate::bytes::read_u32_le;
use crate::bytes::read_bytes;
use crate::errors::EnumField;
use crate::errors::StfsError;

verus! {

broadcast use vstd::slice::axiom_spec_len;

/// The declared content type of a package, read from the header.
#[derive(Debug, Copy, Clone, PartialEq, Eq, Structural)]
pub enum ContentType {
    ArcadeGame,
    AvatarAssetPack,
    AvatarItem,
    CacheFile,
    CommunityGame,
    GameDemo,
    GameOnDemand,
    GamerPicture,
    GamerTitle,
    GameTrailer,
    GameVideo,
    InstalledGame,
    Installer,
    IPTVPauseBuffer,
    LicenseStore,
    MarketPlaceContent,
    Movie,
    MusicVideo,
    PodcastVideo,
    Profile,
    Publisher,
    SavedGame,
    StorageDownload,
    Theme,
    Video,
    ViralVideo,
    XboxDownload,
    XboxOriginalGame,
    XboxSavedGame,
    Xbox360Title,
    XNA,
    /// A code outside the declared set, kept as it was read.
    Unknown(u32),
}

/// The ContentType selected by an on-disk code.
pub open spec fn spec_content_type_of(code: u32) -> ContentType {
    if code == 0xD0000 {
        ContentType::ArcadeGame
    } else if code == 0x8000 {
        ContentType::AvatarAssetPack
    } else if code == 0x9000 {
        ContentType::AvatarItem
    } else if code == 0x40000 {
        ContentType::CacheFile
    } else if code == 0x2000000 {
        ContentType::CommunityGame
    } else if code == 0x80000 {
        ContentType::GameDemo
    } else if code == 0x7000 {
        ContentType::GameOnDemand
    } else if code == 0x20000 {
        ContentType::GamerPicture
    } else if code == 0xA0000 {
        ContentType::GamerTitle
    } else if code == 0xC0000 {
        ContentType::GameTrailer
    } else if code == 0x400000 {
        ContentType::GameVideo
    } else if code == 0x4000 {
        ContentType::InstalledGame
    } else if code == 0xB0000 {
        ContentType::Installer
    } else if code == 0x2000 {
        ContentType::IPTVPauseBuffer
    } else if code == 0xF0000 {
        ContentType::LicenseStore
    } else if code == 2 {
        ContentType::MarketPlaceContent
    } else if code == 0x100000 {
        ContentType::Movie
    } else if code == 0x300000 {
        ContentType::MusicVideo
    } else if code == 0x500000 {
        ContentType::PodcastVideo
    } else if code == 0x10000 {
        ContentType::Profile
    } else if code == 3 {
        ContentType::Publisher
    } else if code == 1 {
        ContentType::SavedGame
    } else if code == 0x50000 {
        ContentType::StorageDownload
    } else if code == 0x30000 {
        ContentType::Theme
    } else if code == 0x200000 {
        ContentType::Video
    } else if code == 0x600000 {
        ContentType::ViralVideo
    } else if code == 0x70000 {
        ContentType::XboxDownload
    } else if code == 0x5000 {
        ContentType::XboxOriginalGame
    } else if code == 0x60000 {
        ContentType::XboxSavedGame
    } else if code == 0x1000 {
        ContentType::Xbox360Title
    } else if code == 0xE0000 {
        ContentType::XNA
    } else {
        ContentType::Unknown(code)
    }
}

impl ContentType {
    /// Decodes an on-disk code, keeping an unknown code as `Unknown`.
    pub fn from_code(code: u32) -> (r: ContentType)
        ensures
            r == spec_content_type_of(code),
    {
        match code {
            0xD0000 => ContentType::ArcadeGame,
            0x8000 => ContentType::AvatarAssetPack,
            0x9000 => ContentType::AvatarItem,
            0x40000 => ContentType::CacheFile,
            0x2000000 => ContentType::CommunityGame,
            0x80000 => ContentType::GameDemo,
            0x7000 => ContentType::GameOnDemand,
            0x20000 => ContentType::GamerPicture,
            0xA0000 => ContentType::GamerTitle,
            0xC0000 => ContentType::GameTrailer,
            0x400000 => ContentType::GameVideo,
            0x4000 => ContentType::InstalledGame,
            0xB0000 => ContentType::Installer,
            0x2000 => ContentType::IPTVPauseBuffer,
            0xF0000 => ContentType::LicenseStore,
            2 => ContentType::MarketPlaceContent,
            0x100000 => ContentType::Movie,
            0x300000 => ContentType::MusicVideo,
            0x500000 => ContentType::PodcastVideo,
            0x10000 => ContentType::Profile,
            3 => ContentType::Publisher,
            1 => ContentType::SavedGame,
            0x50000 => ContentType::StorageDownload,
            0x30000 => ContentType::Theme,
            0x200000 => ContentType::Video,
            0x600000 => ContentType::ViralVideo,
            0x70000 => ContentType::XboxDownload,
            0x5000 => ContentType::XboxOriginalGame,
            0x60000 => ContentType::XboxSavedGame,
            0x1000 => ContentType::Xbox360Title,
            0xE0000 => ContentType::XNA,
            _ => ContentType::Unknown(code),
        }
    }
}

/// The subcategory of an avatar item, read little-endian from the content metadata.
#[derive(Debug, Copy, Clone, PartialEq, Eq, Structural)]
pub enum AssetSubcategory {
    CarryableCarryable,
    CostumeCasualSuit,
    CostumeCostume,
    CostumeFormalSuit,
    CostumeLongDress,
    CostumeShortDress,
    EarringsDanglers,
    EarringsLargehoops,
    EarringsSingleDangler,
    EarringsSingleLargeHoop,
    EarringsSingleSmallHoop,
    EarringsSingleStud,
    EarringsSmallHoops,
    EarringsStuds,
    GlassesCostume,
    GlassesGlasses,
    GlassesSunglasses,
    GlovesFingerless,
    GlovesFullFingered,
    HatBaseballCap,
    HatBeanie,
    HatBearskin,
    HatBrimmed,
    HatCostume,
    HatFez,
    HatFlatCap,
    HatHeadwrap,
    HatHelmet,
    HatPeakCap,
    RingLast,
    RingLeft,
    RingRight,
    ShirtCoat,
    ShirtHoodie,
    ShirtJacket,
    ShirtLongSleeveShirt,
    ShirtLongSleeveTee,
    ShirtPolo,
    ShirtShortSleeveShirt,
    ShirtSportsTee,
    ShirtSweater,
    ShirtTee,
    ShirtVest,
    ShoesCostume,
    ShoesFormal,
    ShoesHeels,
    ShoesHighBoots,
    ShoesPumps,
    ShoesSandals,
    ShoesShortBoots,
    ShoesTrainers,
    TrousersCargo,
    TrousersHotpants,
    TrousersJeans,
    TrousersKilt,
    TrousersLeggings,
    TrousersLongShorts,
    TrousersLongSkirt,
    TrousersShorts,
    TrousersShortSkirt,
    TrousersTrousers,
    WristwearBands,
    WristwearBracelet,
    WristwearSweatbands,
    WristwearWatch,
    /// A code outside the declared set, kept as it was read.
    Unknown(u32),
}

/// The AssetSubcategory selected by an on-disk code.
pub open spec fn spec_asset_subcategory_of(code: u32) -> AssetSubcategory {
    if code == 0x44C {
        AssetSubcategory::CarryableCarryable
    } else if code == 0x68 {
        AssetSubcategory::CostumeCasualSuit
    } else if code == 0x69 {
        AssetSubcategory::CostumeCostume
    } else if code == 0x67 {
        AssetSubcategory::CostumeFormalSuit
    } else if code == 0x65 {
        AssetSubcategory::CostumeLongDress
    } else if code == 100 {
        AssetSubcategory::CostumeShortDress
    } else if code == 0x387 {
        AssetSubcategory::EarringsDanglers
    } else if code == 0x38B {
        AssetSubcategory::EarringsLargehoops
    } else if code == 0x386 {
        AssetSubcategory::EarringsSingleDangler
    } else if code == 0x38A {
        AssetSubcategory::EarringsSingleLargeHoop
    } else if code == 0x388 {
        AssetSubcategory::EarringsSingleSmallHoop
    } else if code == 900 {
        AssetSubcategory::EarringsSingleStud
    } else if code == 0x389 {
        AssetSubcategory::EarringsSmallHoops
    } else if code == 0x385 {
        AssetSubcategory::EarringsStuds
    } else if code == 0x2BE {
        AssetSubcategory::GlassesCostume
    } else if code == 700 {
        AssetSubcategory::GlassesGlasses
    } else if code == 0x2BD {
        AssetSubcategory::GlassesSunglasses
    } else if code == 600 {
        AssetSubcategory::GlovesFingerless
    } else if code == 0x259 {
        AssetSubcategory::GlovesFullFingered
    } else if code == 0x1F6 {
        AssetSubcategory::HatBaseballCap
    } else if code == 500 {
        AssetSubcategory::HatBeanie
    } else if code == 0x1FC {
        AssetSubcategory::HatBearskin
    } else if code == 0x1F8 {
        AssetSubcategory::HatBrimmed
    } else if code == 0x1FB {
        AssetSubcategory::HatCostume
    } else if code == 0x1F9 {
        AssetSubcategory::HatFez
    } else if code == 0x1F5 {
        AssetSubcategory::HatFlatCap
    } else if code == 0x1FA {
        AssetSubcategory::HatHeadwrap
    } else if code == 0x1FD {
        AssetSubcategory::HatHelmet
    } else if code == 0x1F7 {
        AssetSubcategory::HatPeakCap
    } else if code == 0x3EA {
        AssetSubcategory::RingLast
    } else if code == 0x3E9 {
        AssetSubcategory::RingLeft
    } else if code == 0x3E8 {
        AssetSubcategory::RingRight
    } else if code == 210 {
        AssetSubcategory::ShirtCoat
    } else if code == 0xD0 {
        AssetSubcategory::ShirtHoodie
    } else if code == 0xD1 {
        AssetSubcategory::ShirtJacket
    } else if code == 0xCE {
        AssetSubcategory::ShirtLongSleeveShirt
    } else if code == 0xCC {
        AssetSubcategory::ShirtLongSleeveTee
    } else if code == 0xCB {
        AssetSubcategory::ShirtPolo
    } else if code == 0xCD {
        AssetSubcategory::ShirtShortSleeveShirt
    } else if code == 200 {
        AssetSubcategory::ShirtSportsTee
    } else if code == 0xCF {
        AssetSubcategory::ShirtSweater
    } else if code == 0xC9 {
        AssetSubcategory::ShirtTee
    } else if code == 0xCA {
        AssetSubcategory::ShirtVest
    } else if code == 0x197 {
        AssetSubcategory::ShoesCostume
    } else if code == 0x193 {
        AssetSubcategory::ShoesFormal
    } else if code == 0x191 {
        AssetSubcategory::ShoesHeels
    } else if code == 0x196 {
        AssetSubcategory::ShoesHighBoots
    } else if code == 0x192 {
        AssetSubcategory::ShoesPumps
    } else if code == 400 {
        AssetSubcategory::ShoesSandals
    } else if code == 0x195 {
        AssetSubcategory::ShoesShortBoots
    } else if code == 0x194 {
        AssetSubcategory::ShoesTrainers
    } else if code == 0x131 {
        AssetSubcategory::TrousersCargo
    } else if code == 300 {
        AssetSubcategory::TrousersHotpants
    } else if code == 0x132 {
        AssetSubcategory::TrousersJeans
    } else if code == 0x134 {
        AssetSubcategory::TrousersKilt
    } else if code == 0x12F {
        AssetSubcategory::TrousersLeggings
    } else if code == 0x12E {
        AssetSubcategory::TrousersLongShorts
    } else if code == 0x135 {
        AssetSubcategory::TrousersLongSkirt
    } else if code == 0x12D {
        AssetSubcategory::TrousersShorts
    } else if code == 0x133 {
        AssetSubcategory::TrousersShortSkirt
    } else if code == 0x130 {
        AssetSubcategory::TrousersTrousers
    } else if code == 0x322 {
        AssetSubcategory::WristwearBands
    } else if code == 800 {
        AssetSubcategory::WristwearBracelet
    } else if code == 0x323 {
        AssetSubcategory::WristwearSweatbands
    } else if code == 0x321 {
        AssetSubcategory::WristwearWatch
    } else {
        AssetSubcategory::Unknown(code)
    }
}

impl AssetSubcategory {
    /// Decodes an on-disk code, keeping an unknown code as `Unknown`.
    pub fn from_code(code: u32) -> (r: AssetSubcategory)
        ensures
            r == spec_asset_subcategory_of(code),
    {
        match code {
            0x44C => AssetSubcategory::CarryableCarryable,
            0x68 => AssetSubcategory::CostumeCasualSuit,
            0x69 => AssetSubcategory::CostumeCostume,
            0x67 => AssetSubcategory::CostumeFormalSuit,
            0x65 => AssetSubcategory::CostumeLongDress,
            100 => AssetSubcategory::CostumeShortDress,
            0x387 => AssetSubcategory::EarringsDanglers,
            0x38B => AssetSubcategory::EarringsLargehoops,
            0x386 => AssetSubcategory::EarringsSingleDangler,
            0x38A => AssetSubcategory::EarringsSingleLargeHoop,
            0x388 => AssetSubcategory::EarringsSingleSmallHoop,
            900 => AssetSubcategory::EarringsSingleStud,
            0x389 => AssetSubcategory::EarringsSmallHoops,
            0x385 => AssetSubcategory::EarringsStuds,
            0x2BE => AssetSubcategory::GlassesCostume,
            700 => AssetSubcategory::GlassesGlasses,
            0x2BD => AssetSubcategory::GlassesSunglasses,
            600 => AssetSubcategory::GlovesFingerless,
            0x259 => AssetSubcategory::GlovesFullFingered,
            0x1F6 => AssetSubcategory::HatBaseballCap,
            500 => AssetSubcategory::HatBeanie,
            0x1FC => AssetSubcategory::HatBearskin,
            0x1F8 => AssetSubcategory::HatBrimmed,
            0x1FB => AssetSubcategory::HatCostume,
            0x1F9 => AssetSubcategory::HatFez,
            0x1F5 => AssetSubcategory::HatFlatCap,
            0x1FA => AssetSubcategory::HatHeadwrap,
            0x1FD => AssetSubcategory::HatHelmet,
            0x1F7 => AssetSubcategory::HatPeakCap,
            0x3EA => AssetSubcategory::RingLast,
            0x3E9 => AssetSubcategory::RingLeft,
            0x3E8 => AssetSubcategory::RingRight,
            210 => AssetSubcategory::ShirtCoat,
            0xD0 => AssetSubcategory::ShirtHoodie,
            0xD1 => AssetSubcategory::ShirtJacket,
            0xCE => AssetSubcategory::ShirtLongSleeveShirt,
            0xCC => AssetSubcategory::ShirtLongSleeveTee,
            0xCB => AssetSubcategory::ShirtPolo,
            0xCD => AssetSubcategory::ShirtShortSleeveShirt,
            200 => AssetSubcategory::ShirtSportsTee,
            0xCF => AssetSubcategory::ShirtSweater,
            0xC9 => AssetSubcategory::ShirtTee,
            0xCA => AssetSubcategory::ShirtVest,
            0x197 => AssetSubcategory::ShoesCostume,
            0x193 => AssetSubcategory::ShoesFormal,
            0x191 => AssetSubcategory::ShoesHeels,
            0x196 => AssetSubcategory::ShoesHighBoots,
            0x192 => AssetSubcategory::ShoesPumps,
            400 => AssetSubcategory::ShoesSandals,
            0x195 => AssetSubcategory::ShoesShortBoots,
            0x194 => AssetSubcategory::ShoesTrainers,
            0x131 => AssetSubcategory::TrousersCargo,
            300 => AssetSubcategory::TrousersHotpants,
            0x132 => AssetSubcategory::TrousersJeans,
            0x134 => AssetSubcategory::TrousersKilt,
            0x12F => AssetSubcategory::TrousersLeggings,
            0x12E => AssetSubcategory::TrousersLongShorts,
            0x135 => AssetSubcategory::TrousersLongSkirt,
            0x12D => AssetSubcategory::TrousersShorts,
            0x133 => AssetSubcategory::TrousersShortSkirt,
            0x130 => AssetSubcategory::TrousersTrousers,
            0x322 => AssetSubcategory::WristwearBands,
            800 => AssetSubcategory::WristwearBracelet,
            0x323 => AssetSubcategory::WristwearSweatbands,
            0x321 => AssetSubcategory::WristwearWatch,
            _ => AssetSubcategory::Unknown(code),
        }
    }
}

/// The version of the avatar skeleton an avatar item targets.
#[derive(Debug, Copy, Clone, PartialEq, Eq, Structural)]
pub enum SkeletonVersion {
    Nxe,
    Natal,
    NxeAndNatal,
}

/// The SkeletonVersion declared by an on-disk code, if the code is declared.
pub open spec fn spec_skeleton_version_of(code: u8) -> Option<SkeletonVersion> {
    if code == 1 {
        Some(SkeletonVersion::Nxe)
    } else if code == 2 {
        Some(SkeletonVersion::Natal)
    } else if code == 3 {
        Some(SkeletonVersion::NxeAndNatal)
    } else {
        None
    }
}

impl SkeletonVersion {
    /// Decodes an on-disk code; a code outside the declared set is refused.
    pub fn from_code(code: u8) -> (r: Result<SkeletonVersion, StfsError>)
        ensures
            match r {
                Ok(v) => spec_skeleton_version_of(code) == Some(v),
                Err(e) => {
                    &&& spec_skeleton_version_of(code) is None
                    &&& e == StfsError::InvalidEnum(EnumField::SkeletonVersion, code as u32)
                },
            },
    {
        match code {
            1 => Ok(SkeletonVersion::Nxe),
            2 => Ok(SkeletonVersion::Natal),
            3 => Ok(SkeletonVersion::NxeAndNatal),
            _ => Err(StfsError::InvalidEnum(EnumField::SkeletonVersion, code as u32)),
        }
    }
}

/// The kind of installer whose metadata trails the header.
#[derive(Debug, Copy, Clone, PartialEq, Eq, Structural)]
pub enum InstallerType {
    NoInstaller,
    SystemUpdate,
    TitleUpdate,
    SystemUpdateProgressCache,
    TitleUpdateProgressCache,
    TitleContentProgressCache,
}

/// The InstallerType declared by an on-disk code, if the code is declared.
pub open spec fn spec_installer_type_of(code: u32) -> Option<InstallerType> {
    if code == 0 {
        Some(InstallerType::NoInstaller)
    } else if code == 0x53555044 {
        Some(InstallerType::SystemUpdate)
    } else if code == 0x54555044 {
        Some(InstallerType::TitleUpdate)
    } else if code == 0x50245355 {
        Some(InstallerType::SystemUpdateProgressCache)
    } else if code == 0x50245455 {
        Some(InstallerType::TitleUpdateProgressCache)
    } else if code == 0x50245443 {
        Some(InstallerType::TitleContentProgressCache)
    } else {
        None
    }
}

impl InstallerType {
    /// Decodes an on-disk code; a code outside the declared set is refused,
    /// because the layout of the metadata that follows depends on it.
    pub fn from_code(code: u32) -> (r: Result<InstallerType, StfsError>)
        ensures
            match r {
                Ok(v) => spec_installer_type_of(code) == Some(v),
                Err(e) => {
                    &&& spec_installer_type_of(code) is None
                    &&& e == StfsError::InvalidEnum(EnumField::InstallerType, code)
                },
            },
    {
        match code {
            0 => Ok(InstallerType::NoInstaller),
            0x53555044 => Ok(InstallerType::SystemUpdate),
            0x54555044 => Ok(InstallerType::TitleUpdate),
            0x50245355 => Ok(InstallerType::SystemUpdateProgressCache),
            0x50245455 => Ok(InstallerType::TitleUpdateProgressCache),
            0x50245443 => Ok(InstallerType::TitleContentProgressCache),
            _ => Err(StfsError::InvalidEnum(EnumField::InstallerType, code)),
        }
    }
}

/// Where a partially downloaded installer left off.
#[derive(Debug, Copy, Clone, PartialEq, Eq, Structural)]
pub enum OnlineContentResumeState {
    FileHeadersNotReady,
    NewFolder,
    NewFolderResumeAttempt1,
    NewFolderResumeAttempt2,
    NewFolderResumeAttemptUnknown,
    NewFolderResumeAttemptSpecific,
}

/// The resume state declared by an on-disk code, if the code is declared.
pub open spec fn spec_resume_state_of(code: u32) -> Option<OnlineContentResumeState> {
    if code == 0x46494C48 {
        Some(OnlineContentResumeState::FileHeadersNotReady)
    } else if code == 0x666F6C64 {
        Some(OnlineContentResumeState::NewFolder)
    } else if code == 0x666F6C31 {
        Some(OnlineContentResumeState::NewFolderResumeAttempt1)
    } else if code == 0x666F6C32 {
        Some(OnlineContentResumeState::NewFolderResumeAttempt2)
    } else if code == 0x666F6C3F {
        Some(OnlineContentResumeState::NewFolderResumeAttemptUnknown)
    } else if code == 0x666F6C40 {
        Some(OnlineContentResumeState::NewFolderResumeAttemptSpecific)
    } else {
        None
    }
}

impl OnlineContentResumeState {
    /// Decodes an on-disk code; a code outside the declared set is refused.
    pub fn from_code(code: u32) -> (r: Result<OnlineContentResumeState, StfsError>)
        ensures
            match r {
                Ok(v) => spec_resume_state_of(code) == Some(v),
                Err(e) => {
                    &&& spec_resume_state_of(code) is None
                    &&& e == StfsError::InvalidEnum(EnumField::ResumeState, code)
                },
            },
    {
        match code {
            0x46494C48 => Ok(OnlineContentResumeState::FileHeadersNotReady),
            0x666F6C64 => Ok(OnlineContentResumeState::NewFolder),
            0x666F6C31 => Ok(OnlineContentResumeState::NewFolderResumeAttempt1),
            0x666F6C32 => Ok(OnlineContentResumeState::NewFolderResumeAttempt2),
            0x666F6C3F => Ok(OnlineContentResumeState::NewFolderResumeAttemptUnknown),
            0x666F6C40 => Ok(OnlineContentResumeState::NewFolderResumeAttemptSpecific),
            _ => Err(StfsError::InvalidEnum(EnumField::ResumeState, code)),
        }
    }
}

/// Flags a reader of a package may be handed alongside the metadata.
#[derive(Debug, Copy, Clone, PartialEq, Eq, Structural)]
pub enum XContentFlags {
    MetadataIsPEC,
    MetadataSkipRead,
    MetadataDontFreeThumbnails,
}

impl XContentFlags {
    /// The numeric value of this flag bit.
    pub fn bit(&self) -> (r: u32)
        ensures
            r == match *self {
                XContentFlags::MetadataIsPEC => 1u32,
                XContentFlags::MetadataSkipRead => 2u32,
                XContentFlags::MetadataDontFreeThumbnails => 4u32,
            },
    {
        match self {
            XContentFlags::MetadataIsPEC => 1,
            XContentFlags::MetadataSkipRead => 2,
            XContentFlags::MetadataDontFreeThumbnails => 4,
        }
    }
}

/// A four-part version number packed into 32 bits as
/// nibble / nibble / 16 bits / 8 bits.
#[derive(Debug, Copy, Clone, PartialEq, Eq, Structural)]
pub struct Version {
    pub major: u16,
    pub minor: u16,
    pub build: u16,
    pub revision: u16,
}

/// The Version packed into a 32-bit field.
pub open spec fn spec_version_of(input: u32) -> Version {
    Version {
        major: (input / 0x10000000) as u16,
        minor: ((input / 0x1000000) % 0x10) as u16,
        build: ((input / 0x100) % 0x10000) as u16,
        revision: (input % 0x100) as u16,
    }
}

impl core::convert::From<u32> for Version {
    /// Unpacks the nibble / nibble / u16 / u8 fields.
    fn from(input: u32) -> (r: Version)
        ensures
            r == spec_version_of(input),
    {
        Version {
            major: (input / 0x10000000) as u16,
            minor: ((input / 0x1000000) % 0x10) as u16,
            build: ((input / 0x100) % 0x10000) as u16,
            revision: (input % 0x100) as u16,
        }
    }
}

impl vstd::std_specs::convert::FromSpecImpl<u32> for Version {
    open spec fn obeys_from_spec() -> bool {
        true
    }

    open spec fn from_spec(input: u32) -> Version {
        spec_version_of(input)
    }
}


/// The asset-information record of an avatar item, read little-endian from
/// the content metadata region.
#[derive(Debug, Clone)]
pub struct AvatarAssetInformation {
    pub subcategory: AssetSubcategory,
    pub colorizable: u32,
    pub guid: Vec<u8>,
    pub skeleton_version: SkeletonVersion,
}

/// How an AvatarAssetInformation relates to the bytes it was read from.
pub open spec fn avatar_asset_matches(a: AvatarAssetInformation, s: Seq<u8>, off: int) -> bool {
    &&& a.subcategory == spec_asset_subcategory_of(u32_le(s, off) as u32)
    &&& a.colorizable == u32_le(s, off + 4)
    &&& a.guid@ == s.subrange(off + 8, off + 0x18)
    &&& Some(a.skeleton_version) == spec_skeleton_version_of(s[off + 0x18])
}

impl AvatarAssetInformation {
    /// Reads the record at `off`.  This region is little-endian.
    pub fn parse(input: &[u8], off: usize) -> (r: Result<AvatarAssetInformation, StfsError>)
        ensures
            match r {
                Ok(a) => {
                    &&& off + 0x19 <= input.len()
                    &&& avatar_asset_matches(a, input@, off as int)
                },
                Err(e) => {
                    if off + 0x19 <= input.len() {
                        &&& spec_skeleton_version_of(input@[off + 0x18]) is None
                        &&& e == StfsError::InvalidEnum(
                            EnumField::SkeletonVersion,
                            input@[off + 0x18] as u32,
                        )
                    } else {
                        e == StfsError::Truncated
                    }
                },
            },
    {
        if input.len() < 0x19 || off > input.len() - 0x19 {
            return Err(StfsError::Truncated);
        }
        let subcategory = AssetSubcategory::from_code(read_u32_le(input, off));
        let colorizable = read_u32_le(input, off + 4);
        let guid = read_bytes(input, off + 8, 0x10);
        let skeleton_version = SkeletonVersion::from_code(read_u8(input, off + 0x18))?;
        Ok(AvatarAssetInformation { subcategory, colorizable, guid, skeleton_version })
    }
}

/// The media-information record of a video, read big-endian from the content
/// metadata region.
#[derive(Debug, Clone)]
pub struct MediaInformation {
    pub series_id: Vec<u8>,
    pub season_id: Vec<u8>,
    pub season_number: u16,
    pub episode_number: u16,
}

/// How a MediaInformation relates to the bytes it was read from.
pub open spec fn media_information_matches(m: MediaInformation, s: Seq<u8>, off: int) -> bool {
    &&& m.series_id@ == s.subrange(off, off + 0x10)
    &&& m.season_id@ == s.subrange(off + 0x10, off + 0x20)
    &&& m.season_number == u16_be(s, off + 0x20)
    &&& m.episode_number == u16_be(s, off + 0x22)
}

impl MediaInformation {
    /// Reads the record at `off`.
    pub fn parse(input: &[u8], off: usize) -> (r: Result<MediaInformation, StfsError>)
        ensures
            match r {
                Ok(m) => {
                    &&& off + 0x24 <= input.len()
                    &&& media_information_matches(m, input@, off as int)
                },
                Err(e) => {
                    &&& off + 0x24 > input.len()
                    &&& e == StfsError::Truncated
                },
            },
    {
        if input.len() < 0x24 || off > input.len() - 0x24 {
            return Err(StfsError::Truncated);
        }
        let series_id = read_bytes(input, off, 0x10);
        let season_id = read_bytes(input, off + 0x10, 0x10);
        let season_number = read_u16_be(input, off + 0x20);
        let episode_number = read_u16_be(input, off + 0x22);
        Ok(MediaInformation { series_id, season_id, season_number, episode_number })
    }
}

/// The type-dependent metadata variant of a package.
#[derive(Debug, Clone)]
pub enum ContentMetadata {
    AvatarItem(AvatarAssetInformation),
    Video(MediaInformation),
}

/// The two version records of a full system or title update installer.
#[derive(Debug, Copy, Clone, PartialEq, Eq, Structural)]
pub struct FullInstallerMeta {
    pub installer_base_version: Version,
    pub installer_version: Version,
}

/// The resume record of a partially processed installer.  The two date-time
/// words form a Windows FILETIME, high word first.
#[derive(Debug, Clone)]
pub struct InstallerProgressCache {
    pub resume_state: OnlineContentResumeState,
    pub current_file_index: u32,
    pub current_file_offset: u64,
    pub bytes_processed: u64,
    pub high_date_time: u32,
    pub low_date_time: u32,
    pub cab_resume_data: Vec<u8>,
}

impl InstallerProgressCache {
    /// The Windows FILETIME formed by the two date-time words: the moment the
    /// cache was last written.
    pub fn last_modified_filetime(&self) -> (r: u64)
        ensures
            r == self.high_date_time * 0x100000000 + self.low_date_time,
    {
        (self.high_date_time as u64) * 0x100000000 + (self.low_date_time as u64)
    }
}

/// The installer metadata variant that can trail the header.
#[derive(Debug, Clone)]
pub enum InstallerMeta {
    FullInstaller(FullInstallerMeta),
    InstallerProgressCache(InstallerProgressCache),
}

} // verus!
