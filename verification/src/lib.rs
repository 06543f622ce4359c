//! Decoder for Xbox 360 STFS ("Secure Transacted File System") packages.
//!
//! An STFS package is a single file carrying a structured header (magic,
//! certificate or signature, license table, content metadata, display strings,
//! thumbnails, volume descriptor) followed by a payload of 4KB blocks in which
//! data blocks are interleaved with a three-level forest of hash tables.  The
//! decoder parses the header, derives the hash-table geometry, maps logical
//! block numbers to byte addresses, walks the file table into a directory
//! tree, and reassembles the bytes of any file entry.

pub mod bytes;
pub mod content;
pub mod errors;
pub mod geometry;
pub mod hashes;
pub mod header;
pub mod package;
pub mod sparse_reader;

pub use content::AssetSubcategory;
pub use content::AvatarAssetInformation;
pub use content::ContentMetadata;
pub use content::ContentType;
pub use content::FullInstallerMeta;
pub use content::InstallerMeta;
pub use content::InstallerProgressCache;
pub use content::InstallerType;
pub use content::MediaInformation;
pub use content::OnlineContentResumeState;
pub use content::SkeletonVersion;
pub use content::Version;
pub use content::XContentFlags;
pub use errors::EnumField;
pub use errors::StfsError;
pub use geometry::HashTableLevel;
pub use geometry::StfsPackageSex;
pub use hashes::HashEntry;
pub use hashes::HashTable;
pub use hashes::HashTableMeta;
pub use header::Certificate;
pub use header::ConsoleType;
pub use header::ConsoleTypeFlags;
pub use header::FileSystem;
pub use header::FileSystemType;
pub use header::LicenseEntry;
pub use header::LicenseType;
pub use header::PackageType;
pub use header::StfsVolumeDescriptor;
pub use header::SvodVolumeDescriptor;
pub use header::XContentHeader;
pub use package::StfsEntry;
pub use package::StfsFileEntry;
pub use package::StfsPackage;
pub use sparse_reader::SparseReader;
