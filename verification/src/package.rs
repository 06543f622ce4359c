//! The decoded package: the file-table walker that reconstructs the
//! directory tree, and the extraction engine that reassembles the bytes of a
//! file entry from its data blocks.

use vstd::prelude::*;
use crate::bytes::padded_bytes;
use crate::bytes::read_padded_bytes;
use crate::bytes::read_u16_be;
use crate::bytes::read_u24_le;
use crate::bytes::read_u32_be;
use crate::bytes::read_u8;
use crate::bytes::u16_be;
use crate::bytes::u16_le;
use crate::bytes::u24_be;
use crate::bytes::u24_le;
use crate::bytes::u32_be;
use crate::errors::StfsError;
use crate::geometry::HashTableLevel;
use crate::geometry::StfsPackageSex;
use crate::geometry::block_address;
use crate::geometry::data_block_number;
use crate::geometry::sex_mult;
use crate::geometry::spec_block_addr;
use crate::geometry::spec_data_block;
use crate::geometry::spec_first_table_address;
use crate::geometry::spec_root_level;
use crate::geometry::spec_second_level_table_index;
use crate::geometry::spec_sex_of;
use crate::geometry::spec_step0;
use crate::geometry::spec_step1;
use crate::geometry::spec_table_index;
use crate::geometry::spec_blocks_per_entry;
use crate::hashes::HashEntry;
use crate::hashes::HashTableMeta;
use crate::hashes::hash_entry_matches;
use crate::hashes::spec_ceil_div;
use crate::header::FileSystem;
use crate::header::StfsVolumeDescriptor;
use crate::header::XContentHeader;

verus! {

broadcast use vstd::slice::axiom_spec_len;

/// One 64-byte record of the file table.  The name is kept as its raw
/// NUL-trimmed UTF-8 bytes.
#[derive(Debug, Clone)]
pub struct StfsFileEntry {
    /// Position of the record in the file table: 64 times its block ordinal
    /// plus its slot.
    pub index: usize,
    /// The entry name: the bytes before the first NUL of the 40-byte field.
    pub name: Vec<u8>,
    /// Bits of the name-length byte above the length: bit 0 marks a
    /// consecutive file, bit 1 a directory.
    pub flags: u8,
    pub block_count: usize,
    pub starting_block_num: usize,
    /// Index of the containing directory's record; 0xFFFF denotes the root.
    pub path_indicator: u16,
    pub file_size: usize,
    pub created_time_stamp: u32,
    pub access_time_stamp: u32,
    /// Byte address of the record itself in the package.
    pub file_entry_address: u64,
}

/// The mathematical image of a file-table record.
pub struct StfsFileEntryView {
    pub index: int,
    pub name: Seq<u8>,
    pub flags: u8,
    pub block_count: int,
    pub starting_block_num: int,
    pub path_indicator: u16,
    pub file_size: int,
    pub created_time_stamp: u32,
    pub access_time_stamp: u32,
    pub file_entry_address: int,
}

impl View for StfsFileEntry {
    type V = StfsFileEntryView;

    open spec fn view(&self) -> StfsFileEntryView {
        StfsFileEntryView {
            index: self.index as int,
            name: self.name@,
            flags: self.flags,
            block_count: self.block_count as int,
            starting_block_num: self.starting_block_num as int,
            path_indicator: self.path_indicator,
            file_size: self.file_size as int,
            created_time_stamp: self.created_time_stamp,
            access_time_stamp: self.access_time_stamp,
            file_entry_address: self.file_entry_address as int,
        }
    }
}

impl core::default::Default for StfsFileEntry {
    /// The synthetic root entry: every field zero, the name empty.
    fn default() -> (r: StfsFileEntry)
        ensures
            r@ == spec_default_entry(),
    {
        StfsFileEntry {
            index: 0,
            name: Vec::new(),
            flags: 0,
            block_count: 0,
            starting_block_num: 0,
            path_indicator: 0,
            file_size: 0,
            created_time_stamp: 0,
            access_time_stamp: 0,
            file_entry_address: 0,
        }
    }
}

/// The view of the synthetic root entry.
pub open spec fn spec_default_entry() -> StfsFileEntryView {
    StfsFileEntryView {
        index: 0,
        name: Seq::empty(),
        flags: 0,
        block_count: 0,
        starting_block_num: 0,
        path_indicator: 0,
        file_size: 0,
        created_time_stamp: 0,
        access_time_stamp: 0,
        file_entry_address: 0,
    }
}

/// Whether an entry is a directory: bit 1 of its flags.
pub open spec fn spec_is_directory(v: StfsFileEntryView) -> bool {
    v.flags / 2 % 2 == 1
}

/// Whether an entry's data blocks are consecutive: bit 0 of its flags.
pub open spec fn spec_is_consecutive(v: StfsFileEntryView) -> bool {
    v.flags % 2 == 1
}

/// A node of the logical tree: a file, or a directory with its children in
/// file-table order.
#[derive(Debug)]
pub enum StfsEntry {
    File(StfsFileEntry),
    Folder { entry: StfsFileEntry, files: Vec<StfsEntry> },
}

impl StfsEntry {
    /// The name bytes of this node's entry.
    pub fn name(&self) -> (r: &Vec<u8>)
        ensures
            r@ == self.entry_view().name,
    {
        match self {
            StfsEntry::File(entry) => &entry.name,
            StfsEntry::Folder { entry, files: _ } => &entry.name,
        }
    }

    /// The file-table record of this node.
    pub fn entry(&self) -> (r: &StfsFileEntry)
        ensures
            r@ == self.entry_view(),
    {
        match self {
            StfsEntry::File(entry) => entry,
            StfsEntry::Folder { entry, files: _ } => entry,
        }
    }

    /// The view of this node's record.
    pub open spec fn entry_view(&self) -> StfsFileEntryView {
        match self {
            StfsEntry::File(entry) => entry@,
            StfsEntry::Folder { entry, files } => entry@,
        }
    }
}

impl StfsPackageSex {
    /// The sex declared by a header's STFS volume descriptor.  A package
    /// without one has no sex.
    pub fn try_from(header: &XContentHeader) -> (r: Result<StfsPackageSex, StfsError>)
        ensures
            match r {
                Ok(sex) => {
                    &&& header.volume_descriptor is STFS
                    &&& sex == spec_sex_of(header.volume_descriptor->STFS_0.block_separation)
                },
                Err(e) => {
                    &&& !(header.volume_descriptor is STFS)
                    &&& e == StfsError::InvalidPackageType
                },
            },
    {
        match &header.volume_descriptor {
            FileSystem::STFS(stfs) => Ok(StfsPackageSex::from_block_separation(
                stfs.block_separation,
            )),
            FileSystem::SVOD(_) => Err(StfsError::InvalidPackageType),
        }
    }
}

/// What the addressing functions need of the hash-table metadata: the steps
/// of the right sex, a first-table address that fits the arithmetic, and a
/// top table of the right level with one entry per span of blocks.
pub open spec fn meta_wf(
    meta: HashTableMeta,
    sex: StfsPackageSex,
    allocated: int,
) -> bool {
    &&& meta.steps_match(sex)
    &&& meta.first_table_address <= 0x100000000
    &&& Some(meta.top_table.level) == spec_root_level(allocated)
    &&& meta.top_table.entries@.len() == spec_ceil_div(
        allocated,
        spec_blocks_per_entry(meta.top_table.level),
    )
}

/// The byte address of the level-0 hash entry that describes block `b`.
/// The base is the entry's slot in the level-0 table that covers `b`; on top
/// of it the live mirror is selected: by bit 1 of `block_separation` when
/// the root table is level 0, by bit 6 of the covering top-table entry's
/// status when it is level 1, and by bit 6 of a status byte read from the
/// covering level-1 table when it is level 2.
pub open spec fn spec_hash_entry_address(
    sex: StfsPackageSex,
    meta: HashTableMeta,
    block_separation: u8,
    s: Seq<u8>,
    b: int,
) -> int {
    let fta = meta.first_table_address as int;
    let base = spec_table_index(sex, b) * 4096 + fta + (b % 170) * 0x18;
    match meta.top_table.level {
        HashTableLevel::First => base + (block_separation / 2 % 2) * 0x1000,
        HashTableLevel::Second => base + (meta.top_table.entries@[b / 170].status as int / 0x40
            % 2) * 0x1000,
        HashTableLevel::Third => base + (s[spec_mirror_probe_address(sex, meta, b) + 0x14] as int
            / 0x40 % 2) * 0x1000,
    }
}

/// Where the mirror-selecting status byte of a level-2 package sits: the
/// entry slot of block `b` within the level-1 table that covers it, itself
/// mirrored by bit 6 of the covering top-table entry.
pub open spec fn spec_mirror_probe_address(
    sex: StfsPackageSex,
    meta: HashTableMeta,
    b: int,
) -> int {
    let fta = meta.first_table_address as int;
    let first_level_offset = (meta.top_table.entries@[b / 28900].status as int / 0x40 % 2) * 0x1000;
    spec_second_level_table_index(sex, b) * 4096 + fta + first_level_offset + (b % 170) * 0x18
}

/// Whether the hash-entry address of block `b` can be resolved within `s`:
/// only a level-2 package must read a status byte to resolve it.
pub open spec fn spec_hash_address_readable(
    sex: StfsPackageSex,
    meta: HashTableMeta,
    s: Seq<u8>,
    b: int,
) -> bool {
    match meta.top_table.level {
        HashTableLevel::Third => spec_mirror_probe_address(sex, meta, b) + 0x15 <= s.len(),
        _ => true,
    }
}

/// Resolves the byte address of the level-0 hash entry that describes
/// `block`.  Fails only on a level-2 package whose mirror-selecting status
/// byte lies outside the buffer.
pub fn hash_entry_address(
    input: &[u8],
    sex: StfsPackageSex,
    meta: &HashTableMeta,
    block_separation: u8,
    allocated: u32,
    block: usize,
) -> (r: Result<u64, StfsError>)
    requires
        meta_wf(*meta, sex, allocated as int),
        allocated <= 0x4AF768,
        block < allocated,
    ensures
        match r {
            Ok(a) => {
                &&& spec_hash_address_readable(sex, *meta, input@, block as int)
                &&& a == spec_hash_entry_address(sex, *meta, block_separation, input@, block as int)
            },
            Err(e) => {
                &&& !spec_hash_address_readable(sex, *meta, input@, block as int)
                &&& e == StfsError::Truncated
            },
        },
{
    proof {
        crate::geometry::lemma_table_index_bounds(sex, block as int);
        crate::geometry::lemma_second_level_index_bounds(sex, block as int);
    }
    let table_index = meta.compute_first_level_backing_hash_block_number(block, sex);
    let base: u64 = (table_index as u64) * 4096 + meta.first_table_address + ((block % 170)
        as u64) * 0x18;
    match meta.top_table.level {
        HashTableLevel::First => Ok(base + ((block_separation as u64) / 2 % 2) * 0x1000),
        HashTableLevel::Second => {
            proof {
                crate::hashes::lemma_index_lt_ceil(block as int, allocated as int, 170);
            }
            let status = meta.top_table.entries[block / 170].status;
            Ok(base + ((status as u64) / 0x40 % 2) * 0x1000)
        },
        HashTableLevel::Third => {
            proof {
                crate::hashes::lemma_index_lt_ceil(block as int, allocated as int, 28900);
            }
            let first_level_offset: u64 = ((meta.top_table.entries[block / 28900].status as u64)
                / 0x40 % 2) * 0x1000;
            let second_index = meta.compute_second_level_backing_hash_block_number(block, sex);
            let probe: u64 = (second_index as u64) * 4096 + meta.first_table_address
                + first_level_offset + ((block % 170) as u64) * 0x18;
            if (input.len() as u64) < probe + 0x15 {
                return Err(StfsError::Truncated);
            }
            let status = read_u8(input, (probe as usize) + 0x14);
            Ok(base + ((status as u64) / 0x40 % 2) * 0x1000)
        },
    }
}

/// Reads the level-0 hash entry that describes `block`.  Fails when the
/// entry, or the status byte needed to locate it, lies outside the buffer.
pub fn hash_entry_for_block(
    input: &[u8],
    sex: StfsPackageSex,
    meta: &HashTableMeta,
    block_separation: u8,
    allocated: u32,
    block: usize,
) -> (r: Result<HashEntry, StfsError>)
    requires
        meta_wf(*meta, sex, allocated as int),
        allocated <= 0x4AF768,
        block < allocated,
    ensures
        match r {
            Ok(e) => {
                &&& spec_hash_address_readable(sex, *meta, input@, block as int)
                &&& spec_hash_entry_address(sex, *meta, block_separation, input@, block as int)
                    + 0x18 <= input.len()
                &&& hash_entry_matches(
                    e,
                    input@,
                    spec_hash_entry_address(sex, *meta, block_separation, input@, block as int),
                )
            },
            Err(e) => {
                &&& e == StfsError::Truncated
                &&& {
                    ||| !spec_hash_address_readable(sex, *meta, input@, block as int)
                    ||| spec_hash_entry_address(sex, *meta, block_separation, input@, block as int)
                        + 0x18 > input.len()
                }
            },
        },
{
    let addr = match hash_entry_address(input, sex, meta, block_separation, allocated, block) {
        Ok(a) => a,
        Err(e) => {
            return Err(e);
        },
    };
    if (input.len() as u64) < addr + 0x18 {
        return Err(StfsError::Truncated);
    }
    Ok(crate::hashes::read_hash_entry(input, addr as usize))
}


/// The image of the 64-byte file-table record at `entry_addr`, holding the
/// table position `idx`.
pub open spec fn spec_entry_at(s: Seq<u8>, entry_addr: int, idx: int) -> StfsFileEntryView {
    StfsFileEntryView {
        index: idx,
        name: padded_bytes(s, entry_addr, 0x28),
        flags: (s[entry_addr + 0x28] / 0x40) as u8,
        block_count: u24_le(s, entry_addr + 0x29),
        starting_block_num: u24_le(s, entry_addr + 0x2F),
        path_indicator: u16_be(s, entry_addr + 0x32) as u16,
        file_size: u32_be(s, entry_addr + 0x34),
        created_time_stamp: u32_be(s, entry_addr + 0x38) as u32,
        access_time_stamp: u32_be(s, entry_addr + 0x3C) as u32,
        file_entry_address: entry_addr,
    }
}

/// The records of one file-table block, read from `slot` on: a record whose
/// name-length byte is zero ends the listing, and a record whose low six
/// name-length bits are zero is a deleted slot.  `base_idx` is 64 times the
/// block's ordinal in the chain.
pub open spec fn spec_block_entries(
    s: Seq<u8>,
    table_addr: int,
    base_idx: int,
    slot: int,
) -> Seq<StfsFileEntryView>
    decreases 64 - slot,
{
    if slot < 0 || slot >= 64 {
        Seq::empty()
    } else {
        let name_len = s[table_addr + 0x40 * slot + 0x28];
        if name_len == 0 {
            Seq::empty()
        } else if name_len % 0x40 == 0 {
            spec_block_entries(s, table_addr, base_idx, slot + 1)
        } else {
            seq![spec_entry_at(s, table_addr + 0x40 * slot, base_idx + slot)] + spec_block_entries(
                s,
                table_addr,
                base_idx,
                slot + 1,
            )
        }
    }
}

/// The number of the block that follows `b` in its chain: the `next_block`
/// field of the level-0 hash entry that describes `b`.
pub open spec fn spec_next_block(
    sex: StfsPackageSex,
    meta: HashTableMeta,
    block_separation: u8,
    s: Seq<u8>,
    b: int,
) -> int {
    u24_be(s, spec_hash_entry_address(sex, meta, block_separation, s, b) + 0x15)
}

/// The records of the whole file table: `count` blocks chained from `block`,
/// of which `ordinal` blocks came before.  The walk fails on a chain block
/// at or past the allocated count, on a block outside the buffer, and on a
/// hash entry that cannot be read.
pub open spec fn spec_walk(
    s: Seq<u8>,
    sex: StfsPackageSex,
    meta: HashTableMeta,
    block_separation: u8,
    allocated: int,
    block: int,
    count: int,
    ordinal: int,
) -> Result<Seq<StfsFileEntryView>, StfsError>
    decreases count,
{
    if count <= 0 {
        Ok(Seq::empty())
    } else {
        let addr = spec_block_addr(sex, meta.first_table_address as int, block);
        if addr + 0x1000 > s.len() {
            Err(StfsError::Truncated)
        } else if !(0 <= block < allocated) {
            Err(StfsError::BlockOutOfRange)
        } else if !spec_hash_address_readable(sex, meta, s, block) || spec_hash_entry_address(
            sex,
            meta,
            block_separation,
            s,
            block,
        ) + 0x18 > s.len() {
            Err(StfsError::Truncated)
        } else {
            match spec_walk(
                s,
                sex,
                meta,
                block_separation,
                allocated,
                spec_next_block(sex, meta, block_separation, s, block),
                count - 1,
                ordinal + 1,
            ) {
                Ok(rest) => Ok(spec_block_entries(s, addr, 64 * ordinal, 0) + rest),
                Err(e) => Err(e),
            }
        }
    }
}

/// Decodes the records of one file-table block at `table_addr`.
fn decode_table_block(input: &[u8], table_addr: u64, base_idx: usize) -> (r: Vec<StfsFileEntry>)
    requires
        table_addr + 0x1000 <= input.len(),
        base_idx + 64 <= usize::MAX,
    ensures
        r@.map_values(|e: StfsFileEntry| e@) == spec_block_entries(
            input@,
            table_addr as int,
            base_idx as int,
            0,
        ),
{
    let base: usize = table_addr as usize;
    let mut out: Vec<StfsFileEntry> = Vec::new();
    let mut slot: usize = 0;
    let mut done = false;
    while slot < 64 && !done
        invariant
            slot <= 64,
            base == table_addr as int,
            table_addr + 0x1000 <= input.len(),
            base_idx + 64 <= usize::MAX,
            spec_block_entries(input@, table_addr as int, base_idx as int, 0) == if done {
                out@.map_values(|e: StfsFileEntry| e@)
            } else {
                out@.map_values(|e: StfsFileEntry| e@) + spec_block_entries(
                    input@,
                    table_addr as int,
                    base_idx as int,
                    slot as int,
                )
            },
        decreases 64 - slot + if done { 0int } else { 1int },
    {
        let entry_base: usize = base + 0x40 * slot;
        let name_len = read_u8(input, entry_base + 0x28);
        if name_len == 0 {
            done = true;
            proof {
                assert(spec_block_entries(input@, table_addr as int, base_idx as int, slot as int)
                    =~= Seq::<StfsFileEntryView>::empty());
            }
        } else if name_len % 0x40 == 0 {
            slot = slot + 1;
        } else {
            let entry = StfsFileEntry {
                index: base_idx + slot,
                name: read_padded_bytes(input, entry_base, 0x28),
                flags: name_len / 0x40,
                block_count: read_u24_le(input, entry_base + 0x29) as usize,
                starting_block_num: read_u24_le(input, entry_base + 0x2F) as usize,
                path_indicator: read_u16_be(input, entry_base + 0x32),
                file_size: read_u32_be(input, entry_base + 0x34) as usize,
                created_time_stamp: read_u32_be(input, entry_base + 0x38),
                access_time_stamp: read_u32_be(input, entry_base + 0x3C),
                file_entry_address: table_addr + 0x40 * (slot as u64),
            };
            proof {
                assert(entry@ == spec_entry_at(
                    input@,
                    table_addr + 0x40 * (slot as int),
                    base_idx + slot as int,
                ));
            }
            out.push(entry);
            slot = slot + 1;
            proof {
                assert(out@.map_values(|e: StfsFileEntry| e@) =~= out@.drop_last().map_values(
                    |e: StfsFileEntry| e@,
                ).push(out@.last()@));
            }
        }
    }
    proof {
        if !done {
            assert(spec_block_entries(input@, table_addr as int, base_idx as int, 64)
                =~= Seq::<StfsFileEntryView>::empty());
        }
    }
    out
}

/// Walks the file-table chain and decodes every record into a flat list in
/// walk order.
pub fn read_file_table(
    input: &[u8],
    sex: StfsPackageSex,
    meta: &HashTableMeta,
    vol: &StfsVolumeDescriptor,
) -> (r: Result<Vec<StfsFileEntry>, StfsError>)
    requires
        meta_wf(*meta, sex, vol.allocated_block_count as int),
        vol.allocated_block_count <= 0x4AF768,
        vol.file_table_block_num < 0x1000000,
    ensures
        match r {
            Ok(v) => Ok::<Seq<StfsFileEntryView>, StfsError>(v@.map_values(|e: StfsFileEntry| e@)) == spec_walk(
                input@,
                sex,
                *meta,
                vol.block_separation,
                vol.allocated_block_count as int,
                vol.file_table_block_num as int,
                vol.file_table_block_count as int,
                0,
            ),
            Err(e) => Err::<Seq<StfsFileEntryView>, StfsError>(e) == spec_walk(
                input@,
                sex,
                *meta,
                vol.block_separation,
                vol.allocated_block_count as int,
                vol.file_table_block_num as int,
                vol.file_table_block_count as int,
                0,
            ),
        },
{
    let ghost s = input@;
    let allocated = vol.allocated_block_count;
    let count: usize = vol.file_table_block_count as usize;
    let mut entries: Vec<StfsFileEntry> = Vec::new();
    let mut block: usize = vol.file_table_block_num as usize;
    let mut block_idx: usize = 0;
    while block_idx < count
        invariant
            block_idx <= count,
            count == vol.file_table_block_count,
            allocated == vol.allocated_block_count,
            block < 0x1000000,
            s == input@,
            meta_wf(*meta, sex, allocated as int),
            allocated <= 0x4AF768,
            spec_walk(
                s,
                sex,
                *meta,
                vol.block_separation,
                allocated as int,
                vol.file_table_block_num as int,
                count as int,
                0,
            ) == match spec_walk(
                s,
                sex,
                *meta,
                vol.block_separation,
                allocated as int,
                block as int,
                count - block_idx,
                block_idx as int,
            ) {
                Ok(rest) => Ok::<Seq<StfsFileEntryView>, StfsError>(
                    entries@.map_values(|e: StfsFileEntry| e@) + rest,
                ),
                Err(e) => Err(e),
            },
        decreases count - block_idx,
    {
        proof {
            crate::geometry::lemma_data_block_bounds(sex, block as int);
        }
        let current_addr: u64 = block_address(sex, meta.first_table_address, block);
        proof {
            assert(count - block_idx > 0);
            reveal_with_fuel(spec_walk, 2);
        }
        if (input.len() as u64) < current_addr + 0x1000 {
            proof {
                assert(spec_walk(
                    s,
                    sex,
                    *meta,
                    vol.block_separation,
                    allocated as int,
                    block as int,
                    count - block_idx,
                    block_idx as int,
                ) == Err::<Seq<StfsFileEntryView>, StfsError>(StfsError::Truncated));
            }
            return Err(StfsError::Truncated);
        }
        if block >= allocated as usize {
            proof {
                assert(spec_walk(
                    s,
                    sex,
                    *meta,
                    vol.block_separation,
                    allocated as int,
                    block as int,
                    count - block_idx,
                    block_idx as int,
                ) == Err::<Seq<StfsFileEntryView>, StfsError>(StfsError::BlockOutOfRange));
            }
            return Err(StfsError::BlockOutOfRange);
        }
        let ghost old_views = entries@.map_values(|e: StfsFileEntry| e@);
        let mut block_entries = decode_table_block(input, current_addr, block_idx * 64);
        let ghost bviews = block_entries@.map_values(|e: StfsFileEntry| e@);
        entries.append(&mut block_entries);
        proof {
            assert(entries@.map_values(|e: StfsFileEntry| e@) =~= old_views + bviews);
        }
        let hash_entry = match hash_entry_for_block(
            input,
            sex,
            meta,
            vol.block_separation,
            allocated,
            block,
        ) {
            Ok(e) => e,
            Err(e) => {
                return Err(e);
            },
        };
        proof {
            let next = spec_next_block(sex, *meta, vol.block_separation, s, block as int);
            assert(hash_entry.next_block == next);
            let inner = spec_walk(
                s,
                sex,
                *meta,
                vol.block_separation,
                allocated as int,
                next,
                count - block_idx - 1,
                block_idx + 1,
            );
            match inner {
                Ok(rest) => {
                    assert(old_views + (bviews + rest) =~= (old_views + bviews) + rest);
                },
                Err(_) => {},
            }
        }
        block = hash_entry.next_block as usize;
        block_idx = block_idx + 1;
    }
    Ok(entries)
}


/// The entries whose `path_indicator` names `key`, in file-table order:
/// the children of the directory with that index (0xFFFF names the root).
pub open spec fn children_of(s: Seq<StfsFileEntryView>, key: u16) -> Seq<StfsFileEntryView>
    decreases s.len(),
{
    if s.len() == 0 {
        Seq::empty()
    } else {
        children_of(s.drop_last(), key) + if s.last().path_indicator == key {
            seq![s.last()]
        } else {
            Seq::empty()
        }
    }
}

/// The number of nodes of a tree.
pub open spec fn tree_count(node: StfsEntry) -> int
    decreases node,
{
    match node {
        StfsEntry::File(_) => 1,
        StfsEntry::Folder { entry, files } => 1 + forest_count(files@),
    }
}

/// The number of nodes of a list of trees.
pub open spec fn forest_count(list: Seq<StfsEntry>) -> int
    decreases list,
{
    if list.len() == 0 {
        0
    } else {
        forest_count(list.drop_last()) + tree_count(list.last())
    }
}

/// Whether a node is shaped by the flat entry list: a file node is not a
/// directory record, and a directory node's children are exactly the
/// entries naming its index, each shaped in turn.
pub open spec fn subtree_ok(node: StfsEntry, entries: Seq<StfsFileEntryView>) -> bool
    decreases node,
{
    match node {
        StfsEntry::File(e) => !spec_is_directory(e@),
        StfsEntry::Folder { entry, files } => {
            &&& spec_is_directory(entry@)
            &&& entry@.index < 0xFFFF
            &&& files@.map_values(|n: StfsEntry| n.entry_view()) == children_of(
                entries,
                entry@.index as u16,
            )
            &&& forest_ok(files@, entries)
        },
    }
}

/// Whether every tree of a list is shaped by the flat entry list.
pub open spec fn forest_ok(list: Seq<StfsEntry>, entries: Seq<StfsFileEntryView>) -> bool
    decreases list,
{
    if list.len() == 0 {
        true
    } else {
        forest_ok(list.drop_last(), entries) && subtree_ok(list.last(), entries)
    }
}

/// How many entries the builder attaches under `key` while scanning `scan`,
/// or `None` where it refuses: on a directory whose index cannot be a key,
/// on a parent chain deeper than `fuel`, and on more attachments than
/// `cap`.  Every entry of `scan` whose `path_indicator` is `key` counts one,
/// and a directory's own subtree is counted from a scan of the whole list.
pub open spec fn spec_attach(
    all: Seq<StfsFileEntryView>,
    scan: Seq<StfsFileEntryView>,
    key: u16,
    fuel: int,
    cap: int,
) -> Option<int>
    decreases fuel, scan.len() + 1,
{
    if scan.len() == 0 {
        Some(0)
    } else {
        match spec_attach(all, scan.drop_last(), key, fuel, cap) {
            Option::None => None,
            Some(a) => {
                let v = scan.last();
                if v.path_indicator != key {
                    Some(a)
                } else if !spec_is_directory(v) {
                    if a + 1 > cap {
                        None
                    } else {
                        Some(a + 1)
                    }
                } else if v.index >= 0xFFFF {
                    None
                } else if fuel <= 0 {
                    None
                } else {
                    match spec_attach(all, all, v.index as u16, fuel - 1, cap) {
                        Option::None => None,
                        Some(c) => {
                            if a + 1 + c > cap {
                                None
                            } else {
                                Some(a + 1 + c)
                            }
                        },
                    }
                }
            },
        }
    }
}

/// A refusal while scanning a prefix stands for the whole scan.
proof fn lemma_attach_none_extends(
    all: Seq<StfsFileEntryView>,
    scan: Seq<StfsFileEntryView>,
    key: u16,
    fuel: int,
    cap: int,
    i: int,
    j: int,
)
    requires
        0 <= i <= j <= scan.len(),
        spec_attach(all, scan.take(i), key, fuel, cap) is None,
    ensures
        spec_attach(all, scan.take(j), key, fuel, cap) is None,
    decreases j - i,
{
    if i < j {
        assert(scan.take(i + 1).drop_last() =~= scan.take(i));
        lemma_attach_none_extends(all, scan, key, fuel, cap, i + 1, j);
    }
}

/// Copies a file-table record.
fn clone_entry(e: &StfsFileEntry) -> (r: StfsFileEntry)
    ensures
        r@ == e@,
{
    let name = e.name.clone();
    proof {
        assert(name@ =~= e.name@);
    }
    StfsFileEntry {
        index: e.index,
        name,
        flags: e.flags,
        block_count: e.block_count,
        starting_block_num: e.starting_block_num,
        path_indicator: e.path_indicator,
        file_size: e.file_size,
        created_time_stamp: e.created_time_stamp,
        access_time_stamp: e.access_time_stamp,
        file_entry_address: e.file_entry_address,
    }
}

/// Builds the child list of the directory whose index is `key`: one node
/// for each entry naming it, directories filled by a scan of their own.
fn build_forest(entries: &Vec<StfsFileEntry>, key: u16, fuel: usize, cap: usize) -> (r: Result<
    (Vec<StfsEntry>, usize),
    StfsError,
>)
    ensures
        match r {
            Ok((nodes, c)) => {
                let views = entries@.map_values(|e: StfsFileEntry| e@);
                &&& spec_attach(views, views, key, fuel as int, cap as int) == Some(c as int)
                &&& nodes@.map_values(|n: StfsEntry| n.entry_view()) == children_of(views, key)
                &&& forest_ok(nodes@, views)
                &&& forest_count(nodes@) == c
                &&& c <= cap
            },
            Err(e) => {
                let views = entries@.map_values(|e: StfsFileEntry| e@);
                &&& e == StfsError::CorruptDirectory
                &&& spec_attach(views, views, key, fuel as int, cap as int) is None
            },
        },
    decreases fuel,
{
    let ghost views = entries@.map_values(|e: StfsFileEntry| e@);
    let mut nodes: Vec<StfsEntry> = Vec::new();
    let mut count: usize = 0;
    let n = entries.len();
    let mut i: usize = 0;
    while i < n
        invariant
            i <= n,
            n == entries.len(),
            count <= cap,
            views == entries@.map_values(|e: StfsFileEntry| e@),
            spec_attach(views, views.take(i as int), key, fuel as int, cap as int) == Some(
                count as int,
            ),
            nodes@.map_values(|node: StfsEntry| node.entry_view()) == children_of(
                views.take(i as int),
                key,
            ),
            forest_ok(nodes@, views),
            forest_count(nodes@) == count,
        decreases n - i,
    {
        proof {
            assert(views.take(i + 1).drop_last() =~= views.take(i as int));
            assert(views.take(i + 1).last() == views[i as int]);
        }
        let e = &entries[i];
        proof {
            assert(views[i as int] == e@);
        }
        if e.path_indicator == key {
            if (e.flags / 2) % 2 == 1 {
                if e.index >= 0xFFFF {
                    proof {
                        lemma_attach_none_extends(
                            views,
                            views,
                            key,
                            fuel as int,
                            cap as int,
                            i + 1,
                            views.len() as int,
                        );
                        assert(views.take(views.len() as int) =~= views);
                    }
                    return Err(StfsError::CorruptDirectory);
                }
                if fuel == 0 {
                    proof {
                        lemma_attach_none_extends(
                            views,
                            views,
                            key,
                            fuel as int,
                            cap as int,
                            i + 1,
                            views.len() as int,
                        );
                        assert(views.take(views.len() as int) =~= views);
                    }
                    return Err(StfsError::CorruptDirectory);
                }
                let sub = build_forest(entries, e.index as u16, fuel - 1, cap);
                match sub {
                    Err(err) => {
                        proof {
                            lemma_attach_none_extends(
                                views,
                                views,
                                key,
                                fuel as int,
                                cap as int,
                                i + 1,
                                views.len() as int,
                            );
                            assert(views.take(views.len() as int) =~= views);
                        }
                        return Err(err);
                    },
                    Ok((children, c)) => {
                        if count >= cap || c > cap - count - 1 {
                            proof {
                                lemma_attach_none_extends(
                                    views,
                                    views,
                                    key,
                                    fuel as int,
                                    cap as int,
                                    i + 1,
                                    views.len() as int,
                                );
                                assert(views.take(views.len() as int) =~= views);
                            }
                            return Err(StfsError::CorruptDirectory);
                        }
                        count = count + 1 + c;
                        let node = StfsEntry::Folder { entry: clone_entry(e), files: children };
                        let ghost pre = nodes@;
                        let ghost gnode = node;
                        nodes.push(node);
                        proof {
                            assert(nodes@ == pre.push(gnode));
                            assert(nodes@.drop_last() =~= pre);
                            assert(nodes@.last() == gnode);
                            assert(subtree_ok(gnode, views));
                            assert(tree_count(gnode) == 1 + c);
                            assert(forest_count(nodes@) == forest_count(pre) + tree_count(gnode));
                            assert(nodes@.map_values(|node: StfsEntry| node.entry_view())
                                =~= pre.map_values(|node: StfsEntry| node.entry_view()).push(
                                gnode.entry_view(),
                            ));
                            assert(children_of(views.take(i + 1), key) =~= children_of(
                                views.take(i as int),
                                key,
                            ).push(views[i as int]));
                        }
                    },
                }
            } else {
                if count >= cap {
                    proof {
                        lemma_attach_none_extends(
                            views,
                            views,
                            key,
                            fuel as int,
                            cap as int,
                            i + 1,
                            views.len() as int,
                        );
                        assert(views.take(views.len() as int) =~= views);
                    }
                    return Err(StfsError::CorruptDirectory);
                }
                count = count + 1;
                let node = StfsEntry::File(clone_entry(e));
                let ghost pre = nodes@;
                let ghost gnode = node;
                nodes.push(node);
                proof {
                    assert(nodes@ == pre.push(gnode));
                    assert(nodes@.drop_last() =~= pre);
                    assert(nodes@.last() == gnode);
                    assert(subtree_ok(gnode, views));
                    assert(tree_count(gnode) == 1);
                    assert(forest_count(nodes@) == forest_count(pre) + tree_count(gnode));
                    assert(nodes@.map_values(|node: StfsEntry| node.entry_view())
                        =~= pre.map_values(|node: StfsEntry| node.entry_view()).push(
                        gnode.entry_view(),
                    ));
                    assert(children_of(views.take(i + 1), key) =~= children_of(
                        views.take(i as int),
                        key,
                    ).push(views[i as int]));
                }
            }
        } else {
            proof {
                assert(children_of(views.take(i + 1), key) =~= children_of(
                    views.take(i as int),
                    key,
                ));
            }
        }
        i = i + 1;
    }
    proof {
        assert(views.take(n as int) =~= views);
    }
    Ok((nodes, count))
}


/// Attaches every decoded entry to the directory its `path_indicator`
/// names, under a synthetic root, and refuses a list whose parent relation
/// is missing a directory, doubled, or cyclic.
pub fn build_file_tree(entries: &Vec<StfsFileEntry>) -> (r: Result<StfsEntry, StfsError>)
    ensures
        match r {
            Ok(root) => {
                let views = entries@.map_values(|e: StfsFileEntry| e@);
                &&& spec_attach(
                    views,
                    views,
                    0xFFFF,
                    views.len() as int,
                    views.len() as int,
                ) == Some(views.len() as int)
                &&& (root matches StfsEntry::Folder { entry, files } && entry@
                    == spec_default_entry() && files@.map_values(|n: StfsEntry| n.entry_view())
                    == children_of(views, 0xFFFF) && forest_ok(files@, views))
                &&& tree_count(root) == views.len() + 1
            },
            Err(e) => {
                let views = entries@.map_values(|e: StfsFileEntry| e@);
                &&& e == StfsError::CorruptDirectory
                &&& spec_attach(
                    views,
                    views,
                    0xFFFF,
                    views.len() as int,
                    views.len() as int,
                ) != Some(views.len() as int)
            },
        },
{
    let n = entries.len();
    match build_forest(entries, 0xFFFF, n, n) {
        Err(e) => Err(e),
        Ok((nodes, c)) => {
            if c != n {
                return Err(StfsError::CorruptDirectory);
            }
            Ok(StfsEntry::Folder { entry: StfsFileEntry::default(), files: nodes })
        },
    }
}


/// A failed walk reports only a missing buffer range or a block outside the
/// allocated count.
proof fn lemma_walk_err_kinds(
    s: Seq<u8>,
    sex: StfsPackageSex,
    meta: HashTableMeta,
    block_separation: u8,
    allocated: int,
    block: int,
    count: int,
    ordinal: int,
)
    ensures
        spec_walk(s, sex, meta, block_separation, allocated, block, count, ordinal) matches Err(e)
            ==> (e == StfsError::Truncated || e == StfsError::BlockOutOfRange),
    decreases count,
{
    if count > 0 {
        lemma_walk_err_kinds(
            s,
            sex,
            meta,
            block_separation,
            allocated,
            spec_next_block(sex, meta, block_separation, s, block),
            count - 1,
            ordinal + 1,
        );
    }
}

/// Whether the error `e` is the one the decode of a package with metadata
/// `m` owes once the header has parsed: the walk's own error, or a corrupt
/// directory when the walk succeeds but the tree cannot be built.
pub open spec fn spec_decode_tail_err(
    s: Seq<u8>,
    sex: StfsPackageSex,
    m: HashTableMeta,
    block_separation: u8,
    allocated: int,
    first_block: int,
    block_count: int,
    e: StfsError,
) -> bool {
    match spec_walk(s, sex, m, block_separation, allocated, first_block, block_count, 0) {
        Err(walk_error) => e == walk_error,
        Ok(views) => {
            &&& e == StfsError::CorruptDirectory
            &&& spec_attach(views, views, 0xFFFF, views.len() as int, views.len() as int) != Some(
                views.len() as int,
            )
        },
    }
}

/// A fully decoded package: the header, the derived geometry, the flat entry
/// list in file-table order, and the directory tree built over it.
#[derive(Debug)]
pub struct StfsPackage {
    pub header: XContentHeader,
    pub sex: StfsPackageSex,
    pub hash_table_meta: HashTableMeta,
    /// The synthetic root folder holding the logical tree.
    pub files: StfsEntry,
    /// Every decoded file-table record, in walk order.
    pub entries: Vec<StfsFileEntry>,
}

impl StfsPackage {
    /// The structural facts every method relies on: an STFS descriptor, the
    /// sex and steps it selects, and a top table of the root level with one
    /// entry per covered span.
    pub open spec fn wf(&self) -> bool {
        &&& self.header.volume_descriptor is STFS
        &&& {
            let vol = self.header.volume_descriptor->STFS_0;
            &&& self.sex == spec_sex_of(vol.block_separation)
            &&& vol.allocated_block_count <= 0x4AF768
            &&& meta_wf(self.hash_table_meta, self.sex, vol.allocated_block_count as int)
            &&& self.hash_table_meta.first_table_address == spec_first_table_address(
                self.header.header_size as int,
            )
        }
    }

    /// The STFS volume descriptor of this package.
    pub open spec fn vol(&self) -> StfsVolumeDescriptor {
        self.header.volume_descriptor->STFS_0
    }

    /// Position of data block `block` in 4KB units past the first table.
    pub fn compute_data_block_num(&self, block: usize) -> (r: u64)
        requires
            block < 0x1000000,
        ensures
            r == spec_data_block(self.sex, block as int),
    {
        data_block_number(self.sex, block)
    }

    /// Byte address of data block `block` in the package.
    pub fn block_to_addr(&self, block: usize) -> (r: u64)
        requires
            self.wf(),
            block < 0x1000000,
        ensures
            r == spec_block_addr(
                self.sex,
                self.hash_table_meta.first_table_address as int,
                block as int,
            ),
    {
        block_address(self.sex, self.hash_table_meta.first_table_address, block)
    }

    /// Byte address of the level-0 hash entry that describes `block`.
    pub fn block_hash_address(&self, block: usize, input: &[u8]) -> (r: Result<u64, StfsError>)
        requires
            self.wf(),
            block < self.vol().allocated_block_count,
        ensures
            match r {
                Ok(a) => {
                    &&& spec_hash_address_readable(self.sex, self.hash_table_meta, input@, block as int)
                    &&& a == spec_hash_entry_address(
                        self.sex,
                        self.hash_table_meta,
                        self.vol().block_separation,
                        input@,
                        block as int,
                    )
                },
                Err(e) => {
                    &&& !spec_hash_address_readable(self.sex, self.hash_table_meta, input@, block as int)
                    &&& e == StfsError::Truncated
                },
            },
    {
        hash_entry_address(
            input,
            self.sex,
            &self.hash_table_meta,
            self.header.volume_descriptor.stfs_ref().block_separation,
            self.header.volume_descriptor.stfs_ref().allocated_block_count,
            block,
        )
    }

    /// Reads the level-0 hash entry that describes `block`.
    pub fn block_hash_entry(&self, block: usize, input: &[u8]) -> (r: Result<HashEntry, StfsError>)
        requires
            self.wf(),
            block < self.vol().allocated_block_count,
        ensures
            match r {
                Ok(e) => {
                    &&& spec_hash_address_readable(self.sex, self.hash_table_meta, input@, block as int)
                    &&& spec_hash_entry_address(
                        self.sex,
                        self.hash_table_meta,
                        self.vol().block_separation,
                        input@,
                        block as int,
                    ) + 0x18 <= input.len()
                    &&& hash_entry_matches(
                        e,
                        input@,
                        spec_hash_entry_address(
                            self.sex,
                            self.hash_table_meta,
                            self.vol().block_separation,
                            input@,
                            block as int,
                        ),
                    )
                },
                Err(e) => {
                    &&& e == StfsError::Truncated
                    &&& {
                        ||| !spec_hash_address_readable(
                            self.sex,
                            self.hash_table_meta,
                            input@,
                            block as int,
                        )
                        ||| spec_hash_entry_address(
                            self.sex,
                            self.hash_table_meta,
                            self.vol().block_separation,
                            input@,
                            block as int,
                        ) + 0x18 > input.len()
                    }
                },
            },
    {
        hash_entry_for_block(
            input,
            self.sex,
            &self.hash_table_meta,
            self.header.volume_descriptor.stfs_ref().block_separation,
            self.header.volume_descriptor.stfs_ref().allocated_block_count,
            block,
        )
    }

    /// Decodes a whole package: header, geometry, file table and tree.
    #[verifier::rlimit(100)]
    pub fn try_from(input: &[u8]) -> (r: Result<StfsPackage, StfsError>)
        ensures
            match r {
                Ok(p) => {
                    let s = input@;
                    let views = p.entries@.map_values(|e: StfsFileEntry| e@);
                    &&& crate::header::spec_header_ok(s)
                    &&& crate::header::header_matches(p.header, s)
                    &&& p.wf()
                    &&& p.hash_table_meta.parse_matches(
                        s,
                        p.sex,
                        p.header.header_size,
                        p.vol().block_separation,
                        p.vol().allocated_block_count as int,
                    )
                    &&& Ok::<Seq<StfsFileEntryView>, StfsError>(views) == spec_walk(
                        s,
                        p.sex,
                        p.hash_table_meta,
                        p.vol().block_separation,
                        p.vol().allocated_block_count as int,
                        p.vol().file_table_block_num as int,
                        p.vol().file_table_block_count as int,
                        0,
                    )
                    &&& spec_attach(views, views, 0xFFFF, views.len() as int, views.len() as int)
                        == Some(views.len() as int)
                    &&& (p.files matches StfsEntry::Folder { entry, files } && entry@
                        == spec_default_entry() && files@.map_values(|n: StfsEntry| n.entry_view())
                        == children_of(views, 0xFFFF) && forest_ok(files@, views))
                    &&& tree_count(p.files) == views.len() + 1
                },
                Err(e) => {
                    let s = input@;
                    let sex_s = spec_sex_of(s[0x37B]);
                    let allocated = u32_be(s, 0x395);
                    let level = spec_root_level(allocated)->Some_0;
                    let table_end = crate::hashes::spec_top_table_address(
                        sex_s,
                        level,
                        (u32_be(s, 0x340) as u32),
                        s[0x37B],
                    ) + 0x18 * spec_ceil_div(allocated, spec_blocks_per_entry(level));
                    &&& (!crate::header::spec_header_ok(s) ==> e == crate::header::spec_header_err(
                        s,
                    ))
                    &&& (crate::header::spec_header_ok(s) && u32_be(s, 0x3A9) == 1 ==> e
                        == StfsError::InvalidPackageType)
                    &&& (crate::header::spec_header_ok(s) && u32_be(s, 0x3A9) == 0
                        && spec_root_level(allocated) is None ==> e == StfsError::InvalidHeader)
                    &&& (crate::header::spec_header_ok(s) && u32_be(s, 0x3A9) == 0
                        && spec_root_level(allocated) is Some && s.len() < table_end ==> e
                        == StfsError::Truncated)
                    &&& (crate::header::spec_header_ok(s) && u32_be(s, 0x3A9) == 0
                        && spec_root_level(allocated) is Some && s.len() >= table_end ==> exists|
                        m: HashTableMeta,
                    |
                        {
                            &&& #[trigger] m.parse_matches(
                                s,
                                sex_s,
                                (u32_be(s, 0x340) as u32),
                                s[0x37B],
                                allocated,
                            )
                            &&& spec_decode_tail_err(
                                s,
                                sex_s,
                                m,
                                s[0x37B],
                                allocated,
                                u24_le(s, 0x37E),
                                u16_le(s, 0x37C),
                                e,
                            )
                        })
                },
            },
    {
        let header = match crate::header::xcontent_header_parser(input) {
            Ok(h) => h,
            Err(e) => {
                return Err(e);
            },
        };
        let sex = match StfsPackageSex::try_from(&header) {
            Ok(sex) => sex,
            Err(e) => {
                return Err(e);
            },
        };
        let hash_table_meta = match HashTableMeta::parse(input, sex, &header) {
            Ok(m) => m,
            Err(e) => {
                return Err(e);
            },
        };
        proof {
            assert(spec_first_table_address(header.header_size as int) <= 0x100000000) by {
                vstd::arithmetic::div_mod::lemma_div_is_ordered(
                    header.header_size + 0xFFF,
                    0x100000FFEint,
                    0x1000,
                );
            }
        }
        let entries = {
            let vol = header.volume_descriptor.stfs_ref();
            match read_file_table(input, sex, &hash_table_meta, vol) {
                Ok(v) => v,
                Err(e) => {
                    proof {
                        lemma_walk_err_kinds(
                            input@,
                            sex,
                            hash_table_meta,
                            vol.block_separation,
                            vol.allocated_block_count as int,
                            vol.file_table_block_num as int,
                            vol.file_table_block_count as int,
                            0,
                        );
                        assert(hash_table_meta.parse_matches(
                            input@,
                            sex,
                            (u32_be(input@, 0x340) as u32),
                            input@[0x37B],
                            u32_be(input@, 0x395),
                        ));
                    }
                    return Err(e);
                },
            }
        };
        let files = match build_file_tree(&entries) {
            Ok(t) => t,
            Err(e) => {
                proof {
                    let vol = header.volume_descriptor->STFS_0;
                    assert(hash_table_meta.parse_matches(
                        input@,
                        sex,
                        (u32_be(input@, 0x340) as u32),
                        input@[0x37B],
                        u32_be(input@, 0x395),
                    ));
                    assert(spec_decode_tail_err(
                        input@,
                        sex,
                        hash_table_meta,
                        input@[0x37B],
                        u32_be(input@, 0x395),
                        u24_le(input@, 0x37E),
                        u16_le(input@, 0x37C),
                        e,
                    ));
                }
                return Err(e);
            },
        };
        Ok(StfsPackage { header, sex, hash_table_meta, files, entries })
    }
}


/// Whether the skip computation is defined at `addr`: the 4KB index past
/// the first table must not fall in the gap just past the level-1 step,
/// where no table boundary exists.
pub open spec fn spec_skip_defined(sex: StfsPackageSex, fta: int, addr: int) -> bool {
    let bn = (addr - fta) / 4096;
    bn <= spec_step1(sex) || bn >= spec_step1(sex) + sex_mult(sex)
}

/// How many bytes to skip past the hash tables at `addr` when walking a
/// consecutive region forward: one table's span at a level-0 boundary,
/// two at a level-1 boundary, three at the level-2 boundary.
pub open spec fn spec_skip(sex: StfsPackageSex, fta: int, addr: int) -> int {
    let bn = (addr - fta) / 4096;
    let m = sex_mult(sex);
    if bn == 0 {
        0x1000 * m
    } else if bn == spec_step1(sex) {
        0x3000 * m
    } else {
        let bn2 = if bn > spec_step1(sex) {
            bn - spec_step1(sex) - m
        } else {
            bn
        };
        if bn2 == spec_step0(sex) || bn2 % spec_step1(sex) == 0 {
            0x2000 * m
        } else {
            0x1000 * m
        }
    }
}

impl StfsPackage {
    /// The number of bytes occupied by the hash tables at `table_address`,
    /// which a consecutive read skips over.
    pub fn hash_table_skip_for_address(&self, table_address: u64) -> (r: u64)
        requires
            self.wf(),
            table_address >= self.hash_table_meta.first_table_address,
            table_address <= 0x10000000000000,
            spec_skip_defined(
                self.sex,
                self.hash_table_meta.first_table_address as int,
                table_address as int,
            ),
        ensures
            r == spec_skip(
                self.sex,
                self.hash_table_meta.first_table_address as int,
                table_address as int,
            ),
    {
        let mult = self.sex.multiplier() as u64;
        let step0 = self.hash_table_meta.block_step[0] as u64;
        let step1 = self.hash_table_meta.block_step[1] as u64;
        let mut block_number = (table_address - self.hash_table_meta.first_table_address) / 4096;
        if block_number == 0 {
            return 0x1000 * mult;
        }
        if block_number == step1 {
            return 0x3000 * mult;
        } else if block_number > step1 {
            block_number = block_number - step1 - mult;
        }
        if block_number == step0 || block_number % step1 == 0 {
            0x2000 * mult
        } else {
            0x1000 * mult
        }
    }
}

/// The bytes of a chained file: starting at block `b` with `remaining`
/// bytes owed, each block yields up to 4KB from its data address, and the
/// next block comes from the chain in the level-0 hash table.  The read
/// fails on a block outside the buffer or the allocated count, on a hash
/// entry that cannot be read, and on a chain that ends early.
pub open spec fn spec_chained(
    s: Seq<u8>,
    sex: StfsPackageSex,
    meta: HashTableMeta,
    block_separation: u8,
    allocated: int,
    b: int,
    remaining: int,
) -> Result<Seq<u8>, StfsError>
    decreases remaining,
{
    if remaining <= 0 {
        Ok(Seq::empty())
    } else {
        let addr = spec_block_addr(sex, meta.first_table_address as int, b);
        let chunk = if remaining < 4096 {
            remaining
        } else {
            4096
        };
        if addr + chunk > s.len() {
            Err(StfsError::Truncated)
        } else if !(0 <= b < allocated) {
            Err(StfsError::BlockOutOfRange)
        } else if !spec_hash_address_readable(sex, meta, s, b) || spec_hash_entry_address(
            sex,
            meta,
            block_separation,
            s,
            b,
        ) + 0x18 > s.len() {
            Err(StfsError::Truncated)
        } else {
            let nxt = spec_next_block(sex, meta, block_separation, s, b);
            if remaining - chunk == 0 {
                Ok(s.subrange(addr, addr + chunk))
            } else if nxt == 0xFFFFFF {
                Err(StfsError::InvalidHeader)
            } else {
                match spec_chained(s, sex, meta, block_separation, allocated, nxt, remaining
                    - chunk) {
                    Ok(rest) => Ok(s.subrange(addr, addr + chunk) + rest),
                    Err(e) => Err(e),
                }
            }
        }
    }
}

/// The bytes of a consecutive region: up to 170 blocks are read at a time,
/// and the hash tables met at each boundary are skipped.  The read fails on
/// a range outside the buffer and on a boundary where the skip is not
/// defined.
pub open spec fn spec_consecutive(
    s: Seq<u8>,
    sex: StfsPackageSex,
    fta: int,
    addr: int,
    remaining: int,
) -> Result<Seq<u8>, StfsError>
    decreases remaining,
{
    if remaining <= 0 {
        Ok(Seq::empty())
    } else {
        let chunk = if remaining < 0xAA000 {
            remaining
        } else {
            0xAA000
        };
        if addr + chunk > s.len() {
            Err(StfsError::Truncated)
        } else {
            let boundary = addr + chunk;
            if boundary < fta || !spec_skip_defined(sex, fta, boundary) {
                Err(StfsError::InvalidHeader)
            } else if remaining - chunk == 0 {
                Ok(s.subrange(addr, addr + chunk))
            } else {
                match spec_consecutive(
                    s,
                    sex,
                    fta,
                    boundary + spec_skip(sex, fta, boundary),
                    remaining - chunk,
                ) {
                    Ok(rest) => Ok(s.subrange(addr, addr + chunk) + rest),
                    Err(e) => Err(e),
                }
            }
        }
    }
}

/// The bytes `extract_file` owes for an entry: nothing for an empty file; a
/// single contiguous read for a consecutive file that ends before the next
/// hash table; the skip-walk for a longer consecutive file; and the chain
/// walk otherwise.
pub open spec fn spec_extract(
    s: Seq<u8>,
    sex: StfsPackageSex,
    meta: HashTableMeta,
    block_separation: u8,
    allocated: int,
    v: StfsFileEntryView,
) -> Result<Seq<u8>, StfsError> {
    let fta = meta.first_table_address as int;
    if v.file_size == 0 {
        Ok(Seq::empty())
    } else if spec_is_consecutive(v) {
        let start_addr = spec_block_addr(sex, fta, v.starting_block_num);
        let tables = spec_table_index(sex, v.starting_block_num) + spec_step0(sex);
        let position = spec_data_block(sex, v.starting_block_num);
        if tables < position {
            Err(StfsError::InvalidHeader)
        } else if v.block_count <= tables - position {
            if start_addr + v.file_size > s.len() {
                Err(StfsError::Truncated)
            } else {
                Ok(s.subrange(start_addr, start_addr + v.file_size))
            }
        } else {
            spec_consecutive(s, sex, fta, start_addr, v.file_size)
        }
    } else {
        spec_chained(s, sex, meta, block_separation, allocated, v.starting_block_num, v.file_size)
    }
}

/// A successful chained read yields exactly the bytes owed.
pub proof fn lemma_chained_len(
    s: Seq<u8>,
    sex: StfsPackageSex,
    meta: HashTableMeta,
    block_separation: u8,
    allocated: int,
    b: int,
    remaining: int,
)
    requires
        allocated <= 0x1000000,
    ensures
        spec_chained(s, sex, meta, block_separation, allocated, b, remaining) matches Ok(bytes)
            ==> bytes.len() == if remaining > 0 {
            remaining
        } else {
            0
        },
    decreases remaining,
{
    if remaining > 0 {
        if 0 <= b < allocated {
            crate::geometry::lemma_data_block_bounds(sex, b);
        }
        lemma_chained_len(
            s,
            sex,
            meta,
            block_separation,
            allocated,
            spec_next_block(sex, meta, block_separation, s, b),
            remaining - (if remaining < 4096 {
                remaining
            } else {
                4096
            }),
        );
    }
}

/// A successful consecutive read yields exactly the bytes owed.
pub proof fn lemma_consecutive_len(
    s: Seq<u8>,
    sex: StfsPackageSex,
    fta: int,
    addr: int,
    remaining: int,
)
    requires
        0 <= addr,
    ensures
        spec_consecutive(s, sex, fta, addr, remaining) matches Ok(bytes) ==> bytes.len()
            == if remaining > 0 {
            remaining
        } else {
            0
        },
    decreases remaining,
{
    if remaining > 0 {
        let chunk = if remaining < 0xAA000 {
            remaining
        } else {
            0xAA000
        };
        let boundary = addr + chunk;
        lemma_consecutive_len(
            s,
            sex,
            fta,
            boundary + spec_skip(sex, fta, boundary),
            remaining - chunk,
        );
    }
}

impl StfsPackage {
    /// Reassembles the bytes of a file entry.  Writes exactly
    /// `file_size` bytes on success; on a malformed entry or a truncated
    /// buffer it reports the violation instead of panicking.
    pub fn extract_file(&self, input: &[u8], entry: &StfsFileEntry) -> (r: Result<
        Vec<u8>,
        StfsError,
    >)
        requires
            self.wf(),
            entry.starting_block_num < 0x1000000,
            entry.file_size <= 0xFFFFFFFF,
            input.len() <= 0x1000000000000,
        ensures
            match r {
                Ok(data) => {
                    &&& spec_extract(
                        input@,
                        self.sex,
                        self.hash_table_meta,
                        self.vol().block_separation,
                        self.vol().allocated_block_count as int,
                        entry@,
                    ) == Ok::<Seq<u8>, StfsError>(data@)
                    &&& data@.len() == entry@.file_size
                },
                Err(e) => spec_extract(
                    input@,
                    self.sex,
                    self.hash_table_meta,
                    self.vol().block_separation,
                    self.vol().allocated_block_count as int,
                    entry@,
                ) == Err::<Seq<u8>, StfsError>(e),
            },
    {
        let ghost s = input@;
        let ghost fta_g = self.hash_table_meta.first_table_address as int;
        if entry.file_size == 0 {
            return Ok(Vec::new());
        }
        proof {
            crate::geometry::lemma_data_block_bounds(self.sex, entry.starting_block_num as int);
        }
        let start_address = self.block_to_addr(entry.starting_block_num);
        if entry.flags % 2 == 1 {
            proof {
                crate::geometry::lemma_table_index_bounds(self.sex, entry.starting_block_num as int);
            }
            let tables = self.hash_table_meta.compute_first_level_backing_hash_block_number(
                entry.starting_block_num,
                self.sex,
            ) + self.hash_table_meta.block_step[0];
            let position = self.compute_data_block_num(entry.starting_block_num);
            if (tables as u64) < position {
                return Err(StfsError::InvalidHeader);
            }
            let blocks_until_hash_table = (tables as u64) - position;
            if (entry.block_count as u64) <= blocks_until_hash_table {
                if (input.len() as u64) < start_address + (entry.file_size as u64) {
                    return Err(StfsError::Truncated);
                }
                let data = crate::bytes::read_bytes(
                    input,
                    start_address as usize,
                    entry.file_size,
                );
                return Ok(data);
            }
            let mut out: Vec<u8> = Vec::new();
            let mut next_address: u64 = start_address;
            let mut remaining: usize = entry.file_size;
            while remaining > 0
                invariant
                    self.wf(),
                    s == input@,
                    input.len() <= 0x1000000000000,
                    fta_g == self.hash_table_meta.first_table_address as int,
                    next_address <= 0x1000000006000,
                    spec_extract(
                        s,
                        self.sex,
                        self.hash_table_meta,
                        self.vol().block_separation,
                        self.vol().allocated_block_count as int,
                        entry@,
                    ) == spec_consecutive(
                        s,
                        self.sex,
                        fta_g,
                        start_address as int,
                        entry@.file_size,
                    ),
                    spec_consecutive(s, self.sex, fta_g, start_address as int, entry@.file_size)
                        == match spec_consecutive(
                        s,
                        self.sex,
                        fta_g,
                        next_address as int,
                        remaining as int,
                    ) {
                        Ok(rest) => Ok::<Seq<u8>, StfsError>(out@ + rest),
                        Err(e) => Err(e),
                    },
                decreases remaining,
            {
                let chunk: usize = if remaining < 0xAA000 {
                    remaining
                } else {
                    0xAA000
                };
                if (input.len() as u64) < next_address + (chunk as u64) {
                    return Err(StfsError::Truncated);
                }
                let mut part = crate::bytes::read_bytes(input, next_address as usize, chunk);
                let boundary: u64 = next_address + (chunk as u64);
                if boundary < self.hash_table_meta.first_table_address {
                    return Err(StfsError::InvalidHeader);
                }
                let step1 = self.hash_table_meta.block_step[1] as u64;
                let mult = self.sex.multiplier() as u64;
                let bn = (boundary - self.hash_table_meta.first_table_address) / 4096;
                if bn > step1 && bn < step1 + mult {
                    return Err(StfsError::InvalidHeader);
                }
                let ghost out_pre = out@;
                out.append(&mut part);
                proof {
                    assert(out@ =~= out_pre + s.subrange(
                        next_address as int,
                        next_address + chunk,
                    ));
                }
                let skip = self.hash_table_skip_for_address(boundary);
                proof {
                    let inner = spec_consecutive(
                        s,
                        self.sex,
                        fta_g,
                        boundary + spec_skip(self.sex, fta_g, boundary as int),
                        remaining - chunk,
                    );
                    match inner {
                        Ok(rest) => {
                            assert(out_pre + (s.subrange(
                                next_address as int,
                                next_address + chunk,
                            ) + rest) =~= out@ + rest);
                        },
                        Err(_) => {},
                    }
                    if remaining == chunk {
                        assert(out@ =~= out_pre + s.subrange(
                            next_address as int,
                            next_address + chunk,
                        ) + Seq::<u8>::empty());
                    }
                }
                next_address = boundary + skip;
                remaining = remaining - chunk;
            }
            proof {
                assert(out@ + Seq::<u8>::empty() =~= out@);
                lemma_consecutive_len(
                    s,
                    self.sex,
                    fta_g,
                    start_address as int,
                    entry@.file_size,
                );
            }
            Ok(out)
        } else {
            let allocated = self.header.volume_descriptor.stfs_ref().allocated_block_count;
            let mut out: Vec<u8> = Vec::new();
            let mut block: usize = entry.starting_block_num;
            let mut remaining: usize = entry.file_size;
            while remaining > 0
                invariant
                    self.wf(),
                    s == input@,
                    allocated == self.vol().allocated_block_count,
                    block < 0x1000000,
                    spec_extract(
                        s,
                        self.sex,
                        self.hash_table_meta,
                        self.vol().block_separation,
                        allocated as int,
                        entry@,
                    ) == spec_chained(
                        s,
                        self.sex,
                        self.hash_table_meta,
                        self.vol().block_separation,
                        allocated as int,
                        entry@.starting_block_num,
                        entry@.file_size,
                    ),
                    spec_chained(
                        s,
                        self.sex,
                        self.hash_table_meta,
                        self.vol().block_separation,
                        allocated as int,
                        entry@.starting_block_num,
                        entry@.file_size,
                    ) == match spec_chained(
                        s,
                        self.sex,
                        self.hash_table_meta,
                        self.vol().block_separation,
                        allocated as int,
                        block as int,
                        remaining as int,
                    ) {
                        Ok(rest) => Ok::<Seq<u8>, StfsError>(out@ + rest),
                        Err(e) => Err(e),
                    },
                decreases remaining,
            {
                let chunk: usize = if remaining < 4096 {
                    remaining
                } else {
                    4096
                };
                proof {
                    crate::geometry::lemma_data_block_bounds(self.sex, block as int);
                }
                let addr = self.block_to_addr(block);
                if (input.len() as u64) < addr + (chunk as u64) {
                    return Err(StfsError::Truncated);
                }
                if block >= allocated as usize {
                    return Err(StfsError::BlockOutOfRange);
                }
                let hash_entry = match self.block_hash_entry(block, input) {
                    Ok(h) => h,
                    Err(e) => {
                        return Err(e);
                    },
                };
                let ghost out_pre = out@;
                let mut part = crate::bytes::read_bytes(input, addr as usize, chunk);
                out.append(&mut part);
                proof {
                    assert(out@ =~= out_pre + s.subrange(addr as int, addr + chunk));
                    let nxt = spec_next_block(
                        self.sex,
                        self.hash_table_meta,
                        self.vol().block_separation,
                        s,
                        block as int,
                    );
                    assert(hash_entry.next_block == nxt);
                    let inner = spec_chained(
                        s,
                        self.sex,
                        self.hash_table_meta,
                        self.vol().block_separation,
                        allocated as int,
                        nxt,
                        remaining - chunk,
                    );
                    match inner {
                        Ok(rest) => {
                            assert(out_pre + (s.subrange(addr as int, addr + chunk) + rest)
                                =~= out@ + rest);
                        },
                        Err(_) => {},
                    }
                    if remaining == chunk {
                        assert(out@ =~= out_pre + s.subrange(addr as int, addr + chunk)
                            + Seq::<u8>::empty());
                    }
                }
                if remaining == chunk {
                    remaining = 0;
                } else {
                    if hash_entry.next_block == 0xFFFFFF {
                        return Err(StfsError::InvalidHeader);
                    }
                    block = hash_entry.next_block as usize;
                    remaining = remaining - chunk;
                }
            }
            proof {
                assert(out@ + Seq::<u8>::empty() =~= out@);
                lemma_chained_len(
                    s,
                    self.sex,
                    self.hash_table_meta,
                    self.vol().block_separation,
                    allocated as int,
                    entry@.starting_block_num,
                    entry@.file_size,
                );
            }
            Ok(out)
        }
    }
}


/// A consecutive file whose block count does not exceed the blocks left
/// before the next hash table is read as one contiguous slice of exactly
/// `file_size` bytes.
pub proof fn lemma_single_slice_fast_path(
    s: Seq<u8>,
    sex: StfsPackageSex,
    meta: HashTableMeta,
    block_separation: u8,
    allocated: int,
    v: StfsFileEntryView,
)
    requires
        spec_is_consecutive(v),
        v.file_size > 0,
        spec_table_index(sex, v.starting_block_num) + spec_step0(sex) >= spec_data_block(
            sex,
            v.starting_block_num,
        ),
        v.block_count <= spec_table_index(sex, v.starting_block_num) + spec_step0(sex)
            - spec_data_block(sex, v.starting_block_num),
        spec_block_addr(sex, meta.first_table_address as int, v.starting_block_num)
            + v.file_size <= s.len(),
    ensures
        ({
            let start = spec_block_addr(sex, meta.first_table_address as int, v.starting_block_num);
            spec_extract(s, sex, meta, block_separation, allocated, v) == Ok::<Seq<u8>, StfsError>(
                s.subrange(start, start + v.file_size),
            )
        }),
{
}

/// The chain of `n` block numbers threaded from `b` by the `next_block`
/// fields of the level-0 hash entries.
pub open spec fn spec_chain_of(
    s: Seq<u8>,
    sex: StfsPackageSex,
    meta: HashTableMeta,
    block_separation: u8,
    b: int,
    n: int,
) -> Seq<int>
    decreases n,
{
    if n <= 0 {
        Seq::empty()
    } else {
        seq![b] + spec_chain_of(
            s,
            sex,
            meta,
            block_separation,
            spec_next_block(sex, meta, block_separation, s, b),
            n - 1,
        )
    }
}

/// The byte concatenation of whole 4KB data blocks, in list order.
pub open spec fn spec_block_run_bytes(
    s: Seq<u8>,
    sex: StfsPackageSex,
    fta: int,
    blocks: Seq<int>,
) -> Seq<u8>
    decreases blocks.len(),
{
    if blocks.len() == 0 {
        Seq::empty()
    } else {
        let addr = spec_block_addr(sex, fta, blocks[0]);
        s.subrange(addr, addr + 4096) + spec_block_run_bytes(s, sex, fta, blocks.drop_first())
    }
}

/// Extracting a chained file reproduces the byte concatenation of its data
/// blocks, truncated to the file size: the chain read and the whole-block
/// read agree wherever every chain block lies fully inside the buffer.
pub proof fn lemma_chained_extract_reproduces_blocks(
    s: Seq<u8>,
    sex: StfsPackageSex,
    meta: HashTableMeta,
    block_separation: u8,
    allocated: int,
    b: int,
    size: int,
)
    requires
        size > 0,
        allocated <= 0x1000000,
        spec_chained(s, sex, meta, block_separation, allocated, b, size) is Ok,
        forall|i: int|
            0 <= i < spec_chain_of(
                s,
                sex,
                meta,
                block_separation,
                b,
                spec_ceil_div(size, 4096),
            ).len() ==> spec_block_addr(
                sex,
                meta.first_table_address as int,
                #[trigger] spec_chain_of(
                    s,
                    sex,
                    meta,
                    block_separation,
                    b,
                    spec_ceil_div(size, 4096),
                )[i],
            ) + 4096 <= s.len(),
    ensures
        ({
            let chain = spec_chain_of(s, sex, meta, block_separation, b, spec_ceil_div(size, 4096));
            spec_chained(s, sex, meta, block_separation, allocated, b, size)->Ok_0
                == spec_block_run_bytes(s, sex, meta.first_table_address as int, chain).take(size)
        }),
    decreases size,
{
    let fta = meta.first_table_address as int;
    let n = spec_ceil_div(size, 4096);
    let chain = spec_chain_of(s, sex, meta, block_separation, b, n);
    let addr = spec_block_addr(sex, fta, b);
    crate::hashes::lemma_ceil_div(size, 4096);
    vstd::arithmetic::div_mod::lemma_fundamental_div_mod(size, 4096);
    let nxt = spec_next_block(sex, meta, block_separation, s, b);
    assert(0 <= b < allocated);
    crate::geometry::lemma_data_block_bounds(sex, b);
    assert(addr >= 0);
    reveal_with_fuel(spec_chain_of, 3);
    reveal_with_fuel(spec_block_run_bytes, 3);
    assert(n >= 1);
    assert(chain[0] == b);
    assert(addr + 4096 <= s.len());
    if size <= 4096 {
        assert(spec_ceil_div(size, 4096) == 1) by {
            vstd::arithmetic::div_mod::lemma_fundamental_div_mod_converse(
                size + 4095,
                4096,
                1,
                size - 1,
            );
        }
        assert(chain =~= seq![b] + Seq::<int>::empty());
        assert(chain.drop_first() =~= Seq::<int>::empty());
        let run = spec_block_run_bytes(s, sex, fta, chain);
        assert(spec_block_run_bytes(s, sex, fta, Seq::<int>::empty()) =~= Seq::<u8>::empty());
        assert(run =~= s.subrange(addr, addr + 4096));
        assert(run.take(size) =~= s.subrange(addr, addr + size));
    } else {
        assert(spec_ceil_div(size, 4096) == 1 + spec_ceil_div(size - 4096, 4096)) by {
            vstd::arithmetic::div_mod::lemma_div_plus_one(size - 4096 + 4095, 4096);
        }
        let subchain = spec_chain_of(
            s,
            sex,
            meta,
            block_separation,
            nxt,
            spec_ceil_div(size - 4096, 4096),
        );
        assert(chain =~= seq![b] + subchain);
        assert(chain.drop_first() =~= subchain);
        assert(forall|i: int|
            0 <= i < subchain.len() ==> #[trigger] subchain[i] == chain[i + 1]);
        lemma_chained_extract_reproduces_blocks(
            s,
            sex,
            meta,
            block_separation,
            allocated,
            nxt,
            size - 4096,
        );
        let run = spec_block_run_bytes(s, sex, fta, chain);
        let subrun = spec_block_run_bytes(s, sex, fta, subchain);
        let first = s.subrange(addr, addr + 4096);
        assert(run == first + subrun);
        let bytes = spec_chained(s, sex, meta, block_separation, allocated, b, size)->Ok_0;
        let subbytes = spec_chained(
            s,
            sex,
            meta,
            block_separation,
            allocated,
            nxt,
            size - 4096,
        )->Ok_0;
        assert(bytes == first + subbytes);
        lemma_chain_elements(s, sex, meta, block_separation, nxt, n - 1);
        assert forall|i: int| 0 <= i < subchain.len() implies 0 <= spec_block_addr(
            sex,
            fta,
            #[trigger] subchain[i],
        ) && spec_block_addr(sex, fta, subchain[i]) + 4096 <= s.len() by {
            crate::geometry::lemma_data_block_bounds(sex, subchain[i]);
            assert(subchain[i] == chain[i + 1]);
        }
        lemma_block_run_len(s, sex, fta, subchain);
        assert(subchain.len() == n - 1);
        assert(4096 * (n - 1) >= size - 4096) by {
            vstd::arithmetic::div_mod::lemma_fundamental_div_mod(size - 4096 + 4095, 4096);
            vstd::arithmetic::div_mod::lemma_mod_division_less_than_divisor(
                size - 4096 + 4095,
                4096,
            );
            vstd::arithmetic::div_mod::lemma_remainder_lower(size - 4096 + 4095, 4096);
        }
        assert(subrun.len() >= size - 4096);
        assert(first + subrun.take(size - 4096) =~= (first + subrun).take(size));
    }
}

/// Every block of a chain started below the 24-bit limit stays below it,
/// and the chain holds one block per step.
proof fn lemma_chain_elements(
    s: Seq<u8>,
    sex: StfsPackageSex,
    meta: HashTableMeta,
    block_separation: u8,
    b: int,
    n: int,
)
    requires
        0 <= b < 0x1000000,
    ensures
        spec_chain_of(s, sex, meta, block_separation, b, n).len() == if n > 0 {
            n
        } else {
            0
        },
        forall|i: int|
            0 <= i < spec_chain_of(s, sex, meta, block_separation, b, n).len() ==> 0
                <= #[trigger] spec_chain_of(s, sex, meta, block_separation, b, n)[i] < 0x1000000,
    decreases n,
{
    if n > 0 {
        let nxt = spec_next_block(sex, meta, block_separation, s, b);
        lemma_chain_elements(s, sex, meta, block_separation, nxt, n - 1);
        let sub = spec_chain_of(s, sex, meta, block_separation, nxt, n - 1);
        let chain = spec_chain_of(s, sex, meta, block_separation, b, n);
        assert(chain =~= seq![b] + sub);
        assert(forall|i: int| 0 <= i < sub.len() ==> chain[i + 1] == #[trigger] sub[i]);
    }
}

/// A run of whole blocks, each inside the buffer, is 4KB per block.
proof fn lemma_block_run_len(s: Seq<u8>, sex: StfsPackageSex, fta: int, blocks: Seq<int>)
    requires
        forall|i: int|
            0 <= i < blocks.len() ==> 0 <= spec_block_addr(sex, fta, #[trigger] blocks[i])
                && spec_block_addr(sex, fta, blocks[i]) + 4096 <= s.len(),
    ensures
        spec_block_run_bytes(s, sex, fta, blocks).len() == 4096 * blocks.len(),
    decreases blocks.len(),
{
    if blocks.len() > 0 {
        assert(forall|i: int|
            0 <= i < blocks.drop_first().len() ==> #[trigger] blocks.drop_first()[i] == blocks[i
                + 1]);
        lemma_block_run_len(s, sex, fta, blocks.drop_first());
    }
}

/// The per-entry conditions of the round-trip law: a chained file whose
/// chain read succeeds with every chain block fully inside the buffer.
pub open spec fn spec_round_trip_pre(
    s: Seq<u8>,
    sex: StfsPackageSex,
    meta: HashTableMeta,
    block_separation: u8,
    allocated: int,
    v: StfsFileEntryView,
) -> bool {
    &&& !spec_is_consecutive(v)
    &&& v.file_size >= 0
    &&& spec_chained(s, sex, meta, block_separation, allocated, v.starting_block_num, v.file_size)
        is Ok
    &&& forall|i: int|
        0 <= i < spec_chain_of(
            s,
            sex,
            meta,
            block_separation,
            v.starting_block_num,
            spec_ceil_div(v.file_size, 4096),
        ).len() ==> spec_block_addr(
            sex,
            meta.first_table_address as int,
            #[trigger] spec_chain_of(
                s,
                sex,
                meta,
                block_separation,
                v.starting_block_num,
                spec_ceil_div(v.file_size, 4096),
            )[i],
        ) + 4096 <= s.len()
}

/// The extracted streams of a list of entries, concatenated in order.
pub open spec fn spec_concat_extracts(
    s: Seq<u8>,
    sex: StfsPackageSex,
    meta: HashTableMeta,
    block_separation: u8,
    allocated: int,
    entries: Seq<StfsFileEntryView>,
) -> Seq<u8>
    decreases entries.len(),
{
    if entries.len() == 0 {
        Seq::empty()
    } else {
        spec_concat_extracts(s, sex, meta, block_separation, allocated, entries.drop_last())
            + spec_extract(s, sex, meta, block_separation, allocated, entries.last())->Ok_0
    }
}

/// The truncated whole-block concatenations of a list of entries, in order.
pub open spec fn spec_concat_block_runs(
    s: Seq<u8>,
    sex: StfsPackageSex,
    meta: HashTableMeta,
    block_separation: u8,
    entries: Seq<StfsFileEntryView>,
) -> Seq<u8>
    decreases entries.len(),
{
    if entries.len() == 0 {
        Seq::empty()
    } else {
        let v = entries.last();
        spec_concat_block_runs(s, sex, meta, block_separation, entries.drop_last())
            + spec_block_run_bytes(
            s,
            sex,
            meta.first_table_address as int,
            spec_chain_of(
                s,
                sex,
                meta,
                block_separation,
                v.starting_block_num,
                spec_ceil_div(v.file_size, 4096),
            ),
        ).take(v.file_size)
    }
}

/// The round-trip law over a walk of the tree: extracting each chained file
/// of a list in order reproduces the byte concatenation of their data
/// blocks in entry order, each truncated to its file size.  Instantiated
/// with `spec_dfs_files` of a tree, the list is the tree's files in
/// depth-first order.
pub proof fn lemma_round_trip(
    s: Seq<u8>,
    sex: StfsPackageSex,
    meta: HashTableMeta,
    block_separation: u8,
    allocated: int,
    entries: Seq<StfsFileEntryView>,
)
    requires
        allocated <= 0x1000000,
        forall|l: int|
            0 <= l < entries.len() ==> spec_round_trip_pre(
                s,
                sex,
                meta,
                block_separation,
                allocated,
                #[trigger] entries[l],
            ),
    ensures
        spec_concat_extracts(s, sex, meta, block_separation, allocated, entries)
            == spec_concat_block_runs(s, sex, meta, block_separation, entries),
    decreases entries.len(),
{
    if entries.len() > 0 {
        lemma_round_trip(s, sex, meta, block_separation, allocated, entries.drop_last());
        let v = entries.last();
        if v.file_size > 0 {
            lemma_chained_extract_reproduces_blocks(
                s,
                sex,
                meta,
                block_separation,
                allocated,
                v.starting_block_num,
                v.file_size,
            );
        } else {
            assert(spec_ceil_div(0, 4096) == 0) by {
                vstd::arithmetic::div_mod::lemma_fundamental_div_mod_converse(4095, 4096, 0, 4095);
            }
            assert(spec_chain_of(
                s,
                sex,
                meta,
                block_separation,
                v.starting_block_num,
                spec_ceil_div(v.file_size, 4096),
            ).len() == 0);
            assert(spec_block_run_bytes(
                s,
                sex,
                meta.first_table_address as int,
                Seq::<int>::empty(),
            ).take(0) =~= Seq::<u8>::empty());
        }
    }
}

/// The file entries of a subtree in depth-first order.
pub open spec fn spec_dfs_files(node: StfsEntry) -> Seq<StfsFileEntryView>
    decreases node,
{
    match node {
        StfsEntry::File(e) => seq![e@],
        StfsEntry::Folder { entry, files } => spec_dfs_forest(files@),
    }
}

/// The file entries of a list of subtrees in depth-first order.
pub open spec fn spec_dfs_forest(list: Seq<StfsEntry>) -> Seq<StfsFileEntryView>
    decreases list,
{
    if list.len() == 0 {
        Seq::empty()
    } else {
        spec_dfs_forest(list.drop_last()) + spec_dfs_files(list.last())
    }
}


/// The `n` consecutive block numbers from `b0` on.
pub open spec fn spec_block_range(b0: int, n: int) -> Seq<int> {
    Seq::new(if n > 0 {
        n as nat
    } else {
        0
    }, |t: int| b0 + t)
}

/// A run of whole blocks at consecutive positions is one contiguous byte
/// range.
proof fn lemma_block_run_contiguous(
    s: Seq<u8>,
    sex: StfsPackageSex,
    fta: int,
    b0: int,
    n: int,
)
    requires
        n >= 0,
        0 <= spec_block_addr(sex, fta, b0),
        spec_block_addr(sex, fta, b0) + 4096 * n <= s.len(),
        forall|t: int|
            0 <= t < n ==> spec_data_block(sex, #[trigger] (b0 + t)) == spec_data_block(sex, b0)
                + t,
    ensures
        spec_block_run_bytes(s, sex, fta, spec_block_range(b0, n)) == s.subrange(
            spec_block_addr(sex, fta, b0),
            spec_block_addr(sex, fta, b0) + 4096 * n,
        ),
    decreases n,
{
    let addr0 = spec_block_addr(sex, fta, b0);
    reveal_with_fuel(spec_block_run_bytes, 2);
    if n == 0 {
        assert(spec_block_range(b0, 0) =~= Seq::<int>::empty());
        assert(s.subrange(addr0, addr0) =~= Seq::<u8>::empty());
    } else if n == 1 {
        let range = spec_block_range(b0, 1);
        assert(range[0] == b0);
        assert(range.drop_first() =~= Seq::<int>::empty());
        assert(spec_block_run_bytes(s, sex, fta, range) =~= s.subrange(addr0, addr0 + 4096));
    } else {
        let range = spec_block_range(b0, n);
        let sub = spec_block_range(b0 + 1, n - 1);
        assert(range[0] == b0);
        assert(range.drop_first() =~= sub);
        assert(spec_data_block(sex, b0 + 1) == spec_data_block(sex, b0) + 1);
        assert(spec_block_addr(sex, fta, b0 + 1) == addr0 + 4096) by {
            vstd::arithmetic::mul::lemma_mul_is_distributive_add_other_way(
                4096,
                spec_data_block(sex, b0),
                1,
            );
            vstd::arithmetic::mul::lemma_mul_is_commutative(spec_data_block(sex, b0), 4096);
            vstd::arithmetic::mul::lemma_mul_is_commutative(spec_data_block(sex, b0) + 1, 4096);
        }
        assert(forall|t: int|
            0 <= t < n - 1 ==> spec_data_block(sex, #[trigger] ((b0 + 1) + t))
                == spec_data_block(sex, b0 + 1) + t) by {
            assert(forall|t: int|
                0 <= t < n - 1 ==> #[trigger] ((b0 + 1) + t) == b0 + (t + 1));
        }
        vstd::arithmetic::mul::lemma_mul_is_distributive_add(4096, 1, n - 1);
        lemma_block_run_contiguous(s, sex, fta, b0 + 1, n - 1);
        assert(s.subrange(addr0, addr0 + 4096) + s.subrange(
            addr0 + 4096,
            addr0 + 4096 * n,
        ) =~= s.subrange(addr0, addr0 + 4096 * n));
    }
}

/// Extracting a consecutive female-schedule file that ends before the next
/// hash table reproduces the byte concatenation of its data blocks,
/// truncated to the file size, wherever the buffer holds those blocks in
/// full.  (The male schedule's block positions are not contiguous just
/// below the first level-1 boundary, so this reading is stated of the
/// female schedule.)
pub proof fn lemma_fast_path_reproduces_blocks(
    s: Seq<u8>,
    meta: HashTableMeta,
    block_separation: u8,
    allocated: int,
    v: StfsFileEntryView,
)
    requires
        spec_is_consecutive(v),
        v.file_size > 0,
        0 <= v.starting_block_num,
        v.starting_block_num + spec_ceil_div(v.file_size, 4096) < 0x1000000,
        spec_ceil_div(v.file_size, 4096) <= v.block_count,
        v.block_count <= spec_table_index(StfsPackageSex::Female, v.starting_block_num) + 0xAB
            - spec_data_block(StfsPackageSex::Female, v.starting_block_num),
        spec_block_addr(
            StfsPackageSex::Female,
            meta.first_table_address as int,
            v.starting_block_num,
        ) + 4096 * spec_ceil_div(v.file_size, 4096) <= s.len(),
    ensures
        ({
            let sex = StfsPackageSex::Female;
            let n = spec_ceil_div(v.file_size, 4096);
            spec_extract(s, sex, meta, block_separation, allocated, v) == Ok::<
                Seq<u8>,
                StfsError,
            >(
                spec_block_run_bytes(
                    s,
                    sex,
                    meta.first_table_address as int,
                    spec_block_range(v.starting_block_num, n),
                ).take(v.file_size),
            )
        }),
{
    let sex = StfsPackageSex::Female;
    let fta = meta.first_table_address as int;
    let b0 = v.starting_block_num;
    let n = spec_ceil_div(v.file_size, 4096);
    let addr0 = spec_block_addr(sex, fta, b0);
    crate::hashes::lemma_ceil_div(v.file_size, 4096);
    vstd::arithmetic::div_mod::lemma_fundamental_div_mod(v.file_size, 4096);
    vstd::arithmetic::div_mod::lemma_mod_division_less_than_divisor(v.file_size, 4096);
    vstd::arithmetic::div_mod::lemma_div_pos_is_pos(v.file_size, 4096);
    assert(n >= 1);
    assert(4096 * n >= v.file_size) by {
        vstd::arithmetic::mul::lemma_mul_is_distributive_add(4096, v.file_size / 4096, 1);
    }
    crate::geometry::lemma_data_block_bounds(sex, b0);
    assert forall|t: int| 0 <= t < n implies spec_data_block(sex, #[trigger] (b0 + t))
        == spec_data_block(sex, b0) + t by {
        crate::geometry::lemma_female_blocks_contiguous(b0, t);
    }
    lemma_block_run_contiguous(s, sex, fta, b0, n);
    assert(s.subrange(addr0, addr0 + 4096 * n).take(v.file_size) =~= s.subrange(
        addr0,
        addr0 + v.file_size,
    ));
}

} // verus!
