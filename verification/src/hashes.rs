//! Hash tables: the 24-byte entries, the table record, and the per-package
//! metadata (block steps, table counts, top table) parsed from the header.

use vstd::prelude::*;
use crate::bytes::read_bytes;
use crate::bytes::read_u24_be;
use crate::bytes::read_u8;
use crate::bytes::u24_be;
use crate::errors::StfsError;
use crate::geometry::HashTableLevel;
use crate::geometry::StfsPackageSex;
use crate::geometry::round_to_block_boundary;
use crate::geometry::sex_mult;
use crate::geometry::spec_blocks_per_entry;
use crate::geometry::spec_first_table_address;
use crate::geometry::spec_root_level;
use crate::geometry::spec_step0;
use crate::geometry::spec_step1;
use crate::header::FileSystem;
use crate::header::XContentHeader;

verus! {

broadcast use vstd::slice::axiom_spec_len;

/// One 24-byte hash-table entry: a 20-byte block hash kept as opaque bytes,
/// a status byte whose bit 6 selects the live mirror of the child table, and
/// the 24-bit big-endian number of the next block in a chain.
#[derive(Debug, Clone)]
pub struct HashEntry {
    pub block_hash: Vec<u8>,
    pub status: u8,
    pub next_block: u32,
}

/// How a HashEntry relates to the 24 bytes at `addr`.
pub open spec fn hash_entry_matches(e: HashEntry, s: Seq<u8>, addr: int) -> bool {
    &&& e.block_hash@ == s.subrange(addr, addr + 0x14)
    &&& e.status == s[addr + 0x14]
    &&& e.next_block == u24_be(s, addr + 0x15)
}

/// Reads the 24-byte hash entry at `addr`.
pub fn read_hash_entry(input: &[u8], addr: usize) -> (r: HashEntry)
    requires
        addr + 0x18 <= input.len(),
    ensures
        hash_entry_matches(r, input@, addr as int),
{
    let block_hash = read_bytes(input, addr, 0x14);
    let status = read_u8(input, addr + 0x14);
    let next_block = read_u24_be(input, addr + 0x15);
    HashEntry { block_hash, status, next_block }
}

/// One hash table: its level, its position in 4KB units past the first
/// table, how many of its entries are meaningful, its byte address, and the
/// entries themselves.
#[derive(Debug, Clone)]
pub struct HashTable {
    pub level: HashTableLevel,
    pub true_block_number: usize,
    pub entry_count: usize,
    pub address_in_file: u64,
    pub entries: Vec<HashEntry>,
}

impl core::default::Default for HashTable {
    /// An empty level-0 table.
    fn default() -> (r: HashTable)
        ensures
            r.level == HashTableLevel::First,
            r.true_block_number == 0,
            r.entry_count == 0,
            r.address_in_file == 0,
            r.entries@.len() == 0,
    {
        HashTable {
            level: HashTableLevel::First,
            true_block_number: 0,
            entry_count: 0,
            address_in_file: 0,
            entries: Vec::new(),
        }
    }
}

/// The ceiling of `a / d`.
pub open spec fn spec_ceil_div(a: int, d: int) -> int
    recommends
        d > 0,
{
    (a + d - 1) / d
}

/// Relates the ceiling division to floor division and remainder, which is
/// how the executable code computes it.
pub proof fn lemma_ceil_div(a: int, d: int)
    requires
        a >= 0,
        d > 0,
    ensures
        spec_ceil_div(a, d) == a / d + if a % d == 0 {
            0int
        } else {
            1int
        },
{
    vstd::arithmetic::div_mod::lemma_fundamental_div_mod(a, d);
    let q = a / d;
    let r = a % d;
    vstd::arithmetic::mul::lemma_mul_is_commutative(d, q);
    if r == 0 {
        vstd::arithmetic::div_mod::lemma_fundamental_div_mod_converse(a + d - 1, d, q, d - 1);
    } else {
        vstd::arithmetic::mul::lemma_mul_is_distributive_add_other_way(d, q, 1);
        vstd::arithmetic::div_mod::lemma_fundamental_div_mod_converse(a + d - 1, d, q + 1, r - 1);
    }
}

/// Divides, rounding up.
pub fn ceil_div(a: usize, d: usize) -> (r: usize)
    requires
        d > 0,
    ensures
        r == spec_ceil_div(a as int, d as int),
{
    proof {
        lemma_ceil_div(a as int, d as int);
    }
    if a % d == 0 {
        a / d
    } else {
        proof {
            assert(d >= 2) by {
                if d == 1 {
                    assert(a as int % 1int == 0);
                }
            }
            vstd::arithmetic::div_mod::lemma_div_is_ordered_by_denominator(a as int, 2, d as int);
            vstd::arithmetic::div_mod::lemma_div_is_ordered(a as int, usize::MAX as int, 2);
        }
        a / d + 1
    }
}

/// The position of the top hash table in 4KB units past the first table.
pub open spec fn spec_top_table_block(sex: StfsPackageSex, level: HashTableLevel) -> int {
    match level {
        HashTableLevel::First => 0,
        HashTableLevel::Second => spec_step0(sex),
        HashTableLevel::Third => spec_step1(sex),
    }
}

/// The byte address of the live copy of the top hash table: bit 1 of
/// `block_separation` selects one of the two mirrored root tables.
pub open spec fn spec_top_table_address(
    sex: StfsPackageSex,
    level: HashTableLevel,
    header_size: u32,
    block_separation: u8,
) -> int {
    spec_top_table_block(sex, level) * 4096 + spec_first_table_address(header_size as int) + (
    block_separation / 2 % 2) * 0x1000
}

/// The per-package constants that govern block addressing, derived from the
/// volume descriptor, together with the top-level hash table read in full.
#[derive(Debug, Clone)]
pub struct HashTableMeta {
    /// Element 0: distance between consecutive level-0 tables in 4KB units;
    /// element 1: distance between consecutive level-1 tables.
    pub block_step: [usize; 2],
    /// How many tables each level holds for this package's block count.
    pub tables_per_level: [usize; 3],
    /// The root of the hash-table forest.
    pub top_table: HashTable,
    /// Byte address of the first hash table: the header size rounded up to a
    /// 4KB boundary.
    pub first_table_address: u64,
}

impl HashTableMeta {
    /// Whether the block steps are the pair the sex calls for.
    pub open spec fn steps_match(&self, sex: StfsPackageSex) -> bool {
        &&& self.block_step@[0] == spec_step0(sex)
        &&& self.block_step@[1] == spec_step1(sex)
    }

    /// Everything `parse` guarantees about the metadata of a package whose
    /// header bytes are `s`.
    pub open spec fn parse_matches(
        &self,
        s: Seq<u8>,
        sex: StfsPackageSex,
        header_size: u32,
        block_separation: u8,
        allocated: int,
    ) -> bool {
        let level = spec_root_level(allocated)->Some_0;
        let address = spec_top_table_address(sex, level, header_size, block_separation);
        let count = spec_ceil_div(allocated, spec_blocks_per_entry(level));
        &&& self.steps_match(sex)
        &&& self.first_table_address == spec_first_table_address(header_size as int)
        &&& self.tables_per_level@[0] == spec_ceil_div(allocated, 0xAA)
        &&& self.tables_per_level@[1] == if allocated > 0xAA {
            spec_ceil_div(allocated, 0x70E4)
        } else {
            0
        }
        &&& self.tables_per_level@[2] == if allocated > 0x70E4 {
            spec_ceil_div(allocated, 0x4AF768)
        } else {
            0
        }
        &&& Some(self.top_table.level) == spec_root_level(allocated)
        &&& self.top_table.true_block_number == spec_top_table_block(sex, level)
        &&& self.top_table.address_in_file == address
        &&& self.top_table.entry_count == count
        &&& self.top_table.entries@.len() == count
        &&& forall|i: int|
            0 <= i < count ==> hash_entry_matches(
                #[trigger] self.top_table.entries@[i],
                s,
                address + 0x18 * i,
            )
    }

    /// Derives the metadata from a parsed header and reads the top table out
    /// of the package buffer.  Fails on a package without an STFS
    /// descriptor, on a block count beyond the deepest level, and on a
    /// buffer too short to hold the top table.
    pub fn parse(data: &[u8], sex: StfsPackageSex, header: &XContentHeader) -> (r: Result<
        HashTableMeta,
        StfsError,
    >)
        ensures
            match r {
                Ok(m) => {
                    &&& header.volume_descriptor is STFS
                    &&& {
                        let v = header.volume_descriptor->STFS_0;
                        let allocated = v.allocated_block_count as int;
                        let level = spec_root_level(allocated)->Some_0;
                        &&& spec_root_level(allocated) is Some
                        &&& m.parse_matches(
                            data@,
                            sex,
                            header.header_size,
                            v.block_separation,
                            allocated,
                        )
                        &&& data.len() >= spec_top_table_address(
                            sex,
                            level,
                            header.header_size,
                            v.block_separation,
                        ) + 0x18 * spec_ceil_div(allocated, spec_blocks_per_entry(level))
                    }
                },
                Err(e) => {
                    if !(header.volume_descriptor is STFS) {
                        e == StfsError::InvalidPackageType
                    } else {
                        let v = header.volume_descriptor->STFS_0;
                        let allocated = v.allocated_block_count as int;
                        if spec_root_level(allocated) is None {
                            e == StfsError::InvalidHeader
                        } else {
                            let level = spec_root_level(allocated)->Some_0;
                            &&& e == StfsError::Truncated
                            &&& data.len() < spec_top_table_address(
                                sex,
                                level,
                                header.header_size,
                                v.block_separation,
                            ) + 0x18 * spec_ceil_div(allocated, spec_blocks_per_entry(level))
                        }
                    }
                },
            },
    {
        let stfs_vol = match &header.volume_descriptor {
            FileSystem::STFS(v) => v,
            FileSystem::SVOD(_) => {
                return Err(StfsError::InvalidPackageType);
            },
        };
        let block_step = sex.block_step();
        let first_table_address = round_to_block_boundary(header.header_size);
        let allocated: usize = stfs_vol.allocated_block_count as usize;

        let mut tables_per_level: [usize; 3] = [0, 0, 0];
        tables_per_level[0] = ceil_div(allocated, 0xAA);
        tables_per_level[1] = if allocated > 0xAA {
            ceil_div(allocated, 0x70E4)
        } else {
            0
        };
        tables_per_level[2] = if allocated > 0x70E4 {
            ceil_div(allocated, 0x4AF768)
        } else {
            0
        };

        let level = match header.root_hash_table_level() {
            Ok(level) => level,
            Err(e) => {
                return Err(e);
            },
        };
        let true_block_number: usize = match level {
            HashTableLevel::First => 0,
            HashTableLevel::Second => block_step[0],
            HashTableLevel::Third => block_step[1],
        };
        let mirror_offset: u64 = ((stfs_vol.block_separation as u64) / 2 % 2) * 0x1000;
        let address_in_file: u64 = (true_block_number as u64) * 4096 + first_table_address
            + mirror_offset;
        let entry_count: usize = match level {
            HashTableLevel::First => allocated,
            HashTableLevel::Second => ceil_div(allocated, 0xAA),
            HashTableLevel::Third => ceil_div(allocated, 0x70E4),
        };

        if (data.len() as u64) < address_in_file + 0x18 * (entry_count as u64) {
            return Err(StfsError::Truncated);
        }
        let table_base: usize = address_in_file as usize;
        let mut entries: Vec<HashEntry> = Vec::new();
        let mut i: usize = 0;
        while i < entry_count
            invariant
                i <= entry_count,
                table_base + 0x18 * entry_count <= data.len(),
                entries@.len() == i,
                forall|j: int|
                    0 <= j < i ==> hash_entry_matches(
                        #[trigger] entries@[j],
                        data@,
                        table_base + 0x18 * j,
                    ),
            decreases entry_count - i,
        {
            entries.push(read_hash_entry(data, table_base + 0x18 * i));
            i = i + 1;
        }

        let top_table = HashTable {
            level,
            true_block_number,
            entry_count,
            address_in_file,
            entries,
        };
        Ok(HashTableMeta { block_step, tables_per_level, top_table, first_table_address })
    }
}


impl HashTableMeta {
    /// Position, in 4KB units past the first table, of the hash table at
    /// `level` that covers `block`.
    pub fn compute_backing_hash_block_number_for_level(
        &self,
        block: usize,
        level: HashTableLevel,
        sex: StfsPackageSex,
    ) -> (r: usize)
        requires
            self.steps_match(sex),
            block < 0x1000000,
        ensures
            r == crate::geometry::spec_backing_table_index(sex, block as int, level),
    {
        match level {
            HashTableLevel::First => self.compute_first_level_backing_hash_block_number(
                block,
                sex,
            ),
            HashTableLevel::Second => self.compute_second_level_backing_hash_block_number(
                block,
                sex,
            ),
            HashTableLevel::Third => self.compute_third_level_backing_hash_block_number(),
        }
    }

    /// Position, in 4KB units past the first table, of the level-0 hash
    /// table that covers `block`.
    pub fn compute_first_level_backing_hash_block_number(
        &self,
        block: usize,
        sex: StfsPackageSex,
    ) -> (r: usize)
        requires
            self.steps_match(sex),
            block < 0x1000000,
        ensures
            r == crate::geometry::spec_table_index(sex, block as int),
    {
        if block < 0xAA {
            return 0;
        }
        proof {
            vstd::arithmetic::div_mod::lemma_div_is_ordered(block as int, 0xFFFFFF, 0xAA);
            vstd::arithmetic::div_mod::lemma_div_is_ordered(block as int, 0xFFFFFF, 0x70E4);
            vstd::arithmetic::div_mod::lemma_div_pos_is_pos(block as int, 0xAA);
            vstd::arithmetic::div_mod::lemma_div_pos_is_pos(block as int, 0x70E4);
            vstd::arithmetic::mul::lemma_mul_upper_bound(
                block as int / 0xAA,
                0xFFFFFFint / 0xAA,
                self.block_step@[0] as int,
                0xAC,
            );
            vstd::arithmetic::mul::lemma_mul_upper_bound(
                block as int / 0x70E4 + 1,
                0xFFFFFFint / 0x70E4 + 1,
                sex_mult(sex),
                2,
            );
        }
        let mut block_number = (block / 0xAA) * self.block_step[0];
        block_number = block_number + ((block / 0x70E4) + 1) * sex.multiplier();
        if block / 0x70E4 == 0 {
            block_number
        } else {
            block_number + sex.multiplier()
        }
    }

    /// Position, in 4KB units past the first table, of the level-1 hash
    /// table that covers `block`.
    pub fn compute_second_level_backing_hash_block_number(
        &self,
        block: usize,
        sex: StfsPackageSex,
    ) -> (r: usize)
        requires
            self.steps_match(sex),
            block < 0x1000000,
        ensures
            r == crate::geometry::spec_second_level_table_index(sex, block as int),
    {
        if block < 0x70E4 {
            self.block_step[0]
        } else {
            proof {
                vstd::arithmetic::div_mod::lemma_div_is_ordered(block as int, 0xFFFFFF, 0x70E4);
                vstd::arithmetic::div_mod::lemma_div_pos_is_pos(block as int, 0x70E4);
            }
            sex.multiplier() + (block / 0x70E4) * self.block_step[1]
        }
    }

    /// Position, in 4KB units past the first table, of the level-2 hash
    /// table.
    pub fn compute_third_level_backing_hash_block_number(&self) -> (r: usize)
        ensures
            r == self.block_step@[1],
    {
        self.block_step[1]
    }
}


/// A block below `a` indexes below the ceiling of `a / d`: the entry that
/// covers it exists.
pub proof fn lemma_index_lt_ceil(b: int, a: int, d: int)
    requires
        0 <= b < a,
        d > 0,
    ensures
        0 <= b / d < spec_ceil_div(a, d),
{
    vstd::arithmetic::div_mod::lemma_div_pos_is_pos(b, d);
    vstd::arithmetic::div_mod::lemma_div_is_ordered(b, a - 1, d);
    vstd::arithmetic::div_mod::lemma_div_plus_one(a - 1, d);
}

} // verus!
