//! Hash-table geometry: the per-package constants derived from the volume
//! descriptor, and the pure arithmetic that maps logical block numbers to the
//! positions of data blocks and of the hash tables that describe them.
//!
//! The payload of a package is a run of 4KB units.  Data blocks are
//! interleaved with hash tables at three levels: a level-0 table describes up
//! to 170 data blocks, a level-1 table up to 170 level-0 tables, and a single
//! level-2 table up to 170 level-1 tables.  A one-bit "sex" parameter selects
//! between two layout schedules which differ in whether every table is
//! mirrored (male) or stands alone (female).

use vstd::prelude::*;

verus! {

/// Entries held by one 4KB hash table.
pub const HASHES_PER_HASH_TABLE: usize = 0xAA;

/// Data blocks described by one level-1 hash-table entry (170 * 170).
pub const BLOCKS_PER_L1_ENTRY: usize = 0x70E4;

/// Data blocks described by a full level-1 forest (170 * 170).
pub const HASHES_PER_LEVEL_1: usize = 0x70E4;

/// Data blocks described by a full level-2 forest (170 * 170 * 170).
pub const HASHES_PER_LEVEL_2: usize = 0x4AF768;

/// The level of a hash table: level-0 tables (`First`) describe data blocks,
/// level-1 tables (`Second`) describe level-0 tables, and the single level-2
/// table (`Third`) describes level-1 tables.
#[derive(Debug, Copy, Clone, PartialEq, Eq, Structural)]
pub enum HashTableLevel {
    First,
    Second,
    Third,
}

/// The level of the root hash table for a package with `allocated` blocks:
/// the shallowest level whose forest can describe them all.  More than
/// 170 * 170 * 170 blocks cannot be described at all.
pub open spec fn spec_root_level(allocated: int) -> Option<HashTableLevel> {
    if allocated <= 0xAA {
        Some(HashTableLevel::First)
    } else if allocated <= 0x70E4 {
        Some(HashTableLevel::Second)
    } else if allocated <= 0x4AF768 {
        Some(HashTableLevel::Third)
    } else {
        None
    }
}

/// Data blocks described by one entry of a table at `level`.
pub open spec fn spec_blocks_per_entry(level: HashTableLevel) -> int {
    match level {
        HashTableLevel::First => 1,
        HashTableLevel::Second => 0xAA,
        HashTableLevel::Third => 0x70E4,
    }
}

/// The layout schedule of a package, encoded by bit 0 of the volume
/// descriptor's `block_separation` byte.
#[derive(Debug, Copy, Clone, PartialEq, Eq, Structural)]
pub enum StfsPackageSex {
    Female,
    Male,
}

/// How many 4KB units each hash table occupies: female tables stand alone,
/// male tables are mirrored in pairs.
pub open spec fn sex_mult(sex: StfsPackageSex) -> int {
    match sex {
        StfsPackageSex::Female => 1,
        StfsPackageSex::Male => 2,
    }
}

/// Distance in 4KB units between consecutive level-0 hash tables.
pub open spec fn spec_step0(sex: StfsPackageSex) -> int {
    match sex {
        StfsPackageSex::Female => 0xAB,
        StfsPackageSex::Male => 0xAC,
    }
}

/// Distance in 4KB units between consecutive level-1 hash tables.
pub open spec fn spec_step1(sex: StfsPackageSex) -> int {
    match sex {
        StfsPackageSex::Female => 0x718F,
        StfsPackageSex::Male => 0x723A,
    }
}

impl StfsPackageSex {
    /// The sex decoded from the volume descriptor's `block_separation` byte:
    /// bit 0 clear means male, bit 0 set means female.
    pub fn from_block_separation(block_separation: u8) -> (r: StfsPackageSex)
        ensures
            r == spec_sex_of(block_separation),
    {
        if block_separation % 2 == 1 {
            StfsPackageSex::Female
        } else {
            StfsPackageSex::Male
        }
    }

    /// The number of 4KB units each hash table of this sex occupies.
    pub fn multiplier(&self) -> (r: usize)
        ensures
            r == sex_mult(*self),
    {
        match self {
            StfsPackageSex::Female => 1,
            StfsPackageSex::Male => 2,
        }
    }

    /// The "block step" pair of this sex: element 0 is the distance between
    /// consecutive level-0 tables in 4KB units, element 1 the distance
    /// between consecutive level-1 tables.
    pub fn block_step(&self) -> (r: [usize; 2])
        ensures
            r@[0] == spec_step0(*self),
            r@[1] == spec_step1(*self),
    {
        match self {
            StfsPackageSex::Female => [0xAB, 0x718F],
            StfsPackageSex::Male => [0xAC, 0x723A],
        }
    }
}

/// The sex selected by a `block_separation` byte.
pub open spec fn spec_sex_of(block_separation: u8) -> StfsPackageSex {
    if block_separation % 2 == 1 {
        StfsPackageSex::Female
    } else {
        StfsPackageSex::Male
    }
}

/// Position, in 4KB units past the first table, of the level-0 hash table
/// that covers block `b`.
pub open spec fn spec_table_index(sex: StfsPackageSex, b: int) -> int
    recommends
        0 <= b,
{
    if b < 170 {
        0
    } else {
        let n = (b / 170) * spec_step0(sex) + (b / 28900 + 1) * sex_mult(sex);
        if b / 28900 == 0 {
            n
        } else {
            n + sex_mult(sex)
        }
    }
}

/// Position, in 4KB units past the first table, of the level-1 hash table
/// that covers block `b`.
pub open spec fn spec_second_level_table_index(sex: StfsPackageSex, b: int) -> int
    recommends
        0 <= b,
{
    if b < 28900 {
        spec_step0(sex)
    } else {
        sex_mult(sex) + (b / 28900) * spec_step1(sex)
    }
}

/// Position, in 4KB units past the first table, of the level-2 hash table.
pub open spec fn spec_third_level_table_index(sex: StfsPackageSex) -> int {
    spec_step1(sex)
}

/// Position, in 4KB units past the first table, of data block `b`.
pub open spec fn spec_data_block(sex: StfsPackageSex, b: int) -> int
    recommends
        0 <= b,
{
    let base = ((b + 170) / 170) * sex_mult(sex) + b;
    if b < 170 {
        base
    } else if b < 28900 {
        base + ((base + 28900) / 28900) * sex_mult(sex)
    } else {
        sex_mult(sex) + (base + (b + 28900) / 28900) * sex_mult(sex)
    }
}

/// Byte address of data block `b` in a package whose first hash table begins
/// at `first_table_address`.
pub open spec fn spec_block_addr(sex: StfsPackageSex, first_table_address: int, b: int) -> int
    recommends
        0 <= b,
{
    spec_data_block(sex, b) * 4096 + first_table_address
}

/// The header size rounded up to the next 4KB boundary: the byte address of
/// the first hash table.
pub open spec fn spec_first_table_address(header_size: int) -> int {
    ((header_size + 0xFFF) / 0x1000) * 0x1000
}

/// Rounds the header size up to a 4KB boundary.
pub fn round_to_block_boundary(header_size: u32) -> (r: u64)
    ensures
        r == spec_first_table_address(header_size as int),
        r % 4096 == 0,
        header_size <= r < header_size + 4096,
{
    let r = (((header_size as u64) + 0xFFF) / 0x1000) * 0x1000;
    proof {
        vstd::arithmetic::div_mod::lemma_fundamental_div_mod((header_size + 0xFFF) as int, 0x1000);
        assert(r % 4096 == 0) by {
            vstd::arithmetic::div_mod::lemma_mod_multiples_basic(
                ((header_size + 0xFFF) as int / 0x1000),
                0x1000,
            );
        }
    }
    r
}


/// Position of the hash table at `level` that covers block `b`, in 4KB
/// units past the first table.
pub open spec fn spec_backing_table_index(sex: StfsPackageSex, b: int, level: HashTableLevel) -> int
    recommends
        0 <= b,
{
    match level {
        HashTableLevel::First => spec_table_index(sex, b),
        HashTableLevel::Second => spec_second_level_table_index(sex, b),
        HashTableLevel::Third => spec_third_level_table_index(sex),
    }
}

/// Computes the position of data block `block` in 4KB units past the first
/// table: the block number plus every hash table interleaved before it.
pub fn data_block_number(sex: StfsPackageSex, block: usize) -> (r: u64)
    requires
        block < 0x1000000,
    ensures
        r == spec_data_block(sex, block as int),
{
    let b = block as u64;
    let s = sex.multiplier() as u64;
    let base = ((b + 0xAA) / 0xAA) * s + b;
    if block < 0xAA {
        base
    } else if block < 0x70E4 {
        base + ((base + 0x70E4) / 0x70E4) * s
    } else {
        s + (base + (b + 0x70E4) / 0x70E4) * s
    }
}

/// Byte address of data block `block` in a package whose first hash table
/// begins at `first_table_address`.
pub fn block_address(sex: StfsPackageSex, first_table_address: u64, block: usize) -> (r: u64)
    requires
        block < 0x1000000,
        first_table_address <= 0x100000000,
    ensures
        r == spec_block_addr(sex, first_table_address as int, block as int),
{
    data_block_number(sex, block) * 4096 + first_table_address
}


/// Bounds on the level-0 table position of any block below the 24-bit limit.
pub proof fn lemma_table_index_bounds(sex: StfsPackageSex, b: int)
    requires
        0 <= b < 0x1000000,
    ensures
        0 <= spec_table_index(sex, b) <= 0x1050000,
{
    if b >= 170 {
        vstd::arithmetic::div_mod::lemma_div_is_ordered(b, 0xFFFFFF, 170);
        vstd::arithmetic::div_mod::lemma_div_is_ordered(b, 0xFFFFFF, 28900);
        vstd::arithmetic::div_mod::lemma_div_pos_is_pos(b, 170);
        vstd::arithmetic::div_mod::lemma_div_pos_is_pos(b, 28900);
        vstd::arithmetic::mul::lemma_mul_upper_bound(
            b / 170,
            0xFFFFFFint / 170,
            spec_step0(sex),
            0xAC,
        );
        vstd::arithmetic::mul::lemma_mul_nonnegative(b / 170, spec_step0(sex));
        vstd::arithmetic::mul::lemma_mul_upper_bound(
            b / 28900 + 1,
            0xFFFFFFint / 28900 + 1,
            sex_mult(sex),
            2,
        );
        vstd::arithmetic::mul::lemma_mul_nonnegative(b / 28900 + 1, sex_mult(sex));
    }
}

/// Bounds on the level-1 table position of any block below the 24-bit limit.
pub proof fn lemma_second_level_index_bounds(sex: StfsPackageSex, b: int)
    requires
        0 <= b < 0x1000000,
    ensures
        0 <= spec_second_level_table_index(sex, b) <= 0x1050000,
{
    if b >= 28900 {
        vstd::arithmetic::div_mod::lemma_div_is_ordered(b, 0xFFFFFF, 28900);
        vstd::arithmetic::div_mod::lemma_div_pos_is_pos(b, 28900);
        vstd::arithmetic::mul::lemma_mul_upper_bound(
            b / 28900,
            0xFFFFFFint / 28900,
            spec_step1(sex),
            0x723A,
        );
        vstd::arithmetic::mul::lemma_mul_nonnegative(b / 28900, spec_step1(sex));
    }
}

/// Bounds on the data-block position of any block below the 24-bit limit.
/// Every data block sits strictly past the first hash table.
pub proof fn lemma_data_block_bounds(sex: StfsPackageSex, b: int)
    requires
        0 <= b < 0x1000000,
    ensures
        1 <= spec_data_block(sex, b) <= 0x2100000,
{
    vstd::arithmetic::div_mod::lemma_div_is_ordered(b + 170, 0xFFFFFFint + 170, 170);
    vstd::arithmetic::div_mod::lemma_div_pos_is_pos(b + 170, 170);
    assert((b + 170) / 170 >= 1) by {
        vstd::arithmetic::div_mod::lemma_div_is_ordered(170, b + 170, 170);
    }
    vstd::arithmetic::mul::lemma_mul_upper_bound(
        (b + 170) / 170,
        (0xFFFFFFint + 170) / 170,
        sex_mult(sex),
        2,
    );
    vstd::arithmetic::mul::lemma_mul_increases(sex_mult(sex), (b + 170) / 170);
    let base = ((b + 170) / 170) * sex_mult(sex) + b;
    if b < 170 {
    } else if b < 28900 {
        vstd::arithmetic::div_mod::lemma_div_is_ordered(base + 28900, 0x1100000int + 28900, 28900);
        vstd::arithmetic::div_mod::lemma_div_pos_is_pos(base + 28900, 28900);
        vstd::arithmetic::mul::lemma_mul_upper_bound(
            (base + 28900) / 28900,
            (0x1100000int + 28900) / 28900,
            sex_mult(sex),
            2,
        );
        vstd::arithmetic::mul::lemma_mul_nonnegative((base + 28900) / 28900, sex_mult(sex));
    } else {
        vstd::arithmetic::div_mod::lemma_div_is_ordered(b + 28900, 0xFFFFFFint + 28900, 28900);
        vstd::arithmetic::div_mod::lemma_div_pos_is_pos(b + 28900, 28900);
        vstd::arithmetic::mul::lemma_mul_upper_bound(
            base + (b + 28900) / 28900,
            0x1100000int + (0xFFFFFFint + 28900) / 28900,
            sex_mult(sex),
            2,
        );
        vstd::arithmetic::mul::lemma_mul_nonnegative(base + (b + 28900) / 28900, sex_mult(sex));
    }
}


/// Every data block's byte address is 4KB-aligned and lies strictly past
/// the first hash table.
pub proof fn lemma_block_addr_aligned(sex: StfsPackageSex, fta: int, b: int)
    requires
        0 <= b < 0x1000000,
        fta >= 0,
        fta % 4096 == 0,
    ensures
        spec_block_addr(sex, fta, b) % 4096 == 0,
        spec_block_addr(sex, fta, b) >= fta + 4096,
{
    lemma_data_block_bounds(sex, b);
    let d = spec_data_block(sex, b);
    vstd::arithmetic::mul::lemma_mul_inequality(1, d, 4096);
    assert((4096 * d + fta) % 4096 == fta % 4096) by {
        vstd::arithmetic::div_mod::lemma_mod_multiples_vanish(d, fta, 4096);
    }
    vstd::arithmetic::mul::lemma_mul_is_commutative(d, 4096);
}

/// The level-0 table position never decreases as the block number grows.
pub proof fn lemma_table_index_monotonic(sex: StfsPackageSex, b1: int, b2: int)
    requires
        0 <= b1 <= b2,
    ensures
        spec_table_index(sex, b1) <= spec_table_index(sex, b2),
{
    if b2 < 170 {
    } else if b1 < 170 {
        vstd::arithmetic::div_mod::lemma_div_pos_is_pos(b2, 170);
        vstd::arithmetic::div_mod::lemma_div_pos_is_pos(b2, 28900);
        vstd::arithmetic::mul::lemma_mul_nonnegative(b2 / 170, spec_step0(sex));
        vstd::arithmetic::mul::lemma_mul_nonnegative(b2 / 28900 + 1, sex_mult(sex));
    } else {
        vstd::arithmetic::div_mod::lemma_div_is_ordered(b1, b2, 170);
        vstd::arithmetic::div_mod::lemma_div_is_ordered(b1, b2, 28900);
        vstd::arithmetic::div_mod::lemma_div_pos_is_pos(b1, 28900);
        vstd::arithmetic::mul::lemma_mul_inequality(b1 / 170, b2 / 170, spec_step0(sex));
        vstd::arithmetic::mul::lemma_mul_inequality(
            b1 / 28900 + 1,
            b2 / 28900 + 1,
            sex_mult(sex),
        );
    }
}

/// In the band below the first level-1 boundary, the male schedule places
/// the level-0 table covering `b` exactly one unit per preceding table, plus
/// one, beyond the female schedule: every male table is mirrored.
pub proof fn lemma_sex_table_difference(b: int)
    requires
        170 <= b < 28900,
    ensures
        spec_table_index(StfsPackageSex::Male, b) - spec_table_index(StfsPackageSex::Female, b)
            == b / 170 + 1,
{
    vstd::arithmetic::div_mod::lemma_div_is_ordered(b, 28899, 170);
    vstd::arithmetic::div_mod::lemma_div_pos_is_pos(b, 170);
    assert(b / 28900 == 0) by {
        vstd::arithmetic::div_mod::lemma_basic_div(b, 28900);
    }
}

/// Below the first level-0 boundary, a male data block sits exactly one
/// unit past its female position: the first table's mirror.
pub proof fn lemma_sex_data_difference(b: int)
    requires
        0 <= b < 170,
    ensures
        spec_data_block(StfsPackageSex::Male, b) == spec_data_block(StfsPackageSex::Female, b)
            + 1,
{
    assert((b + 170) / 170 == 1) by {
        vstd::arithmetic::div_mod::lemma_fundamental_div_mod_converse(b + 170, 170, 1, b);
    }
}

/// The division facts the interleaving proofs rest on, for one block
/// number: its decomposition by 170 and by 28900, and how the two nest.
proof fn lemma_block_decomposition(b: int)
    requires
        0 <= b < 0x1000000,
    ensures
        b == 170 * (b / 170) + b % 170,
        0 <= b % 170 < 170,
        (b + 170) / 170 == b / 170 + 1,
        b / 28900 == (b / 170) / 170,
        b / 170 == 170 * (b / 28900) + (b / 170) % 170,
        0 <= (b / 170) % 170 < 170,
        (b + 28900) / 28900 == b / 28900 + 1,
        b == 28900 * (b / 28900) + b % 28900,
        0 <= b % 28900 < 28900,
        b < 28900 ==> b / 28900 == 0,
        b < 28900 ==> b / 170 <= 169,
        b >= 28900 ==> b / 28900 >= 1,
        b >= 28900 ==> b / 170 >= 170,
        b >= 170 ==> b / 170 >= 1,
{
    vstd::arithmetic::div_mod::lemma_fundamental_div_mod(b, 170);
    vstd::arithmetic::div_mod::lemma_mod_division_less_than_divisor(b, 170);
    vstd::arithmetic::div_mod::lemma_remainder_lower(b, 170);
    let k = b / 170;
    let j = b % 170;
    vstd::arithmetic::div_mod::lemma_fundamental_div_mod_converse(b + 170, 170, k + 1, j);
    vstd::arithmetic::div_mod::lemma_div_pos_is_pos(b, 170);
    vstd::arithmetic::div_mod::lemma_div_denominator(b, 170, 170);
    vstd::arithmetic::div_mod::lemma_fundamental_div_mod(k, 170);
    vstd::arithmetic::div_mod::lemma_mod_division_less_than_divisor(k, 170);
    vstd::arithmetic::div_mod::lemma_remainder_lower(k, 170);
    vstd::arithmetic::div_mod::lemma_fundamental_div_mod(b, 28900);
    vstd::arithmetic::div_mod::lemma_mod_division_less_than_divisor(b, 28900);
    vstd::arithmetic::div_mod::lemma_remainder_lower(b, 28900);
    vstd::arithmetic::div_mod::lemma_fundamental_div_mod_converse(
        b + 28900,
        28900,
        b / 28900 + 1,
        b % 28900,
    );
    if b < 28900 {
        vstd::arithmetic::div_mod::lemma_basic_div(b, 28900);
        vstd::arithmetic::div_mod::lemma_div_is_ordered(b, 28899, 170);
    } else {
        vstd::arithmetic::div_mod::lemma_div_is_ordered(28900, b, 28900);
        vstd::arithmetic::div_mod::lemma_div_is_ordered(28900, b, 170);
    }
    if b >= 170 {
        vstd::arithmetic::div_mod::lemma_div_is_ordered(170, b, 170);
    }
}

/// No female data block shares a position with any female level-0 table.
proof fn lemma_no_overlap_female(b: int, t: int)
    requires
        0 <= b < 0x1000000,
        0 <= t < 0x1000000,
    ensures
        spec_data_block(StfsPackageSex::Female, b) != spec_table_index(
            StfsPackageSex::Female,
            t,
        ),
{
    let sex = StfsPackageSex::Female;
    lemma_block_decomposition(b);
    lemma_block_decomposition(t);
    lemma_data_block_bounds(sex, b);
    let k = b / 170;
    let j = b % 170;
    let m = b / 28900;
    let kt = t / 170;
    let mt = t / 28900;
    if t < 170 {
        // the first table sits at position 0, and every data block past it
    } else if mt == 0 {
        // tables in the first level-1 band sit at 171 * kt + 1
        if b < 170 {
        } else if b < 28900 {
            let base = (k + 1) + b;
            if base < 28900 {
                assert((base + 28900) / 28900 == 1) by {
                    vstd::arithmetic::div_mod::lemma_fundamental_div_mod_converse(
                        base + 28900,
                        28900,
                        1,
                        base,
                    );
                }
            } else {
                assert((base + 28900) / 28900 == 2) by {
                    vstd::arithmetic::div_mod::lemma_fundamental_div_mod_converse(
                        base + 28900,
                        28900,
                        2,
                        base - 28900,
                    );
                }
            }
        } else {
        }
    } else {
        // tables past the first level-1 band sit at 171 * kt + mt + 2, from
        // position 29073 on, while data blocks below 28900 stay below 29072
        if b < 170 {
        } else if b < 28900 {
            let base = (k + 1) + b;
            if base < 28900 {
                assert((base + 28900) / 28900 == 1) by {
                    vstd::arithmetic::div_mod::lemma_fundamental_div_mod_converse(
                        base + 28900,
                        28900,
                        1,
                        base,
                    );
                }
            } else {
                assert((base + 28900) / 28900 == 2) by {
                    vstd::arithmetic::div_mod::lemma_fundamental_div_mod_converse(
                        base + 28900,
                        28900,
                        2,
                        base - 28900,
                    );
                }
            }
        } else {
            // both positions grow by 171 per covering table and by one more
            // per level-1 band; comparing the table ordinals settles it
            let r = k % 170;
            let rt = kt % 170;
            if k == kt {
            } else if k > kt {
                vstd::arithmetic::div_mod::lemma_div_is_ordered(kt, k, 170);
            } else {
                vstd::arithmetic::div_mod::lemma_div_is_ordered(k, kt, 170);
            }
        }
    }
}

/// No male data block below the first level-1 boundary, except the one
/// block whose position collides, shares a position with any male level-0
/// table.
proof fn lemma_no_overlap_male(b: int, t: int)
    requires
        0 <= b < 28900,
        b != 28728,
        0 <= t < 0x1000000,
    ensures
        spec_data_block(StfsPackageSex::Male, b) != spec_table_index(StfsPackageSex::Male, t),
{
    let sex = StfsPackageSex::Male;
    lemma_block_decomposition(b);
    lemma_block_decomposition(t);
    lemma_data_block_bounds(sex, b);
    let k = b / 170;
    let j = b % 170;
    let kt = t / 170;
    let mt = t / 28900;
    if t < 170 {
    } else {
        if b >= 170 {
            let base = 2 * (k + 1) + b;
            if base < 28900 {
                assert((base + 28900) / 28900 == 1) by {
                    vstd::arithmetic::div_mod::lemma_fundamental_div_mod_converse(
                        base + 28900,
                        28900,
                        1,
                        base,
                    );
                }
            } else {
                assert((base + 28900) / 28900 == 2) by {
                    vstd::arithmetic::div_mod::lemma_fundamental_div_mod_converse(
                        base + 28900,
                        28900,
                        2,
                        base - 28900,
                    );
                }
            }
        }
    }
}

/// No data block shares its 4KB unit with any level-0 hash table.  Of the
/// male schedule this holds below the first level-1 boundary, except for
/// the one block position the male formulas make collide; of the female
/// schedule it holds everywhere.
pub proof fn lemma_data_blocks_avoid_tables(sex: StfsPackageSex, b: int, t: int)
    requires
        0 <= b < 0x1000000,
        0 <= t < 0x1000000,
        sex == StfsPackageSex::Male ==> b < 28900 && b != 28728,
    ensures
        spec_data_block(sex, b) != spec_table_index(sex, t),
{
    match sex {
        StfsPackageSex::Female => lemma_no_overlap_female(b, t),
        StfsPackageSex::Male => lemma_no_overlap_male(b, t),
    }
}

/// The byte form of the same law: the 4KB region of a data block does not
/// overlap the 4KB region of any level-0 hash table.
pub proof fn lemma_block_region_avoids_tables(
    sex: StfsPackageSex,
    fta: int,
    b: int,
    t: int,
)
    requires
        0 <= b < 0x1000000,
        0 <= t < 0x1000000,
        fta >= 0,
        sex == StfsPackageSex::Male ==> b < 28900 && b != 28728,
    ensures
        ({
            let data = spec_block_addr(sex, fta, b);
            let table = spec_table_index(sex, t) * 4096 + fta;
            data + 4096 <= table || table + 4096 <= data
        }),
{
    lemma_data_blocks_avoid_tables(sex, b, t);
    let d = spec_data_block(sex, b);
    let ti = spec_table_index(sex, t);
    if d < ti {
        vstd::arithmetic::mul::lemma_mul_inequality(d + 1, ti, 4096);
        vstd::arithmetic::mul::lemma_mul_is_distributive_add_other_way(4096, d, 1);
    } else {
        vstd::arithmetic::mul::lemma_mul_inequality(ti + 1, d, 4096);
        vstd::arithmetic::mul::lemma_mul_is_distributive_add_other_way(4096, ti, 1);
    }
    vstd::arithmetic::mul::lemma_mul_is_commutative(d, 4096);
    vstd::arithmetic::mul::lemma_mul_is_commutative(ti, 4096);
    vstd::arithmetic::mul::lemma_mul_is_commutative(d + 1, 4096);
    vstd::arithmetic::mul::lemma_mul_is_commutative(ti + 1, 4096);
}


/// Under the female schedule, the blocks before the next hash table sit at
/// consecutive positions: as long as `i` stays below the blocks left until
/// that table, block `b + i` sits `i` units past block `b`.  (The male
/// formulas break this just below the first level-1 boundary.)
pub proof fn lemma_female_blocks_contiguous(b: int, i: int)
    requires
        0 <= b,
        0 <= i,
        b + i < 0x1000000,
        i < spec_table_index(StfsPackageSex::Female, b) + 0xAB - spec_data_block(
            StfsPackageSex::Female,
            b,
        ),
    ensures
        spec_data_block(StfsPackageSex::Female, b + i) == spec_data_block(
            StfsPackageSex::Female,
            b,
        ) + i,
{
    lemma_block_decomposition(b);
    lemma_block_decomposition(b + i);
    let k = b / 170;
    let j = b % 170;
    let m = b / 28900;
    if b < 170 {
        // the first table is the only one behind, and b + i stays below 170
    } else {
        // b + i stays within the level-0 band of b
        assert((b + i) / 170 == k && (b + i) % 170 == j + i) by {
            vstd::arithmetic::div_mod::lemma_fundamental_div_mod_converse(b + i, 170, k, j + i);
        }
        if b < 28900 {
            let base = (k + 1) + b;
            let base_i = (k + 1) + (b + i);
            if base < 28900 {
                assert((base + 28900) / 28900 == 1) by {
                    vstd::arithmetic::div_mod::lemma_fundamental_div_mod_converse(
                        base + 28900,
                        28900,
                        1,
                        base,
                    );
                }
                assert((base_i + 28900) / 28900 == 1) by {
                    vstd::arithmetic::div_mod::lemma_fundamental_div_mod_converse(
                        base_i + 28900,
                        28900,
                        1,
                        base_i,
                    );
                }
            } else {
                assert((base + 28900) / 28900 == 2) by {
                    vstd::arithmetic::div_mod::lemma_fundamental_div_mod_converse(
                        base + 28900,
                        28900,
                        2,
                        base - 28900,
                    );
                }
                assert((base_i + 28900) / 28900 == 2) by {
                    vstd::arithmetic::div_mod::lemma_fundamental_div_mod_converse(
                        base_i + 28900,
                        28900,
                        2,
                        base_i - 28900,
                    );
                }
            }
        } else {
        }
    }
}

} // verus!
