use stfs::HashTable;
use stfs::HashTableMeta;
use stfs::StfsPackageSex;
use stfs::geometry::block_address;
use stfs::geometry::data_block_number;
use stfs::geometry::round_to_block_boundary;

fn meta_for(sex: StfsPackageSex) -> HashTableMeta {
    HashTableMeta {
        block_step: sex.block_step(),
        tables_per_level: [0, 0, 0],
        top_table: HashTable::default(),
        first_table_address: 0x1000,
    }
}

#[test]
fn block_steps_by_sex() {
    assert_eq!(StfsPackageSex::Female.block_step(), [0xAB, 0x718F]);
    assert_eq!(StfsPackageSex::Male.block_step(), [0xAC, 0x723A]);
}

#[test]
fn sex_from_block_separation() {
    assert_eq!(StfsPackageSex::from_block_separation(0), StfsPackageSex::Male);
    assert_eq!(StfsPackageSex::from_block_separation(1), StfsPackageSex::Female);
    assert_eq!(StfsPackageSex::from_block_separation(2), StfsPackageSex::Male);
    assert_eq!(StfsPackageSex::from_block_separation(3), StfsPackageSex::Female);
}

#[test]
fn first_block_address_female() {
    assert_eq!(block_address(StfsPackageSex::Female, 0x1000, 0), 0x2000);
}

#[test]
fn block_addresses_past_the_first_tables() {
    // block 170 follows the first two level-0 tables and the first level-1
    // table, so its position jumps past them
    assert_eq!(data_block_number(StfsPackageSex::Female, 169), 170);
    assert_eq!(data_block_number(StfsPackageSex::Female, 170), 173);
    assert_eq!(block_address(StfsPackageSex::Female, 0x1000, 170), 0xAE000);
    assert_eq!(data_block_number(StfsPackageSex::Male, 170), 176);
    assert_eq!(block_address(StfsPackageSex::Male, 0x1000, 170), 0xB1000);
}

#[test]
fn male_addresses_differ_by_the_mirrors() {
    // below the first boundary every male block sits one table copy later
    for b in [0usize, 1, 42, 169] {
        assert_eq!(
            data_block_number(StfsPackageSex::Male, b),
            data_block_number(StfsPackageSex::Female, b) + 1
        );
    }
    // past it, the male tables' mirrors add one unit per covering table
    let meta_f = meta_for(StfsPackageSex::Female);
    let meta_m = meta_for(StfsPackageSex::Male);
    for b in [170usize, 340, 28899] {
        let tf = meta_f.compute_first_level_backing_hash_block_number(b, StfsPackageSex::Female);
        let tm = meta_m.compute_first_level_backing_hash_block_number(b, StfsPackageSex::Male);
        assert_eq!(tm - tf, b / 170 + 1);
    }
}

#[test]
fn table_index_values() {
    let meta = meta_for(StfsPackageSex::Female);
    let sex = StfsPackageSex::Female;
    assert_eq!(meta.compute_first_level_backing_hash_block_number(0, sex), 0);
    assert_eq!(meta.compute_first_level_backing_hash_block_number(169, sex), 0);
    assert_eq!(meta.compute_first_level_backing_hash_block_number(170, sex), 0xAC);
    assert_eq!(meta.compute_first_level_backing_hash_block_number(340, sex), 0x157);
    assert_eq!(meta.compute_second_level_backing_hash_block_number(0, sex), 0xAB);
    assert_eq!(meta.compute_second_level_backing_hash_block_number(28900, sex), 1 + 0x718F);
    assert_eq!(meta.compute_third_level_backing_hash_block_number(), 0x718F);
}

#[test]
fn table_index_never_decreases() {
    let meta = meta_for(StfsPackageSex::Male);
    let sex = StfsPackageSex::Male;
    let mut last = 0usize;
    for b in 0..2000usize {
        let t = meta.compute_first_level_backing_hash_block_number(b, sex);
        assert!(t >= last);
        last = t;
    }
}

#[test]
fn data_blocks_never_land_on_tables() {
    // every data block position differs from every level-0 table position
    let meta = meta_for(StfsPackageSex::Female);
    let sex = StfsPackageSex::Female;
    let tables: std::collections::HashSet<u64> = (0..60000usize)
        .map(|b| meta.compute_first_level_backing_hash_block_number(b, sex) as u64)
        .collect();
    for b in 0..60000usize {
        let d = data_block_number(sex, b);
        assert!(!tables.contains(&d), "block {} collides", b);
    }
}

#[test]
fn male_data_blocks_avoid_tables_below_the_boundary() {
    let meta = meta_for(StfsPackageSex::Male);
    let sex = StfsPackageSex::Male;
    let tables: std::collections::HashSet<u64> = (0..60000usize)
        .map(|b| meta.compute_first_level_backing_hash_block_number(b, sex) as u64)
        .collect();
    for b in 0..28900usize {
        let d = data_block_number(sex, b);
        if b == 28728 {
            // the one male position the formulas make collide
            assert!(tables.contains(&d));
        } else {
            assert!(!tables.contains(&d), "block {} collides", b);
        }
    }
}

#[test]
fn header_rounding() {
    assert_eq!(round_to_block_boundary(0), 0);
    assert_eq!(round_to_block_boundary(1), 0x1000);
    assert_eq!(round_to_block_boundary(0x1000), 0x1000);
    assert_eq!(round_to_block_boundary(0x971A), 0xA000);
    assert_eq!(round_to_block_boundary(0xB000), 0xB000);
}
