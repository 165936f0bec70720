use ckb_sdk::query::{
    range_admits, CellQueryOptions, MaturityOption, PrimaryScriptType, ValueRangeOption,
};
use ckb_sdk::types::{CellOutput, LiveCell, OutPoint, Script, HASH_TYPE_DATA1, HASH_TYPE_TYPE};

fn script(tag: u8) -> Script {
    Script { code_hash: [tag; 32], hash_type: HASH_TYPE_TYPE, args: vec![tag, tag] }
}

fn cell(lock: u8, type_: Option<u8>, capacity: u64, data: Vec<u8>, block_number: u64, tx_index: u32) -> LiveCell {
    LiveCell {
        output: CellOutput { capacity, lock: script(lock), type_: type_.map(script) },
        output_data: data,
        out_point: OutPoint::new([9; 32], 0),
        block_number,
        tx_index,
    }
}

#[test]
fn new_query_has_the_defaults() {
    let q = CellQueryOptions::new_lock(script(1));
    assert_eq!(q.primary_type, PrimaryScriptType::Lock);
    assert_eq!(q.maturity, MaturityOption::Mature);
    assert_eq!(q.min_total_capacity, 1);
    assert_eq!(q.data_len_range, None);
    assert_eq!(q.capacity_range, None);
    assert_eq!(q.block_range, None);
    let t = CellQueryOptions::new_type(script(2));
    assert_eq!(t.primary_type, PrimaryScriptType::Type);
    assert_eq!(t.primary_script, script(2));
}

#[test]
fn lock_query_compares_the_lock_script() {
    let q = CellQueryOptions::new_lock(script(1));
    assert!(q.match_cell(&cell(1, None, 100, vec![], 5, 1), None));
    assert!(q.match_cell(&cell(1, Some(2), 100, vec![], 5, 1), None));
    assert!(!q.match_cell(&cell(2, Some(1), 100, vec![], 5, 1), None));
}

#[test]
fn lock_query_looks_at_every_part_of_the_script() {
    let q = CellQueryOptions::new_lock(script(1));
    let mut other_args = cell(1, None, 100, vec![], 5, 1);
    other_args.output.lock.args = vec![1, 1, 1];
    assert!(!q.match_cell(&other_args, None));
    let mut other_hash_type = cell(1, None, 100, vec![], 5, 1);
    other_hash_type.output.lock.hash_type = HASH_TYPE_DATA1;
    assert!(!q.match_cell(&other_hash_type, None));
    let mut other_code = cell(1, None, 100, vec![], 5, 1);
    other_code.output.lock.code_hash[31] = 0;
    assert!(!q.match_cell(&other_code, None));
}

#[test]
fn type_query_compares_the_type_script() {
    let q = CellQueryOptions::new_type(script(2));
    assert!(q.match_cell(&cell(1, Some(2), 100, vec![], 5, 1), None));
    assert!(!q.match_cell(&cell(2, None, 100, vec![], 5, 1), None));
    assert!(!q.match_cell(&cell(2, Some(3), 100, vec![], 5, 1), None));
}

#[test]
fn ranges_are_half_open() {
    let r = ValueRangeOption::new(10, 20);
    assert!(!r.match_value(9));
    assert!(r.match_value(10));
    assert!(r.match_value(19));
    assert!(!r.match_value(20));
    assert!(range_admits(&None, 0));
    assert!(!range_admits(&Some(r), 20));
    let from = ValueRangeOption::new_min(5);
    assert!(!from.match_value(4));
    assert!(from.match_value(u64::MAX - 1));
    assert!(!from.match_value(u64::MAX));
}

#[test]
fn query_applies_the_three_ranges() {
    let mut q = CellQueryOptions::new_lock(script(1));
    q.capacity_range = Some(ValueRangeOption::new(100, 200));
    assert!(q.match_cell(&cell(1, None, 100, vec![], 5, 1), None));
    assert!(!q.match_cell(&cell(1, None, 200, vec![], 5, 1), None));
    q.capacity_range = None;
    q.data_len_range = Some(ValueRangeOption::new(0, 2));
    assert!(q.match_cell(&cell(1, None, 100, vec![7], 5, 1), None));
    assert!(!q.match_cell(&cell(1, None, 100, vec![7, 7], 5, 1), None));
    q.data_len_range = None;
    q.block_range = Some(ValueRangeOption::new(5, 6));
    assert!(q.match_cell(&cell(1, None, 100, vec![], 5, 1), None));
    assert!(!q.match_cell(&cell(1, None, 100, vec![], 6, 1), None));
    assert!(!q.match_cell(&cell(1, None, 100, vec![], 4, 1), None));
}

#[test]
fn maturity_is_judged_against_the_floor() {
    let mut q = CellQueryOptions::new_lock(script(1));
    // the first transaction of block 50, with 40 as the highest mature block
    let reward = cell(1, None, 100, vec![], 50, 0);
    assert!(!q.match_cell(&reward, Some(40)));
    assert!(q.match_cell(&reward, Some(50)));
    assert!(q.match_cell(&reward, None));
    // other transactions of the block are mature at once
    assert!(q.match_cell(&cell(1, None, 100, vec![], 50, 3), Some(40)));
    // a cell that no block holds yet is mature
    assert!(q.match_cell(&cell(1, None, 100, vec![], 0, 0), Some(40)));
    q.maturity = MaturityOption::Immature;
    assert!(q.match_cell(&reward, Some(40)));
    assert!(!q.match_cell(&reward, Some(50)));
    q.maturity = MaturityOption::Both;
    assert!(q.match_cell(&reward, Some(40)));
    assert!(q.match_cell(&reward, Some(50)));
}

#[test]
fn a_copy_of_a_query_matches_the_same_cells() {
    let mut q = CellQueryOptions::new_lock(script(1));
    q.capacity_range = Some(ValueRangeOption::new(100, 200));
    q.min_total_capacity = 77;
    let copy = q.clone();
    assert_eq!(copy.min_total_capacity, 77);
    assert_eq!(copy.primary_script, script(1));
    assert!(copy.match_cell(&cell(1, None, 150, vec![], 5, 1), Some(1)));
    assert!(!copy.match_cell(&cell(1, None, 250, vec![], 5, 1), Some(1)));
}
