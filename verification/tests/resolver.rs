use ckb_sdk::resolver::{CellDep, DefaultCellDepResolver, DepType, GenesisInfo, ScriptId};
use ckb_sdk::types::{OutPoint, HASH_TYPE_DATA, HASH_TYPE_DATA1, HASH_TYPE_DATA2, HASH_TYPE_TYPE};

fn dep(tag: u8, dep_type: DepType) -> CellDep {
    CellDep { out_point: OutPoint::new([tag; 32], tag as u32), dep_type }
}

fn genesis() -> GenesisInfo {
    GenesisInfo {
        sighash_type_hash: [1; 32],
        sighash_dep: dep(11, DepType::DepGroup),
        multisig_type_hash: [2; 32],
        multisig_dep: dep(12, DepType::DepGroup),
        dao_type_hash: [3; 32],
        dao_dep: dep(13, DepType::Code),
    }
}

#[test]
fn resolver_starts_with_the_system_scripts() {
    let r = DefaultCellDepResolver::new(&genesis());
    let sighash = ScriptId::new_type([1; 32]);
    let multisig = ScriptId::new([2; 32], HASH_TYPE_TYPE);
    let dao = ScriptId::new_type([3; 32]);
    assert_eq!(r.get(&sighash), Some(&(dep(11, DepType::DepGroup), "Secp256k1 blake160 sighash all".to_string())));
    assert_eq!(r.get(&multisig), Some(&(dep(12, DepType::DepGroup), "Secp256k1 blake160 multisig all".to_string())));
    assert_eq!(r.get(&dao), Some(&(dep(13, DepType::Code), "Nervos DAO".to_string())));
    assert_eq!(r.resolve(&dao), Some(dep(13, DepType::Code)));
    assert!(r.contains(&sighash));
    // the same code hash under another hash type is another script
    assert!(!r.contains(&ScriptId::new([1; 32], HASH_TYPE_DATA)));
    assert_eq!(r.resolve(&ScriptId::new_type([4; 32])), None);
}

#[test]
fn resolver_keeps_the_later_of_two_equal_hashes() {
    let mut info = genesis();
    info.dao_type_hash = [1; 32];
    let r = DefaultCellDepResolver::new(&info);
    assert_eq!(r.get(&ScriptId::new_type([1; 32])), Some(&(dep(13, DepType::Code), "Nervos DAO".to_string())));
    assert!(r.contains(&ScriptId::new_type([2; 32])));
}

#[test]
fn resolver_insert_replaces_and_returns_the_old_entry() {
    let mut r = DefaultCellDepResolver::default();
    let id = ScriptId::new([9; 32], HASH_TYPE_DATA1);
    assert!(!r.contains(&id));
    assert_eq!(r.insert(id, dep(1, DepType::Code), "first".to_string()), None);
    assert_eq!(r.resolve(&id), Some(dep(1, DepType::Code)));
    assert_eq!(
        r.insert(id, dep(2, DepType::DepGroup), "second".to_string()),
        Some((dep(1, DepType::Code), "first".to_string()))
    );
    assert_eq!(r.get(&id), Some(&(dep(2, DepType::DepGroup), "second".to_string())));
}

#[test]
fn resolver_remove_takes_the_entry_out() {
    let mut r = DefaultCellDepResolver::new(&genesis());
    let multisig = ScriptId::new_type([2; 32]);
    assert_eq!(r.remove(&multisig), Some((dep(12, DepType::DepGroup), "Secp256k1 blake160 multisig all".to_string())));
    assert_eq!(r.remove(&multisig), None);
    assert!(!r.contains(&multisig));
    assert_eq!(r.get(&multisig), None);
    assert!(r.contains(&ScriptId::new_type([1; 32])));
    assert!(r.contains(&ScriptId::new_type([3; 32])));
}

#[test]
fn script_ids_compare_by_both_parts() {
    let id = ScriptId::new([9; 32], HASH_TYPE_DATA1);
    assert!(id.same(&ScriptId::new([9; 32], HASH_TYPE_DATA1)));
    assert!(!id.same(&ScriptId::new([9; 32], HASH_TYPE_DATA2)));
    assert!(!id.same(&ScriptId::new([8; 32], HASH_TYPE_DATA1)));
}

#[test]
fn a_copy_of_a_resolver_resolves_the_same() {
    let mut r = DefaultCellDepResolver::new(&genesis());
    let copy = r.clone();
    r.remove(&ScriptId::new_type([1; 32]));
    assert!(!r.contains(&ScriptId::new_type([1; 32])));
    assert_eq!(copy.get(&ScriptId::new_type([1; 32])), Some(&(dep(11, DepType::DepGroup), "Secp256k1 blake160 sighash all".to_string())));
    assert_eq!(copy.resolve(&ScriptId::new_type([2; 32])), Some(dep(12, DepType::DepGroup)));
    assert_eq!(copy.resolve(&ScriptId::new_type([3; 32])), Some(dep(13, DepType::Code)));
    assert_eq!(DefaultCellDepResolver::default().resolve(&ScriptId::new_type([3; 32])), None);
}
