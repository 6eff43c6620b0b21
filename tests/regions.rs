use dora_daemon_core::regions::{RegionError, RegionManager};

#[test]
fn region_moves_from_uninit_to_sent() {
    let mut m: RegionManager<u32> = RegionManager::new();
    let id = "/shmem_A".to_string();
    assert_eq!(m.insert_uninit(id.clone(), 7), Ok(()));
    assert!(m.is_uninit(&id) && !m.is_sent(&id));
    assert_eq!(m.commit(&id), Ok(7));
    assert!(!m.is_uninit(&id) && !m.is_sent(&id));
    assert_eq!(m.retire(id.clone(), 7), Ok(()));
    assert!(!m.is_uninit(&id) && m.is_sent(&id));
}

#[test]
fn second_commit_is_unknown_region() {
    let mut m: RegionManager<u32> = RegionManager::new();
    let id = "r1".to_string();
    m.insert_uninit(id.clone(), 1).unwrap();
    assert_eq!(m.commit(&id), Ok(1));
    assert_eq!(m.commit(&id), Err(RegionError::UnknownRegion));
}

#[test]
fn commit_of_never_allocated_is_unknown_region() {
    let mut m: RegionManager<u32> = RegionManager::new();
    assert_eq!(m.commit(&"nope".to_string()), Err(RegionError::UnknownRegion));
}

#[test]
fn commit_picks_the_right_region() {
    let mut m: RegionManager<u32> = RegionManager::new();
    m.insert_uninit("a".to_string(), 1).unwrap();
    m.insert_uninit("b".to_string(), 2).unwrap();
    m.insert_uninit("c".to_string(), 3).unwrap();
    assert_eq!(m.commit(&"b".to_string()), Ok(2));
    assert_eq!(m.commit(&"c".to_string()), Ok(3));
    assert_eq!(m.commit(&"a".to_string()), Ok(1));
}

#[test]
fn duplicate_ids_are_refused() {
    let mut m: RegionManager<u32> = RegionManager::new();
    m.insert_uninit("a".to_string(), 1).unwrap();
    assert_eq!(m.insert_uninit("a".to_string(), 2), Err(RegionError::DuplicateRegion));
    assert_eq!(m.commit(&"a".to_string()), Ok(1));
    m.retire("a".to_string(), 1).unwrap();
    assert_eq!(m.insert_uninit("a".to_string(), 3), Err(RegionError::DuplicateRegion));
    assert_eq!(m.retire("a".to_string(), 3), Err(RegionError::DuplicateRegion));
    assert!(!m.is_uninit(&"a".to_string()));
}
