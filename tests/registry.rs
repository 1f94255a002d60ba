use mcp_ssh_sessions::registry::{RegistryError, SessionRegistry};

#[test]
fn insert_twice_conflicts_and_keeps_first() {
    let mut reg: SessionRegistry<u32> = SessionRegistry::new();
    assert_eq!(reg.insert("A".to_string(), 1), Ok(()));
    assert_eq!(reg.insert("A".to_string(), 2), Err((RegistryError::SessionConflict, 2)));
    assert_eq!(reg.get("A"), Ok(&1));
    assert_eq!(reg.len(), 1);
}

#[test]
fn remove_unknown_and_known() {
    let mut reg: SessionRegistry<u32> = SessionRegistry::new();
    assert_eq!(reg.remove("nope"), Err(RegistryError::SessionNotFound));
    reg.insert("a".to_string(), 1).unwrap();
    reg.insert("b".to_string(), 2).unwrap();
    reg.insert("c".to_string(), 3).unwrap();
    assert_eq!(reg.remove("b"), Ok(2));
    assert_eq!(reg.list(), vec!["a".to_string(), "c".to_string()]);
    assert!(!reg.contains("b"));
    assert_eq!(reg.get("b"), Err(RegistryError::SessionNotFound));
}

#[test]
fn list_is_a_snapshot_in_insertion_order() {
    let mut reg: SessionRegistry<u32> = SessionRegistry::new();
    assert!(reg.list().is_empty());
    reg.insert("host1".to_string(), 1).unwrap();
    reg.insert("host2".to_string(), 2).unwrap();
    let snap = reg.list();
    reg.remove("host1").unwrap();
    assert_eq!(snap, vec!["host1".to_string(), "host2".to_string()]);
    assert_eq!(reg.list(), vec!["host2".to_string()]);
}

#[test]
fn lookup_distinguishes_prefixes() {
    let mut reg: SessionRegistry<u32> = SessionRegistry::new();
    reg.insert("web".to_string(), 1).unwrap();
    reg.insert("web2".to_string(), 2).unwrap();
    assert_eq!(reg.get("web2"), Ok(&2));
    assert_eq!(reg.get("we"), Err(RegistryError::SessionNotFound));
    assert_eq!(reg.position("web"), Some(0));
}
