use pheno_plugins::Capability;
use std::collections::HashSet;

#[test]
fn test_capability_as_str_is_stable() {
    assert_eq!(Capability::Read.as_str(), "read");
    assert_eq!(Capability::FilesystemRead.as_str(), "filesystem_read");
    assert_eq!(Capability::FilesystemWrite.as_str(), "filesystem_write");
    assert_eq!(Capability::Network.as_str(), "network");
    assert_eq!(Capability::Process.as_str(), "process");
    assert_eq!(Capability::WorkingTree.as_str(), "working_tree");
    assert_eq!(Capability::Storage.as_str(), "storage");
    assert_eq!(Capability::Audit.as_str(), "audit");
    assert_eq!(Capability::Environment.as_str(), "environment");
    assert_eq!(Capability::ShellExec.as_str(), "shell_exec");
}

#[test]
fn test_capability_roundtrip() {
    for cap in Capability::ALL.iter() {
        let s = cap.as_str();
        let parsed: Capability = s.parse().unwrap_or_else(|_| panic!("failed to parse {}", s));
        assert_eq!(parsed, *cap, "roundtrip mismatch for {:?}", cap);
    }
}

#[test]
fn test_capability_from_str_unknown_returns_err() {
    assert!("nope".parse::<Capability>().is_err());
    assert!("".parse::<Capability>().is_err());
    assert!("READ".parse::<Capability>().is_err());
}

#[test]
fn test_capability_hash_eq_consistent() {
    let mut set = HashSet::new();
    set.insert(Capability::Network);
    set.insert(Capability::Network);
    set.insert(Capability::Storage);
    assert_eq!(set.len(), 2);
    assert!(set.contains(&Capability::Network));
    assert!(set.contains(&Capability::Storage));
}

#[test]
fn test_capability_copy_semantics() {
    let a = Capability::Network;
    let b = a;
    let c = a;
    assert_eq!(b, c);
}

#[test]
fn test_capability_all_count() {
    assert_eq!(Capability::ALL.len(), 10);
}

#[test]
fn capability_all_lists_each_capability_once() {
    let set: HashSet<Capability> = Capability::ALL.iter().copied().collect();
    assert_eq!(set.len(), Capability::ALL.len());
}

#[test]
fn capability_parse_matches_as_str_exactly() {
    assert_eq!(Capability::parse("shell_exec"), Ok(Capability::ShellExec));
    assert_eq!(Capability::parse("working_tree"), Ok(Capability::WorkingTree));
    assert_eq!(Capability::parse(" read"), Err(()));
    assert_eq!(Capability::parse("read "), Err(()));
    assert_eq!(Capability::parse("filesystem"), Err(()));
}
