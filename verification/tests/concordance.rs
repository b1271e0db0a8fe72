use heartwood::mana_pool::concordance_of_fates::{
    define_default_fates, init_concordance, path_matches, Concordance, ConcordanceError, Fate, FateCapabilities,
    FileAccess, FileRule, Operation, Permission, SubjectId, SubjectType,
};

fn test_fate(name: &str) -> Fate {
    Fate {
        name: String::from(name),
        description: String::from("A test fate"),
        capabilities: FateCapabilities::default(),
        file_rules: vec![],
        network_rules: vec![],
        memory_rules: vec![],
        allowed_transitions: vec![],
        is_privileged: false,
    }
}

#[test]
fn test_fate_creation() {
    let mut concordance = Concordance::new();
    let fate = test_fate("TestFate");
    assert!(concordance.define_fate(fate).is_ok());
    assert_eq!(concordance.fate_count(), 1);
}

#[test]
fn test_subject_registration() {
    let mut concordance = Concordance::new();
    define_default_fates(&mut concordance);
    concordance.set_default_fate(String::from("Guardian")).unwrap();
    let subject_id = SubjectId(1);
    assert!(concordance.register_subject(subject_id, SubjectType::KernelThread).is_ok());
    assert_eq!(concordance.subject_count(), 1);
}

#[test]
fn duplicate_fate_and_sealing() {
    let mut concordance = Concordance::new();
    concordance.define_fate(test_fate("A")).unwrap();
    assert!(matches!(concordance.define_fate(test_fate("A")), Err(ConcordanceError::FateAlreadyExists(n)) if n == "A"));
    concordance.seal();
    assert!(concordance.is_sealed());
    assert!(matches!(concordance.define_fate(test_fate("B")), Err(ConcordanceError::ConcordanceSealed)));
    assert_eq!(concordance.fate_count(), 1);
}

#[test]
fn default_fates_permissions() {
    let mut c = init_concordance();
    assert_eq!(c.fate_count(), 2);
    c.register_subject(SubjectId(1), SubjectType::KernelThread).unwrap();
    assert!(matches!(c.register_subject(SubjectId(1), SubjectType::KernelThread), Err(ConcordanceError::SubjectAlreadyExists(_))));
    // Guardian may do everything.
    assert_eq!(c.check_permission(SubjectId(1), &Operation::FileWrite(String::from("/etc/x"))).unwrap(), true);
    assert_eq!(c.check_permission(SubjectId(1), &Operation::ReadSymbols).unwrap(), true);
    // Weaver: home directory only, connect to high ports only.
    c.assign_fate(SubjectId(1), "Weaver").unwrap();
    assert_eq!(c.check_permission(SubjectId(1), &Operation::FileRead(String::from("/home/user/f"))).unwrap(), true);
    assert_eq!(c.check_permission(SubjectId(1), &Operation::FileWrite(String::from("/etc/x"))).unwrap(), false);
    assert_eq!(c.check_permission(SubjectId(1), &Operation::NetworkConnect(8080)).unwrap(), true);
    assert_eq!(c.check_permission(SubjectId(1), &Operation::NetworkConnect(80)).unwrap(), false);
    assert_eq!(c.check_permission(SubjectId(1), &Operation::ReadSymbols).unwrap(), false);
    // The Weaver may not become the Guardian again.
    assert!(matches!(c.assign_fate(SubjectId(1), "Guardian"), Err(ConcordanceError::TransitionDenied { .. })));
    assert!(matches!(c.check_permission(SubjectId(9), &Operation::Fork), Err(ConcordanceError::SubjectNotFound(_))));
    assert!(matches!(c.assign_fate(SubjectId(1), "Nobody"), Err(ConcordanceError::FateNotFound(_))));
}

#[test]
fn path_pattern_matching() {
    assert!(path_matches("/**", "/anything/at/all"));
    assert!(path_matches("*", ""));
    assert!(path_matches("/home/**", "/home/user/file"));
    assert!(!path_matches("/home/**", "/etc/passwd"));
    assert!(path_matches("/etc/passwd", "/etc/passwd"));
    assert!(!path_matches("/etc/passwd", "/etc/passwd2"));
}

#[test]
fn deny_rules_take_precedence() {
    let mut c = init_concordance();
    let mut reader = test_fate("Reader");
    reader.capabilities.can_read_files = true;
    reader.file_rules = vec![
        FileRule { path_pattern: String::from("/home/*"), access_type: FileAccess::Read, permission: Permission::Allow },
        FileRule {
            path_pattern: String::from("/home/secret"),
            access_type: FileAccess::Read,
            permission: Permission::Deny,
        },
    ];
    c.define_fate(reader).unwrap();
    c.register_subject(SubjectId(3), SubjectType::UserProcess).unwrap();
    c.assign_fate(SubjectId(3), "Reader").unwrap();
    assert_eq!(c.check_permission(SubjectId(3), &Operation::FileRead(String::from("/home/secret"))).unwrap(), false);
    assert_eq!(c.check_permission(SubjectId(3), &Operation::FileRead(String::from("/home/notes"))).unwrap(), true);
    assert_eq!(c.check_permission(SubjectId(3), &Operation::FileRead(String::from("/etc/passwd"))).unwrap(), false);
}
