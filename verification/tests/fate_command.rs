use heartwood::fate_command::{
    assign_by_words, capability_words, is_whitespace, parse_fate_command, parse_subject_id, split_words, AssignError,
    FateCommand,
};
use heartwood::mana_pool::concordance_of_fates::{
    init_concordance, Concordance, ConcordanceError, Fate, FateCapabilities, SubjectId, SubjectType,
};

fn chars(s: &str) -> Vec<char> {
    s.chars().collect()
}

#[test]
fn split_words_matches_split_whitespace() {
    let cases = ["", "   ", "list", "  show  kernel ", "a\tb\nc", "x\u{3000}y\u{a0}z", "one  two   three"];
    for case in cases.iter() {
        let expected: Vec<Vec<char>> = case.split_whitespace().map(|w| w.chars().collect()).collect();
        assert_eq!(split_words(case), expected, "case {:?}", case);
    }
}

#[test]
fn whitespace_classification() {
    for c in ['\t', '\n', ' ', '\u{85}', '\u{a0}', '\u{2000}', '\u{200a}', '\u{3000}'] {
        assert!(is_whitespace(c));
        assert!(c.is_whitespace());
    }
    for c in ['a', '0', '_', '\u{200b}', '\u{feff}'] {
        assert!(!is_whitespace(c));
        assert_eq!(c.is_whitespace(), false);
    }
}

#[test]
fn parse_usage_on_empty_arguments() {
    assert_eq!(parse_fate_command(""), FateCommand::Usage);
    assert_eq!(parse_fate_command("   "), FateCommand::Usage);
}

#[test]
fn parse_simple_subcommands() {
    assert_eq!(parse_fate_command("list"), FateCommand::List);
    assert_eq!(parse_fate_command(" subjects "), FateCommand::Subjects);
    assert_eq!(parse_fate_command("seal"), FateCommand::Seal);
    assert_eq!(parse_fate_command("status extra words"), FateCommand::Status);
}

#[test]
fn parse_show_with_and_without_name() {
    assert_eq!(parse_fate_command("show kernel"), FateCommand::Show(chars("kernel")));
    assert_eq!(parse_fate_command("show"), FateCommand::ShowMissingName);
}

#[test]
fn parse_assign_arguments() {
    assert_eq!(parse_fate_command("assign 5 user"), FateCommand::Assign(chars("5"), chars("user")));
    assert_eq!(parse_fate_command("assign 5"), FateCommand::AssignMissingArgs);
    assert_eq!(parse_fate_command("assign"), FateCommand::AssignMissingArgs);
}

#[test]
fn parse_unknown_subcommand() {
    assert_eq!(parse_fate_command("banish 3"), FateCommand::Unknown(chars("banish")));
    assert_eq!(parse_fate_command("LIST"), FateCommand::Unknown(chars("LIST")));
}

#[test]
fn subject_ids_parse_like_u64() {
    let cases = ["0", "42", "+7", "", "+", "-1", "12a", "18446744073709551615", "18446744073709551616", "007"];
    for case in cases.iter() {
        assert_eq!(parse_subject_id(&chars(case)), case.parse::<u64>().ok(), "case {:?}", case);
    }
}

#[test]
fn default_concordance_lists_its_fates() {
    let concordance = init_concordance();
    let names: Vec<&str> = concordance.fates().iter().map(|f| f.name.as_str()).collect();
    assert!(!names.is_empty());
    for name in names.iter() {
        let fate = concordance.get_fate(name).expect("listed fate is found");
        assert_eq!(fate.name.as_str(), *name);
    }
    assert!(concordance.get_fate("no-such-fate").is_none());
}

#[test]
fn fates_listed_by_name() {
    let mut c = Concordance::new();
    for name in ["Weaver", "Anchorite", "Guardian", "Wanderer"] {
        c.define_fate(fate_named(name)).unwrap();
    }
    let order = c.fates_by_name();
    let names: Vec<&str> = order.iter().map(|&i| c.fates()[i].name.as_str()).collect();
    assert_eq!(names, vec!["Anchorite", "Guardian", "Wanderer", "Weaver"]);
}

#[test]
fn subjects_listed_by_id() {
    let mut c = init_concordance();
    for id in [30u64, 4, 17, 0] {
        c.register_subject(SubjectId(id), SubjectType::UserProcess).unwrap();
    }
    let ids: Vec<u64> = c.subjects_by_id().iter().map(|&i| c.subjects()[i].id.0).collect();
    assert_eq!(ids, vec![0, 4, 17, 30]);
    assert!(Concordance::new().subjects_by_id().is_empty());
}

#[test]
fn assign_by_words_reads_the_id_first() {
    let mut c = init_concordance();
    c.register_subject(SubjectId(7), SubjectType::SystemService).unwrap();
    assert!(matches!(assign_by_words(&mut c, "seven", "Weaver"), Err(AssignError::InvalidSubjectId)));
    assert!(matches!(assign_by_words(&mut c, "-7", "Weaver"), Err(AssignError::InvalidSubjectId)));
    assert_eq!(c.subjects()[0].fate, "Guardian");
    assert!(matches!(
        assign_by_words(&mut c, "8", "Weaver"),
        Err(AssignError::Refused(ConcordanceError::SubjectNotFound(SubjectId(8))))
    ));
    assert!(matches!(
        assign_by_words(&mut c, "7", "Nobody"),
        Err(AssignError::Refused(ConcordanceError::FateNotFound(_)))
    ));
    assert_eq!(assign_by_words(&mut c, "+7", "Weaver").unwrap(), SubjectId(7));
    assert_eq!(c.subjects()[0].fate, "Weaver");
}

#[test]
fn capability_words_in_listing_order() {
    let mut caps = FateCapabilities::default();
    assert!(capability_words(&caps).is_empty());
    caps.can_bind_network = true;
    caps.can_read_files = true;
    caps.can_fork = true;
    caps.can_kill = true;
    assert_eq!(capability_words(&caps), vec!["read", "fork", "network"]);
    caps.can_write_files = true;
    caps.can_execute_files = true;
    assert_eq!(capability_words(&caps), vec!["read", "write", "exec", "fork", "network"]);
}

fn fate_named(name: &str) -> Fate {
    Fate {
        name: String::from(name),
        description: String::new(),
        capabilities: FateCapabilities::default(),
        file_rules: vec![],
        network_rules: vec![],
        memory_rules: vec![],
        allowed_transitions: vec![],
        is_privileged: false,
    }
}
