use mappp::owner::{
    get_pid_from_inode, has_link, holds_pid, owner_of_entry, parse_pid, socket_pattern, ProcEntry,
    ProcessTable,
};
use mappp::socket::ScanError;

fn entry(name: &str, targets: &[&str]) -> ProcEntry {
    ProcEntry {
        name: name.to_string(),
        descriptors: Some(targets.iter().map(|t| Some(t.to_string())).collect()),
    }
}

fn closed(name: &str) -> ProcEntry {
    ProcEntry { name: name.to_string(), descriptors: None }
}

#[test]
fn socket_pattern_is_the_canonical_link() {
    assert_eq!(socket_pattern(12345), "socket:[12345]");
    assert_eq!(socket_pattern(0), "socket:[0]");
    assert_eq!(socket_pattern(u64::MAX), "socket:[18446744073709551615]");
}

#[test]
fn parse_pid_reads_process_names() {
    assert_eq!(parse_pid("1"), Some(1));
    assert_eq!(parse_pid("123"), Some(123));
    assert_eq!(parse_pid("4294967295"), Some(4294967295));
    assert_eq!(parse_pid("+5"), Some(5));
    assert_eq!(parse_pid("007"), Some(7));
}

#[test]
fn parse_pid_refuses_other_names() {
    assert_eq!(parse_pid("self"), None);
    assert_eq!(parse_pid("net"), None);
    assert_eq!(parse_pid(""), None);
    assert_eq!(parse_pid("0"), None);
    assert_eq!(parse_pid("-4"), None);
    assert_eq!(parse_pid("12a"), None);
    assert_eq!(parse_pid("4294967296"), None);
    assert_eq!(parse_pid("1 "), None);
}

#[test]
fn has_link_compares_letter_for_letter() {
    let targets = vec![
        Some("/dev/null".to_string()),
        None,
        Some("socket:[123456]".to_string()),
        Some("socket:[1234]".to_string()),
        Some("pipe:[12345]".to_string()),
    ];
    assert!(!has_link(&targets, &socket_pattern(12345)));
    assert!(has_link(&targets, &socket_pattern(1234)));
    assert!(has_link(&targets, &socket_pattern(123456)));
    assert!(!has_link(&Vec::new(), &socket_pattern(1)));
}

#[test]
fn holds_pid_looks_for_the_pid() {
    assert!(holds_pid(&vec![3, 5, 8], 5));
    assert!(!holds_pid(&vec![3, 5, 8], 4));
    assert!(!holds_pid(&Vec::new(), 0));
}

#[test]
fn owner_of_entry_needs_a_process_with_a_link() {
    let pattern = socket_pattern(99);
    assert_eq!(owner_of_entry(&entry("42", &["socket:[99]"]), 99, &pattern), Some(42));
    assert_eq!(owner_of_entry(&entry("42", &["socket:[98]"]), 99, &pattern), None);
    assert_eq!(owner_of_entry(&entry("self", &["socket:[99]"]), 99, &pattern), None);
    assert_eq!(owner_of_entry(&closed("42"), 99, &pattern), None);
}

#[test]
fn no_descriptor_refers_to_the_socket_gives_an_empty_list() {
    let table = ProcessTable::Entries(vec![
        entry("1", &["/dev/null", "socket:[11]"]),
        entry("2", &[]),
        closed("3"),
        entry("cpuinfo", &[]),
    ]);
    assert_eq!(get_pid_from_inode(12345, &table), Ok(vec![]));
    assert_eq!(get_pid_from_inode(7, &ProcessTable::Entries(vec![])), Ok(vec![]));
}

#[test]
fn two_descriptors_of_one_process_give_it_once() {
    let table = ProcessTable::Entries(vec![entry(
        "77",
        &["socket:[500]", "/dev/pts/0", "socket:[500]"],
    )]);
    assert_eq!(get_pid_from_inode(500, &table), Ok(vec![77]));
}

#[test]
fn forked_processes_are_both_reported() {
    let table = ProcessTable::Entries(vec![
        entry("100", &["socket:[500]"]),
        entry("sys", &["socket:[500]"]),
        entry("101", &["/dev/null", "socket:[500]", "socket:[500]"]),
        entry("102", &["socket:[501]"]),
    ]);
    let pids = get_pid_from_inode(500, &table).unwrap();
    assert_eq!(pids.len(), 2);
    assert!(pids.contains(&100));
    assert!(pids.contains(&101));
}

#[test]
fn owners_come_in_listing_order() {
    let table = ProcessTable::Entries(vec![
        entry("30", &["socket:[9]"]),
        entry("10", &["socket:[9]"]),
        entry("20", &["socket:[9]"]),
    ]);
    assert_eq!(get_pid_from_inode(9, &table), Ok(vec![30, 10, 20]));
}

#[test]
fn entries_that_stand_for_the_same_process_give_it_once() {
    let table = ProcessTable::Entries(vec![
        entry("5", &["socket:[9]"]),
        entry("+5", &["socket:[9]"]),
        entry("05", &["socket:[9]"]),
    ]);
    assert_eq!(get_pid_from_inode(9, &table), Ok(vec![5]));
}

#[test]
fn entries_that_cannot_be_inspected_are_passed_over() {
    let table = ProcessTable::Entries(vec![
        closed("1"),
        ProcEntry {
            name: "2".to_string(),
            descriptors: Some(vec![None, Some("socket:[9]".to_string()), None]),
        },
        ProcEntry { name: "3".to_string(), descriptors: Some(vec![None, None]) },
        entry("0", &["socket:[9]"]),
    ]);
    assert_eq!(get_pid_from_inode(9, &table), Ok(vec![2]));
}

#[test]
fn link_must_equal_the_pattern_exactly() {
    let table = ProcessTable::Entries(vec![
        entry("1", &["socket:[90]"]),
        entry("2", &["socket:[09]"]),
        entry("3", &[" socket:[9]"]),
        entry("4", &["socket:[9] (deleted)"]),
        entry("5", &["SOCKET:[9]"]),
        entry("6", &["socket:[9]"]),
    ]);
    assert_eq!(get_pid_from_inode(9, &table), Ok(vec![6]));
}

#[test]
fn unreadable_process_table_is_an_error() {
    assert_eq!(
        get_pid_from_inode(9, &ProcessTable::Unreadable),
        Err(ScanError::ProcessTableUnreadable)
    );
}
