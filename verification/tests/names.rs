use sq_app::names::Names;

fn names() -> Names {
    Names::new(
        vec![
            ("s1".to_string(), "AAPL".to_string(), "Apple".to_string()),
            ("s2".to_string(), "MSFT".to_string(), "Microsoft".to_string()),
            ("s1".to_string(), "AAPL.DE".to_string(), "Apple (Xetra)".to_string()),
        ],
        vec![("a1".to_string(), "Main".to_string())],
    )
}

#[test]
fn a_known_id_reads_as_its_names() {
    let n = names();
    assert_eq!(n.security("s2"), ("MSFT".to_string(), "Microsoft".to_string()));
    assert_eq!(n.account("a1"), "Main");
}

#[test]
fn an_unknown_id_stands_in_for_itself() {
    let n = names();
    assert_eq!(n.security("zz"), ("zz".to_string(), String::new()));
    assert_eq!(n.account("zz"), "zz");
}

#[test]
fn the_later_of_two_entries_answers() {
    let n = names();
    assert_eq!(n.security("s1"), ("AAPL.DE".to_string(), "Apple (Xetra)".to_string()));
}
