use book_notes::directory::Directory;
use book_notes::session::{parse_command, Command, Reply, UsageError};

fn names(v: &[&str]) -> Vec<String> {
    v.iter().map(|s| s.to_string()).collect()
}

#[test]
fn listing_a_department_after_three_adds() {
    let mut d = Directory::new();
    assert_eq!(d.handle_line("add Sally to Engineering"), Reply::Added(true));
    assert_eq!(d.handle_line("add Amir to Sales"), Reply::Added(true));
    assert_eq!(d.handle_line("add Ray Engineering"), Reply::Added(true));
    assert_eq!(
        d.handle_line("list Engineering"),
        Reply::Members(names(&["Ray", "Sally"]))
    );
    assert_eq!(d.handle_line("exit"), Reply::Exit);
}

#[test]
fn list_all_on_empty_directory() {
    let mut d = Directory::new();
    assert_eq!(d.handle_line("list all"), Reply::Everyone(vec![]));
}

#[test]
fn five_unknown_words_are_a_usage_error() {
    let mut d = Directory::new();
    assert_eq!(
        d.handle_line("foo bar baz qux quux"),
        Reply::Usage(UsageError::UnknownCommand)
    );
    assert_eq!(d.handle_line("list all"), Reply::Everyone(vec![]));
    d.handle_line("add Sally Engineering");
    assert_eq!(
        d.handle_line("foo bar baz qux quux"),
        Reply::Usage(UsageError::UnknownCommand)
    );
    assert_eq!(
        d.handle_line("list all"),
        Reply::Everyone(vec![("Sally".to_string(), "Engineering".to_string())])
    );
}

#[test]
fn first_add_of_a_name_wins() {
    let mut d = Directory::new();
    assert_eq!(d.handle_line("add Sally Engineering"), Reply::Added(true));
    assert_eq!(d.handle_line("add Sally Sales"), Reply::Added(false));
    assert_eq!(
        d.handle_line("list Engineering"),
        Reply::Members(names(&["Sally"]))
    );
    assert_eq!(d.handle_line("list Sales"), Reply::Members(vec![]));
}

#[test]
fn added_name_is_listed_once_and_capitalized() {
    let mut d = Directory::new();
    d.handle_line("add sally to engineering");
    d.handle_line("add SALLY to ENGINEERING");
    d.handle_line("add bob sales");
    assert_eq!(
        d.handle_line("list eNgInEeRiNg"),
        Reply::Members(names(&["Sally"]))
    );
    let all = d.list_all();
    assert_eq!(all.len(), 2);
    assert!(all.contains(&("Sally".to_string(), "Engineering".to_string())));
    assert!(all.contains(&("Bob".to_string(), "Sales".to_string())));
}

#[test]
fn members_come_in_ascending_order() {
    let mut d = Directory::new();
    for n in ["zoe", "Amir", "mia", "Al", "bea", "Ray"] {
        assert!(d.add(n, "Ops"));
    }
    assert_eq!(
        d.list_department("ops"),
        names(&["Al", "Amir", "Bea", "Mia", "Ray", "Zoe"])
    );
}

#[test]
fn unknown_department_lists_nothing() {
    let mut d = Directory::new();
    d.add("Sally", "Engineering");
    assert_eq!(d.handle_line("list Marketing"), Reply::Members(vec![]));
    assert!(d.list_department("Marketing").is_empty());
}

#[test]
fn empty_name_or_department_is_not_filed() {
    let mut d = Directory::new();
    assert!(!d.add("", "Sales"));
    assert!(!d.add("Sally", ""));
    assert!(d.list_all().is_empty());
}

#[test]
fn capitalization_handles_non_ascii_letters() {
    let mut d = Directory::new();
    d.add("émile", "ÉTUDES");
    assert_eq!(d.list_department("études"), names(&["Émile"]));
}

#[test]
fn each_usage_error_has_its_line() {
    let mut d = Directory::new();
    assert_eq!(d.handle_line(""), Reply::Usage(UsageError::Blank));
    assert_eq!(d.handle_line("   \t "), Reply::Usage(UsageError::Blank));
    assert_eq!(d.handle_line("add"), Reply::Usage(UsageError::Incomplete));
    assert_eq!(d.handle_line("EXIT"), Reply::Usage(UsageError::Incomplete));
    assert_eq!(d.handle_line("add Sally"), Reply::Usage(UsageError::AddShape));
    assert_eq!(
        d.handle_line("add Sally to the Sales"),
        Reply::Usage(UsageError::AddShape)
    );
    assert_eq!(
        d.handle_line("list Sales now"),
        Reply::Usage(UsageError::ListShape)
    );
    assert_eq!(
        d.handle_line("exit now"),
        Reply::Usage(UsageError::UnknownCommand)
    );
    assert!(d.list_all().is_empty());
}

#[test]
fn verbs_match_in_any_case() {
    assert_eq!(
        parse_command("  ADD ray TO sales\n"),
        Command::Add {
            name: "ray".to_string(),
            department: "sales".to_string()
        }
    );
    assert_eq!(parse_command("List all"), Command::ListAll);
    assert_eq!(
        parse_command("list All"),
        Command::ListDepartment {
            department: "All".to_string()
        }
    );
    assert_eq!(parse_command("exit\n"), Command::Exit);
}

#[test]
fn execute_runs_a_parsed_command() {
    let mut d = Directory::new();
    let c = parse_command("add amir sales");
    assert_eq!(d.execute(&c), Reply::Added(true));
    assert_eq!(
        d.execute(&Command::ListDepartment {
            department: "SALES".to_string()
        }),
        Reply::Members(names(&["Amir"]))
    );
}
