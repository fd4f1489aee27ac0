use awstail::groups::{list_log_groups, GroupsPage};

#[test]
fn page_with_token_leads_on() {
    let step = list_log_groups(GroupsPage {
        groups: Some(vec![String::from("a"), String::from("b")]),
        next_token: Some(String::from("t")),
    });
    assert_eq!(step.names, vec!["a", "b"]);
    assert_eq!(step.next_token.as_deref(), Some("t"));
}

#[test]
fn page_without_token_is_the_last() {
    let step = list_log_groups(GroupsPage { groups: Some(vec![String::from("z")]), next_token: None });
    assert_eq!(step.names, vec!["z"]);
    assert_eq!(step.next_token, None);
    let step = list_log_groups(GroupsPage { groups: Some(Vec::new()), next_token: None });
    assert!(step.names.is_empty());
    assert_eq!(step.next_token, None);
}

#[test]
fn page_without_a_list_leads_on_where_it_has_a_token() {
    let step = list_log_groups(GroupsPage { groups: None, next_token: Some(String::from("t")) });
    assert!(step.names.is_empty());
    assert_eq!(step.next_token.as_deref(), Some("t"));
    let step = list_log_groups(GroupsPage { groups: None, next_token: None });
    assert!(step.names.is_empty());
    assert_eq!(step.next_token, None);
}

#[test]
fn listing_takes_as_many_pages_as_carry_a_token() {
    let pages = vec![
        GroupsPage { groups: Some(vec![String::from("a")]), next_token: Some(String::from("1")) },
        GroupsPage { groups: None, next_token: Some(String::from("2")) },
        GroupsPage { groups: Some(Vec::new()), next_token: Some(String::from("3")) },
        GroupsPage { groups: Some(vec![String::from("b"), String::from("c")]), next_token: None },
        GroupsPage { groups: Some(vec![String::from("never")]), next_token: None },
    ];
    let mut names = Vec::new();
    let mut tokens = Vec::new();
    let mut calls = 0;
    for page in pages {
        calls += 1;
        let step = list_log_groups(page);
        names.extend(step.names);
        match step.next_token {
            Some(token) => tokens.push(token),
            None => break,
        }
    }
    assert_eq!(calls, 4);
    assert_eq!(names, vec!["a", "b", "c"]);
    assert_eq!(tokens, vec!["1", "2", "3"]);
}

#[test]
fn empty_list_with_token_leads_on() {
    let step =
        list_log_groups(GroupsPage { groups: Some(Vec::new()), next_token: Some(String::from("t")) });
    assert!(step.names.is_empty());
    assert_eq!(step.next_token.as_deref(), Some("t"));
}
