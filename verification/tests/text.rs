use tiki_ingest::schema::User;
use tiki_ingest::text::{join_lines, text_equals};

#[test]
fn join_lines_puts_newlines_between() {
    assert_eq!(join_lines(&vec![]), "");
    assert_eq!(join_lines(&vec!["a,b".to_string()]), "a,b");
    assert_eq!(
        join_lines(&vec!["h1,h2".to_string(), "1,2".to_string(), "3,4".to_string()]),
        "h1,h2\n1,2\n3,4"
    );
}

#[test]
fn text_equality() {
    assert!(text_equals("csv", "csv"));
    assert!(!text_equals("csv", "CSV"));
    assert!(!text_equals("csv", "csvx"));
    assert!(text_equals("", ""));
    assert!(text_equals("é€", "é€"));
}

#[test]
fn user_default_is_empty() {
    let u = User::default();
    assert_eq!(u.userid, "");
    assert_eq!(u.estimated_age, None);
    let mut v = u.clone();
    v.userid = "x".to_string();
    assert_ne!(u, v);
}
