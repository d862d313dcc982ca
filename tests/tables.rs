use investown_admin::admin::PictureUpload;
use investown_admin::table::{Column, TableOrder};

#[test]
fn rotate_cycles() {
    assert_eq!(TableOrder::Unordered.rotate(), TableOrder::Ascending);
    assert_eq!(TableOrder::Ascending.rotate(), TableOrder::Descending);
    assert_eq!(TableOrder::Descending.rotate(), TableOrder::Unordered);
    assert_eq!(TableOrder::default(), TableOrder::Unordered);
}

#[test]
fn column_label() {
    let mut c = Column { name: "Name".to_string(), ..Column::default() };
    assert_eq!(c.label(), "Name");
    c.short_name = Some("N".to_string());
    assert_eq!(c.label(), "N");
}

#[test]
fn upload_outcome() {
    let ok = PictureUpload { error: None, path: Some("p/a.jpg".to_string()) };
    assert_eq!(ok.outcome(), Ok("p/a.jpg".to_string()));
    let err = PictureUpload { error: Some("too big".to_string()), path: None };
    assert_eq!(err.outcome(), Err("too big".to_string()));
    let empty = PictureUpload::default();
    assert_eq!(empty.outcome(), Err("the server returned no path".to_string()));
}

use investown_admin::admin::{Role, User};
use investown_admin::search::contains_text;
use investown_admin::table::TableState;

#[test]
fn sort_column_rotates_clicked_only() {
    let mut state = TableState::new(3);
    assert_eq!(state.sort_column(1), Some(TableOrder::Ascending));
    assert_eq!(state.order, vec![TableOrder::Unordered, TableOrder::Ascending, TableOrder::Unordered]);
    assert_eq!(state.sort_column(1), Some(TableOrder::Descending));
    assert_eq!(state.sort_column(0), Some(TableOrder::Ascending));
    assert_eq!(state.order, vec![TableOrder::Ascending, TableOrder::Unordered, TableOrder::Unordered]);
    assert_eq!(state.sort_column(7), None);
    assert_eq!(state.order, vec![TableOrder::Unordered; 3]);
}

#[test]
fn substring_search() {
    assert!(contains_text("investment", "vest"));
    assert!(contains_text("abc", ""));
    assert!(!contains_text("ab", "abc"));
    assert!(!contains_text("abcd", "bd"));
}

#[test]
fn user_search_ignores_case() {
    let user = User { id: 1, email: "Jane@Example.com".to_string(), username: "jdoe".to_string() };
    assert!(user.matches_search(None));
    assert!(user.matches_search(Some("EXAMPLE".to_string())));
    assert!(user.matches_search(Some("JDo".to_string())));
    assert!(!user.matches_search(Some("smith".to_string())));
}

#[test]
fn role_search_ignores_case() {
    let role = Role {
        id: 1,
        name: "Editor".to_string(),
        description: "Can edit Investments".to_string(),
        permissions: None,
    };
    assert!(role.matches_search(Some("edit".to_string())));
    assert!(role.matches_search(Some("INVEST".to_string())));
    assert!(!role.matches_search(Some("admin".to_string())));
}
