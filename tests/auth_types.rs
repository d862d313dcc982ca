use investown_admin::auth::{AdminSection, EmailDetail, UserInfo};

#[test]
fn authenticated() {
    let user = UserInfo::default();
    assert_eq!(user.is_authenticated(), false)
}

#[test]
fn authenticated_with_token() {
    let mut user = UserInfo::default();
    user.token = "abc".to_string();
    assert!(user.is_authenticated())
}

#[test]
fn primary_email_none() {
    let user = UserInfo::default();
    assert_eq!(user.primary_email(), None)
}

#[test]
fn primary_email_some() {
    let mut user = UserInfo::default();
    user.emails.push(EmailDetail {
        email: "test@example.com".to_string(),
        verified: false,
        primary: false,
    });
    user.emails.push(EmailDetail {
        email: "primary@example.com".to_string(),
        verified: true,
        primary: true,
    });
    assert_eq!(
        user.primary_email(),
        Some("primary@example.com".to_string())
    )
}

#[test]
fn primary_email_first_of_several() {
    let mut user = UserInfo::default();
    for (email, primary) in [("a@x", false), ("b@x", true), ("c@x", true)] {
        user.emails.push(EmailDetail { email: email.to_string(), verified: true, primary });
    }
    assert_eq!(user.primary_email(), Some("b@x".to_string()))
}

#[test]
fn non_validated_emails() {
    let mut user = UserInfo::default();
    user.emails.push(EmailDetail {
        email: "test@example.com".to_string(),
        verified: false,
        primary: false,
    });
    user.emails.push(EmailDetail {
        email: "primary@example.com".to_string(),
        verified: true,
        primary: true,
    });
    assert_eq!(
        user.non_validated_emails(),
        vec!["test@example.com".to_string()]
    )
}

#[test]
fn non_validated_emails_primary_last() {
    let mut user = UserInfo::default();
    for (email, primary) in [("p@x", true), ("a@x", false), ("b@x", false)] {
        user.emails.push(EmailDetail { email: email.to_string(), verified: false, primary });
    }
    assert_eq!(
        user.non_validated_emails(),
        vec!["a@x".to_string(), "b@x".to_string(), "p@x".to_string()]
    )
}

#[test]
fn permissions_and_landing_section() {
    let mut user = UserInfo::default();
    assert!(!user.check_permission("list_users"));
    assert_eq!(user.default_admin_section(), AdminSection::Unauthorized);
    user.permissions.push("list_investments".to_string());
    assert!(user.check_permission("list_investments"));
    assert!(!user.check_permission("list_roles"));
    assert_eq!(user.default_admin_section(), AdminSection::Investments);
    user.permissions.push("list_roles".to_string());
    assert_eq!(user.default_admin_section(), AdminSection::Roles);
    user.permissions = vec!["*".to_string()];
    assert!(user.check_permission("anything"));
    assert_eq!(user.default_admin_section(), AdminSection::Users);
}
