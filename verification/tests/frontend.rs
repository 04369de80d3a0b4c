use ferris_bot::api::{check_permission, has_role, parse_u64, ApiError};
use ferris_bot::commands::{CommandKind, Params};
use ferris_bot::protocol::Language;
use ferris_bot::run::{build_run_request, format_output, reply_fields};

#[test]
fn format_output_short() {
    let r = format_output("hi".to_string(), Some("rs"));
    assert_eq!(r, "```rs\nhi\n```");
}

#[test]
fn format_output_no_highlight() {
    let r = format_output("oops".to_string(), None);
    assert_eq!(r, "```\noops\n```");
}

#[test]
fn format_output_truncates() {
    let long = "a".repeat(1500);
    let r = format_output(long, None);
    let expected = format!("```\n{}[TRUNCATED]```", "a".repeat(1000));
    assert_eq!(r, expected);
}

#[test]
fn format_output_boundary() {
    let just_under = "b".repeat(999);
    let r = format_output(just_under.clone(), None);
    assert_eq!(r, format!("```\n{}\n```", just_under));
    let at_limit = "b".repeat(1000);
    let r = format_output(at_limit.clone(), None);
    assert_eq!(r, format!("```\n{}[TRUNCATED]```", at_limit));
}

#[test]
fn reply_fields_code_only() {
    let fields = reply_fields("let x = 1;".to_string(), None, Some(String::new()));
    assert_eq!(fields.len(), 1);
    assert_eq!(fields[0].name, "Code");
    assert_eq!(fields[0].value, "```rs\nlet x = 1;\n```");
    assert!(fields[0].inline);
}

#[test]
fn reply_fields_with_output_and_error() {
    let fields = reply_fields(
        "main".to_string(),
        Some("ok\n".to_string()),
        Some("warning\n".to_string()),
    );
    assert_eq!(fields.len(), 3);
    assert_eq!(fields[0].name, "Code");
    assert_eq!(fields[1].name, "Output");
    assert_eq!(fields[1].value, "```\nok\n\n```");
    assert!(!fields[1].inline);
    assert_eq!(fields[2].name, "Error");
    assert_eq!(fields[2].value, "```\nwarning\n\n```");
    assert!(!fields[2].inline);
}

#[test]
fn build_run_request_shape() {
    let r = build_run_request("fn main() {}".to_string());
    assert_eq!(r.language, Language::LangRust);
    assert_eq!(r.program, "fn main() {}");
    assert_eq!(r.args, "");
}

#[test]
fn params_default_all_none() {
    let p = Params::default();
    assert!(p.warn.is_none());
    assert!(p.channel.is_none());
    assert!(p.mode.is_none());
    assert!(p.edition.is_none());
}

#[test]
fn command_kinds_are_distinct() {
    assert_ne!(CommandKind::Base, CommandKind::Protected);
    assert_ne!(CommandKind::Protected, CommandKind::Help);
}

#[test]
fn has_role_missing_member() {
    assert_eq!(has_role(&None, 5), Err(ApiError::MissingMember));
}

#[test]
fn has_role_present_and_absent() {
    let roles = Some(vec![10, 20, 30]);
    assert_eq!(has_role(&roles, 20), Ok(true));
    assert_eq!(has_role(&roles, 40), Ok(false));
}

#[test]
fn check_permission_no_role_configured() {
    let roles = Some(vec![10]);
    assert_eq!(check_permission(&roles, None), Ok(false));
}

#[test]
fn check_permission_with_role() {
    let roles = Some(vec![10, 99]);
    assert_eq!(check_permission(&roles, Some("99".to_string())), Ok(true));
    assert_eq!(check_permission(&roles, Some("7".to_string())), Ok(false));
    assert_eq!(
        check_permission(&None, Some("7".to_string())),
        Err(ApiError::MissingMember)
    );
}

#[test]
fn check_permission_malformed_role() {
    let roles = Some(vec![10]);
    assert_eq!(
        check_permission(&roles, Some("10x".to_string())),
        Err(ApiError::InvalidRoleId)
    );
    assert_eq!(
        check_permission(&roles, Some(String::new())),
        Err(ApiError::InvalidRoleId)
    );
}

#[test]
fn parse_u64_values() {
    assert_eq!(parse_u64("0"), Some(0));
    assert_eq!(parse_u64("449602562165833758"), Some(449602562165833758));
    assert_eq!(parse_u64("18446744073709551615"), Some(u64::MAX));
}

#[test]
fn parse_u64_rejects() {
    assert_eq!(parse_u64(""), None);
    assert_eq!(parse_u64("12a"), None);
    assert_eq!(parse_u64("-3"), None);
    // one past the largest representable value
    assert_eq!(parse_u64("18446744073709551616"), None);
}
