use slackshot::auth::{check_token, missing_scopes, parse_scopes, required_scope_list, SCOPES_HEADER_MISSING, TOKEN_NOT_VALIDATED};

const ALL_SCOPES: &str = "admin.usergroups:read,channels:history, channels:read,groups:history,groups:read ,im:history,im:read,mpim:history,mpim:read,chat:write";

#[test]
fn scope_header_split_and_trimmed() {
    assert_eq!(parse_scopes(" a, b ,c"), vec!["a".to_string(), "b".to_string(), "c".to_string()]);
    assert_eq!(parse_scopes(""), vec!["".to_string()]);
    assert_eq!(parse_scopes("a,,b"), vec!["a".to_string(), "".to_string(), "b".to_string()]);
}

#[test]
fn token_with_every_scope_passes() {
    assert_eq!(check_token(true, None, Some(ALL_SCOPES.to_string())), Ok(()));
}

#[test]
fn missing_scopes_listed_in_order() {
    let header = "channels:history,channels:read,groups:history,groups:read,im:history,im:read,mpim:history";
    assert_eq!(
        check_token(true, None, Some(header.to_string())),
        Err("Missing scopes {\"admin.usergroups:read\", \"mpim:read\"}".to_string())
    );
}

#[test]
fn missing_scopes_of_nothing_granted_is_all() {
    assert_eq!(missing_scopes(&Vec::new()), required_scope_list());
    assert_eq!(required_scope_list().len(), 9);
}

#[test]
fn failed_token_check_reports_error() {
    assert_eq!(check_token(false, Some("invalid_auth".to_string()), None), Err("invalid_auth".to_string()));
    assert_eq!(check_token(false, None, None), Err(TOKEN_NOT_VALIDATED.to_string()));
}

#[test]
fn missing_scope_header_is_error() {
    assert_eq!(check_token(true, None, None), Err(SCOPES_HEADER_MISSING.to_string()));
}
