use notion_backup::api_client::auth_header_handler::AuthHeaderHandler;
use notion_backup::api_client::AuthError;

#[test]
fn build_auth_header_prefixes_token() {
    let handler = AuthHeaderHandler::new();
    assert_eq!(handler.build_auth_header("abc123"), "token_v2=abc123");
    assert_eq!(handler.build_auth_header(""), "token_v2=");
}

#[test]
fn header_round_trip_recovers_token() {
    let handler = AuthHeaderHandler::new();
    let token = "v02-secret.token-42";
    let line = format!("{}; Domain=www.notion.so; Path=/", handler.build_auth_header(token));
    assert_eq!(handler.parse_token(&line).as_deref(), Some(token));
}

#[test]
fn header_round_trip_empty_token() {
    let handler = AuthHeaderHandler::new();
    let line = format!("{}; Domain=www.notion.so", handler.build_auth_header(""));
    assert_eq!(handler.parse_token(&line).as_deref(), Some(""));
}

#[test]
fn parse_token_takes_widest_read() {
    let handler = AuthHeaderHandler::new();
    let line = "token_v2=abc; Domain=x; Domain=y";
    assert_eq!(handler.parse_token(line).as_deref(), Some("abc; Domain=x"));
}

#[test]
fn parse_token_starts_at_earliest_opening() {
    let handler = AuthHeaderHandler::new();
    assert_eq!(
        handler.parse_token("pad token_v2=a; Domain=d").as_deref(),
        Some("a")
    );
    assert_eq!(
        handler.parse_token("token_v2=token_v2=a; Domain=d").as_deref(),
        Some("token_v2=a")
    );
}

#[test]
fn line_break_inside_token_never_matches() {
    let handler = AuthHeaderHandler::new();
    assert!(!handler.is_match("token_v2=a\nb; Domain=d"));
    assert!(handler.parse_token("token_v2=a\nb; Domain=d").is_none());
}

#[test]
fn plain_cookie_without_domain_never_matches() {
    let handler = AuthHeaderHandler::new();
    assert!(!handler.is_match("token_v2=abc; Path=/"));
    assert!(!handler.is_match("session=1; Domain=www.notion.so"));
}

#[test]
fn zero_matching_headers_is_protocol_error() {
    let handler = AuthHeaderHandler::new();
    let headers: Vec<String> = vec![
        "csrf=1; Domain=www.notion.so".to_string(),
        "theme=dark".to_string(),
    ];
    assert_eq!(handler.parse_auth_header(&headers), Err(AuthError::Protocol));
    let none: Vec<String> = Vec::new();
    assert_eq!(handler.parse_auth_header(&none), Err(AuthError::Protocol));
}

#[test]
fn two_matching_headers_is_protocol_error() {
    let handler = AuthHeaderHandler::new();
    let headers: Vec<String> = vec![
        "token_v2=a; Domain=www.notion.so".to_string(),
        "token_v2=b; Domain=www.notion.so".to_string(),
    ];
    assert_eq!(handler.parse_auth_header(&headers), Err(AuthError::Protocol));
}

#[test]
fn one_matching_header_among_others_yields_its_token() {
    let handler = AuthHeaderHandler::new();
    let headers: Vec<String> = vec![
        "csrf=1; Path=/".to_string(),
        "token_v2=the-token; Domain=www.notion.so; HttpOnly".to_string(),
        "theme=dark".to_string(),
    ];
    assert_eq!(handler.parse_auth_header(&headers), Ok("the-token".to_string()));
}
