use wordpress_api::config::{parse_port, Config, CorsConfig};
use wordpress_api::error::ApiError;
use wordpress_api::text::{contains_text, same_text, text_less};

#[test]
fn ports_are_read_in_decimal() {
    assert_eq!(parse_port("8000"), Some(8000));
    assert_eq!(parse_port("0"), Some(0));
    assert_eq!(parse_port("+80"), Some(80));
    assert_eq!(parse_port("00443"), Some(443));
    assert_eq!(parse_port("65535"), Some(65535));
    assert_eq!(parse_port("65536"), None);
    assert_eq!(parse_port("99999999999999999999"), None);
    assert_eq!(parse_port(""), None);
    assert_eq!(parse_port("+"), None);
    assert_eq!(parse_port("-1"), None);
    assert_eq!(parse_port("80a"), None);
    assert_eq!(parse_port(" 80"), None);
    for s in ["8000", "+1", "65535", "65536", "", "-0", "12x", "++1"] {
        assert_eq!(parse_port(s), s.parse::<u16>().ok());
    }
}

#[test]
fn configuration_defaults() {
    let c = Config::from_values("mysql://db".to_string(), None, None, None).unwrap();
    assert_eq!(c.database.url, "mysql://db");
    assert_eq!(c.server.host, "127.0.0.1");
    assert_eq!(c.server.port, 8000);
    assert_eq!(c.cors.allowed_origin, "*");
    assert!(c.cors.allows_any_origin());
    let c = Config::from_values(
        "u".to_string(),
        Some("0.0.0.0".to_string()),
        Some("9090".to_string()),
        Some("https://example.com".to_string()),
    )
    .unwrap();
    assert_eq!((c.server.host.as_str(), c.server.port), ("0.0.0.0", 9090));
    assert!(!c.cors.allows_any_origin());
    assert!(Config::from_values("u".to_string(), None, Some("port".to_string()), None).is_none());
    assert!(!CorsConfig { allowed_origin: "**".to_string() }.allows_any_origin());
}

#[test]
fn text_helpers() {
    assert!(contains_text(&"Hello world".to_string(), &"lo w".to_string()));
    assert!(contains_text(&"abc".to_string(), &String::new()));
    assert!(contains_text(&"abc".to_string(), &"abc".to_string()));
    assert!(!contains_text(&"abc".to_string(), &"abcd".to_string()));
    assert!(!contains_text(&"Hello".to_string(), &"hello".to_string()));
    assert!(contains_text(&"naïve café".to_string(), &"ve c".to_string()));
    assert!(text_less(&"page".to_string(), &"post".to_string()));
    assert!(text_less(&"post".to_string(), &"posts".to_string()));
    assert!(!text_less(&"post".to_string(), &"post".to_string()));
    assert!(!text_less(&"zeta".to_string(), &"alpha".to_string()));
    assert!(text_less(&"Z".to_string(), &"a".to_string()));
    assert!(same_text(&"publish".to_string(), "publish"));
    assert!(!same_text(&"publish ".to_string(), "publish"));
}

#[test]
fn error_messages_and_statuses() {
    let e = ApiError::NotFound("Post with ID 4 not found".to_string());
    assert_eq!(e.detail(), "Not found: Post with ID 4 not found");
    assert_eq!(e.status_code(), 404);
    assert_eq!(ApiError::BadRequest("x".to_string()).status_code(), 400);
    assert_eq!(ApiError::BadRequest("x".to_string()).detail(), "Bad request: x");
    assert_eq!(ApiError::DatabaseError("down".to_string()).status_code(), 500);
    assert_eq!(ApiError::DatabaseError("down".to_string()).detail(), "Database error: down");
    assert_eq!(ApiError::InternalServerError("y".to_string()).status_code(), 500);
    assert_eq!(ApiError::InternalServerError("y".to_string()).detail(), "Internal server error: y");
}
