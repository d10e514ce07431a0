use serve_core::config::{db_config, db_port, listen_port, parse_port};

#[test]
fn the_store_has_its_defaults() {
    let c = db_config(None, None, None, None, None);
    assert_eq!(c.host, "localhost");
    assert_eq!(c.port, 5432);
    assert_eq!(c.dbname, "test-db");
    assert_eq!(c.user, "postgres");
    assert_eq!(c.password, "123456");
}

#[test]
fn the_environment_overrides_the_defaults() {
    let c = db_config(
        Some("db.internal".to_string()),
        Some("6543"),
        Some("prod".to_string()),
        Some("svc".to_string()),
        Some("s3cret".to_string()),
    );
    assert_eq!(c.host, "db.internal");
    assert_eq!(c.port, 6543);
    assert_eq!(c.dbname, "prod");
    assert_eq!(c.user, "svc");
    assert_eq!(c.password, "s3cret");
    let c = db_config(Some(String::new()), Some("x"), None, None, None);
    assert_eq!(c.host, "");
    assert_eq!(c.port, 5432);
}

#[test]
fn a_store_port_that_is_no_port_falls_back() {
    assert_eq!(db_port(None), 5432);
    assert_eq!(db_port(Some("5433")), 5433);
    assert_eq!(db_port(Some("")), 5432);
    assert_eq!(db_port(Some("65536")), 5432);
    assert_eq!(db_port(Some("-1")), 5432);
    assert_eq!(db_port(Some(" 5433")), 5432);
}

#[test]
fn the_listen_port_defaults_to_3000() {
    assert_eq!(listen_port(None), Some(3000));
    assert_eq!(listen_port(Some("8080")), Some(8080));
    assert_eq!(listen_port(Some("0")), Some(0));
    assert_eq!(listen_port(Some("+8080")), Some(8080));
    assert_eq!(listen_port(Some("65535")), Some(65535));
    assert_eq!(listen_port(Some("65536")), None);
    assert_eq!(listen_port(Some("http")), None);
    assert_eq!(listen_port(Some("")), None);
    for text in ["80", "+80", "-80", "080", "8 0", "６"] {
        assert_eq!(parse_port(text), text.parse::<u16>().ok());
    }
}
