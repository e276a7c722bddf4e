use axum_backend::config::{
    concurrency_limit, connect_options, database_url, parse_usize, pool_settings, schema_sql,
    ConfigError, PoolSettings,
};

#[test]
fn database_url_defaults_to_app_db() {
    assert_eq!(database_url(None), "sqlite://app.db");
    assert_eq!(database_url(Some("sqlite::memory:".to_owned())), "sqlite::memory:");
}

#[test]
fn in_memory_databases_get_one_connection() {
    assert_eq!(
        pool_settings("sqlite::memory:"),
        PoolSettings { create_if_missing: true, foreign_keys: true, busy_timeout_secs: 5, max_connections: 1 }
    );
    assert_eq!(
        pool_settings("sqlite://app.db"),
        PoolSettings { create_if_missing: true, foreign_keys: true, busy_timeout_secs: 5, max_connections: 5 }
    );
}

#[test]
fn connect_options_follow_the_url() {
    let settings = pool_settings("sqlite://app.db");
    assert!(connect_options("sqlite://app.db", &settings).is_ok());
    assert!(connect_options("sqlite::memory:", &settings).is_ok());
    assert!(connect_options("sqlite://app.db?mode=bogus", &settings).is_err());
    assert!(connect_options("sqlite://app.db?colour=blue", &settings).is_err());
}

#[test]
fn concurrency_limit_defaults_to_one_hundred() {
    assert_eq!(concurrency_limit(None), Ok(100));
}

#[test]
fn concurrency_limit_reads_decimal_numbers() {
    assert_eq!(concurrency_limit(Some("200")), Ok(200));
    assert_eq!(concurrency_limit(Some("+7")), Ok(7));
    assert_eq!(concurrency_limit(Some("0007")), Ok(7));
}

#[test]
fn concurrency_limit_refuses_bad_settings() {
    assert_eq!(concurrency_limit(Some("0")), Err(ConfigError::Zero));
    assert_eq!(concurrency_limit(Some("abc")), Err(ConfigError::NotANumber));
    assert_eq!(concurrency_limit(Some("")), Err(ConfigError::NotANumber));
    assert_eq!(concurrency_limit(Some("+")), Err(ConfigError::NotANumber));
    assert_eq!(concurrency_limit(Some("-1")), Err(ConfigError::NotANumber));
    assert_eq!(concurrency_limit(Some(" 5")), Err(ConfigError::NotANumber));
    assert_eq!(
        concurrency_limit(Some("999999999999999999999999999")),
        Err(ConfigError::NotANumber)
    );
}

#[test]
fn config_error_messages() {
    assert_eq!(
        ConfigError::NotANumber.message(),
        "MAX_CONCURRENT_REQUESTS must be a positive integer"
    );
    assert_eq!(ConfigError::Zero.message(), "MAX_CONCURRENT_REQUESTS must be greater than zero");
}

#[test]
fn schema_creates_the_todos_table() {
    assert_eq!(
        schema_sql(),
        "CREATE TABLE IF NOT EXISTS todos (id INTEGER PRIMARY KEY AUTOINCREMENT, title TEXT NOT NULL, completed INTEGER NOT NULL DEFAULT 0)"
    );
}

#[test]
fn connect_options_carry_the_settings() {
    let settings = PoolSettings {
        create_if_missing: true,
        foreign_keys: false,
        busy_timeout_secs: 7,
        max_connections: 5,
    };
    let options = connect_options("sqlite://app.db", &settings).expect("options").into_inner();
    let shown = format!("{options:?}");
    assert!(shown.contains("create_if_missing: true"), "{shown}");
    assert!(shown.contains("busy_timeout: 7s"), "{shown}");
    assert!(shown.contains("\"foreign_keys\": Some(\"OFF\")"), "{shown}");

    let settings = pool_settings("sqlite://app.db");
    let options = connect_options("sqlite://app.db", &settings).expect("options").into_inner();
    let shown = format!("{options:?}");
    assert!(shown.contains("create_if_missing: true"), "{shown}");
    assert!(shown.contains("busy_timeout: 5s"), "{shown}");
    assert!(shown.contains("\"foreign_keys\": Some(\"ON\")"), "{shown}");
}

#[test]
fn parse_usize_reads_what_from_str_reads() {
    for s in ["0", "7", "+7", "0042", "18446744073709551615", "18446744073709551616", "", "+", "-0", "-1", " 1", "1 ", "1_000", "abc", "١", "+-1", "99999999999999999999999x"] {
        assert_eq!(parse_usize(s), s.parse::<usize>().ok(), "{s:?}");
    }
}
