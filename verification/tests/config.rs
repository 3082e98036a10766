use tiphia_core::config::{
    configured_bind, validate_config, Config, EnvOverrides, FileConfig, FileDatabaseConfig, FileHttpConfig,
};
use tiphia_core::error::AppError;

fn defaults() -> Config {
    Config::from_sources(&FileConfig::default(), &EnvOverrides::default())
}

fn config_error(r: Result<(), AppError>) -> String {
    match r {
        Err(AppError::Config(m)) => m,
        other => panic!("expected a config error, got {other:?}"),
    }
}

#[test]
fn defaults_fill_every_field() {
    let c = defaults();
    assert_eq!(c.app.environment, "development");
    assert_eq!(c.http.bind, "127.0.0.1:3000");
    assert_eq!(c.http.request_timeout, 30);
    assert_eq!(c.http.max_body_bytes, 1024 * 1024);
    assert!(c.cors.allowed_origins.is_empty());
    assert_eq!(c.database.url, "sqlite://tiphia.db?mode=rwc");
    assert_eq!(c.database.max_connections, 16);
    assert_eq!(c.database.min_connections, 1);
    assert_eq!(c.database.connect_timeout, 10);
    assert_eq!(c.database.acquire_timeout, 10);
    assert_eq!(c.log.level, "tiphia=info,tower_http=info");
    assert_eq!(c.log.directory, "logs");
    assert_eq!(c.log.file_prefix, "tiphia");
    assert!(c.log.json);
    assert_eq!(c.auth.jwt_secret, "change-me-before-production-this-is-development-only");
    assert_eq!(c.auth.token_ttl_seconds, 60 * 60 * 24 * 7);
    assert_eq!(c.rate_limit.redis_url, None);
    assert_eq!(c.rate_limit.login_per_minute, 5);
    assert_eq!(c.rate_limit.comments_per_minute, 10);
    assert!(validate_config(&c, None).is_ok());
}

#[test]
fn environment_beats_file_beats_default() {
    let mut file = FileConfig::default();
    file.http = Some(FileHttpConfig {
        bind: Some("0.0.0.0:8080".to_owned()),
        request_timeout_secs: Some(5),
        max_body_bytes: None,
    });
    file.database = Some(FileDatabaseConfig {
        url: Some("sqlite://file.db".to_owned()),
        max_connections: Some(4),
        min_connections: None,
        connect_timeout_secs: None,
        acquire_timeout_secs: None,
    });
    let mut env = EnvOverrides::default();
    env.bind = Some("0.0.0.0:9090".to_owned());
    env.db_max_connections = Some(32);
    let c = Config::from_sources(&file, &env);
    assert_eq!(c.http.bind, "0.0.0.0:9090");
    assert_eq!(c.http.request_timeout, 5);
    assert_eq!(c.http.max_body_bytes, 1024 * 1024);
    assert_eq!(c.database.url, "sqlite://file.db");
    assert_eq!(c.database.max_connections, 32);
    assert_eq!(c.database.min_connections, 1);
}

#[test]
fn validation_reports_the_first_broken_rule() {
    let c = defaults();
    assert_eq!(
        config_error(validate_config(&c, Some("invalid socket address syntax".to_owned()))),
        "invalid http.bind: invalid socket address syntax"
    );
    let mut c = defaults();
    c.database.url = "  \t".to_owned();
    c.database.max_connections = 0;
    assert_eq!(config_error(validate_config(&c, None)), "database.url is required");
    let mut c = defaults();
    c.database.max_connections = 0;
    assert_eq!(
        config_error(validate_config(&c, None)),
        "database.max_connections must be greater than 0"
    );
    let mut c = defaults();
    c.database.min_connections = 17;
    assert_eq!(
        config_error(validate_config(&c, None)),
        "database.min_connections must be less than or equal to database.max_connections"
    );
    let mut c = defaults();
    c.database.acquire_timeout = 0;
    assert_eq!(config_error(validate_config(&c, None)), "database timeouts must be greater than 0");
    let mut c = defaults();
    c.http.max_body_bytes = 0;
    assert_eq!(config_error(validate_config(&c, None)), "http.max_body_bytes must be greater than 0");
}

#[test]
fn production_requires_a_changed_secret() {
    let mut c = defaults();
    c.app.environment = "production".to_owned();
    assert_eq!(
        config_error(validate_config(&c, None)),
        "auth.jwt_secret must be changed from the development default"
    );
    c.auth.jwt_secret = "a-real-secret".to_owned();
    assert!(validate_config(&c, None).is_ok());
}

#[test]
fn origins_and_redis_urls_are_checked() {
    let mut c = defaults();
    c.cors.allowed_origins = vec!["https://a.example".to_owned(), "ftp://b.example".to_owned(), "c".to_owned()];
    assert_eq!(
        config_error(validate_config(&c, None)),
        "invalid cors.allowed_origins entry: ftp://b.example"
    );
    let mut c = defaults();
    c.rate_limit.redis_url = Some("http://cache".to_owned());
    assert_eq!(
        config_error(validate_config(&c, None)),
        "rate_limit.redis_url must start with redis:// or rediss://"
    );
    c.rate_limit.redis_url = Some("rediss://cache:6380".to_owned());
    assert!(validate_config(&c, None).is_ok());
}

#[test]
fn loading_returns_the_checked_configuration_or_its_first_error() {
    let file = FileConfig::default();
    let mut env = EnvOverrides::default();
    assert_eq!(configured_bind(&file, &env), "127.0.0.1:3000");
    let c = Config::load_from(&file, &env, None).unwrap();
    assert_eq!(c.database.url, "sqlite://tiphia.db?mode=rwc");
    env.environment = Some("production".to_owned());
    assert_eq!(
        config_error(Config::load_from(&file, &env, None).map(|_| ())),
        "auth.jwt_secret must be changed from the development default"
    );
    env.bind = Some("nowhere".to_owned());
    assert_eq!(configured_bind(&file, &env), "nowhere");
    assert_eq!(
        config_error(Config::load_from(&file, &env, Some("invalid socket address syntax".to_owned())).map(|_| ())),
        "invalid http.bind: invalid socket address syntax"
    );
}
