use tiphia_core::error::{validation_on_unique, AppError};

#[test]
fn errors_map_to_status_and_code() {
    let cases: Vec<(AppError, u16, &str, &str)> = vec![
        (AppError::NotFound("post"), 404, "not_found", "not found: post"),
        (AppError::Validation("bad".to_owned()), 422, "validation_error", "validation error: bad"),
        (AppError::Unauthorized, 401, "unauthorized", "unauthorized"),
        (AppError::Forbidden, 403, "forbidden", "forbidden"),
        (AppError::RateLimited, 429, "rate_limited", "rate limit exceeded"),
        (AppError::RateLimitBackend("down".to_owned()), 503, "rate_limit_backend", "rate limit backend error: down"),
        (AppError::Plugin("x".to_owned()), 500, "plugin_error", "plugin error: x"),
        (AppError::Db("gone".to_owned()), 500, "internal_error", "database error: gone"),
        (AppError::Config("c".to_owned()), 500, "internal_error", "config error: c"),
        (AppError::Token("t".to_owned()), 500, "internal_error", "token error: t"),
    ];
    for (e, status, code, message) in cases {
        let (s, body) = e.response_parts();
        assert_eq!(s, status);
        assert_eq!(body.error.code, code);
        assert_eq!(body.error.message, message);
    }
}

#[test]
fn unique_violations_become_validation_errors() {
    match validation_on_unique("UNIQUE constraint failed: users.email".to_owned(), "email taken".to_owned()) {
        AppError::Validation(m) => assert_eq!(m, "email taken"),
        other => panic!("unexpected {other:?}"),
    }
    match validation_on_unique("Duplicate entry 'a' for key".to_owned(), "taken".to_owned()) {
        AppError::Validation(m) => assert_eq!(m, "taken"),
        other => panic!("unexpected {other:?}"),
    }
    match validation_on_unique("connection reset".to_owned(), "taken".to_owned()) {
        AppError::Db(m) => assert_eq!(m, "connection reset"),
        other => panic!("unexpected {other:?}"),
    }
}
