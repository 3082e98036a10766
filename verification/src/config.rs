//! Runtime configuration: defaults, file values and environment overrides, and the checks a
//! configuration has to pass before the server starts.
use vstd::prelude::*;
use vstd::string::*;

use crate::error::AppError;
use crate::text::{all_space, concat, has_prefix, is_blank, starts_with, str_eq};

verus! {

#[derive(Clone, Debug)]
pub struct AppConfig {
    pub environment: String,
}

/// HTTP listener settings. `request_timeout` is in seconds.
#[derive(Clone, Debug)]
pub struct HttpConfig {
    pub bind: String,
    pub request_timeout: u64,
    pub max_body_bytes: usize,
}

#[derive(Clone, Debug)]
pub struct CorsConfig {
    pub allowed_origins: Vec<String>,
}

/// Database pool settings. The timeouts are in seconds.
#[derive(Clone, Debug)]
pub struct DatabaseConfig {
    pub url: String,
    pub max_connections: u32,
    pub min_connections: u32,
    pub connect_timeout: u64,
    pub acquire_timeout: u64,
}

#[derive(Clone, Debug)]
pub struct LogConfig {
    pub level: String,
    pub directory: String,
    pub file_prefix: String,
    pub json: bool,
}

#[derive(Clone, Debug)]
pub struct AuthConfig {
    pub jwt_secret: String,
    pub token_ttl_seconds: i64,
}

#[derive(Clone, Debug)]
pub struct RateLimitConfig {
    pub redis_url: Option<String>,
    pub login_per_minute: u32,
    pub comments_per_minute: u32,
}

#[derive(Clone, Debug)]
pub struct Config {
    pub app: AppConfig,
    pub http: HttpConfig,
    pub cors: CorsConfig,
    pub database: DatabaseConfig,
    pub log: LogConfig,
    pub auth: AuthConfig,
    pub rate_limit: RateLimitConfig,
}

/// What a configuration file holds; every entry may be absent.
#[derive(Clone, Debug, Default)]
pub struct FileConfig {
    pub app: Option<FileAppConfig>,
    pub http: Option<FileHttpConfig>,
    pub cors: Option<FileCorsConfig>,
    pub database: Option<FileDatabaseConfig>,
    pub log: Option<FileLogConfig>,
    pub auth: Option<FileAuthConfig>,
    pub rate_limit: Option<FileRateLimitConfig>,
}

#[derive(Clone, Debug, Default)]
pub struct FileAppConfig {
    pub environment: Option<String>,
}

#[derive(Clone, Debug, Default)]
pub struct FileHttpConfig {
    pub bind: Option<String>,
    pub request_timeout_secs: Option<u64>,
    pub max_body_bytes: Option<usize>,
}

#[derive(Clone, Debug, Default)]
pub struct FileCorsConfig {
    pub allowed_origins: Option<Vec<String>>,
}

#[derive(Clone, Debug, Default)]
pub struct FileDatabaseConfig {
    pub url: Option<String>,
    pub max_connections: Option<u32>,
    pub min_connections: Option<u32>,
    pub connect_timeout_secs: Option<u64>,
    pub acquire_timeout_secs: Option<u64>,
}

#[derive(Clone, Debug, Default)]
pub struct FileLogConfig {
    pub level: Option<String>,
    pub directory: Option<String>,
    pub file_prefix: Option<String>,
    pub json: Option<bool>,
}

#[derive(Clone, Debug, Default)]
pub struct FileAuthConfig {
    pub jwt_secret: Option<String>,
    pub token_ttl_seconds: Option<i64>,
}

#[derive(Clone, Debug, Default)]
pub struct FileRateLimitConfig {
    pub redis_url: Option<String>,
    pub login_per_minute: Option<u32>,
    pub comments_per_minute: Option<u32>,
}

/// The values that environment variables set, each already read as its field's type; a
/// variable that is not set is `None`.
#[derive(Clone, Debug, Default)]
pub struct EnvOverrides {
    pub environment: Option<String>,
    pub bind: Option<String>,
    pub request_timeout_secs: Option<u64>,
    pub max_body_bytes: Option<usize>,
    pub cors_allowed_origins: Option<Vec<String>>,
    pub database_url: Option<String>,
    pub db_max_connections: Option<u32>,
    pub db_min_connections: Option<u32>,
    pub db_connect_timeout_secs: Option<u64>,
    pub db_acquire_timeout_secs: Option<u64>,
    pub log_level: Option<String>,
    pub log_directory: Option<String>,
    pub log_file_prefix: Option<String>,
    pub log_json: Option<bool>,
    pub jwt_secret: Option<String>,
    pub token_ttl_seconds: Option<i64>,
    pub redis_url: Option<String>,
    pub login_per_minute: Option<u32>,
    pub comments_per_minute: Option<u32>,
}

/// The JWT secret shipped for development; a production configuration must change it.
pub open spec fn development_secret() -> Seq<char> {
    "change-me-before-production-this-is-development-only"@
}

/// The first of an environment value, a file value and a default.
pub open spec fn layered<T>(env: Option<T>, file: Option<T>, default: T) -> T {
    match env {
        Some(v) => v,
        None => match file {
            Some(v) => v,
            None => default,
        },
    }
}

pub open spec fn text_opt(s: Option<String>) -> Option<Seq<char>> {
    match s {
        Some(v) => Some(v@),
        None => None,
    }
}

pub open spec fn list_opt(s: Option<Vec<String>>) -> Option<Seq<Seq<char>>> {
    match s {
        Some(v) => Some(v@.map_values(|x: String| x@)),
        None => None,
    }
}

pub open spec fn file_app(f: FileConfig) -> FileAppConfig {
    match f.app { Some(c) => c, None => FileAppConfig { environment: None } }
}

pub open spec fn file_http(f: FileConfig) -> FileHttpConfig {
    match f.http {
        Some(c) => c,
        None => FileHttpConfig { bind: None, request_timeout_secs: None, max_body_bytes: None },
    }
}

pub open spec fn file_cors(f: FileConfig) -> FileCorsConfig {
    match f.cors { Some(c) => c, None => FileCorsConfig { allowed_origins: None } }
}

pub open spec fn file_database(f: FileConfig) -> FileDatabaseConfig {
    match f.database {
        Some(c) => c,
        None => FileDatabaseConfig {
            url: None,
            max_connections: None,
            min_connections: None,
            connect_timeout_secs: None,
            acquire_timeout_secs: None,
        },
    }
}

pub open spec fn file_log(f: FileConfig) -> FileLogConfig {
    match f.log {
        Some(c) => c,
        None => FileLogConfig { level: None, directory: None, file_prefix: None, json: None },
    }
}

pub open spec fn file_auth(f: FileConfig) -> FileAuthConfig {
    match f.auth { Some(c) => c, None => FileAuthConfig { jwt_secret: None, token_ttl_seconds: None } }
}

pub open spec fn file_rate_limit(f: FileConfig) -> FileRateLimitConfig {
    match f.rate_limit {
        Some(c) => c,
        None => FileRateLimitConfig { redis_url: None, login_per_minute: None, comments_per_minute: None },
    }
}

/// Every field of `c` is its environment value, else its file value, else its default.
pub open spec fn resolved_from(c: Config, file: FileConfig, env: EnvOverrides) -> bool {
    &&& c.app.environment@ == layered(text_opt(env.environment), text_opt(file_app(file).environment), "development"@)
    &&& c.http.bind@ == layered(text_opt(env.bind), text_opt(file_http(file).bind), "127.0.0.1:3000"@)
    &&& c.http.request_timeout == layered(env.request_timeout_secs, file_http(file).request_timeout_secs, 30u64)
    &&& c.http.max_body_bytes == layered(env.max_body_bytes, file_http(file).max_body_bytes, 1048576usize)
    &&& c.cors.allowed_origins@.map_values(|x: String| x@) == layered(
        list_opt(env.cors_allowed_origins),
        list_opt(file_cors(file).allowed_origins),
        Seq::empty(),
    )
    &&& c.database.url@ == layered(text_opt(env.database_url), text_opt(file_database(file).url), "sqlite://tiphia.db?mode=rwc"@)
    &&& c.database.max_connections == layered(env.db_max_connections, file_database(file).max_connections, 16u32)
    &&& c.database.min_connections == layered(env.db_min_connections, file_database(file).min_connections, 1u32)
    &&& c.database.connect_timeout == layered(env.db_connect_timeout_secs, file_database(file).connect_timeout_secs, 10u64)
    &&& c.database.acquire_timeout == layered(env.db_acquire_timeout_secs, file_database(file).acquire_timeout_secs, 10u64)
    &&& c.log.level@ == layered(text_opt(env.log_level), text_opt(file_log(file).level), "tiphia=info,tower_http=info"@)
    &&& c.log.directory@ == layered(text_opt(env.log_directory), text_opt(file_log(file).directory), "logs"@)
    &&& c.log.file_prefix@ == layered(text_opt(env.log_file_prefix), text_opt(file_log(file).file_prefix), "tiphia"@)
    &&& c.log.json == layered(env.log_json, file_log(file).json, true)
    &&& c.auth.jwt_secret@ == layered(text_opt(env.jwt_secret), text_opt(file_auth(file).jwt_secret), development_secret())
    &&& c.auth.token_ttl_seconds == layered(env.token_ttl_seconds, file_auth(file).token_ttl_seconds, 604800i64)
    &&& text_opt(c.rate_limit.redis_url) == match env.redis_url {
        Some(u) => Some(u@),
        None => text_opt(file_rate_limit(file).redis_url),
    }
    &&& c.rate_limit.login_per_minute == layered(env.login_per_minute, file_rate_limit(file).login_per_minute, 5u32)
    &&& c.rate_limit.comments_per_minute == layered(env.comments_per_minute, file_rate_limit(file).comments_per_minute, 10u32)
}

pub open spec fn is_web_origin(origin: Seq<char>) -> bool {
    has_prefix(origin, "http://"@) || has_prefix(origin, "https://"@)
}

pub open spec fn is_redis_url(url: Seq<char>) -> bool {
    has_prefix(url, "redis://"@) || has_prefix(url, "rediss://"@)
}

/// The index of the first origin that is not an http(s) origin, if any.
pub open spec fn first_bad_origin(origins: Seq<String>) -> Option<int> {
    if exists|i: int| 0 <= i < origins.len() && !is_web_origin(#[trigger] origins[i]@) {
        Some(choose|i: int| 0 <= i < origins.len() && !is_web_origin(#[trigger] origins[i]@)
            && forall|j: int| 0 <= j < i ==> is_web_origin(#[trigger] origins[j]@))
    } else {
        None
    }
}

/// The message of the first rule that `c` breaks, in the order the rules are checked; `None`
/// when `c` breaks none. `bind_error` is what parsing `c.http.bind` as a socket address
/// reported: `None` when it parsed, the parser's error text otherwise.
pub open spec fn config_problem(c: Config, bind_error: Option<Seq<char>>) -> Option<Seq<char>> {
    if bind_error is Some {
        Some("invalid http.bind: "@ + bind_error->0)
    } else if all_space(c.database.url@) {
        Some("database.url is required"@)
    } else if c.database.max_connections == 0 {
        Some("database.max_connections must be greater than 0"@)
    } else if c.database.min_connections > c.database.max_connections {
        Some("database.min_connections must be less than or equal to database.max_connections"@)
    } else if c.database.connect_timeout == 0 || c.database.acquire_timeout == 0 {
        Some("database timeouts must be greater than 0"@)
    } else if c.http.max_body_bytes == 0 {
        Some("http.max_body_bytes must be greater than 0"@)
    } else if c.app.environment@ == "production"@ && c.auth.jwt_secret@ == development_secret() {
        Some("auth.jwt_secret must be changed from the development default"@)
    } else if first_bad_origin(c.cors.allowed_origins@) is Some {
        Some("invalid cors.allowed_origins entry: "@ + c.cors.allowed_origins@[first_bad_origin(
            c.cors.allowed_origins@,
        )->0]@)
    } else if c.rate_limit.redis_url is Some && !is_redis_url(c.rate_limit.redis_url->0@) {
        Some("rate_limit.redis_url must start with redis:// or rediss://"@)
    } else {
        None
    }
}

/// Checks a configuration; the error is `AppError::Config` with the message of the first
/// rule broken. `bind_error` is the outcome of parsing `config.http.bind` as a
/// `std::net::SocketAddr`: `None` on success, the parse error's text otherwise.
#[verifier::loop_isolation(false)]
pub fn validate_config(config: &Config, bind_error: Option<String>) -> (r: Result<(), AppError>)
    ensures
        r is Ok <==> config_problem(*config, text_opt(bind_error)) is None,
        r matches Err(e) ==> e matches AppError::Config(m) && Some(m@) == config_problem(
            *config,
            text_opt(bind_error),
        ),
{
    if let Some(err) = bind_error {
        return Err(AppError::Config(concat("invalid http.bind: ", err.as_str())));
    }
    if is_blank(config.database.url.as_str()) {
        return Err(AppError::Config("database.url is required".to_owned()));
    }
    if config.database.max_connections == 0 {
        return Err(AppError::Config("database.max_connections must be greater than 0".to_owned()));
    }
    if config.database.min_connections > config.database.max_connections {
        return Err(
            AppError::Config(
                "database.min_connections must be less than or equal to database.max_connections".to_owned(),
            ),
        );
    }
    if config.database.connect_timeout == 0 || config.database.acquire_timeout == 0 {
        return Err(AppError::Config("database timeouts must be greater than 0".to_owned()));
    }
    if config.http.max_body_bytes == 0 {
        return Err(AppError::Config("http.max_body_bytes must be greater than 0".to_owned()));
    }
    if str_eq(config.app.environment.as_str(), "production") && str_eq(
        config.auth.jwt_secret.as_str(),
        "change-me-before-production-this-is-development-only",
    ) {
        return Err(
            AppError::Config("auth.jwt_secret must be changed from the development default".to_owned()),
        );
    }
    let origins = &config.cors.allowed_origins;
    let mut i: usize = 0;
    while i < origins.len()
        invariant
            i <= origins@.len(),
            forall|j: int| 0 <= j < i ==> is_web_origin(#[trigger] origins@[j]@),
        decreases origins@.len() - i,
    {
        let origin = origins[i].as_str();
        if !(starts_with(origin, "http://") || starts_with(origin, "https://")) {
            assert(first_bad_origin(origins@) == Some(i as int)) by {
                let k = choose|k: int| 0 <= k < origins@.len() && !is_web_origin(#[trigger] origins@[k]@)
                    && forall|j: int| 0 <= j < k ==> is_web_origin(#[trigger] origins@[j]@);
                assert(k == i);
            }
            return Err(AppError::Config(concat("invalid cors.allowed_origins entry: ", origin)));
        }
        i = i + 1;
    }
    assert(first_bad_origin(origins@) is None);
    if let Some(redis_url) = &config.rate_limit.redis_url {
        if !starts_with(redis_url.as_str(), "redis://") && !starts_with(redis_url.as_str(), "rediss://") {
            return Err(
                AppError::Config("rate_limit.redis_url must start with redis:// or rediss://".to_owned()),
            );
        }
    }
    Ok(())
}

fn pick_text(env: &Option<String>, file: &Option<String>, default: &str) -> (out: String)
    ensures
        out@ == layered(text_opt(*env), text_opt(*file), default@),
{
    match env {
        Some(v) => v.clone(),
        None => match file {
            Some(v) => v.clone(),
            None => default.to_owned(),
        },
    }
}

fn pick<T: Copy>(env: Option<T>, file: Option<T>, default: T) -> (out: T)
    ensures
        out == layered(env, file, default),
{
    match env {
        Some(v) => v,
        None => match file {
            Some(v) => v,
            None => default,
        },
    }
}

fn clone_list(v: &Vec<String>) -> (out: Vec<String>)
    ensures
        out@.map_values(|x: String| x@) == v@.map_values(|x: String| x@),
{
    let mut out: Vec<String> = Vec::new();
    let mut i: usize = 0;
    while i < v.len()
        invariant
            i <= v@.len(),
            out@.len() == i,
            forall|j: int| 0 <= j < i ==> #[trigger] out@[j]@ == v@[j]@,
        decreases v@.len() - i,
    {
        out.push(v[i].clone());
        i = i + 1;
    }
    assert(out@.map_values(|x: String| x@) =~= v@.map_values(|x: String| x@));
    out
}

/// The bind address that the given sources configure: the environment's, else the file's,
/// else `127.0.0.1:3000`.
pub fn configured_bind(file: &FileConfig, env: &EnvOverrides) -> (b: String)
    ensures
        b@ == layered(text_opt(env.bind), text_opt(file_http(*file).bind), "127.0.0.1:3000"@),
{
    let empty_text: Option<String> = None;
    let f_bind = match &file.http {
        Some(h) => &h.bind,
        None => &empty_text,
    };
    pick_text(&env.bind, f_bind, "127.0.0.1:3000")
}

impl Config {
    /// The configuration that the sources describe, once it passes every check; otherwise the
    /// error of the first rule it breaks. `bind_error` is the outcome of parsing the configured
    /// bind address (see `configured_bind`) as a `std::net::SocketAddr`: `None` on success, the
    /// parse error's text otherwise.
    pub fn load_from(file: &FileConfig, env: &EnvOverrides, bind_error: Option<String>) -> (r: Result<
        Config,
        AppError,
    >)
        ensures
            exists|c: Config|
                #![trigger resolved_from(c, *file, *env)]
                resolved_from(c, *file, *env) && match r {
                    Ok(v) => v == c && config_problem(c, text_opt(bind_error)) is None,
                    Err(e) => e matches AppError::Config(m) && Some(m@) == config_problem(
                        c,
                        text_opt(bind_error),
                    ),
                },
    {
        let c = Config::from_sources(file, env);
        match validate_config(&c, bind_error) {
            Ok(()) => Ok(c),
            Err(e) => Err(e),
        }
    }

    /// The configuration that the given file and environment values describe: for each field
    /// the environment value, else the file value, else the built-in default.
    pub fn from_sources(file: &FileConfig, env: &EnvOverrides) -> (c: Config)
        ensures
            resolved_from(c, *file, *env),
    {
        let empty_text: Option<String> = None;
        let app_env = match &file.app { Some(a) => &a.environment, None => &empty_text };
        let (f_bind, f_timeout, f_body) = match &file.http {
            Some(h) => (&h.bind, h.request_timeout_secs, h.max_body_bytes),
            None => (&empty_text, None, None),
        };
        let allowed_origins = match &env.cors_allowed_origins {
            Some(list) => clone_list(list),
            None => match &file.cors {
                Some(c) => match &c.allowed_origins {
                    Some(list) => clone_list(list),
                    None => Vec::new(),
                },
                None => Vec::new(),
            },
        };
        proof {
            let e: Seq<String> = Seq::empty();
            assert(e.map_values(|x: String| x@) =~= Seq::<Seq<char>>::empty());
        }
        let (f_url, f_max, f_min, f_connect, f_acquire) = match &file.database {
            Some(d) => (&d.url, d.max_connections, d.min_connections, d.connect_timeout_secs, d.acquire_timeout_secs),
            None => (&empty_text, None, None, None, None),
        };
        let (f_level, f_dir, f_prefix, f_json) = match &file.log {
            Some(l) => (&l.level, &l.directory, &l.file_prefix, l.json),
            None => (&empty_text, &empty_text, &empty_text, None),
        };
        let (f_secret, f_ttl) = match &file.auth {
            Some(a) => (&a.jwt_secret, a.token_ttl_seconds),
            None => (&empty_text, None),
        };
        let (f_redis, f_login, f_comments) = match &file.rate_limit {
            Some(r) => (&r.redis_url, r.login_per_minute, r.comments_per_minute),
            None => (&empty_text, None, None),
        };
        let redis_url = match &env.redis_url {
            Some(u) => Some(u.clone()),
            None => match f_redis {
                Some(u) => Some(u.clone()),
                None => None,
            },
        };
        Config {
            app: AppConfig { environment: pick_text(&env.environment, app_env, "development") },
            http: HttpConfig {
                bind: pick_text(&env.bind, f_bind, "127.0.0.1:3000"),
                request_timeout: pick(env.request_timeout_secs, f_timeout, 30),
                max_body_bytes: pick(env.max_body_bytes, f_body, 1048576),
            },
            cors: CorsConfig { allowed_origins },
            database: DatabaseConfig {
                url: pick_text(&env.database_url, f_url, "sqlite://tiphia.db?mode=rwc"),
                max_connections: pick(env.db_max_connections, f_max, 16),
                min_connections: pick(env.db_min_connections, f_min, 1),
                connect_timeout: pick(env.db_connect_timeout_secs, f_connect, 10),
                acquire_timeout: pick(env.db_acquire_timeout_secs, f_acquire, 10),
            },
            log: LogConfig {
                level: pick_text(&env.log_level, f_level, "tiphia=info,tower_http=info"),
                directory: pick_text(&env.log_directory, f_dir, "logs"),
                file_prefix: pick_text(&env.log_file_prefix, f_prefix, "tiphia"),
                json: pick(env.log_json, f_json, true),
            },
            auth: AuthConfig {
                jwt_secret: pick_text(
                    &env.jwt_secret,
                    f_secret,
                    "change-me-before-production-this-is-development-only",
                ),
                token_ttl_seconds: pick(env.token_ttl_seconds, f_ttl, 604800),
            },
            rate_limit: RateLimitConfig {
                redis_url,
                login_per_minute: pick(env.login_per_minute, f_login, 5),
                comments_per_minute: pick(env.comments_per_minute, f_comments, 10),
            },
        }
    }

}

} // verus!
