use babelbye::config::{Config, ConfigError};

fn vars(pairs: &[(&str, &str)]) -> Vec<(String, String)> {
    pairs.iter().map(|(k, v)| (k.to_string(), v.to_string())).collect()
}

#[test]
fn defaults_apply_with_bypass() {
    let c = Config::from_env(&vars(&[("DATABASE_URL", "postgres://x"), ("AUTH_BYPASS", "true")]))
        .unwrap();
    assert_eq!(c.database_url, "postgres://x");
    assert_eq!(c.db_max_connections, 5);
    assert!(c.auth_bypass);
    assert_eq!(c.auth0_domain, "dev.local");
    assert_eq!(c.auth0_audience, "https://babelbye.local");
    assert_eq!(c.auth0_issuer, "https://dev.local/");
    assert_eq!(c.allowed_origins, "*");
    assert_eq!(c.openai_api_url, "https://api.openai.com/v1");
    assert_eq!(c.openai_model, "gpt-5.2");
    assert_eq!(c.openai_api_key, None);
    assert_eq!(c.github_token, None);
    assert_eq!(c.feedback_repo, None);
}

#[test]
fn database_url_is_required() {
    assert_eq!(
        Config::from_env(&vars(&[("AUTH_BYPASS", "1")])),
        Err(ConfigError::Missing("database_url".to_string()))
    );
}

#[test]
fn default_identity_settings_are_refused_without_bypass() {
    assert_eq!(
        Config::from_env(&vars(&[("DATABASE_URL", "d")])),
        Err(ConfigError::Message(
            "Auth0 settings must be provided when AUTH_BYPASS=false".to_string()
        ))
    );
    assert!(Config::from_env(&vars(&[
        ("DATABASE_URL", "d"),
        ("AUTH0_DOMAIN", "x.eu.auth0.com"),
        ("AUTH0_AUDIENCE", "https://api"),
        ("AUTH0_ISSUER", "https://x.eu.auth0.com/"),
        ("AUTH_BYPASS", "off"),
    ]))
    .is_ok());
}

#[test]
fn settings_are_read_in_any_case() {
    let c = Config::from_env(&vars(&[
        ("database_url", "a"),
        ("Db_Max_Connections", "+12"),
        ("auth_bypass", "YES"),
        ("OPENAI_API_KEY", "k"),
        ("GITHUB_TOKEN", "g"),
        ("FEEDBACK_REPO", "o/r"),
        ("ALLOWED_ORIGINS", "https://a,https://b"),
    ]))
    .unwrap();
    assert_eq!(c.db_max_connections, 12);
    assert!(c.auth_bypass);
    assert_eq!(c.openai_api_key, Some("k".to_string()));
    assert_eq!(c.github_token, Some("g".to_string()));
    assert_eq!(c.feedback_repo, Some("o/r".to_string()));
    assert_eq!(c.allowed_origins, "https://a,https://b");
}

#[test]
fn later_variable_wins() {
    let c = Config::from_env(&vars(&[
        ("DATABASE_URL", "first"),
        ("AUTH_BYPASS", "true"),
        ("database_url", "second"),
    ]))
    .unwrap();
    assert_eq!(c.database_url, "second");
}

#[test]
fn bad_count_is_invalid() {
    for bad in ["", "x", "-3", "4294967296", "1 2"] {
        assert_eq!(
            Config::from_env(&vars(&[
                ("DATABASE_URL", "d"),
                ("AUTH_BYPASS", "true"),
                ("DB_MAX_CONNECTIONS", bad),
            ])),
            Err(ConfigError::Invalid("db_max_connections".to_string()))
        );
    }
    let c = Config::from_env(&vars(&[
        ("DATABASE_URL", "d"),
        ("AUTH_BYPASS", "true"),
        ("DB_MAX_CONNECTIONS", "4294967295"),
    ]))
    .unwrap();
    assert_eq!(c.db_max_connections, u32::MAX);
}

#[test]
fn bad_switch_is_invalid() {
    assert_eq!(
        Config::from_env(&vars(&[("DATABASE_URL", "d"), ("AUTH_BYPASS", "maybe")])),
        Err(ConfigError::Invalid("auth_bypass".to_string()))
    );
}

fn with_origins(origins: &str) -> Config {
    Config::from_env(&vars(&[("DATABASE_URL", "d"), ("AUTH_BYPASS", "true"), ("ALLOWED_ORIGINS", origins)]))
        .unwrap()
}

#[test]
fn star_allows_any_origin() {
    assert_eq!(with_origins("*").allowed_origin_list(), None);
    assert_eq!(
        Config::from_env(&vars(&[("DATABASE_URL", "d"), ("AUTH_BYPASS", "true")]))
            .unwrap()
            .allowed_origin_list(),
        None
    );
}

#[test]
fn origins_are_split_and_trimmed() {
    assert_eq!(
        with_origins("https://a.example, https://b.example ,http://c").allowed_origin_list(),
        Some(vec![
            "https://a.example".to_string(),
            "https://b.example".to_string(),
            "http://c".to_string()
        ])
    );
    assert_eq!(with_origins("https://a").allowed_origin_list(), Some(vec!["https://a".to_string()]));
    assert_eq!(
        with_origins("a,,b,").allowed_origin_list(),
        Some(vec!["a".to_string(), String::new(), "b".to_string(), String::new()])
    );
}
