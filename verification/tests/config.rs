use data_connector::clock::now_ms;
use data_connector::config::{
    configure_oracle_client, EnvVar, Environment, OciOracleConfig, PoolSettings, WalletFiles,
};
use data_connector::db::{
    is_authentication_error, map_oracle_error, DbError, OracleConnectParams, OracleError,
};
use data_connector::secret::{DefaultSecretFetcher, SecretSource};

fn empty() -> OciOracleConfig {
    OciOracleConfig {
        username: String::new(),
        connect_descriptor: String::new(),
        wallet_path: None,
        stage: String::new(),
        secret_path: String::new(),
        pool_max: 0,
        pool_timeout_secs: 0,
    }
}

fn env(vars: &[(&str, &str)]) -> Environment {
    Environment {
        vars: vars
            .iter()
            .map(|(name, value)| EnvVar { name: name.to_string(), value: Ok(value.to_string()) })
            .collect(),
    }
}

fn database_error(code: i32, message: &str) -> OracleError {
    OracleError {
        db_error: Some(DbError { code, message: message.to_string() }),
        text: "OCI Error".to_string(),
    }
}

#[test]
fn gaps_are_filled_from_primary_variables() {
    let filled = empty()
        .with_env_defaults(&env(&[
            ("OCI_DB_USERNAME", "app"),
            ("DB_USER", "other"),
            ("OCI_DB_CONNECT_DESCRIPTOR", "db_high"),
            ("DB_CONNECT_STRING", "other"),
            ("OCI_DB_WALLET", "/wallet"),
            ("TNS_ADMIN", "/other"),
            ("OCI_DB_SECRET_PATH", "file:///run/secret"),
            ("OCI_STAGE", "BETA"),
        ]))
        .unwrap();
    assert_eq!(filled.username, "app");
    assert_eq!(filled.connect_descriptor, "db_high");
    assert_eq!(filled.wallet_path.as_deref(), Some("/wallet"));
    assert_eq!(filled.secret_path, "file:///run/secret");
    assert_eq!(filled.stage, "BETA");
    assert_eq!(filled.pool_max, 10);
    assert_eq!(filled.pool_timeout_secs, 0);
}

#[test]
fn gaps_are_filled_from_alternative_variables() {
    let filled = empty()
        .with_env_defaults(&env(&[
            ("DB_USER", "app"),
            ("DB_CONNECT_STRING", "db_high"),
            ("TNS_ADMIN", "/wallet"),
            ("DB_PASSWORD", "pw"),
        ]))
        .unwrap();
    assert_eq!(filled.username, "app");
    assert_eq!(filled.connect_descriptor, "db_high");
    assert_eq!(filled.wallet_path.as_deref(), Some("/wallet"));
    assert_eq!(filled.secret_path, "env://DB_PASSWORD");
    assert_eq!(filled.stage, "PRODUCTION");
}

#[test]
fn secret_path_has_a_default() {
    let base = [("DB_USER", "app"), ("DB_CONNECT_STRING", "db_high")];
    let filled = empty().with_env_defaults(&env(&base)).unwrap();
    assert_eq!(filled.secret_path, "env://OCI_DB_PASSWORD");
    assert_eq!(filled.wallet_path, None);
    let both = [base[0], base[1], ("OCI_DB_PASSWORD", "a"), ("DB_PASSWORD", "b")];
    let filled = empty().with_env_defaults(&env(&both)).unwrap();
    assert_eq!(filled.secret_path, "env://OCI_DB_PASSWORD");
}

#[test]
fn configured_values_win_over_the_environment() {
    let config = OciOracleConfig {
        username: "u".to_string(),
        connect_descriptor: "d".to_string(),
        wallet_path: Some("/w".to_string()),
        stage: "S".to_string(),
        secret_path: "env://P".to_string(),
        pool_max: 3,
        pool_timeout_secs: 7,
    };
    let vars = env(&[
        ("OCI_DB_USERNAME", "x"),
        ("OCI_DB_CONNECT_DESCRIPTOR", "x"),
        ("OCI_DB_WALLET", "x"),
        ("OCI_DB_SECRET_PATH", "x"),
        ("OCI_STAGE", "x"),
    ]);
    let filled = config.with_env_defaults(&vars).unwrap();
    assert_eq!(filled.username, "u");
    assert_eq!(filled.connect_descriptor, "d");
    assert_eq!(filled.wallet_path.as_deref(), Some("/w"));
    assert_eq!(filled.stage, "S");
    assert_eq!(filled.secret_path, "env://P");
    assert_eq!(filled.pool_max, 3);
    assert_eq!(filled.pool_timeout_secs, 7);
}

#[test]
fn filling_gaps_twice_changes_nothing_more() {
    let vars = env(&[("DB_USER", "app"), ("DB_CONNECT_STRING", "db_high")]);
    let once = empty().with_env_defaults(&vars).unwrap();
    let twice = once.clone().with_env_defaults(&vars).unwrap();
    assert_eq!(once.username, twice.username);
    assert_eq!(once.secret_path, twice.secret_path);
    assert_eq!(once.stage, twice.stage);
    assert_eq!(once.pool_max, twice.pool_max);
}

#[test]
fn missing_user_name_is_reported() {
    let err = empty().with_env_defaults(&env(&[])).err();
    assert_eq!(
        err.as_deref(),
        Some("Neither OCI_DB_USERNAME nor DB_USER is set: environment variable not found")
    );
}

#[test]
fn missing_descriptor_is_reported_with_the_last_error() {
    let vars = Environment {
        vars: vec![
            EnvVar { name: "DB_USER".to_string(), value: Ok("app".to_string()) },
            EnvVar { name: "DB_CONNECT_STRING".to_string(), value: Err("not unicode".to_string()) },
        ],
    };
    let err = empty().with_env_defaults(&vars).err();
    assert_eq!(
        err.as_deref(),
        Some("Neither OCI_DB_CONNECT_DESCRIPTOR nor DB_CONNECT_STRING is set: not unicode")
    );
}

#[test]
fn all_variables_are_listed() {
    let names = OciOracleConfig::env_names();
    assert_eq!(names.len(), 10);
    assert!(names.contains(&"OCI_DB_SECRET_PATH".to_string()));
    assert!(names.contains(&"TNS_ADMIN".to_string()));
}

#[test]
fn pool_without_timeout_waits_for_ever() {
    let config = OciOracleConfig { pool_max: 5, ..empty() };
    assert_eq!(config.pool_settings(), PoolSettings { max_size: 5, wait_timeout_secs: None });
    let config = OciOracleConfig { pool_max: 5, pool_timeout_secs: 30, ..empty() };
    assert_eq!(config.pool_settings(), PoolSettings { max_size: 5, wait_timeout_secs: Some(30) });
}

#[test]
fn wallets_are_checked() {
    let missing = WalletFiles { is_dir: false, has_tnsnames: true, has_sqlnet: true };
    assert_eq!(
        configure_oracle_client("/w", missing),
        Err("Oracle wallet path '/w' is not a directory".to_string())
    );
    let bare = WalletFiles { is_dir: true, has_tnsnames: false, has_sqlnet: false };
    assert_eq!(
        configure_oracle_client("/w", bare),
        Err("Oracle wallet path '/w' is missing tnsnames.ora or sqlnet.ora".to_string())
    );
    let one = WalletFiles { is_dir: true, has_tnsnames: false, has_sqlnet: true };
    assert_eq!(configure_oracle_client("/w", one), Ok(()));
    let other = WalletFiles { is_dir: true, has_tnsnames: true, has_sqlnet: false };
    assert_eq!(configure_oracle_client("/w", other), Ok(()));
}

#[test]
fn secret_paths_name_their_source() {
    let fetcher = DefaultSecretFetcher;
    assert!(matches!(fetcher.source("env://PW"), SecretSource::Variable(name) if name == "PW"));
    assert!(matches!(fetcher.source("file:///run/pw"), SecretSource::File(path) if path == "/run/pw"));
    assert!(matches!(fetcher.source("ocid1.vaultsecret"), SecretSource::Fallback));
    assert!(matches!(fetcher.source(""), SecretSource::Fallback));
    assert!(matches!(fetcher.source("ENV://PW"), SecretSource::Fallback));
}

#[test]
fn secrets_from_files_are_trimmed() {
    let fetcher = DefaultSecretFetcher;
    let content = || Ok(" p w \n".to_string());
    assert_eq!(fetcher.fetch_latest_secret("file://f", "PRODUCTION", content()), Ok("p w".to_string()));
    assert_eq!(fetcher.fetch_latest_secret("env://V", "PRODUCTION", content()), Ok(" p w \n".to_string()));
    assert_eq!(fetcher.fetch_latest_secret("vault", "BETA", content()), Ok(" p w \n".to_string()));
}

#[test]
fn missing_secrets_are_reported() {
    let fetcher = DefaultSecretFetcher;
    let gone = || Err("gone".to_string());
    assert_eq!(
        fetcher.fetch_latest_secret("env://V", "S", gone()),
        Err("env V not found: gone".to_string())
    );
    assert_eq!(
        fetcher.fetch_latest_secret("file://f", "S", gone()),
        Err("failed reading file secret 'f': gone".to_string())
    );
    assert_eq!(
        fetcher.fetch_latest_secret("x", "S", gone()),
        Err("OCI_DB_PASSWORD not set: gone".to_string())
    );
}

#[test]
fn errors_of_the_database_are_reported_with_their_code() {
    assert_eq!(
        map_oracle_error(database_error(942, "table or view does not exist")),
        "Oracle error (code 942): table or view does not exist"
    );
    let other = OracleError { db_error: None, text: "DPI-1047".to_string() };
    assert_eq!(map_oracle_error(other), "DPI-1047");
}

#[test]
fn refused_credentials_are_told_from_other_errors() {
    for code in [1017, 28000, 28001] {
        assert!(is_authentication_error(&database_error(code, "")));
    }
    assert!(!is_authentication_error(&database_error(28002, "")));
    assert!(!is_authentication_error(&OracleError { db_error: None, text: String::new() }));
}

#[test]
fn connect_params_hold_what_they_are_given() {
    let params =
        OracleConnectParams::new("u".to_string(), "p".to_string(), "d".to_string()).clone();
    assert_eq!(params.username, "u");
    assert_eq!(params.password, "p");
    assert_eq!(params.connect_descriptor, "d");
}

#[test]
fn milliseconds_are_cut_to_64_bits() {
    assert_eq!(now_ms(Some(1_700_000_000_123)), 1_700_000_000_123);
    assert_eq!(now_ms(Some((1u128 << 64) + 5)), 5);
    assert_eq!(now_ms(None), 0);
}
