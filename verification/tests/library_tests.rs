use harbor::commands::{
    clean_secret_keys, find_secret, is_confirmed, resolve_environment, resolve_shell, set_verb,
    Commands, ProjectCommands,
};
use harbor::config::{config_error_report, missing_config_report, setup_file_contents, Config, ConfigError, HarborToml, MAIN_CONFIG_FILE};
use harbor::crypto::helper::key_from;
use harbor::crypto::{decrypt, encrypt, encrypt_with_nonce, CryptoError};
use harbor::keys::{encode_key, key_from_encoded, resolve_key, KeyError, KeyLookup, KeySource};
use harbor::paths::{expand_tilde, expand_tilde_with_home};
use harbor::secrets::SecretParseError;
use harbor::server::{data_dir, health_check, parse_port, server_host, server_port};
use harbor::store::{
    check_new_project, check_project_to_delete, check_secret_to_delete, construct_error,
    project_id_from_lookup, project_insert_result, secret_write, InsertOutcome, SecretWrite,
    SqliteStore, StoreError,
};
use harbor::{parse_secret_pairs, Environment};
use std::collections::HashMap;

fn counting_key() -> [u8; 32] {
    let mut k = [0u8; 32];
    for (i, b) in k.iter_mut().enumerate() {
        *b = i as u8;
    }
    k
}

fn counting_nonce() -> [u8; 12] {
    let mut n = [0u8; 12];
    for (i, b) in n.iter_mut().enumerate() {
        *b = i as u8;
    }
    n
}

#[test]
fn environment_names_parse_back() {
    for env in [Environment::Dev, Environment::Prod, Environment::Staging] {
        assert_eq!(Environment::parse(env.as_str()), Ok(env));
    }
    assert_eq!(Environment::Dev.as_str(), "dev");
    assert_eq!(Environment::Staging.as_str(), "staging");
}

#[test]
fn environment_parse_ignores_case_and_unicode_whitespace() {
    assert_eq!(Environment::parse("\tStaging\n"), Ok(Environment::Staging));
    assert_eq!(Environment::parse("PrOd"), Ok(Environment::Prod));
    assert_eq!(Environment::parse("\u{00a0}dev\u{3000}"), Ok(Environment::Dev));
    assert!(Environment::parse("de v").is_err());
    assert!(Environment::parse("").is_err());
    assert!(Environment::parse("production").is_err());
}

#[test]
fn secret_pairs_keep_untrimmed_key_and_value_parts() {
    let input = vec!["FOO =bar".to_string(), "K= v".to_string(), "E=".to_string()];
    let parsed = parse_secret_pairs(&input).expect("parse");
    assert_eq!(parsed[0], ("FOO ".to_string(), "bar".to_string()));
    assert_eq!(parsed[1], ("K".to_string(), " v".to_string()));
    assert_eq!(parsed[2], ("E".to_string(), "".to_string()));
}

#[test]
fn secret_pairs_report_first_failure() {
    let input = vec!["A=1".to_string(), "  =x".to_string(), "NOPE".to_string()];
    assert_eq!(parse_secret_pairs(&input), Err(SecretParseError::EmptyKey));
    let input = vec!["  NOPE ".to_string(), "=x".to_string()];
    let err = parse_secret_pairs(&input).unwrap_err();
    assert_eq!(err, SecretParseError::InvalidFormat("  NOPE ".to_string()));
    assert_eq!(err.to_string(), "Invalid secret format:   NOPE ");
    assert_eq!(parse_secret_pairs(&[]), Ok(vec![]));
}

#[test]
fn secret_pairs_round_trip_through_assignments() {
    let pairs = vec![
        ("API_KEY".to_string(), "abc=def".to_string()),
        ("TOKEN ".to_string(), "  x".to_string()),
    ];
    let written: Vec<String> = pairs.iter().map(|(k, v)| format!("{}={}", k, v)).collect();
    assert_eq!(parse_secret_pairs(&written), Ok(pairs));
}

#[test]
fn encryption_matches_known_answer() {
    let ct = encrypt_with_nonce(&counting_key(), &counting_nonce(), b"secret").expect("seal");
    assert_eq!(
        ct,
        vec![
            250, 158, 107, 114, 76, 99, 79, 30, 171, 5, 28, 174, 221, 41, 206, 167, 235, 227, 6,
            19, 54, 19
        ]
    );
    let back = decrypt(&counting_key(), ct, &counting_nonce()).expect("open");
    assert_eq!(back, b"secret".to_vec());
}

#[test]
fn encryption_of_empty_message_is_a_bare_tag() {
    let key = counting_key();
    let (nonce, ct) = encrypt(&key, Vec::new()).expect("seal");
    assert_eq!(ct.len(), 16);
    assert_eq!(decrypt(&key, ct, &nonce), Ok(Vec::new()));
}

#[test]
fn decrypt_refuses_short_ciphertext() {
    let key = counting_key();
    assert_eq!(decrypt(&key, vec![0u8; 15], &counting_nonce()), Err(CryptoError::Aead));
    assert_eq!(CryptoError::Aead.to_string(), "aead::Error");
}

#[test]
fn key_from_rejects_long_input() {
    assert_eq!(key_from(vec![0u8; 33]), Err(CryptoError::InvalidKeyLength));
    assert_eq!(key_from(Vec::new()), Err(CryptoError::InvalidKeyLength));
}

#[test]
fn stored_key_encoding_round_trips() {
    let key = counting_key();
    let encoded = encode_key(&key);
    assert_eq!(encoded, "AAECAwQFBgcICQoLDA0ODxAREhMUFRYXGBkaGxwdHh8=");
    assert_eq!(key_from_encoded(&encoded), Ok(key));
}

#[test]
fn stored_key_errors() {
    match key_from_encoded("not base64!") {
        Err(KeyError::Encoding(m)) => assert!(!m.is_empty()),
        other => panic!("expected an encoding error, got {:?}", other),
    }
    assert_eq!(
        key_from_encoded("AAAA"),
        Err(KeyError::Key(CryptoError::InvalidKeyLength))
    );
    assert_eq!(KeyError::Encoding("bad".to_string()).to_string(), "bad");
}

#[test]
fn resolve_key_handles_each_keyring_answer() {
    match resolve_key(KeyLookup::NoEntry).expect("fresh key") {
        KeySource::Generated { key, encoded } => {
            assert_eq!(key_from_encoded(&encoded), Ok(key));
        }
        KeySource::Stored(_) => panic!("expected a generated key"),
    }
    let stored = encode_key(&counting_key());
    assert_eq!(
        resolve_key(KeyLookup::Found(stored)),
        Ok(KeySource::Stored(counting_key()))
    );
    assert_eq!(
        resolve_key(KeyLookup::Failed("locked".to_string())),
        Err(KeyError::Keyring("locked".to_string()))
    );
    assert!(matches!(
        resolve_key(KeyLookup::Found("%%".to_string())),
        Err(KeyError::Encoding(_))
    ));
}

#[test]
fn config_from_main_file() {
    let main = HarborToml::new("proj".to_string(), "1".to_string(), Environment::Dev);
    let config = Config::from_repo_root(Ok(main)).expect("config");
    assert_eq!(config.name, "proj");
    assert_eq!(config.version, "1");
    assert_eq!(config.default_env, Environment::Dev);
    assert_eq!(MAIN_CONFIG_FILE, ".harbor.toml");
}

#[test]
fn config_errors_pass_through() {
    let err = ConfigError::Toml { message: "bad".to_string() };
    assert_eq!(Config::from_repo_root(Err(err.clone())), Err(err.clone()));
    assert!(err.to_string().contains("TOML error"));
    let io = ConfigError::Io { message: "gone".to_string(), not_found: true };
    assert_eq!(io.to_string(), "IO error: gone");
    assert!(io.is_not_found());
    assert!(!err.is_not_found());
}

#[test]
fn merged_env_vars_copies_store_vars() {
    let config = Config {
        name: "p".to_string(),
        version: "1".to_string(),
        default_env: Environment::Prod,
    };
    let mut vars = HashMap::new();
    vars.insert("A".to_string(), "1".to_string());
    assert_eq!(config.merged_env_vars(&vars), vars);
}

#[test]
fn setup_file_names_the_project() {
    assert_eq!(
        setup_file_contents("alpha"),
        "version = \"1\"\nname = \"alpha\"\nconfig = \"dev\""
    );
}

#[test]
fn store_messages_for_missing_project_or_secret() {
    let err = check_project_to_delete(false).unwrap_err();
    assert_eq!(err.to_string(), "Project does not exist");
    assert!(check_project_to_delete(true).is_ok());

    let err = project_id_from_lookup(None).unwrap_err();
    assert_eq!(err.to_string(), "Project not found");
    assert_eq!(project_id_from_lookup(Some("id".to_string())), Ok("id".to_string()));

    let err = check_secret_to_delete(None).unwrap_err();
    assert_eq!(err.to_string(), "Secret does not exist");
    assert!(check_secret_to_delete(Some("x".to_string())).is_ok());
}

#[test]
fn store_refuses_duplicate_projects() {
    assert_eq!(
        check_new_project(true),
        Err(StoreError::AlreadyExists("Project already exists".to_string()))
    );
    assert!(check_new_project(false).is_ok());
    assert_eq!(project_insert_result(InsertOutcome::Inserted), Ok(()));
    assert_eq!(
        project_insert_result(InsertOutcome::UniqueViolation),
        Err(StoreError::AlreadyExists("Project already exists".to_string()))
    );
    assert_eq!(
        project_insert_result(InsertOutcome::Failed("disk".to_string())),
        Err(StoreError::Backend("disk".to_string()))
    );
    assert_eq!(
        construct_error("msg"),
        Err(StoreError::AlreadyExists("msg".to_string()))
    );
}

#[test]
fn store_writes_update_existing_secrets() {
    assert_eq!(secret_write(true), SecretWrite::Update);
    assert_eq!(secret_write(false), SecretWrite::Insert);
    assert_eq!(SqliteStore::new(String::new()).configured_url(), None);
    assert_eq!(
        SqliteStore::new(String::new()).db_url(Some("/env.db".to_string())),
        Some("/env.db".to_string())
    );
    assert_eq!(SqliteStore::new(String::new()).db_url(None), None);
    assert_eq!(
        SqliteStore::new("/x.db".to_string()).db_url(Some("/env.db".to_string())),
        Some("/x.db".to_string())
    );
    assert_eq!(
        SqliteStore::new("/tmp/x.db".to_string()).configured_url(),
        Some("/tmp/x.db".to_string())
    );
}

#[test]
fn commands_needing_a_config() {
    let show = Commands::Show { environment: None, key: "K".to_string() };
    assert!(show.requires_config());
    assert!(Commands::List {}.requires_config());
    assert!(!Commands::Setup {}.requires_config());
    let project = Commands::Project { command: ProjectCommands::List {} };
    assert!(!project.requires_config());
}

#[test]
fn environment_flag_overrides_default() {
    assert_eq!(resolve_environment(None, Environment::Prod), Ok(Environment::Prod));
    assert_eq!(resolve_environment(Some("staging"), Environment::Prod), Ok(Environment::Staging));
    assert!(resolve_environment(Some("qa"), Environment::Prod).is_err());
}

#[test]
fn delete_keys_are_trimmed_and_blank_ones_dropped() {
    let keys = vec![" A ".to_string(), "   ".to_string(), "B".to_string(), "".to_string()];
    let cleaned = clean_secret_keys(&keys);
    assert_eq!(cleaned, vec!["A".to_string(), "B".to_string()]);
    assert_eq!(clean_secret_keys(&cleaned), cleaned);
}

#[test]
fn finds_first_secret_with_name() {
    let secrets = vec![
        ("A".to_string(), vec![1u8], vec![2u8]),
        ("B".to_string(), vec![3u8], vec![4u8]),
        ("B".to_string(), vec![5u8], vec![6u8]),
    ];
    assert_eq!(find_secret(&secrets, &"B".to_string()), Some(1));
    assert_eq!(find_secret(&secrets, &"C".to_string()), None);
}

#[test]
fn confirmation_and_verbs() {
    assert!(is_confirmed("y"));
    assert!(is_confirmed("Y"));
    assert!(!is_confirmed("yes"));
    assert!(!is_confirmed(""));
    assert_eq!(set_verb(true), "Updated");
    assert_eq!(set_verb(false), "Set");
}

#[test]
fn shell_choice() {
    assert_eq!(resolve_shell(Some("zsh".to_string()), Some("bash".to_string())), "zsh");
    assert_eq!(resolve_shell(None, Some("bash".to_string())), "bash");
    assert_eq!(resolve_shell(None, None), "/bin/sh");
}

#[test]
fn tilde_expansion() {
    let home = Some("/home/u".to_string());
    assert_eq!(expand_tilde_with_home("~/x/y", home.clone()), "/home/u/x/y");
    assert_eq!(expand_tilde_with_home("~/x", Some("/home/u/".to_string())), "/home/u/x");
    assert_eq!(expand_tilde_with_home("~//etc", home.clone()), "/etc");
    assert_eq!(expand_tilde_with_home("~/", home.clone()), "/home/u/");
    assert_eq!(expand_tilde_with_home("~x", home.clone()), "~x");
    assert_eq!(expand_tilde_with_home("~/x", None), "~/x");
    assert_eq!(expand_tilde("/abs/path"), "/abs/path");
}

#[test]
fn port_parsing() {
    assert_eq!(parse_port("8080"), Some(8080));
    assert_eq!(parse_port("+80"), Some(80));
    assert_eq!(parse_port("0065535"), Some(65535));
    assert_eq!(parse_port("65536"), None);
    assert_eq!(parse_port(""), None);
    assert_eq!(parse_port("+"), None);
    assert_eq!(parse_port("-1"), None);
    assert_eq!(parse_port("8a"), None);
    assert_eq!(parse_port("99999999999"), None);
}

#[test]
fn server_settings() {
    assert_eq!(server_port(None), Some(8080));
    assert_eq!(server_port(Some("x".to_string())), None);
    assert_eq!(server_host(None), "127.0.0.1");
    assert_eq!(server_host(Some("0.0.0.0".to_string())), "0.0.0.0");
    assert_eq!(data_dir(None), "/var/lib/harbor");
    assert_eq!(data_dir(Some("/d".to_string())), "/d");
    assert_eq!(health_check(), "OK");
}

#[test]
fn environment_displays_its_name() {
    assert_eq!(Environment::Prod.to_string(), "prod");
    assert_eq!(Environment::Dev.to_string(), "dev");
    assert_eq!(Environment::Staging.to_string(), "staging");
}

#[test]
fn config_error_reports() {
    let missing = ConfigError::Io { message: "No such file".to_string(), not_found: true };
    assert_eq!(
        config_error_report(&missing),
        "Missing .harbor.toml. Run `harbor setup` first."
    );
    let denied = ConfigError::Io { message: "denied".to_string(), not_found: false };
    assert_eq!(config_error_report(&denied), "Error reading config: IO error: denied");
}

#[test]
fn missing_config_names_setup() {
    assert_eq!(missing_config_report(), "Missing .harbor.toml. Run `harbor setup` first.");
}
