use n8n_cli::config::{
    resolve_config, validate_config, CliOverrides, Config, ConfigFile, EnvVar, NamedProfile,
    Profile,
};
use n8n_cli::error::N8nError;
use n8n_cli::output::OutputFormat;

fn overrides() -> CliOverrides {
    CliOverrides {
        profile: None,
        url: None,
        api_key: None,
        output: OutputFormat::Table,
        verbose: false,
        quiet: false,
    }
}

fn var(name: &str, value: &str) -> EnvVar {
    EnvVar { name: name.to_string(), value: value.to_string() }
}

fn profile(name: &str, url: &str, key: Option<&str>, key_env: Option<&str>) -> NamedProfile {
    NamedProfile {
        name: name.to_string(),
        profile: Profile {
            base_url: url.to_string(),
            api_key: key.map(|k| k.to_string()),
            api_key_env: key_env.map(|k| k.to_string()),
            output_format: Some(OutputFormat::Json),
        },
    }
}

fn file(default_profile: Option<&str>, profiles: Vec<NamedProfile>) -> ConfigFile {
    ConfigFile {
        default_profile: default_profile.map(|p| p.to_string()),
        output_format: Some(OutputFormat::JsonPretty),
        timeout_secs: Some(90),
        profiles,
    }
}

#[test]
fn test_default_config() {
    let config = Config::default();
    assert_eq!(config.base_url, "http://localhost:5678");
    assert!(config.api_key.is_empty());
}

#[test]
fn default_config_has_table_output_and_half_a_minute() {
    let config = Config::default();
    assert_eq!(config.output_format, OutputFormat::Table);
    assert_eq!(config.timeout_secs, 30);
    assert!(!config.verbose);
    assert!(!config.quiet);
}

#[test]
fn nothing_configured_gives_the_defaults() {
    let config = resolve_config(None, &vec![], overrides()).unwrap();
    assert_eq!(config.base_url, "http://localhost:5678");
    assert_eq!(config.api_key, "");
    assert_eq!(config.timeout_secs, 30);
    assert_eq!(config.output_format, OutputFormat::Table);
}

#[test]
fn default_profile_of_the_file_is_used() {
    let f = file(
        Some("prod"),
        vec![profile("dev", "http://dev", Some("dev-key"), None), profile("prod", "http://prod", Some("prod-key"), None)],
    );
    let config = resolve_config(Some(f), &vec![], overrides()).unwrap();
    assert_eq!(config.base_url, "http://prod");
    assert_eq!(config.api_key, "prod-key");
    assert_eq!(config.timeout_secs, 90);
    assert_eq!(config.output_format, OutputFormat::Table);
}

#[test]
fn profile_is_chosen_by_command_line_then_environment_then_file() {
    let profiles = || {
        vec![
            profile("a", "http://a", None, None),
            profile("b", "http://b", None, None),
            profile("c", "http://c", None, None),
        ]
    };
    let env = vec![var("N8N_PROFILE", "b")];
    let mut cli = overrides();
    cli.profile = Some("a".to_string());
    assert_eq!(resolve_config(Some(file(Some("c"), profiles())), &env, cli).unwrap().base_url, "http://a");
    assert_eq!(
        resolve_config(Some(file(Some("c"), profiles())), &env, overrides()).unwrap().base_url,
        "http://b"
    );
    assert_eq!(
        resolve_config(Some(file(Some("c"), profiles())), &vec![], overrides()).unwrap().base_url,
        "http://c"
    );
}

#[test]
fn profile_key_may_come_from_a_named_variable() {
    let f = file(Some("p"), vec![profile("p", "http://p", None, Some("MY_KEY"))]);
    let config = resolve_config(Some(f), &vec![var("MY_KEY", "from-env")], overrides()).unwrap();
    assert_eq!(config.api_key, "from-env");
    let f = file(Some("p"), vec![profile("p", "http://p", Some("own"), Some("MY_KEY"))]);
    let config = resolve_config(Some(f), &vec![var("MY_KEY", "from-env")], overrides()).unwrap();
    assert_eq!(config.api_key, "own");
    let f = file(Some("p"), vec![profile("p", "http://p", None, Some("MY_KEY"))]);
    let config = resolve_config(Some(f), &vec![], overrides()).unwrap();
    assert_eq!(config.api_key, "");
}

#[test]
fn environment_beats_file_and_command_line_beats_environment() {
    let f = || file(Some("p"), vec![profile("p", "http://p", Some("file-key"), None)]);
    let env = vec![var("N8N_BASE_URL", "http://env"), var("N8N_API_KEY", "env-key")];
    let config = resolve_config(Some(f()), &env, overrides()).unwrap();
    assert_eq!(config.base_url, "http://env");
    assert_eq!(config.api_key, "env-key");
    let mut cli = overrides();
    cli.url = Some("http://cli".to_string());
    cli.api_key = Some("cli-key".to_string());
    cli.output = OutputFormat::Json;
    cli.verbose = true;
    cli.quiet = true;
    let config = resolve_config(Some(f()), &env, cli).unwrap();
    assert_eq!(config.base_url, "http://cli");
    assert_eq!(config.api_key, "cli-key");
    assert_eq!(config.output_format, OutputFormat::Json);
    assert!(config.verbose);
    assert!(config.quiet);
}

#[test]
fn unknown_profile_is_an_error() {
    let f = file(None, vec![profile("a", "http://a", None, None)]);
    let mut cli = overrides();
    cli.profile = Some("nope".to_string());
    match resolve_config(Some(f), &vec![], cli) {
        Err(N8nError::ProfileNotFound(name)) => assert_eq!(name, "nope"),
        other => panic!("unexpected {:?}", other),
    }
}

#[test]
fn profile_choice_is_ignored_without_a_file() {
    let mut cli = overrides();
    cli.profile = Some("nope".to_string());
    assert!(resolve_config(None, &vec![], cli).is_ok());
}

#[test]
fn validate_config_asks_for_key_then_url() {
    let mut config = Config::default();
    assert!(matches!(validate_config(&config), Err(N8nError::MissingApiKey)));
    config.api_key = "k".to_string();
    assert!(validate_config(&config).is_ok());
    config.base_url = String::new();
    assert!(matches!(validate_config(&config), Err(N8nError::MissingBaseUrl)));
    config.api_key = String::new();
    assert!(matches!(validate_config(&config), Err(N8nError::MissingApiKey)));
}
