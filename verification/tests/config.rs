use std::str::FromStr;

use server::config::{
    AuthMode, ConfigError, DEFAULT_APP_ADDR, EnvValue, bool_setting, database_url_setting,
    load_storage_config, normalize_app_addr, parse_bool, required_setting, text_setting,
    auth_mode_setting,
};

fn storage_value(key: &'static str) -> Result<String, ConfigError> {
    let value = match key {
        "S3_ENDPOINT" => "https://s3.example.invalid",
        "S3_BUCKET" => "test-bucket",
        "AWS_ACCESS_KEY_ID" => "test-access-key",
        "AWS_SECRET_ACCESS_KEY" => "test-secret-key",
        "AWS_REGION" => "test-region",
        "S3_FORCE_PATH_STYLE" => "true",
        "ASSET_PUBLIC_BASE_URL" => "https://assets.example.invalid/",
        _ => return Err(ConfigError::MissingImageUploadSetting { key }),
    };

    Ok(value.to_owned())
}

#[test]
fn parses_auth_mode() {
    assert_eq!(AuthMode::from_str("demo"), Ok(AuthMode::Demo));
    assert_eq!(AuthMode::from_str("neoshowcase"), Ok(AuthMode::NeoShowcase));
}

#[test]
fn rejects_invalid_auth_mode() {
    assert_eq!(AuthMode::from_str("local"), Err("local".to_owned()));
    assert!(AuthMode::from_str("Demo").is_err());
    assert!(AuthMode::from_str("").is_err());
}

#[test]
fn parses_boolean_environment_values() {
    assert_eq!(parse_bool("true"), Some(true));
    assert_eq!(parse_bool("false"), Some(false));
    assert_eq!(parse_bool("TRUE"), None);
    assert_eq!(parse_bool("1"), None);
    assert_eq!(parse_bool(""), None);
}

#[test]
fn disabled_image_upload_does_not_require_storage_settings() {
    let storage = load_storage_config(AuthMode::Demo, false, |_| -> Result<String, ConfigError> {
        panic!("storage settings must not be read when upload is disabled")
    })
    .expect("disabled upload should be valid");

    assert!(storage.is_none());
}

#[test]
fn demo_enabled_image_upload_loads_storage_settings() {
    let storage = load_storage_config(AuthMode::Demo, true, storage_value)
        .expect("demo upload configuration should be valid")
        .expect("enabled upload should contain storage settings");

    assert_eq!(storage.endpoint, "https://s3.example.invalid");
    assert_eq!(storage.bucket, "test-bucket");
    assert_eq!(storage.region, "test-region");
    assert!(storage.force_path_style);
    assert_eq!(storage.public_base_url, "https://assets.example.invalid/");
}

#[test]
fn neoshowcase_enabled_image_upload_is_rejected() {
    let result = load_storage_config(AuthMode::NeoShowcase, true, storage_value);

    assert!(matches!(
        result,
        Err(ConfigError::ImageUploadRequiresDemoAuth)
    ));
}

#[test]
fn enabled_image_upload_rejects_missing_storage_setting() {
    let result = load_storage_config(AuthMode::Demo, true, |key| {
        if key == "AWS_SECRET_ACCESS_KEY" {
            Err(ConfigError::MissingImageUploadSetting { key })
        } else {
            storage_value(key)
        }
    });

    assert!(matches!(
        result,
        Err(ConfigError::MissingImageUploadSetting {
            key: "AWS_SECRET_ACCESS_KEY"
        })
    ));
}

#[test]
fn app_addr_defaults_and_shorthand_use_loopback() {
    assert_eq!(DEFAULT_APP_ADDR, "127.0.0.1:8080");
    assert_eq!(normalize_app_addr(":8080"), "127.0.0.1:8080");
    assert_eq!(normalize_app_addr("0.0.0.0:8080"), "0.0.0.0:8080");
}

#[test]
fn invalid_force_path_style_reports_its_value() {
    let result = load_storage_config(AuthMode::Demo, true, |key| {
        if key == "S3_FORCE_PATH_STYLE" {
            Ok("yes".to_owned())
        } else {
            storage_value(key)
        }
    });

    assert_eq!(
        result,
        Err(ConfigError::InvalidBooleanEnvironmentValue {
            key: "S3_FORCE_PATH_STYLE",
            value: "yes".to_owned(),
        })
    );
}

#[test]
fn environment_settings_fall_back_and_check_values() {
    assert_eq!(auth_mode_setting(&EnvValue::NotPresent), Err(ConfigError::MissingAuthMode));
    assert_eq!(
        auth_mode_setting(&EnvValue::NotUnicode),
        Err(ConfigError::InvalidAuthMode("<non-Unicode value>".to_owned()))
    );
    assert_eq!(
        auth_mode_setting(&EnvValue::Value("neoshowcase".to_owned())),
        Ok(AuthMode::NeoShowcase)
    );
    assert_eq!(
        auth_mode_setting(&EnvValue::Value("local".to_owned())),
        Err(ConfigError::InvalidAuthMode("local".to_owned()))
    );

    assert_eq!(bool_setting("DEMO_COOKIE_SECURE", &EnvValue::NotPresent, true), Ok(true));
    assert_eq!(
        bool_setting("DEMO_COOKIE_SECURE", &EnvValue::Value("false".to_owned()), true),
        Ok(false)
    );
    assert_eq!(
        bool_setting("DEMO_COOKIE_SECURE", &EnvValue::Value("no".to_owned()), true),
        Err(ConfigError::InvalidBooleanEnvironmentValue {
            key: "DEMO_COOKIE_SECURE",
            value: "no".to_owned(),
        })
    );

    assert_eq!(
        required_setting("S3_BUCKET", &EnvValue::Value("  ".to_owned())),
        Err(ConfigError::MissingImageUploadSetting { key: "S3_BUCKET" })
    );
    assert_eq!(
        required_setting("S3_BUCKET", &EnvValue::Value("bucket".to_owned())),
        Ok("bucket".to_owned())
    );
    assert_eq!(text_setting(&EnvValue::NotPresent, "root"), "root");
    assert_eq!(text_setting(&EnvValue::Value("admin".to_owned()), "root"), "admin");
    assert_eq!(database_url_setting(&EnvValue::Value(" \t".to_owned())), None);
    assert_eq!(
        database_url_setting(&EnvValue::Value("mysql://db/app".to_owned())),
        Some("mysql://db/app".to_owned())
    );
}

fn empty_env() -> server::config::EnvSettings {
    server::config::EnvSettings {
        auth_mode: EnvValue::NotPresent,
        image_upload_enabled: EnvValue::NotPresent,
        demo_cookie_secure: EnvValue::NotPresent,
        app_addr: EnvValue::NotPresent,
        db_port: EnvValue::NotPresent,
        database_url: EnvValue::NotPresent,
        db_user: EnvValue::NotPresent,
        db_pass: EnvValue::NotPresent,
        db_host: EnvValue::NotPresent,
        db_name: EnvValue::NotPresent,
        s3_force_path_style: EnvValue::NotPresent,
        s3_endpoint: EnvValue::NotPresent,
        s3_bucket: EnvValue::NotPresent,
        aws_access_key_id: EnvValue::NotPresent,
        aws_secret_access_key: EnvValue::NotPresent,
        aws_region: EnvValue::NotPresent,
        asset_public_base_url: EnvValue::NotPresent,
    }
}

fn value(s: &str) -> EnvValue {
    EnvValue::Value(s.to_owned())
}

#[test]
fn configuration_takes_defaults() {
    let mut env = empty_env();
    env.auth_mode = value("demo");
    let config = server::config::Config::from_env(&env, None).expect("valid configuration");
    assert_eq!(config.auth_mode, AuthMode::Demo);
    assert_eq!(config.app_addr, DEFAULT_APP_ADDR);
    assert!(config.demo_cookie_secure);
    assert!(!config.image_upload_enabled);
    assert_eq!(config.storage, None);
    assert_eq!(config.database_url, None);
    assert_eq!(config.db_user, "root");
    assert_eq!(config.db_pass, "pass");
    assert_eq!(config.db_host, "localhost");
    assert_eq!(config.db_port, 3306);
    assert_eq!(config.db_name, "app");
}

#[test]
fn configuration_reads_settings_in_order() {
    let mut env = empty_env();
    assert_eq!(
        server::config::Config::from_env(&env, None),
        Err(ConfigError::MissingAuthMode)
    );
    env.auth_mode = value("neoshowcase");
    env.image_upload_enabled = value("true");
    env.db_port = value("port");
    assert_eq!(
        server::config::Config::from_env(&env, None),
        Err(ConfigError::ImageUploadRequiresDemoAuth)
    );
    env.image_upload_enabled = value("false");
    env.demo_cookie_secure = value("maybe");
    assert_eq!(
        server::config::Config::from_env(&env, Some("bad address".to_owned())),
        Err(ConfigError::InvalidBooleanEnvironmentValue {
            key: "DEMO_COOKIE_SECURE",
            value: "maybe".to_owned()
        })
    );
    env.demo_cookie_secure = value("false");
    assert_eq!(
        server::config::Config::from_env(&env, Some("bad address".to_owned())),
        Err(ConfigError::InvalidAppAddr("bad address".to_owned()))
    );
    assert!(matches!(
        server::config::Config::from_env(&env, None),
        Err(ConfigError::InvalidDbPort(_))
    ));
    env.db_port = value("3307");
    env.app_addr = value(":9000");
    env.database_url = value("mysql://db/app");
    let config = server::config::Config::from_env(&env, None).expect("valid configuration");
    assert_eq!(config.db_port, 3307);
    assert_eq!(config.app_addr, "127.0.0.1:9000");
    assert_eq!(server::config::app_addr_text(&value(":9000")), "127.0.0.1:9000");
    assert_eq!(config.database_url, Some("mysql://db/app".to_owned()));
    assert!(!config.demo_cookie_secure);
}

#[test]
fn configuration_loads_storage_for_demo_uploads() {
    let mut env = empty_env();
    env.auth_mode = value("demo");
    env.image_upload_enabled = value("true");
    env.s3_force_path_style = value("true");
    env.s3_endpoint = value("https://s3.example.invalid");
    env.s3_bucket = value("bucket");
    env.aws_access_key_id = value("key");
    env.aws_secret_access_key = value("secret");
    assert_eq!(
        server::config::Config::from_env(&env, None),
        Err(ConfigError::MissingImageUploadSetting { key: "AWS_REGION" })
    );
    env.aws_region = value("region");
    env.asset_public_base_url = value("https://assets.example.invalid");
    let config = server::config::Config::from_env(&env, None).expect("valid configuration");
    let storage = config.storage.expect("storage settings");
    assert_eq!(storage.bucket, "bucket");
    assert_eq!(storage.region, "region");
    assert!(storage.force_path_style);
    env.s3_force_path_style = value("yes");
    assert_eq!(
        server::config::Config::from_env(&env, None),
        Err(ConfigError::InvalidBooleanEnvironmentValue {
            key: "S3_FORCE_PATH_STYLE",
            value: "yes".to_owned()
        })
    );
}

#[test]
fn database_ports_are_u16() {
    assert_eq!(server::config::db_port_setting(&EnvValue::NotPresent), Ok(3306));
    assert_eq!(server::config::db_port_setting(&EnvValue::NotUnicode), Ok(3306));
    assert_eq!(server::config::db_port_setting(&value("65535")), Ok(65535));
    assert!(server::config::db_port_setting(&value("65536")).is_err());
}
