//! Server configuration: how settings read from the environment are checked
//! and given their defaults.
use vstd::prelude::*;

use crate::form::integer_text_value;
use crate::text::{concat_str, is_blank, str_eq, all_white_space};

verus! {

/// The address the server listens on when `APP_ADDR` is not set.
pub const DEFAULT_APP_ADDR: &'static str = "127.0.0.1:8080";
/// Whether the demo session cookie is `Secure` when `DEMO_COOKIE_SECURE` is not set.
pub const DEFAULT_DEMO_COOKIE_SECURE: bool = true;
/// The database user when `DB_USER` is not set.
pub const DEFAULT_DB_USER: &'static str = "root";
/// The database password when `DB_PASS` is not set.
pub const DEFAULT_DB_PASS: &'static str = "pass";
/// The database host when `DB_HOST` is not set.
pub const DEFAULT_DB_HOST: &'static str = "localhost";
/// The database port when `DB_PORT` is not set.
pub const DEFAULT_DB_PORT: u16 = 3306;
/// The database name when `DB_NAME` is not set.
pub const DEFAULT_DB_NAME: &'static str = "app";
/// Whether image upload is enabled when `IMAGE_UPLOAD_ENABLED` is not set.
pub const DEFAULT_IMAGE_UPLOAD_ENABLED: bool = false;

/// How users sign in.
#[derive(Clone, Copy, Debug, PartialEq, Eq, Structural)]
pub enum AuthMode {
    Demo,
    NeoShowcase,
}

/// The settings of the object storage that uploaded images go to.
#[derive(Clone, Debug, PartialEq, Eq)]
pub struct StorageConfig {
    pub endpoint: String,
    pub bucket: String,
    pub access_key_id: String,
    pub secret_access_key: String,
    pub region: String,
    pub force_path_style: bool,
    pub public_base_url: String,
}

/// Why the configuration could not be loaded.
#[derive(Debug, PartialEq, Eq)]
pub enum ConfigError {
    MissingAuthMode,
    InvalidAuthMode(String),
    ImageUploadRequiresDemoAuth,
    MissingImageUploadSetting { key: &'static str },
    /// `APP_ADDR` is not a socket address; the parser's message.
    InvalidAppAddr(String),
    InvalidBooleanEnvironmentValue { key: &'static str, value: String },
    /// `DB_PORT` is not a port number; the parser's message.
    InvalidDbPort(String),
}

/// What the environment holds for a variable.
#[derive(Clone, Debug, PartialEq, Eq)]
pub enum EnvValue {
    NotPresent,
    NotUnicode,
    Value(String),
}

/// The text that stands for a value that is not valid Unicode.
pub open spec fn non_unicode_text() -> Seq<char> {
    "<non-Unicode value>"@
}

/// The mode a setting names: `demo` or `neoshowcase`, exactly.
pub open spec fn auth_mode_of(value: Seq<char>) -> Option<AuthMode> {
    if value == "demo"@ {
        Some(AuthMode::Demo)
    } else if value == "neoshowcase"@ {
        Some(AuthMode::NeoShowcase)
    } else {
        None
    }
}

impl AuthMode {
    /// Reads `demo` or `neoshowcase`; anything else is returned as the error.
    pub fn parse(value: &str) -> (r: Result<AuthMode, String>)
        ensures
            match auth_mode_of(value@) {
                Some(m) => r == Ok::<AuthMode, String>(m),
                None => r matches Err(e) && e@ == value@,
            },
    {
        if str_eq(value, "demo") {
            Ok(AuthMode::Demo)
        } else if str_eq(value, "neoshowcase") {
            Ok(AuthMode::NeoShowcase)
        } else {
            Err(String::from_str(value))
        }
    }
}

impl std::str::FromStr for AuthMode {
    type Err = String;

    fn from_str(value: &str) -> (r: Result<AuthMode, String>)
        ensures
            match auth_mode_of(value@) {
                Some(m) => r == Ok::<AuthMode, String>(m),
                None => r matches Err(e) && e@ == value@,
            },
    {
        AuthMode::parse(value)
    }
}

/// The boolean a setting names: `true` or `false`, exactly.
pub open spec fn bool_of(value: Seq<char>) -> Option<bool> {
    if value == "true"@ {
        Some(true)
    } else if value == "false"@ {
        Some(false)
    } else {
        None
    }
}

/// Reads `true` or `false`.
pub fn parse_bool(value: &str) -> (r: Option<bool>)
    ensures
        r == bool_of(value@),
{
    if str_eq(value, "true") {
        Some(true)
    } else if str_eq(value, "false") {
        Some(false)
    } else {
        None
    }
}

/// A listen address; one that starts with `:` names a port on the loopback
/// interface.
pub fn normalize_app_addr(value: &str) -> (r: String)
    ensures
        r@ == if value@.len() > 0 && value@[0] == ':' {
            "127.0.0.1"@ + value@
        } else {
            value@
        },
{
    let chars = crate::text::to_chars(value);
    if chars.len() > 0 && chars[0] == ':' {
        concat_str("127.0.0.1", value)
    } else {
        String::from_str(value)
    }
}

/// The authentication mode named by `AUTH_MODE`.
pub fn auth_mode_setting(value: &EnvValue) -> (r: Result<AuthMode, ConfigError>)
    ensures
        match value {
            EnvValue::NotPresent => r == Err::<AuthMode, ConfigError>(ConfigError::MissingAuthMode),
            EnvValue::NotUnicode => r matches Err(ConfigError::InvalidAuthMode(v)) && v@
                == non_unicode_text(),
            EnvValue::Value(v) => match auth_mode_of(v@) {
                Some(m) => r == Ok::<AuthMode, ConfigError>(m),
                None => r matches Err(ConfigError::InvalidAuthMode(e)) && e@ == v@,
            },
        },
{
    match value {
        EnvValue::NotPresent => Err(ConfigError::MissingAuthMode),
        EnvValue::NotUnicode => Err(ConfigError::InvalidAuthMode(String::from_str("<non-Unicode value>"))),
        EnvValue::Value(v) => match AuthMode::parse(v.as_str()) {
            Ok(m) => Ok(m),
            Err(e) => Err(ConfigError::InvalidAuthMode(e)),
        },
    }
}

/// A boolean setting `key`: `default` when unset, else `true` or `false`.
pub fn bool_setting(key: &'static str, value: &EnvValue, default: bool) -> (r: Result<
    bool,
    ConfigError,
>)
    ensures
        match value {
            EnvValue::NotPresent => r == Ok::<bool, ConfigError>(default),
            EnvValue::NotUnicode => r matches Err(
                ConfigError::InvalidBooleanEnvironmentValue { key: k, value: v },
            ) && k == key && v@ == non_unicode_text(),
            EnvValue::Value(v) => match bool_of(v@) {
                Some(b) => r == Ok::<bool, ConfigError>(b),
                None => r matches Err(
                    ConfigError::InvalidBooleanEnvironmentValue { key: k, value: e },
                ) && k == key && e@ == v@,
            },
        },
{
    match value {
        EnvValue::NotPresent => Ok(default),
        EnvValue::NotUnicode => Err(
            ConfigError::InvalidBooleanEnvironmentValue {
                key,
                value: String::from_str("<non-Unicode value>"),
            },
        ),
        EnvValue::Value(v) => match parse_bool(v.as_str()) {
            Some(b) => Ok(b),
            None => Err(ConfigError::InvalidBooleanEnvironmentValue { key, value: v.clone() }),
        },
    }
}

/// What a setting that image upload requires gives: its value when it is
/// present, Unicode and not blank.
pub open spec fn required_of(key: &'static str, value: EnvValue) -> Result<String, ConfigError> {
    match value {
        EnvValue::Value(v) => if all_white_space(v@) {
            Err(ConfigError::MissingImageUploadSetting { key })
        } else {
            Ok(v)
        },
        _ => Err(ConfigError::MissingImageUploadSetting { key }),
    }
}

/// A setting that image upload requires: present, Unicode and not blank.
pub fn required_setting(key: &'static str, value: &EnvValue) -> (r: Result<String, ConfigError>)
    ensures
        r == required_of(key, *value),
{
    match value {
        EnvValue::Value(v) => {
            if is_blank(v.as_str()) {
                Err(ConfigError::MissingImageUploadSetting { key })
            } else {
                Ok(v.clone())
            }
        },
        _ => Err(ConfigError::MissingImageUploadSetting { key }),
    }
}

/// A text setting: its value when it is set and Unicode, else `default`.
pub fn text_setting(value: &EnvValue, default: &str) -> (r: String)
    ensures
        r@ == match value {
            EnvValue::Value(v) => v@,
            _ => default@,
        },
{
    match value {
        EnvValue::Value(v) => v.clone(),
        _ => String::from_str(default),
    }
}

/// The database URL: `DATABASE_URL` when it is set, Unicode and not blank.
pub fn database_url_setting(value: &EnvValue) -> (r: Option<String>)
    ensures
        match value {
            EnvValue::Value(v) => if all_white_space(v@) {
                r is None
            } else {
                r matches Some(s) && s@ == v@
            },
            _ => r is None,
        },
{
    match value {
        EnvValue::Value(v) => {
            if is_blank(v.as_str()) {
                None
            } else {
                Some(v.clone())
            }
        },
        _ => None,
    }
}

/// Whether `lookup` may give `result` for `key`.
pub open spec fn gives<F: Fn(&'static str) -> Result<String, ConfigError>>(
    lookup: F,
    key: &'static str,
    result: Result<String, ConfigError>,
) -> bool {
    call_ensures(lookup, (key,), result)
}

/// Whether `lookup` may give a value for `key`.
pub open spec fn gives_value<F: Fn(&'static str) -> Result<String, ConfigError>>(
    lookup: F,
    key: &'static str,
) -> bool {
    exists|v: String| #[trigger] gives(lookup, key, Ok(v))
}

/// Whether loading the storage settings through `lookup`, once
/// `S3_FORCE_PATH_STYLE` was read, may stop with `e`: a later setting gave
/// `e` and every setting read before it gave a value.
pub open spec fn fails_after_path_style<F: Fn(&'static str) -> Result<String, ConfigError>>(
    lookup: F,
    e: ConfigError,
) -> bool {
    let endpoint = gives_value(lookup, "S3_ENDPOINT");
    let bucket = gives_value(lookup, "S3_BUCKET");
    let access_key_id = gives_value(lookup, "AWS_ACCESS_KEY_ID");
    let secret_access_key = gives_value(lookup, "AWS_SECRET_ACCESS_KEY");
    let region = gives_value(lookup, "AWS_REGION");
    ||| gives(lookup, "S3_ENDPOINT", Err(e))
    ||| endpoint && gives(lookup, "S3_BUCKET", Err(e))
    ||| endpoint && bucket && gives(lookup, "AWS_ACCESS_KEY_ID", Err(e))
    ||| endpoint && bucket && access_key_id && gives(lookup, "AWS_SECRET_ACCESS_KEY", Err(e))
    ||| endpoint && bucket && access_key_id && secret_access_key && gives(
        lookup,
        "AWS_REGION",
        Err(e),
    )
    ||| endpoint && bucket && access_key_id && secret_access_key && region && gives(
        lookup,
        "ASSET_PUBLIC_BASE_URL",
        Err(e),
    )
}

/// Loads the object-storage settings through `lookup`, which reads one
/// setting. None are read unless image upload is enabled, which requires the
/// demo sign-in. `S3_FORCE_PATH_STYLE` is read first and must be `true` or
/// `false`; then the endpoint, bucket, access key ID, secret access key,
/// region and public base URL, in this order. The first error stops the
/// loading.
pub fn load_storage_config<F: Fn(&'static str) -> Result<String, ConfigError>>(
    auth_mode: AuthMode,
    image_upload_enabled: bool,
    lookup: F,
) -> (r: Result<Option<StorageConfig>, ConfigError>)
    requires
        forall|key: &'static str| call_requires(lookup, (key,)),
    ensures
        !image_upload_enabled ==> r matches Ok(None),
        image_upload_enabled && auth_mode != AuthMode::Demo ==> r matches Err(
            ConfigError::ImageUploadRequiresDemoAuth,
        ),
        image_upload_enabled && auth_mode == AuthMode::Demo ==> match r {
            Ok(None) => false,
            Ok(Some(s)) => (exists|v: String|
                gives(lookup, "S3_FORCE_PATH_STYLE", Ok(v)) && bool_of(v@) == Some(
                    s.force_path_style,
                )) && gives(lookup, "S3_ENDPOINT", Ok(s.endpoint)) && gives(
                lookup,
                "S3_BUCKET",
                Ok(s.bucket),
            ) && gives(lookup, "AWS_ACCESS_KEY_ID", Ok(s.access_key_id)) && gives(
                lookup,
                "AWS_SECRET_ACCESS_KEY",
                Ok(s.secret_access_key),
            ) && gives(lookup, "AWS_REGION", Ok(s.region)) && gives(
                lookup,
                "ASSET_PUBLIC_BASE_URL",
                Ok(s.public_base_url),
            ),
            Err(e) => gives(lookup, "S3_FORCE_PATH_STYLE", Err(e)) || (exists|v: String|
                #[trigger] gives(lookup, "S3_FORCE_PATH_STYLE", Ok(v)) && match bool_of(v@) {
                    None => e == ConfigError::InvalidBooleanEnvironmentValue {
                        key: "S3_FORCE_PATH_STYLE",
                        value: v,
                    },
                    Some(_) => fails_after_path_style(lookup, e),
                }),
        },
{
    if !image_upload_enabled {
        return Ok(None);
    }
    if auth_mode != AuthMode::Demo {
        return Err(ConfigError::ImageUploadRequiresDemoAuth);
    }
    let force_path_style_value = match lookup("S3_FORCE_PATH_STYLE") {
        Ok(v) => v,
        Err(e) => return Err(e),
    };
    assert(gives(lookup, "S3_FORCE_PATH_STYLE", Ok(force_path_style_value)));
    let force_path_style = match parse_bool(force_path_style_value.as_str()) {
        Some(b) => b,
        None => {
            return Err(
                ConfigError::InvalidBooleanEnvironmentValue {
                    key: "S3_FORCE_PATH_STYLE",
                    value: force_path_style_value,
                },
            );
        },
    };
    let endpoint = match lookup("S3_ENDPOINT") {
        Ok(v) => v,
        Err(e) => return Err(e),
    };
    assert(gives(lookup, "S3_ENDPOINT", Ok(endpoint)));
    let bucket = match lookup("S3_BUCKET") {
        Ok(v) => v,
        Err(e) => return Err(e),
    };
    assert(gives(lookup, "S3_BUCKET", Ok(bucket)));
    let access_key_id = match lookup("AWS_ACCESS_KEY_ID") {
        Ok(v) => v,
        Err(e) => return Err(e),
    };
    assert(gives(lookup, "AWS_ACCESS_KEY_ID", Ok(access_key_id)));
    let secret_access_key = match lookup("AWS_SECRET_ACCESS_KEY") {
        Ok(v) => v,
        Err(e) => return Err(e),
    };
    assert(gives(lookup, "AWS_SECRET_ACCESS_KEY", Ok(secret_access_key)));
    let region = match lookup("AWS_REGION") {
        Ok(v) => v,
        Err(e) => return Err(e),
    };
    assert(gives(lookup, "AWS_REGION", Ok(region)));
    let public_base_url = match lookup("ASSET_PUBLIC_BASE_URL") {
        Ok(v) => v,
        Err(e) => return Err(e),
    };
    Ok(
        Some(
            StorageConfig {
                endpoint,
                bucket,
                access_key_id,
                secret_access_key,
                region,
                force_path_style,
                public_base_url,
            },
        ),
    )
}

/// The `u16` that `s` spells, if it spells one in range.
pub open spec fn u16_value(s: Seq<char>) -> Option<u16> {
    match integer_text_value(s, false) {
        Some(n) => if n <= u16::MAX {
            Some(n as u16)
        } else {
            None
        },
        None => None,
    }
}

/// The text of the error that `<u16 as FromStr>::from_str` gives for `s`.
pub uninterp spec fn u16_parse_error_of(s: Seq<char>) -> Seq<char>;

/// What `<u16 as FromStr>::from_str` makes of `s`: the port, or the text of
/// the error.
pub open spec fn u16_from_str_of(s: Seq<char>) -> Result<u16, Seq<char>> {
    match u16_value(s) {
        Some(v) => Ok(v),
        None => Err(u16_parse_error_of(s)),
    }
}

/// Calls `<u16 as FromStr>::from_str`, which reads an optional `+` and ASCII
/// digits in base ten and fails on any other text or on a number out of
/// range; an error becomes its `Display` text.
///
/// Trusted: the number is the one std's documentation describes; the text of
/// an error is a function of `s` alone, named `u16_parse_error_of`.
#[verifier::external_body]
fn u16_from_str(s: &str) -> (r: Result<u16, String>)
    ensures
        match u16_value(s@) {
            Some(v) => r matches Ok(x) && x == v,
            None => r matches Err(e) && e@ == u16_parse_error_of(s@),
        },
{
    match <u16 as std::str::FromStr>::from_str(s) {
        Ok(v) => Ok(v),
        Err(e) => Err(e.to_string()),
    }
}

/// A configuration error, its texts taken by their characters.
pub enum ConfigErrorView {
    MissingAuthMode,
    InvalidAuthMode(Seq<char>),
    ImageUploadRequiresDemoAuth,
    MissingImageUploadSetting { key: Seq<char> },
    InvalidAppAddr(Seq<char>),
    InvalidBooleanEnvironmentValue { key: Seq<char>, value: Seq<char> },
    InvalidDbPort(Seq<char>),
}

impl View for ConfigError {
    type V = ConfigErrorView;

    open spec fn view(&self) -> ConfigErrorView {
        match self {
            ConfigError::MissingAuthMode => ConfigErrorView::MissingAuthMode,
            ConfigError::InvalidAuthMode(v) => ConfigErrorView::InvalidAuthMode(v@),
            ConfigError::ImageUploadRequiresDemoAuth => ConfigErrorView::ImageUploadRequiresDemoAuth,
            ConfigError::MissingImageUploadSetting { key } => ConfigErrorView::MissingImageUploadSetting {
                key: key@,
            },
            ConfigError::InvalidAppAddr(m) => ConfigErrorView::InvalidAppAddr(m@),
            ConfigError::InvalidBooleanEnvironmentValue {
                key,
                value,
            } => ConfigErrorView::InvalidBooleanEnvironmentValue { key: key@, value: value@ },
            ConfigError::InvalidDbPort(m) => ConfigErrorView::InvalidDbPort(m@),
        }
    }
}

/// Object-storage settings, their texts taken by their characters.
pub struct StorageConfigView {
    pub endpoint: Seq<char>,
    pub bucket: Seq<char>,
    pub access_key_id: Seq<char>,
    pub secret_access_key: Seq<char>,
    pub region: Seq<char>,
    pub force_path_style: bool,
    pub public_base_url: Seq<char>,
}

impl View for StorageConfig {
    type V = StorageConfigView;

    open spec fn view(&self) -> StorageConfigView {
        StorageConfigView {
            endpoint: self.endpoint@,
            bucket: self.bucket@,
            access_key_id: self.access_key_id@,
            secret_access_key: self.secret_access_key@,
            region: self.region@,
            force_path_style: self.force_path_style,
            public_base_url: self.public_base_url@,
        }
    }
}

/// What the environment holds for each variable the server reads.
#[derive(Clone, Debug, PartialEq, Eq)]
pub struct EnvSettings {
    /// `AUTH_MODE`.
    pub auth_mode: EnvValue,
    /// `IMAGE_UPLOAD_ENABLED`.
    pub image_upload_enabled: EnvValue,
    /// `DEMO_COOKIE_SECURE`.
    pub demo_cookie_secure: EnvValue,
    /// `APP_ADDR`.
    pub app_addr: EnvValue,
    /// `DB_PORT`.
    pub db_port: EnvValue,
    /// `DATABASE_URL`.
    pub database_url: EnvValue,
    /// `DB_USER`.
    pub db_user: EnvValue,
    /// `DB_PASS`.
    pub db_pass: EnvValue,
    /// `DB_HOST`.
    pub db_host: EnvValue,
    /// `DB_NAME`.
    pub db_name: EnvValue,
    /// `S3_FORCE_PATH_STYLE`.
    pub s3_force_path_style: EnvValue,
    /// `S3_ENDPOINT`.
    pub s3_endpoint: EnvValue,
    /// `S3_BUCKET`.
    pub s3_bucket: EnvValue,
    /// `AWS_ACCESS_KEY_ID`.
    pub aws_access_key_id: EnvValue,
    /// `AWS_SECRET_ACCESS_KEY`.
    pub aws_secret_access_key: EnvValue,
    /// `AWS_REGION`.
    pub aws_region: EnvValue,
    /// `ASSET_PUBLIC_BASE_URL`.
    pub asset_public_base_url: EnvValue,
}

/// What the environment holds for the storage variable named `key`; nothing
/// for any other name.
pub open spec fn storage_env(env: EnvSettings, key: Seq<char>) -> EnvValue {
    if key == "S3_FORCE_PATH_STYLE"@ {
        env.s3_force_path_style
    } else if key == "S3_ENDPOINT"@ {
        env.s3_endpoint
    } else if key == "S3_BUCKET"@ {
        env.s3_bucket
    } else if key == "AWS_ACCESS_KEY_ID"@ {
        env.aws_access_key_id
    } else if key == "AWS_SECRET_ACCESS_KEY"@ {
        env.aws_secret_access_key
    } else if key == "AWS_REGION"@ {
        env.aws_region
    } else if key == "ASSET_PUBLIC_BASE_URL"@ {
        env.asset_public_base_url
    } else {
        EnvValue::NotPresent
    }
}

/// The storage variable named `key`, as image upload requires it.
fn storage_setting(env: &EnvSettings, key: &'static str) -> (r: Result<String, ConfigError>)
    ensures
        r == required_of(key, storage_env(*env, key@)),
{
    if str_eq(key, "S3_FORCE_PATH_STYLE") {
        required_setting(key, &env.s3_force_path_style)
    } else if str_eq(key, "S3_ENDPOINT") {
        required_setting(key, &env.s3_endpoint)
    } else if str_eq(key, "S3_BUCKET") {
        required_setting(key, &env.s3_bucket)
    } else if str_eq(key, "AWS_ACCESS_KEY_ID") {
        required_setting(key, &env.aws_access_key_id)
    } else if str_eq(key, "AWS_SECRET_ACCESS_KEY") {
        required_setting(key, &env.aws_secret_access_key)
    } else if str_eq(key, "AWS_REGION") {
        required_setting(key, &env.aws_region)
    } else if str_eq(key, "ASSET_PUBLIC_BASE_URL") {
        required_setting(key, &env.asset_public_base_url)
    } else {
        Err(ConfigError::MissingImageUploadSetting { key })
    }
}

/// A required storage setting, by its characters.
pub open spec fn required_view(key: Seq<char>, value: EnvValue) -> Result<Seq<char>, ConfigErrorView> {
    match value {
        EnvValue::Value(v) => if all_white_space(v@) {
            Err(ConfigErrorView::MissingImageUploadSetting { key })
        } else {
            Ok(v@)
        },
        _ => Err(ConfigErrorView::MissingImageUploadSetting { key }),
    }
}

/// The storage settings after `S3_FORCE_PATH_STYLE` read `force_path_style`:
/// the other six in order, or the first one missing.
pub open spec fn storage_rest_view(env: EnvSettings, force_path_style: bool) -> Result<
    Option<StorageConfigView>,
    ConfigErrorView,
> {
    let endpoint = required_view("S3_ENDPOINT"@, env.s3_endpoint);
    let bucket = required_view("S3_BUCKET"@, env.s3_bucket);
    let access_key_id = required_view("AWS_ACCESS_KEY_ID"@, env.aws_access_key_id);
    let secret_access_key = required_view("AWS_SECRET_ACCESS_KEY"@, env.aws_secret_access_key);
    let region = required_view("AWS_REGION"@, env.aws_region);
    let public_base_url = required_view("ASSET_PUBLIC_BASE_URL"@, env.asset_public_base_url);
    if endpoint is Err {
        Err(endpoint->Err_0)
    } else if bucket is Err {
        Err(bucket->Err_0)
    } else if access_key_id is Err {
        Err(access_key_id->Err_0)
    } else if secret_access_key is Err {
        Err(secret_access_key->Err_0)
    } else if region is Err {
        Err(region->Err_0)
    } else if public_base_url is Err {
        Err(public_base_url->Err_0)
    } else {
        Ok(
            Some(
                StorageConfigView {
                    endpoint: endpoint->Ok_0,
                    bucket: bucket->Ok_0,
                    access_key_id: access_key_id->Ok_0,
                    secret_access_key: secret_access_key->Ok_0,
                    region: region->Ok_0,
                    force_path_style,
                    public_base_url: public_base_url->Ok_0,
                },
            ),
        )
    }
}

/// The storage settings the environment gives: none unless image upload is
/// enabled, which requires the demo sign-in; else `S3_FORCE_PATH_STYLE`,
/// which must be `true` or `false`, and the six others, or the first error.
pub open spec fn storage_view(auth_mode: AuthMode, enabled: bool, env: EnvSettings) -> Result<
    Option<StorageConfigView>,
    ConfigErrorView,
> {
    if !enabled {
        Ok(None)
    } else if auth_mode != AuthMode::Demo {
        Err(ConfigErrorView::ImageUploadRequiresDemoAuth)
    } else {
        match required_view("S3_FORCE_PATH_STYLE"@, env.s3_force_path_style) {
            Err(e) => Err(e),
            Ok(v) => match bool_of(v) {
                None => Err(
                    ConfigErrorView::InvalidBooleanEnvironmentValue {
                        key: "S3_FORCE_PATH_STYLE"@,
                        value: v,
                    },
                ),
                Some(b) => storage_rest_view(env, b),
            },
        }
    }
}

/// A loading of the storage settings, by its characters.
pub open spec fn storage_result_view(r: Result<Option<StorageConfig>, ConfigError>) -> Result<
    Option<StorageConfigView>,
    ConfigErrorView,
> {
    match r {
        Ok(Some(s)) => Ok(Some(s@)),
        Ok(None) => Ok(None),
        Err(e) => Err(e@),
    }
}

/// Loads the storage settings from the environment.
fn storage_from_env(auth_mode: AuthMode, enabled: bool, env: &EnvSettings) -> (r: Result<
    Option<StorageConfig>,
    ConfigError,
>)
    ensures
        storage_result_view(r) == storage_view(auth_mode, enabled, *env),
{
    let lookup = |key: &'static str| -> (v: Result<String, ConfigError>)
        ensures
            v == required_of(key, storage_env(*env, key@)),
        { storage_setting(env, key) };
    let r = load_storage_config(auth_mode, enabled, lookup);
    proof {
        reveal_strlit("S3_FORCE_PATH_STYLE");
        reveal_strlit("S3_ENDPOINT");
        reveal_strlit("S3_BUCKET");
        reveal_strlit("AWS_ACCESS_KEY_ID");
        reveal_strlit("AWS_SECRET_ACCESS_KEY");
        reveal_strlit("AWS_REGION");
        reveal_strlit("ASSET_PUBLIC_BASE_URL");
        assert("S3_FORCE_PATH_STYLE"@.len() == 19);
        assert("S3_ENDPOINT"@.len() == 11);
        assert("S3_BUCKET"@.len() == 9);
        assert("AWS_ACCESS_KEY_ID"@.len() == 17);
        assert("AWS_SECRET_ACCESS_KEY"@.len() == 21);
        assert("AWS_REGION"@.len() == 10);
        assert("ASSET_PUBLIC_BASE_URL"@.len() == 21);
        assert("AWS_SECRET_ACCESS_KEY"@[1] != "ASSET_PUBLIC_BASE_URL"@[1]);
        assert(storage_env(*env, "S3_FORCE_PATH_STYLE"@) == env.s3_force_path_style);
        assert(storage_env(*env, "S3_ENDPOINT"@) == env.s3_endpoint);
        assert(storage_env(*env, "S3_BUCKET"@) == env.s3_bucket);
        assert(storage_env(*env, "AWS_ACCESS_KEY_ID"@) == env.aws_access_key_id);
        assert(storage_env(*env, "AWS_SECRET_ACCESS_KEY"@) == env.aws_secret_access_key);
        assert(storage_env(*env, "AWS_REGION"@) == env.aws_region);
        assert(storage_env(*env, "ASSET_PUBLIC_BASE_URL"@) == env.asset_public_base_url);
        assert forall|key: &'static str, v: Result<String, ConfigError>|
            gives(lookup, key, v) implies v == required_of(key, storage_env(*env, key@)) by {}
    }
    r
}

/// The port `DB_PORT` names: a `u16`, or the default when it is unset or
/// not Unicode.
pub open spec fn db_port_view(value: EnvValue) -> Result<u16, ConfigErrorView> {
    match value {
        EnvValue::Value(v) => match u16_from_str_of(v@) {
            Ok(p) => Ok(p),
            Err(m) => Err(ConfigErrorView::InvalidDbPort(m)),
        },
        _ => Ok(DEFAULT_DB_PORT),
    }
}

/// The database port: `DB_PORT` read as a `u16`, or the default when it is
/// unset or not Unicode.
pub fn db_port_setting(value: &EnvValue) -> (r: Result<u16, ConfigError>)
    ensures
        match r {
            Ok(p) => db_port_view(*value) == Ok::<u16, ConfigErrorView>(p),
            Err(e) => db_port_view(*value) == Err::<u16, ConfigErrorView>(e@),
        },
{
    match value {
        EnvValue::Value(v) => match u16_from_str(v.as_str()) {
            Ok(p) => Ok(p),
            Err(m) => Err(ConfigError::InvalidDbPort(m)),
        },
        _ => Ok(DEFAULT_DB_PORT),
    }
}

/// A text setting by its characters: its value when it is set and Unicode,
/// else `default`.
pub open spec fn text_view(value: EnvValue, default: Seq<char>) -> Seq<char> {
    match value {
        EnvValue::Value(v) => v@,
        _ => default,
    }
}

/// The address text the server listens on: `APP_ADDR` or its default, with
/// `127.0.0.1` before a bare `:port`.
pub open spec fn app_addr_view(value: EnvValue) -> Seq<char> {
    let text = text_view(value, DEFAULT_APP_ADDR@);
    if text.len() > 0 && text[0] == ':' {
        "127.0.0.1"@ + text
    } else {
        text
    }
}

/// The address text the server listens on, before it is read as a socket
/// address.
pub fn app_addr_text(value: &EnvValue) -> (r: String)
    ensures
        r@ == app_addr_view(*value),
{
    let text = text_setting(value, DEFAULT_APP_ADDR);
    normalize_app_addr(text.as_str())
}

/// The authentication mode `AUTH_MODE` names, or the error.
pub open spec fn auth_mode_view(value: EnvValue) -> Result<AuthMode, ConfigErrorView> {
    match value {
        EnvValue::NotPresent => Err(ConfigErrorView::MissingAuthMode),
        EnvValue::NotUnicode => Err(ConfigErrorView::InvalidAuthMode(non_unicode_text())),
        EnvValue::Value(v) => match auth_mode_of(v@) {
            Some(m) => Ok(m),
            None => Err(ConfigErrorView::InvalidAuthMode(v@)),
        },
    }
}

/// The boolean setting `key`: `default` when unset, else `true` or `false`.
pub open spec fn bool_view(key: Seq<char>, value: EnvValue, default: bool) -> Result<bool, ConfigErrorView> {
    match value {
        EnvValue::NotPresent => Ok(default),
        EnvValue::NotUnicode => Err(
            ConfigErrorView::InvalidBooleanEnvironmentValue { key, value: non_unicode_text() },
        ),
        EnvValue::Value(v) => match bool_of(v@) {
            Some(b) => Ok(b),
            None => Err(ConfigErrorView::InvalidBooleanEnvironmentValue { key, value: v@ }),
        },
    }
}

/// The database URL by its characters: `DATABASE_URL` when it is set,
/// Unicode and not blank.
pub open spec fn database_url_view(value: EnvValue) -> Option<Seq<char>> {
    match value {
        EnvValue::Value(v) => if all_white_space(v@) {
            None
        } else {
            Some(v@)
        },
        _ => None,
    }
}

/// The server configuration.
#[derive(Clone, Debug, PartialEq, Eq)]
pub struct Config {
    /// The address the server listens on, as text that reads as a socket
    /// address.
    pub app_addr: String,
    pub auth_mode: AuthMode,
    pub demo_cookie_secure: bool,
    pub image_upload_enabled: bool,
    pub storage: Option<StorageConfig>,
    pub database_url: Option<String>,
    pub db_user: String,
    pub db_pass: String,
    pub db_host: String,
    pub db_port: u16,
    pub db_name: String,
}

/// A server configuration, its texts taken by their characters.
pub struct ConfigView {
    pub app_addr: Seq<char>,
    pub auth_mode: AuthMode,
    pub demo_cookie_secure: bool,
    pub image_upload_enabled: bool,
    pub storage: Option<StorageConfigView>,
    pub database_url: Option<Seq<char>>,
    pub db_user: Seq<char>,
    pub db_pass: Seq<char>,
    pub db_host: Seq<char>,
    pub db_port: u16,
    pub db_name: Seq<char>,
}

impl View for Config {
    type V = ConfigView;

    open spec fn view(&self) -> ConfigView {
        ConfigView {
            app_addr: self.app_addr@,
            auth_mode: self.auth_mode,
            demo_cookie_secure: self.demo_cookie_secure,
            image_upload_enabled: self.image_upload_enabled,
            storage: match self.storage {
                Some(s) => Some(s@),
                None => None,
            },
            database_url: match self.database_url {
                Some(u) => Some(u@),
                None => None,
            },
            db_user: self.db_user@,
            db_pass: self.db_pass@,
            db_host: self.db_host@,
            db_port: self.db_port,
            db_name: self.db_name@,
        }
    }
}

/// The configuration the environment gives, or the first error, in the
/// order the settings are read: `AUTH_MODE`, `IMAGE_UPLOAD_ENABLED`, the
/// storage settings, `DEMO_COOKIE_SECURE`, `APP_ADDR` (whose reading as a
/// socket address failed with `app_addr_error`, if it failed) and `DB_PORT`.
/// The other settings have defaults.
pub open spec fn config_view(env: EnvSettings, app_addr_error: Option<Seq<char>>) -> Result<
    ConfigView,
    ConfigErrorView,
> {
    match auth_mode_view(env.auth_mode) {
        Err(e) => Err(e),
        Ok(auth_mode) => match bool_view(
            "IMAGE_UPLOAD_ENABLED"@,
            env.image_upload_enabled,
            DEFAULT_IMAGE_UPLOAD_ENABLED,
        ) {
            Err(e) => Err(e),
            Ok(enabled) => match storage_view(auth_mode, enabled, env) {
                Err(e) => Err(e),
                Ok(storage) => match bool_view(
                    "DEMO_COOKIE_SECURE"@,
                    env.demo_cookie_secure,
                    DEFAULT_DEMO_COOKIE_SECURE,
                ) {
                    Err(e) => Err(e),
                    Ok(secure) => match app_addr_error {
                        Some(m) => Err(ConfigErrorView::InvalidAppAddr(m)),
                        None => match db_port_view(env.db_port) {
                            Err(e) => Err(e),
                            Ok(port) => Ok(
                                ConfigView {
                                    app_addr: app_addr_view(env.app_addr),
                                    auth_mode,
                                    demo_cookie_secure: secure,
                                    image_upload_enabled: enabled,
                                    storage,
                                    database_url: database_url_view(env.database_url),
                                    db_user: text_view(env.db_user, DEFAULT_DB_USER@),
                                    db_pass: text_view(env.db_pass, DEFAULT_DB_PASS@),
                                    db_host: text_view(env.db_host, DEFAULT_DB_HOST@),
                                    db_port: port,
                                    db_name: text_view(env.db_name, DEFAULT_DB_NAME@),
                                },
                            ),
                        },
                    },
                },
            },
        },
    }
}

impl Config {
    /// Reads the configuration from what the environment holds. The address
    /// text `app_addr_text(&env.app_addr)` is read as a socket address
    /// outside; `app_addr_error` is that reading's error, if it failed.
    pub fn from_env(env: &EnvSettings, app_addr_error: Option<String>) -> (r: Result<
        Config,
        ConfigError,
    >)
        ensures
            match r {
                Ok(c) => config_view(
                    *env,
                    match app_addr_error {
                        Some(m) => Some(m@),
                        None => None,
                    },
                ) == Ok::<ConfigView, ConfigErrorView>(c@),
                Err(e) => config_view(
                    *env,
                    match app_addr_error {
                        Some(m) => Some(m@),
                        None => None,
                    },
                ) == Err::<ConfigView, ConfigErrorView>(e@),
            },
    {
        let auth_mode = match auth_mode_setting(&env.auth_mode) {
            Ok(m) => m,
            Err(e) => return Err(e),
        };
        let image_upload_enabled = match bool_setting(
            "IMAGE_UPLOAD_ENABLED",
            &env.image_upload_enabled,
            DEFAULT_IMAGE_UPLOAD_ENABLED,
        ) {
            Ok(b) => b,
            Err(e) => return Err(e),
        };
        let storage = match storage_from_env(auth_mode, image_upload_enabled, env) {
            Ok(s) => s,
            Err(e) => return Err(e),
        };
        let demo_cookie_secure = match bool_setting(
            "DEMO_COOKIE_SECURE",
            &env.demo_cookie_secure,
            DEFAULT_DEMO_COOKIE_SECURE,
        ) {
            Ok(b) => b,
            Err(e) => return Err(e),
        };
        if let Some(m) = app_addr_error {
            return Err(ConfigError::InvalidAppAddr(m));
        }
        let db_port = match db_port_setting(&env.db_port) {
            Ok(p) => p,
            Err(e) => return Err(e),
        };
        Ok(
            Config {
                app_addr: app_addr_text(&env.app_addr),
                auth_mode,
                demo_cookie_secure,
                image_upload_enabled,
                storage,
                database_url: database_url_setting(&env.database_url),
                db_user: text_setting(&env.db_user, DEFAULT_DB_USER),
                db_pass: text_setting(&env.db_pass, DEFAULT_DB_PASS),
                db_host: text_setting(&env.db_host, DEFAULT_DB_HOST),
                db_port,
                db_name: text_setting(&env.db_name, DEFAULT_DB_NAME),
            },
        )
    }
}


} // verus!
