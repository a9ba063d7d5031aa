use vstd::prelude::*;
use vstd::string::*;

use crate::interop::{header_byte_ok, header_value_from_text, header_value_of};
use crate::text::{decimal, decimal_text, is_blank, parse_u16, same_text, trim, u16_value};

verus! {

/// The model used when none is configured.
pub const DEFAULT_MODEL: &'static str = "nvidia/nemotron-3-super-120b-a12b:free";

/// The database used when none is configured.
pub const DEFAULT_DATABASE_URL: &'static str = "sqlite://gpt-copy-v5.sqlite3";

/// The host bound when none is configured.
pub const DEFAULT_HOST: &'static str = "127.0.0.1";

/// The port bound when none is configured.
pub const DEFAULT_PORT: &'static str = "3001";

/// The frontend origin allowed when none is configured.
pub const DEFAULT_FRONTEND_ORIGIN: &'static str = "http://localhost:3000";

/// Why the configuration cannot be used.
#[derive(Debug, Clone, Copy, PartialEq, Eq, Structural)]
pub enum ConfigError {
    InvalidPort,
    InvalidBindAddress,
    InvalidFrontendOrigin,
    PublicBindRefused,
}

impl ConfigError {
    pub open spec fn spec_message(self) -> Seq<char> {
        match self {
            ConfigError::InvalidPort => "BACKEND_PORT must be a valid u16"@,
            ConfigError::InvalidBindAddress =>
                "BACKEND_HOST and BACKEND_PORT must form a valid socket address"@,
            ConfigError::InvalidFrontendOrigin => "FRONTEND_ORIGIN must be a valid header value"@,
            ConfigError::PublicBindRefused =>
                "BACKEND_HOST must be a loopback address unless ALLOW_UNAUTHENTICATED_PUBLIC_BIND=true"@,
        }
    }

    /// The human-readable description of the error.
    pub fn message(&self) -> (res: String)
        ensures
            res@ == self.spec_message(),
    {
        match self {
            ConfigError::InvalidPort => "BACKEND_PORT must be a valid u16".to_owned(),
            ConfigError::InvalidBindAddress =>
                "BACKEND_HOST and BACKEND_PORT must form a valid socket address".to_owned(),
            ConfigError::InvalidFrontendOrigin =>
                "FRONTEND_ORIGIN must be a valid header value".to_owned(),
            ConfigError::PublicBindRefused =>
                "BACKEND_HOST must be a loopback address unless ALLOW_UNAUTHENTICATED_PUBLIC_BIND=true".to_owned(),
        }
    }
}

/// The environment variables that the configuration reads, each as it was
/// found (`None` when unset).
pub struct EnvValues {
    pub database_url: Option<String>,
    pub backend_host: Option<String>,
    pub backend_port: Option<String>,
    pub frontend_origin: Option<String>,
    pub openrouter_api_key: Option<String>,
    pub openrouter_model: Option<String>,
    pub allow_public_bind: Option<String>,
}

/// The configuration, before the bind address is resolved.
pub struct Settings {
    pub database_url: String,
    pub host: String,
    pub port: u16,
    pub frontend_origin: String,
    pub openrouter_api_key: Option<String>,
    pub openrouter_model: String,
    pub allow_public_bind: bool,
}

/// `value`, or `default` when unset.
pub open spec fn or_default(value: Option<String>, default: Seq<char>) -> Seq<char> {
    match value {
        Some(v) => v@,
        None => default,
    }
}

fn value_or(value: Option<String>, default: &str) -> (res: String)
    ensures
        res@ == or_default(value, default@),
{
    match value {
        Some(v) => v,
        None => default.to_owned(),
    }
}

/// The API key, unless it is unset or blank.
pub open spec fn usable_key(value: Option<String>) -> Option<String> {
    match value {
        Some(v) => if trim(v@).len() > 0 { Some(v) } else { None },
        None => None,
    }
}

/// Whether a public bind was allowed explicitly.
pub open spec fn allows_public(value: Option<String>) -> bool {
    match value {
        Some(v) => v@ == "true"@,
        None => false,
    }
}

/// Reads the configuration from the environment's values: each unset value
/// takes its default, the port must be an unsigned 16-bit number, a blank
/// API key counts as none, and a public bind is allowed only by the exact
/// value `true`.
pub fn settings_from_env(values: EnvValues) -> (res: Result<Settings, ConfigError>)
    ensures
        u16_value(or_default(values.backend_port, DEFAULT_PORT@)) is None ==> res
            == Err::<Settings, ConfigError>(ConfigError::InvalidPort),
        u16_value(or_default(values.backend_port, DEFAULT_PORT@)) matches Some(p) ==> (
        res matches Ok(s) && {
            &&& s.port == p
            &&& s.database_url@ == or_default(values.database_url, DEFAULT_DATABASE_URL@)
            &&& s.host@ == or_default(values.backend_host, DEFAULT_HOST@)
            &&& s.frontend_origin@ == or_default(values.frontend_origin, DEFAULT_FRONTEND_ORIGIN@)
            &&& s.openrouter_api_key == usable_key(values.openrouter_api_key)
            &&& s.openrouter_model@ == or_default(values.openrouter_model, DEFAULT_MODEL@)
            &&& s.allow_public_bind == allows_public(values.allow_public_bind)
        }),
{
    let EnvValues {
        database_url,
        backend_host,
        backend_port,
        frontend_origin,
        openrouter_api_key,
        openrouter_model,
        allow_public_bind,
    } = values;
    let database_url = value_or(database_url, DEFAULT_DATABASE_URL);
    let host = value_or(backend_host, DEFAULT_HOST);
    let port_text = value_or(backend_port, DEFAULT_PORT);
    let port = match parse_u16(port_text.as_str()) {
        Some(p) => p,
        None => return Err(ConfigError::InvalidPort),
    };
    let frontend_origin = value_or(frontend_origin, DEFAULT_FRONTEND_ORIGIN);
    let openrouter_api_key = match openrouter_api_key {
        Some(k) => if is_blank(k.as_str()) { None } else { Some(k) },
        None => None,
    };
    let openrouter_model = value_or(openrouter_model, DEFAULT_MODEL);
    let allow_public_bind = match &allow_public_bind {
        Some(v) => same_text(v.as_str(), "true"),
        None => false,
    };
    Ok(Settings {
        database_url,
        host,
        port,
        frontend_origin,
        openrouter_api_key,
        openrouter_model,
        allow_public_bind,
    })
}

/// The text `host:port` that the bind address is read from.
pub fn bind_address_text(host: &str, port: u16) -> (res: String)
    ensures
        res@ == host@ + ":"@ + decimal(port as nat),
{
    let mut res = host.to_owned();
    res.append(":");
    res.append(decimal_text(port).as_str());
    res
}

/// The IP address that the server binds.
pub enum BindIp {
    V4([u8; 4]),
    V6([u16; 8]),
}

/// Whether `ip` is a loopback address: 127.0.0.0/8 or `::1`.
pub open spec fn is_loopback(ip: BindIp) -> bool {
    match ip {
        BindIp::V4(o) => o@[0] == 127,
        BindIp::V6(s) => s@ =~= seq![0u16, 0, 0, 0, 0, 0, 0, 1],
    }
}

/// Refuses a bind to an address other than a loopback one unless public
/// binds were allowed explicitly.
pub fn check_bind(ip: &BindIp, allow_public_bind: bool) -> (res: Result<(), ConfigError>)
    ensures
        res is Ok <==> (is_loopback(*ip) || allow_public_bind),
        res is Err ==> res == Err::<(), ConfigError>(ConfigError::PublicBindRefused),
{
    let loopback = match ip {
        BindIp::V4(o) => o[0] == 127,
        BindIp::V6(s) => {
            let r = s[0] == 0 && s[1] == 0 && s[2] == 0 && s[3] == 0 && s[4] == 0 && s[5] == 0
                && s[6] == 0 && s[7] == 1;
            assert(r ==> s@ =~= seq![0u16, 0, 0, 0, 0, 0, 0, 1]);
            r
        },
    };
    if loopback || allow_public_bind {
        Ok(())
    } else {
        Err(ConfigError::PublicBindRefused)
    }
}

/// The frontend origin as a header value, given what the header parser
/// made of it.
pub fn origin_header(parsed: Option<axum::http::HeaderValue>) -> (res: Result<
    axum::http::HeaderValue,
    ConfigError,
>)
    ensures
        parsed matches Some(v) ==> res == Ok::<axum::http::HeaderValue, ConfigError>(v),
        parsed is None ==> res == Err::<axum::http::HeaderValue, ConfigError>(
            ConfigError::InvalidFrontendOrigin,
        ),
{
    match parsed {
        Some(v) => Ok(v),
        None => Err(ConfigError::InvalidFrontendOrigin),
    }
}

/// The frontend origin as a header value, which CORS allows exactly: the
/// header value of the origin's own bytes.
pub fn cors_origin(frontend_origin: &str) -> (res: Result<axum::http::HeaderValue, ConfigError>)
    ensures
        res is Ok <==> (forall|i: int|
            0 <= i < frontend_origin.spec_bytes().len() ==> header_byte_ok(
                #[trigger] frontend_origin.spec_bytes()[i],
            )),
        res matches Ok(v) ==> v == header_value_of(frontend_origin.spec_bytes()),
        res is Err ==> res matches Err(ConfigError::InvalidFrontendOrigin),
{
    origin_header(header_value_from_text(frontend_origin))
}

} // verus!
