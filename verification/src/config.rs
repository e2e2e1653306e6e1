//! Service settings: what the environment says, and what holds where it
//! says nothing.

use crate::text::{
    clone_texts, decimal, decimal_text, parse_unsigned, same_text, signed_unsigned_value, split_trimmed,
    split_trimmed_of, texts,
};
use vstd::prelude::*;
use vstd::string::StringExecFns;

verus! {

/// The settings as the environment gives them: each one the text of a
/// variable, or nothing where the variable is not set.
#[derive(Debug, PartialEq, Eq)]
pub struct RawEnvironment {
    pub environment: Option<String>,
    pub port: Option<String>,
    pub host: Option<String>,
    pub jwt_secret: Option<String>,
    pub jwt_expiration: Option<String>,
    pub cors_origins: Option<String>,
    pub rate_limit_requests: Option<String>,
    pub rate_limit_window: Option<String>,
    pub mapbox_token: Option<String>,
    pub colis_prive_auth_url: Option<String>,
    pub colis_prive_tournee_url: Option<String>,
    pub colis_prive_detail_url: Option<String>,
    pub colis_prive_gestion_url: Option<String>,
    pub colis_prive_referentiel_url: Option<String>,
}

/// The settings of the service.
#[derive(Debug, PartialEq, Eq)]
pub struct EnvironmentConfig {
    pub environment: String,
    pub port: u16,
    pub host: String,
    pub jwt_secret: String,
    pub jwt_expiration: u64,
    pub cors_origins: Vec<String>,
    pub rate_limit_requests: u32,
    pub rate_limit_window: u64,
    pub mapbox_token: Option<String>,
    pub colis_prive_auth_url: String,
    pub colis_prive_tournee_url: String,
    pub colis_prive_detail_url: String,
    pub colis_prive_gestion_url: String,
    pub colis_prive_referentiel_url: String,
}

/// The text of a variable, or the default where it is not set.
pub open spec fn text_or(given: Option<String>, default: Seq<char>) -> Seq<char> {
    match given {
        Some(text) => text@,
        None => default,
    }
}

/// The number that a variable writes, or the default where the variable
/// is not set, does not write a number, or writes one above `max`.
pub open spec fn number_or(given: Option<String>, default: nat, max: nat) -> nat {
    match given {
        Some(text) => match signed_unsigned_value(text@, max) {
            Some(n) => n,
            None => default,
        },
        None => default,
    }
}

/// The text of an optional string.
pub open spec fn optional_text(given: Option<String>) -> Option<Seq<char>> {
    match given {
        Some(text) => Some(text@),
        None => None,
    }
}

fn take_text(given: Option<String>, default: &str) -> (r: String)
    ensures
        r@ == text_or(given, default@),
{
    match given {
        Some(text) => text,
        None => default.to_owned(),
    }
}

fn take_number(given: &Option<String>, default: u64, max: u64) -> (r: u64)
    requires
        default <= max,
    ensures
        r == number_or(*given, default as nat, max as nat),
        r <= max,
{
    match given {
        Some(text) => match parse_unsigned(text.as_str(), max) {
            Some(n) => n,
            None => default,
        },
        None => default,
    }
}

impl EnvironmentConfig {
    /// The settings that hold for what the environment gives: each
    /// variable's own value, and a default where the variable is not set
    /// or, for a number, does not write one that fits.
    pub fn from_raw(raw: RawEnvironment) -> (r: EnvironmentConfig)
        ensures
            r.environment@ == text_or(raw.environment, "development"@),
            r.port == number_or(raw.port, 3000, u16::MAX as nat),
            r.host@ == text_or(raw.host, "0.0.0.0"@),
            r.jwt_secret@ == text_or(raw.jwt_secret, "your-secret-key"@),
            r.jwt_expiration == number_or(raw.jwt_expiration, 86400, u64::MAX as nat),
            texts(r.cors_origins@) == split_trimmed_of(
                text_or(raw.cors_origins, "http://localhost:3000,http://localhost:3001"@),
                ',',
            ),
            r.rate_limit_requests == number_or(raw.rate_limit_requests, 100, u32::MAX as nat),
            r.rate_limit_window == number_or(raw.rate_limit_window, 3600, u64::MAX as nat),
            optional_text(r.mapbox_token) == optional_text(raw.mapbox_token),
            r.colis_prive_auth_url@ == text_or(
                raw.colis_prive_auth_url,
                "https://wsauthentificationexterne.colisprive.com"@,
            ),
            r.colis_prive_tournee_url@ == text_or(
                raw.colis_prive_tournee_url,
                "https://wstournee-v2.colisprive.com"@,
            ),
            r.colis_prive_detail_url@ == text_or(
                raw.colis_prive_detail_url,
                "https://wstournee-v2.colisprive.com"@,
            ),
            r.colis_prive_gestion_url@ == text_or(
                raw.colis_prive_gestion_url,
                "https://gestiontournee.colisprive.com"@,
            ),
            r.colis_prive_referentiel_url@ == text_or(
                raw.colis_prive_referentiel_url,
                "https://wsreferentiel-v2.colisprive.com/WS_RefDistributeur/RefDistributeurConsolideExtranetToExterne.svc"@,
            ),
    {
        let port = take_number(&raw.port, 3000, 65535);
        let jwt_expiration = take_number(&raw.jwt_expiration, 86400, u64::MAX);
        let rate_limit_requests = take_number(&raw.rate_limit_requests, 100, 4294967295);
        let rate_limit_window = take_number(&raw.rate_limit_window, 3600, u64::MAX);
        let origins = take_text(
            raw.cors_origins,
            "http://localhost:3000,http://localhost:3001",
        );
        EnvironmentConfig {
            environment: take_text(raw.environment, "development"),
            port: port as u16,
            host: take_text(raw.host, "0.0.0.0"),
            jwt_secret: take_text(raw.jwt_secret, "your-secret-key"),
            jwt_expiration,
            cors_origins: split_trimmed(origins.as_str(), ','),
            rate_limit_requests: rate_limit_requests as u32,
            rate_limit_window,
            mapbox_token: raw.mapbox_token,
            colis_prive_auth_url: take_text(
                raw.colis_prive_auth_url,
                "https://wsauthentificationexterne.colisprive.com",
            ),
            colis_prive_tournee_url: take_text(
                raw.colis_prive_tournee_url,
                "https://wstournee-v2.colisprive.com",
            ),
            colis_prive_detail_url: take_text(
                raw.colis_prive_detail_url,
                "https://wstournee-v2.colisprive.com",
            ),
            colis_prive_gestion_url: take_text(
                raw.colis_prive_gestion_url,
                "https://gestiontournee.colisprive.com",
            ),
            colis_prive_referentiel_url: take_text(
                raw.colis_prive_referentiel_url,
                "https://wsreferentiel-v2.colisprive.com/WS_RefDistributeur/RefDistributeurConsolideExtranetToExterne.svc",
            ),
        }
    }

    /// Whether the service runs in development mode.
    pub fn is_development(&self) -> (r: bool)
        ensures
            r == (self.environment@ == "development"@),
    {
        same_text(self.environment.as_str(), "development")
    }

    /// Whether the service runs in production mode.
    pub fn is_production(&self) -> (r: bool)
        ensures
            r == (self.environment@ == "production"@),
    {
        same_text(self.environment.as_str(), "production")
    }

    /// The address the server listens on: the host, a colon, the port.
    pub fn server_url(&self) -> (r: String)
        ensures
            r@ == self.host@ + ":"@ + decimal(self.port as nat),
    {
        let mut out = self.host.clone();
        out.append(":");
        let port = decimal_text(self.port as u64);
        out.append(port.as_str());
        out
    }
}

impl Clone for EnvironmentConfig {
    fn clone(&self) -> (r: EnvironmentConfig)
        ensures
            r.environment@ == self.environment@,
            r.port == self.port,
            r.host@ == self.host@,
            r.jwt_secret@ == self.jwt_secret@,
            r.jwt_expiration == self.jwt_expiration,
            texts(r.cors_origins@) == texts(self.cors_origins@),
            r.rate_limit_requests == self.rate_limit_requests,
            r.rate_limit_window == self.rate_limit_window,
            optional_text(r.mapbox_token) == optional_text(self.mapbox_token),
            r.colis_prive_auth_url@ == self.colis_prive_auth_url@,
            r.colis_prive_tournee_url@ == self.colis_prive_tournee_url@,
            r.colis_prive_detail_url@ == self.colis_prive_detail_url@,
            r.colis_prive_gestion_url@ == self.colis_prive_gestion_url@,
            r.colis_prive_referentiel_url@ == self.colis_prive_referentiel_url@,
    {
        EnvironmentConfig {
            environment: self.environment.clone(),
            port: self.port,
            host: self.host.clone(),
            jwt_secret: self.jwt_secret.clone(),
            jwt_expiration: self.jwt_expiration,
            cors_origins: clone_texts(&self.cors_origins),
            rate_limit_requests: self.rate_limit_requests,
            rate_limit_window: self.rate_limit_window,
            mapbox_token: match &self.mapbox_token {
                Some(token) => Some(token.clone()),
                None => None,
            },
            colis_prive_auth_url: self.colis_prive_auth_url.clone(),
            colis_prive_tournee_url: self.colis_prive_tournee_url.clone(),
            colis_prive_detail_url: self.colis_prive_detail_url.clone(),
            colis_prive_gestion_url: self.colis_prive_gestion_url.clone(),
            colis_prive_referentiel_url: self.colis_prive_referentiel_url.clone(),
        }
    }
}

impl RawEnvironment {
    /// An environment in which no variable is set.
    pub fn unset() -> (r: RawEnvironment)
        ensures
            r == (RawEnvironment {
                environment: None,
                port: None,
                host: None,
                jwt_secret: None,
                jwt_expiration: None,
                cors_origins: None,
                rate_limit_requests: None,
                rate_limit_window: None,
                mapbox_token: None,
                colis_prive_auth_url: None,
                colis_prive_tournee_url: None,
                colis_prive_detail_url: None,
                colis_prive_gestion_url: None,
                colis_prive_referentiel_url: None,
            }),
    {
        RawEnvironment {
            environment: None,
            port: None,
            host: None,
            jwt_secret: None,
            jwt_expiration: None,
            cors_origins: None,
            rate_limit_requests: None,
            rate_limit_window: None,
            mapbox_token: None,
            colis_prive_auth_url: None,
            colis_prive_tournee_url: None,
            colis_prive_detail_url: None,
            colis_prive_gestion_url: None,
            colis_prive_referentiel_url: None,
        }
    }
}

impl Default for EnvironmentConfig {
    /// The settings that hold when the environment sets no variable.
    fn default() -> (r: EnvironmentConfig)
        ensures
            r.environment@ == "development"@,
            r.port == 3000,
            r.host@ == "0.0.0.0"@,
            r.jwt_secret@ == "your-secret-key"@,
            r.jwt_expiration == 86400,
            texts(r.cors_origins@) == split_trimmed_of(
                "http://localhost:3000,http://localhost:3001"@,
                ',',
            ),
            r.rate_limit_requests == 100,
            r.rate_limit_window == 3600,
            r.mapbox_token is None,
            r.colis_prive_auth_url@ == "https://wsauthentificationexterne.colisprive.com"@,
            r.colis_prive_tournee_url@ == "https://wstournee-v2.colisprive.com"@,
            r.colis_prive_detail_url@ == "https://wstournee-v2.colisprive.com"@,
            r.colis_prive_gestion_url@ == "https://gestiontournee.colisprive.com"@,
            r.colis_prive_referentiel_url@
                == "https://wsreferentiel-v2.colisprive.com/WS_RefDistributeur/RefDistributeurConsolideExtranetToExterne.svc"@,
    {
        EnvironmentConfig::from_raw(RawEnvironment::unset())
    }
}

} // verus!
