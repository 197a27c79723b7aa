//! Settings of the object store that holds the audio files. The library
//! only decides whether the settings are complete; it never talks to that
//! store.

use vstd::prelude::*;
use vstd::string::*;

verus! {

/// A setting that is required and absent.
#[derive(Debug, Clone, Copy, PartialEq, Eq, Structural)]
pub enum ConfigError {
    EndpointMissing,
    AccessKeyIdMissing,
    SecretAccessKeyMissing,
}

impl ConfigError {
    /// The diagnostic for this error.
    pub open spec fn message_text(self) -> Seq<char> {
        match self {
            ConfigError::EndpointMissing => "R2_ENDPOINT not set"@,
            ConfigError::AccessKeyIdMissing => "R2_ACCESS_KEY_ID not set"@,
            ConfigError::SecretAccessKeyMissing => "R2_SECRET_ACCESS_KEY not set"@,
        }
    }

    /// The diagnostic for this error.
    pub fn message(&self) -> (text: String)
        ensures
            text@ == self.message_text(),
    {
        match self {
            ConfigError::EndpointMissing => String::from_str("R2_ENDPOINT not set"),
            ConfigError::AccessKeyIdMissing => String::from_str("R2_ACCESS_KEY_ID not set"),
            ConfigError::SecretAccessKeyMissing => String::from_str(
                "R2_SECRET_ACCESS_KEY not set",
            ),
        }
    }
}

/// Complete settings of the object store.
#[derive(Debug, PartialEq, Eq)]
pub struct R2Settings {
    pub endpoint: String,
    pub access_key_id: String,
    pub secret_access_key: String,
    pub region: String,
}

/// The settings of the object store from the values that were configured.
/// Endpoint, access key id and secret access key are required, and the
/// first of them that is absent, in that order, is the error; an absent
/// region stands for `auto`.
pub fn r2_settings(
    endpoint: Option<String>,
    access_key_id: Option<String>,
    secret_access_key: Option<String>,
    region: Option<String>,
) -> (outcome: Result<R2Settings, ConfigError>)
    ensures
        match outcome {
            Ok(settings) => {
                &&& endpoint matches Some(e) && settings.endpoint@ == e@
                &&& access_key_id matches Some(k) && settings.access_key_id@ == k@
                &&& secret_access_key matches Some(k) && settings.secret_access_key@ == k@
                &&& settings.region@ == match region {
                    Some(r) => r@,
                    None => "auto"@,
                }
            },
            Err(e) => {
                &&& endpoint is None || access_key_id is None || secret_access_key is None
                &&& e == if endpoint is None {
                    ConfigError::EndpointMissing
                } else if access_key_id is None {
                    ConfigError::AccessKeyIdMissing
                } else {
                    ConfigError::SecretAccessKeyMissing
                }
            },
        },
{
    let endpoint = match endpoint {
        Some(e) => e,
        None => {
            return Err(ConfigError::EndpointMissing);
        },
    };
    let access_key_id = match access_key_id {
        Some(k) => k,
        None => {
            return Err(ConfigError::AccessKeyIdMissing);
        },
    };
    let secret_access_key = match secret_access_key {
        Some(k) => k,
        None => {
            return Err(ConfigError::SecretAccessKeyMissing);
        },
    };
    let region = match region {
        Some(r) => r,
        None => String::from_str("auto"),
    };
    Ok(R2Settings { endpoint, access_key_id, secret_access_key, region })
}

} // verus!
