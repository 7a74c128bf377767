//! What the agent keeps in the system's credential store: the Telegram
//! configuration, as one JSON object.

use crate::config::{config_error, validate_config, ConfigInput, TelegramConfig};
use vstd::prelude::*;

verus! {

/// The credential store's service name. Earlier development builds used an
/// unversioned name whose access rules could block a new build.
pub const SERVICE_NAME: &'static str = "com.obs-telegram-send.agent.v1";

pub const ACCOUNT_NAME: &'static str = "telegram-configuration";

#[derive(Debug, Clone, Copy, PartialEq, Eq, Structural)]
pub enum SecretStoreError {
    Unavailable,
    InvalidStoredConfiguration,
}

/// The fields of the stored JSON object, as read back: `api_id` as any
/// unsigned JSON integer.
pub struct StoredFields {
    pub bot_token: String,
    pub api_id: u64,
    pub api_hash: String,
    pub chat_id: i64,
}

/// The values of a configuration: token, `api_id`, hash and chat.
pub type ConfigValues = (Seq<char>, u32, Seq<char>, i64);

pub open spec fn config_values(config: TelegramConfig) -> ConfigValues {
    (config.bot_token@, config.api_id, config.api_hash@, config.chat_id)
}

/// The configuration that stored fields load as: none where the `api_id`
/// does not fit in 32 bits or the configuration would not be accepted.
pub open spec fn loads_as(fields: StoredFields) -> Option<ConfigValues> {
    if fields.api_id > u32::MAX {
        None
    } else if config_error(fields.bot_token@, fields.api_id as u32, fields.api_hash@) is Some {
        None
    } else {
        Some((fields.bot_token@, fields.api_id as u32, fields.api_hash@, fields.chat_id))
    }
}

/// The fields that saving `config` stores.
pub fn stored_fields(config: &TelegramConfig) -> (fields: StoredFields)
    ensures
        fields.bot_token@ == config.bot_token@,
        fields.api_id == config.api_id as u64,
        fields.api_hash@ == config.api_hash@,
        fields.chat_id == config.chat_id,
{
    StoredFields {
        bot_token: config.bot_token.expose_secret().to_owned(),
        api_id: config.api_id as u64,
        api_hash: config.api_hash.expose_secret().to_owned(),
        chat_id: config.chat_id,
    }
}

/// The configuration held by stored fields, checked as a new one would be
/// (`None` where the stored text had no such fields).
pub fn stored_config(fields: Option<StoredFields>) -> (config: Option<TelegramConfig>)
    ensures
        match fields {
            None => config is None,
            Some(f) => match loads_as(f) {
                Some(v) => config matches Some(c) && config_values(c) == v,
                None => config is None,
            },
        },
{
    let f = match fields {
        None => return None,
        Some(f) => f,
    };
    if f.api_id > 0xffff_ffff {
        return None;
    }
    let input = ConfigInput {
        bot_token: f.bot_token,
        api_id: f.api_id as u32,
        api_hash: f.api_hash,
        chat_id: f.chat_id,
    };
    match validate_config(input) {
        Ok(c) => Some(c),
        Err(_) => None,
    }
}

/// A configuration that was accepted, once saved, loads back as the same
/// configuration.
pub proof fn lemma_saved_configuration_loads_back(values: ConfigValues, fields: StoredFields)
    requires
        config_error(values.0, values.1, values.2) is None,
        fields.bot_token@ == values.0,
        fields.api_id == values.1 as u64,
        fields.api_hash@ == values.2,
        fields.chat_id == values.3,
    ensures
        loads_as(fields) == Some(values),
{
}

/// What reading the credential store came to: its text parsed into fields
/// (`None` where the text was not such a JSON object), no entry, or an error.
pub enum StoredRead {
    Found(Option<StoredFields>),
    NoEntry,
    Failed,
}

/// The configuration loaded from the store: none where nothing is stored,
/// an error where the store failed or holds no valid configuration.
pub fn load_result(read: StoredRead) -> (result: Result<Option<TelegramConfig>, SecretStoreError>)
    ensures
        match read {
            StoredRead::NoEntry => result matches Ok(None),
            StoredRead::Failed => result matches Err(SecretStoreError::Unavailable),
            StoredRead::Found(fields) => match fields {
                Some(f) => match loads_as(f) {
                    Some(v) => result matches Ok(Some(c)) && config_values(c) == v,
                    None => result matches Err(SecretStoreError::InvalidStoredConfiguration),
                },
                None => result matches Err(SecretStoreError::InvalidStoredConfiguration),
            },
        },
{
    match read {
        StoredRead::NoEntry => Ok(None),
        StoredRead::Failed => Err(SecretStoreError::Unavailable),
        StoredRead::Found(fields) => match stored_config(fields) {
            Some(c) => Ok(Some(c)),
            None => Err(SecretStoreError::InvalidStoredConfiguration),
        },
    }
}

/// What deleting the stored entry came to.
#[derive(Debug, Clone, Copy, PartialEq, Eq, Structural)]
pub enum DeleteOutcome {
    Deleted,
    NoEntry,
    Failed,
}

/// Clearing succeeds when the entry is gone, also when there was none.
pub fn clear_result(outcome: DeleteOutcome) -> (result: Result<(), SecretStoreError>)
    ensures
        result == match outcome {
            DeleteOutcome::Failed => Err(SecretStoreError::Unavailable),
            _ => Ok::<(), SecretStoreError>(()),
        },
{
    match outcome {
        DeleteOutcome::Failed => Err(SecretStoreError::Unavailable),
        _ => Ok(()),
    }
}

} // verus!
