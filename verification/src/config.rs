//! Validation of the Telegram configuration entered during onboarding.

use crate::secret::Secret;
use crate::text::{is_blank, is_white_space, str_contains_char, str_is_blank};
use vstd::prelude::*;

verus! {

/// Why a configuration was refused. It names the field only: no credential
/// text is ever part of it.
#[derive(Debug, Clone, Copy, PartialEq, Eq, Structural)]
pub enum ConfigError {
    InvalidBotToken,
    InvalidTelegramApp,
}

/// The configuration as the onboarding wizard sends it.
pub struct ConfigInput {
    pub bot_token: String,
    pub api_id: u32,
    pub api_hash: String,
    pub chat_id: i64,
}

/// A validated configuration, its credentials held as secrets.
pub struct TelegramConfig {
    pub bot_token: Secret,
    pub api_id: u32,
    pub api_hash: Secret,
    pub chat_id: i64,
}

impl TelegramConfig {
    /// The configuration holds exactly the values of `input`.
    pub open spec fn holds(self, input: ConfigInput) -> bool {
        &&& self.bot_token@ == input.bot_token@
        &&& self.api_id == input.api_id
        &&& self.api_hash@ == input.api_hash@
        &&& self.chat_id == input.chat_id
    }

    /// Moves the values of `input` into a configuration, the credentials
    /// into secrets. It checks nothing: `validate_config` does.
    pub fn from_input(input: ConfigInput) -> (config: Self)
        ensures
            config.holds(input),
    {
        let ConfigInput { bot_token, api_id, api_hash, chat_id } = input;
        TelegramConfig {
            bot_token: Secret::new(bot_token),
            api_id,
            api_hash: Secret::new(api_hash),
            chat_id,
        }
    }
}

/// A bot token as BotFather issues it has the form `<bot id>:<secret>`.
pub open spec fn token_has_separator(token: Seq<char>) -> bool {
    token.contains(':')
}

/// The verdict on a configuration: the first rule it breaks, if any.
pub open spec fn config_error(bot_token: Seq<char>, api_id: u32, api_hash: Seq<char>) -> Option<
    ConfigError,
> {
    if !token_has_separator(bot_token) {
        Some(ConfigError::InvalidBotToken)
    } else if api_id == 0 || is_blank(api_hash) {
        Some(ConfigError::InvalidTelegramApp)
    } else {
        None
    }
}

/// The bot token is refused exactly when no character of it, at any
/// position, is a `:`; a token with a `:` is refused for the Telegram app
/// exactly when `api_id` is zero or every character of `api_hash` is white
/// space.
pub proof fn lemma_token_refused_only_without_separator(
    bot_token: Seq<char>,
    api_id: u32,
    api_hash: Seq<char>,
)
    ensures
        config_error(bot_token, api_id, api_hash) == Some(ConfigError::InvalidBotToken) <==> forall|
            i: int,
        | 0 <= i < bot_token.len() ==> bot_token[i] != ':',
        config_error(bot_token, api_id, api_hash) == Some(ConfigError::InvalidTelegramApp) <==> (
        (exists|i: int| 0 <= i < bot_token.len() && bot_token[i] == ':') && (api_id == 0 || forall|
            i: int,
        | 0 <= i < api_hash.len() ==> is_white_space(#[trigger] api_hash[i]))),
{
    if !(forall|i: int| 0 <= i < bot_token.len() ==> bot_token[i] != ':') {
        let i = choose|i: int| 0 <= i < bot_token.len() && bot_token[i] == ':';
        assert(bot_token.contains(':'));
    }
}

/// A token `<bot id>:<secret>` is accepted whatever the length of the bot id,
/// with a non-zero `api_id` and an `api_hash` that is not blank.
pub proof fn lemma_any_bot_id_is_accepted(
    bot_id: Seq<char>,
    secret: Seq<char>,
    api_id: u32,
    api_hash: Seq<char>,
)
    requires
        api_id != 0,
        !is_blank(api_hash),
    ensures
        config_error(bot_id + seq![':'] + secret, api_id, api_hash) is None,
{
    let token = bot_id + seq![':'] + secret;
    assert(token[bot_id.len() as int] == ':');
    assert(token.contains(':'));
}

/// Accepts a configuration whose bot token holds a `:`, whose `api_id` is not
/// zero and whose `api_hash` is not blank; the token is checked first.
pub fn validate_config(input: ConfigInput) -> (result: Result<TelegramConfig, ConfigError>)
    ensures
        match config_error(input.bot_token@, input.api_id, input.api_hash@) {
            Some(e) => result == Err::<TelegramConfig, ConfigError>(e),
            None => result matches Ok(config) && config.holds(input),
        },
{
    if !str_contains_char(input.bot_token.as_str(), ':') {
        return Err(ConfigError::InvalidBotToken);
    }
    if input.api_id == 0 || str_is_blank(input.api_hash.as_str()) {
        return Err(ConfigError::InvalidTelegramApp);
    }
    Ok(TelegramConfig::from_input(input))
}

} // verus!

verus! {

/// The credentials known while onboarding, before a chat is chosen.
pub struct TelegramCredentials {
    pub bot_token: Secret,
    pub api_id: u32,
    pub api_hash: Secret,
}

} // verus!
