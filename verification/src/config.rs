//! Process configuration: the three values the bridge cannot start without.

use crate::text::{parse_u64, parsed_u64};
use vstd::prelude::*;

verus! {

/// The name of the variable that holds the platform session credential.
pub const DISCORD_TOKEN: &'static str = "DISCORD_TOKEN";

/// The name of the variable that holds the guild identifier.
pub const DISCORD_GUILD_ID: &'static str = "DISCORD_GUILD_ID";

/// The name of the variable that holds the completion service credential.
pub const OPENAI_KEY: &'static str = "OPENAI_KEY";

/// The values found in the process environment, each absent or present as
/// text.
#[derive(Debug, Clone, PartialEq, Eq)]
pub struct Environment {
    /// The platform session credential.
    pub discord_token: Option<String>,
    /// The guild in which the command is registered.
    pub discord_guild_id: Option<String>,
    /// The completion service credential.
    pub openai_key: Option<String>,
}

/// A configuration that is complete.
#[derive(Debug, Clone, PartialEq, Eq)]
pub struct Settings {
    pub discord_token: String,
    pub guild_id: u64,
    pub openai_key: String,
}

/// Why the process cannot start.
#[derive(Debug, Clone, Copy, PartialEq, Eq, Structural)]
pub enum ConfigError {
    /// The platform session credential is missing.
    MissingDiscordToken,
    /// The guild identifier is missing.
    MissingGuildId,
    /// The guild identifier is not an unsigned 64-bit number in base ten.
    InvalidGuildId,
    /// The completion service credential is missing.
    MissingOpenAiKey,
}

/// The first thing wrong with an environment, if anything is: the checks run
/// in the order token, guild identifier, completion credential.
pub open spec fn first_fault(environment: Environment) -> Option<ConfigError> {
    if environment.discord_token is None {
        Some(ConfigError::MissingDiscordToken)
    } else if environment.discord_guild_id is None {
        Some(ConfigError::MissingGuildId)
    } else if parsed_u64(environment.discord_guild_id->0@) is None {
        Some(ConfigError::InvalidGuildId)
    } else if environment.openai_key is None {
        Some(ConfigError::MissingOpenAiKey)
    } else {
        None
    }
}

/// Checks an environment. It succeeds exactly when all three values are
/// present and the guild identifier is a number; the settings then hold the
/// values as found. Otherwise the error names the first fault.
pub fn load(environment: Environment) -> (result: Result<Settings, ConfigError>)
    ensures
        (match result {
            Ok(settings) => {
                &&& first_fault(environment) is None
                &&& settings.discord_token@ == environment.discord_token->0@
                &&& Some(settings.guild_id) == parsed_u64(environment.discord_guild_id->0@)
                &&& settings.openai_key@ == environment.openai_key->0@
            },
            Err(fault) => first_fault(environment) == Some(fault),
        }),
{
    let Environment { discord_token, discord_guild_id, openai_key } = environment;
    let discord_token = match discord_token {
        Some(token) => token,
        None => {
            return Err(ConfigError::MissingDiscordToken);
        },
    };
    let guild_text = match discord_guild_id {
        Some(text) => text,
        None => {
            return Err(ConfigError::MissingGuildId);
        },
    };
    let guild_id = match parse_u64(guild_text.as_str()) {
        Some(id) => id,
        None => {
            return Err(ConfigError::InvalidGuildId);
        },
    };
    let openai_key = match openai_key {
        Some(key) => key,
        None => {
            return Err(ConfigError::MissingOpenAiKey);
        },
    };
    Ok(Settings { discord_token, guild_id, openai_key })
}

impl ConfigError {
    /// The text that reports this fault.
    pub open spec fn spec_message(self) -> Seq<char> {
        match self {
            ConfigError::MissingDiscordToken => "Expected a DISCORD_TOKEN environment variable"@,
            ConfigError::MissingGuildId => "Expected DISCORD_GUILD_ID in environment"@,
            ConfigError::InvalidGuildId => "DISCORD_GUILD_ID must be an integer"@,
            ConfigError::MissingOpenAiKey => "Expected a OPENAI_KEY environment variable"@,
        }
    }

    /// The text that reports this fault.
    pub fn message(&self) -> (text: &'static str)
        ensures
            text@ == self.spec_message(),
    {
        match self {
            ConfigError::MissingDiscordToken => "Expected a DISCORD_TOKEN environment variable",
            ConfigError::MissingGuildId => "Expected DISCORD_GUILD_ID in environment",
            ConfigError::InvalidGuildId => "DISCORD_GUILD_ID must be an integer",
            ConfigError::MissingOpenAiKey => "Expected a OPENAI_KEY environment variable",
        }
    }
}

} // verus!
