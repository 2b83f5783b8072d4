use gpt_bridge::config::{
    load, ConfigError, Environment, Settings, DISCORD_GUILD_ID, DISCORD_TOKEN, OPENAI_KEY,
};

fn environment(token: Option<&str>, guild: Option<&str>, key: Option<&str>) -> Environment {
    Environment {
        discord_token: token.map(str::to_string),
        discord_guild_id: guild.map(str::to_string),
        openai_key: key.map(str::to_string),
    }
}

#[test]
fn a_complete_environment_loads() {
    let settings = load(environment(Some("token"), Some("1234567890"), Some("key")));
    assert_eq!(
        settings,
        Ok(Settings {
            discord_token: "token".to_string(),
            guild_id: 1234567890,
            openai_key: "key".to_string(),
        })
    );
}

#[test]
fn a_missing_token_is_reported() {
    assert_eq!(
        load(environment(None, Some("1"), Some("key"))),
        Err(ConfigError::MissingDiscordToken)
    );
}

#[test]
fn a_missing_guild_is_reported() {
    assert_eq!(load(environment(Some("t"), None, Some("key"))), Err(ConfigError::MissingGuildId));
}

#[test]
fn a_guild_that_is_no_number_is_reported() {
    for guild in ["", "guild", "12x", "-3", "1.5", " 7", "18446744073709551616"] {
        assert_eq!(
            load(environment(Some("t"), Some(guild), Some("key"))),
            Err(ConfigError::InvalidGuildId),
            "{:?}",
            guild
        );
    }
}

#[test]
fn a_missing_key_is_reported() {
    assert_eq!(load(environment(Some("t"), Some("1"), None)), Err(ConfigError::MissingOpenAiKey));
}

#[test]
fn the_first_fault_is_the_one_reported() {
    assert_eq!(load(environment(None, None, None)), Err(ConfigError::MissingDiscordToken));
    assert_eq!(load(environment(None, Some("x"), None)), Err(ConfigError::MissingDiscordToken));
    assert_eq!(load(environment(Some("t"), None, None)), Err(ConfigError::MissingGuildId));
    assert_eq!(load(environment(Some("t"), Some("x"), None)), Err(ConfigError::InvalidGuildId));
}

#[test]
fn the_largest_guild_identifier_loads() {
    let settings = load(environment(Some("t"), Some("18446744073709551615"), Some("k")));
    assert_eq!(settings.map(|s| s.guild_id), Ok(u64::MAX));
}

#[test]
fn values_are_kept_as_found() {
    let settings = load(environment(Some(" t "), Some("+007"), Some(""))).unwrap();
    assert_eq!(settings.discord_token, " t ");
    assert_eq!(settings.guild_id, 7);
    assert_eq!(settings.openai_key, "");
}

#[test]
fn every_fault_has_its_message() {
    assert_eq!(
        ConfigError::MissingDiscordToken.message(),
        "Expected a DISCORD_TOKEN environment variable"
    );
    assert_eq!(ConfigError::MissingGuildId.message(), "Expected DISCORD_GUILD_ID in environment");
    assert_eq!(ConfigError::InvalidGuildId.message(), "DISCORD_GUILD_ID must be an integer");
    assert_eq!(
        ConfigError::MissingOpenAiKey.message(),
        "Expected a OPENAI_KEY environment variable"
    );
}

#[test]
fn the_variables_have_their_names() {
    assert_eq!(DISCORD_TOKEN, "DISCORD_TOKEN");
    assert_eq!(DISCORD_GUILD_ID, "DISCORD_GUILD_ID");
    assert_eq!(OPENAI_KEY, "OPENAI_KEY");
}
