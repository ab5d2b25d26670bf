use ante_gateway::channels::access::{AllowPolicy, AllowPolicyWire};
use ante_gateway::channels::config::{
    enabled_channels, ChannelInstanceConfig, ChannelsConfig, ConfigError, SecretVariables,
};
use ante_gateway::json::Json;

/// The configuration that a document writes.
fn config(text: &str) -> ChannelsConfig {
    let document: serde_json::Value = serde_json::from_str(text).unwrap();
    let mut channels = Vec::new();
    for (name, settings) in document.as_object().unwrap() {
        let mut secrets = settings.clone();
        let fields = secrets.as_object_mut().unwrap();
        let enabled = fields.remove("enabled").unwrap().as_bool().unwrap();
        let allow_from = match fields.remove("allow_from") {
            Some(serde_json::Value::String(word)) => {
                AllowPolicy::try_from(AllowPolicyWire::Open(word)).unwrap()
            }
            Some(ids) => {
                let ids = serde_json::from_value(ids).unwrap();
                AllowPolicy::try_from(AllowPolicyWire::List(ids)).unwrap()
            }
            None => AllowPolicy::default(),
        };
        let secrets = Json::from_value(&secrets);
        channels.push((name.clone(), ChannelInstanceConfig { enabled, allow_from, secrets }));
    }
    ChannelsConfig { channels }
}

fn no_variables() -> SecretVariables {
    SecretVariables { slack_bot_token: None, slack_app_token: None, discord_bot_token: None }
}

#[test]
fn parse_minimal_config() {
    let json = r#"{
            "slack": {
                "enabled": true,
                "bot_token": "xoxb-test",
                "allow_from": ["U123"]
            }
        }"#;
    let config = config(json);
    let slack = config.get("slack").unwrap();
    assert!(slack.enabled);
    assert_eq!(slack.resolve_secret("bot_token", None), Some("xoxb-test".to_string()));
    assert!(slack.allow_from.is_allowed("U123"));
    assert!(!slack.allow_from.is_allowed("U999"));
}

#[test]
fn parse_open_allow_policy() {
    let json = r#"{
            "test": {
                "enabled": true,
                "allow_from": "open"
            }
        }"#;
    let config = config(json);
    let test = config.get("test").unwrap();
    assert!(test.allow_from.is_allowed("anyone"));
}

#[test]
fn default_allow_policy_denies_all() {
    let json = r#"{ "test": { "enabled": true } }"#;
    let config = config(json);
    let test = config.get("test").unwrap();
    assert!(!test.allow_from.is_allowed("anyone"));
}

#[test]
fn resolve_env_secret() {
    let json = r#"{
            "test": {
                "enabled": true,
                "token": "env:TEST_CHANNEL_TOKEN_89012"
            }
        }"#;
    let config = config(json);
    let test = config.get("test").unwrap();
    assert_eq!(test.secret_variable("token").as_deref(), Some("TEST_CHANNEL_TOKEN_89012"));
    assert_eq!(
        test.resolve_secret("token", Some("secret-value".to_string())),
        Some("secret-value".to_string())
    );
    assert_eq!(test.resolve_secret("token", None), None);
}

#[test]
fn secrets_that_are_missing_or_no_strings_are_none() {
    let config = config(r#"{ "test": { "enabled": true, "port": 7, "plain": "env" } }"#);
    let test = config.get("test").unwrap();
    let environment = || Some("from the environment".to_string());
    assert_eq!(test.resolve_secret("absent", environment()), None);
    assert_eq!(test.resolve_secret("port", environment()), None);
    assert_eq!(test.resolve_secret("plain", environment()).as_deref(), Some("env"));
    assert_eq!(test.secret_variable("absent"), None);
    assert_eq!(test.secret_variable("plain"), None);
}

#[test]
fn unconfigured_platforms_admit_everyone() {
    let config = config(r#"{ "slack": { "enabled": true, "allow_from": ["U1"] } }"#);
    assert!(config.is_admitted("slack", "U1"));
    assert!(!config.is_admitted("slack", "U2"));
    assert!(config.is_admitted("discord", "U2"));
    assert!(config.get("discord").is_none());
}

#[test]
fn of_two_entries_the_later_counts() {
    let entry = |enabled: bool| ChannelInstanceConfig {
        enabled,
        allow_from: AllowPolicy::Open,
        secrets: Json::Object(Vec::new()),
    };
    let channels = vec![("a".to_string(), entry(false)), ("a".to_string(), entry(true))];
    assert!(ChannelsConfig { channels }.get("a").unwrap().enabled);
}

#[test]
fn enabled_channels_carry_their_tokens() {
    let config = config(
        r#"{
            "slack": { "enabled": true, "bot_token": "xoxb", "app_token": "env:APP" },
            "discord": { "enabled": true, "bot_token": "env:BOT" }
        }"#,
    );
    let variables = SecretVariables {
        slack_bot_token: None,
        slack_app_token: Some("xapp".to_string()),
        discord_bot_token: Some("secret".to_string()),
    };
    let channels = match enabled_channels(&config, variables) {
        Ok(channels) => channels,
        Err(error) => panic!("{error:?}"),
    };
    let slack = channels.slack.unwrap();
    assert_eq!(slack.bot_token(), "xoxb");
    assert_eq!(slack.app_token(), "xapp");
    assert_eq!(slack.platform(), "slack");
    let discord = channels.discord.unwrap();
    assert_eq!(discord.bot_token(), "secret");
    assert_eq!(discord.platform(), "discord");
}

#[test]
fn disabled_channels_are_left_out() {
    let config = config(
        r#"{
            "slack": { "enabled": false },
            "discord": { "enabled": true, "bot_token": "secret" }
        }"#,
    );
    let channels = match enabled_channels(&config, no_variables()) {
        Ok(channels) => channels,
        Err(error) => panic!("{error:?}"),
    };
    assert!(channels.slack.is_none());
    assert!(channels.discord.is_some());
}

#[test]
fn startup_errors_name_what_is_missing() {
    for (text, error, message) in [
        (
            r#"{ "slack": { "enabled": true, "app_token": "xapp" } }"#,
            ConfigError::NoSlackBotToken,
            "slack: missing bot_token",
        ),
        (
            r#"{ "slack": { "enabled": true, "bot_token": "xoxb", "app_token": "env:UNSET" } }"#,
            ConfigError::NoSlackAppToken,
            "slack: missing app_token",
        ),
        (
            r#"{ "discord": { "enabled": true, "bot_token": false } }"#,
            ConfigError::NoDiscordBotToken,
            "discord: missing bot_token",
        ),
        (
            r#"{ "slack": { "enabled": false }, "irc": { "enabled": true } }"#,
            ConfigError::NoChannels,
            "no channels enabled in /etc/channels.json",
        ),
        (r#"{}"#, ConfigError::NoChannels, "no channels enabled in /etc/channels.json"),
    ] {
        match enabled_channels(&config(text), no_variables()) {
            Ok(_) => panic!("{text} starts"),
            Err(found) => {
                assert_eq!(found, error, "{text}");
                assert_eq!(found.message("/etc/channels.json"), message);
            }
        }
    }
}
