//! The channels that a configuration file sets up.

use super::access::AllowPolicy;
use super::discord::DiscordChannel;
use super::slack::SlackChannel;
use crate::json::{Json, JsonTree};
use crate::text::{same_text, strip_prefix, text_option, texts};
use vstd::prelude::*;
use vstd::string::*;

verus! {

/// Per-channel instance configuration, keyed by platform id in the top-level map.
#[derive(Debug)]
pub struct ChannelInstanceConfig {
    pub enabled: bool,
    /// Access policy. Denies everyone where the configuration has none.
    pub allow_from: AllowPolicy,
    /// All remaining fields, as an object: platform-specific secrets and
    /// settings. Values prefixed with `"env:"` are resolved from the
    /// environment.
    pub secrets: Json,
}

/// The environment variable that a stored value refers to: what follows
/// `env:`.
pub open spec fn variable_in(value: Seq<char>) -> Option<Seq<char>> {
    if "env:"@.is_prefix_of(value) {
        Some(value.skip("env:"@.len() as int))
    } else {
        None
    }
}

impl ChannelInstanceConfig {
    /// The text stored under `key`, if there is one.
    pub open spec fn stored(self, key: Seq<char>) -> Option<Seq<char>> {
        self.secrets@.field(key).as_str()
    }

    /// The environment variable that the secret `key` refers to, if it does.
    pub open spec fn variable(self, key: Seq<char>) -> Option<Seq<char>> {
        match self.stored(key) {
            Some(value) => variable_in(value),
            None => None,
        }
    }

    /// The secret `key`, where `environment` is the value of the environment
    /// variable that it refers to, if that variable is set.
    pub open spec fn secret(self, key: Seq<char>, environment: Option<Seq<char>>) -> Option<
        Seq<char>,
    > {
        match self.stored(key) {
            Some(value) => if variable_in(value) is Some {
                environment
            } else {
                Some(value)
            },
            None => None,
        }
    }

    /// The environment variable in which to look for the secret `key`, if it
    /// stands in one.
    pub fn secret_variable(&self, key: &str) -> (r: Option<String>)
        ensures
            text_option(r) == self.variable(key@),
    {
        match self.secrets.field(key).as_str() {
            Some(value) => {
                let r = strip_prefix(value, "env:");
                proof {
                    if r is Some {
                        assert("env:"@.is_prefix_of(value@));
                        assert(value@.skip("env:"@.len() as int) =~= r->0@);
                    }
                }
                r
            },
            None => None,
        }
    }

    /// Resolve a secret value. If the stored value starts with `"env:"`, it is
    /// `environment`, the value of the variable that [`Self::secret_variable`]
    /// names. Returns `None` if the key is missing, the value is not a string,
    /// or the variable is not set.
    pub fn resolve_secret(&self, key: &str, environment: Option<String>) -> (r: Option<String>)
        ensures
            text_option(r) == self.secret(key@, text_option(environment)),
    {
        match self.secrets.field(key).to_text() {
            Some(value) => if self.secret_variable(key).is_some() {
                environment
            } else {
                Some(value)
            },
            None => None,
        }
    }
}

/// The entry for `name`: of two with one name the later one counts.
pub open spec fn entry_for(
    entries: Seq<(String, ChannelInstanceConfig)>,
    name: Seq<char>,
) -> Option<ChannelInstanceConfig>
    decreases entries.len(),
{
    if entries.len() == 0 {
        None
    } else if entries.last().0@ == name {
        Some(entries.last().1)
    } else {
        entry_for(entries.drop_last(), name)
    }
}

/// Top-level channels configuration: `{ "slack": { ... }, "discord": { ... } }`.
#[derive(Debug)]
pub struct ChannelsConfig {
    pub channels: Vec<(String, ChannelInstanceConfig)>,
}

impl ChannelsConfig {
    /// The configuration of a channel.
    pub open spec fn channel(self, name: Seq<char>) -> Option<ChannelInstanceConfig> {
        entry_for(self.channels@, name)
    }

    /// Whether `sender` may interact on `platform`: a platform that is not
    /// configured rejects nobody.
    pub open spec fn admits(self, platform: Seq<char>, sender: Seq<char>) -> bool {
        match self.channel(platform) {
            Some(config) => config.allow_from.allows(sender),
            None => true,
        }
    }

    /// The configuration of a channel.
    pub fn get(&self, name: &str) -> (r: Option<&ChannelInstanceConfig>)
        ensures
            match r {
                Some(config) => self.channel(name@) == Some(*config),
                None => self.channel(name@) is None,
            },
    {
        let mut i: usize = self.channels.len();
        assert(self.channels@.take(i as int) =~= self.channels@);
        while i > 0
            invariant
                i <= self.channels@.len(),
                self.channel(name@) == entry_for(self.channels@.take(i as int), name@),
            decreases i,
        {
            i = i - 1;
            assert(self.channels@.take(i + 1).drop_last() =~= self.channels@.take(i as int));
            assert(self.channels@.take(i + 1).last() == self.channels@[i as int]);
            if same_text(self.channels[i].0.as_str(), name) {
                return Some(&self.channels[i].1);
            }
        }
        None
    }

    /// Whether `sender` may interact on `platform`.
    pub fn is_admitted(&self, platform: &str, sender: &str) -> (r: bool)
        ensures
            r == self.admits(platform@, sender@),
    {
        match self.get(platform) {
            Some(config) => config.allow_from.is_allowed(sender),
            None => true,
        }
    }
}

/// The values of the environment variables that secrets refer to, as far as
/// they refer to one that is set.
pub struct SecretVariables {
    pub slack_bot_token: Option<String>,
    pub slack_app_token: Option<String>,
    pub discord_bot_token: Option<String>,
}

/// The platforms to connect to.
pub struct EnabledChannels {
    pub slack: Option<SlackChannel>,
    pub discord: Option<DiscordChannel>,
}

/// Why the gateway cannot start with a configuration.
#[derive(Debug, PartialEq, Eq, Structural)]
pub enum ConfigError {
    NoSlackBotToken,
    NoSlackAppToken,
    NoDiscordBotToken,
    NoChannels,
}

impl ConfigError {
    /// What the error says about the configuration file `path`.
    pub open spec fn says(self, path: Seq<char>) -> Seq<char> {
        match self {
            ConfigError::NoSlackBotToken => "slack: missing bot_token"@,
            ConfigError::NoSlackAppToken => "slack: missing app_token"@,
            ConfigError::NoDiscordBotToken => "discord: missing bot_token"@,
            ConfigError::NoChannels => "no channels enabled in "@ + path,
        }
    }

    /// What the error says about the configuration file `path`.
    pub fn message(&self, path: &str) -> (r: String)
        ensures
            r@ == self.says(path@),
    {
        match self {
            ConfigError::NoSlackBotToken => "slack: missing bot_token".to_owned(),
            ConfigError::NoSlackAppToken => "slack: missing app_token".to_owned(),
            ConfigError::NoDiscordBotToken => "discord: missing bot_token".to_owned(),
            ConfigError::NoChannels => {
                let mut out = "no channels enabled in ".to_owned();
                out.append(path);
                out
            },
        }
    }
}

/// Whether a channel is configured and enabled.
pub open spec fn enables(config: ChannelsConfig, name: Seq<char>) -> bool {
    config.channel(name) is Some && config.channel(name)->0.enabled
}

/// The secret `key` of a channel that is configured.
pub open spec fn channel_secret(
    config: ChannelsConfig,
    name: Seq<char>,
    key: Seq<char>,
    environment: Option<String>,
) -> Option<Seq<char>> {
    config.channel(name)->0.secret(key, text_option(environment))
}

/// Why the gateway cannot start: a token of an enabled channel is missing, or
/// no channel is enabled.
pub open spec fn startup_error(
    config: ChannelsConfig,
    variables: SecretVariables,
) -> Option<ConfigError> {
    if enables(config, "slack"@) && channel_secret(
        config,
        "slack"@,
        "bot_token"@,
        variables.slack_bot_token,
    ) is None {
        Some(ConfigError::NoSlackBotToken)
    } else if enables(config, "slack"@) && channel_secret(
        config,
        "slack"@,
        "app_token"@,
        variables.slack_app_token,
    ) is None {
        Some(ConfigError::NoSlackAppToken)
    } else if enables(config, "discord"@) && channel_secret(
        config,
        "discord"@,
        "bot_token"@,
        variables.discord_bot_token,
    ) is None {
        Some(ConfigError::NoDiscordBotToken)
    } else if !enables(config, "slack"@) && !enables(config, "discord"@) {
        Some(ConfigError::NoChannels)
    } else {
        None
    }
}

/// The platforms that a configuration enables, with their tokens.
pub fn enabled_channels(config: &ChannelsConfig, variables: SecretVariables) -> (r: Result<
    EnabledChannels,
    ConfigError,
>)
    ensures
        match r {
            Err(error) => startup_error(*config, variables) == Some(error),
            Ok(channels) => {
                &&& startup_error(*config, variables) is None
                &&& channels.slack is Some == enables(*config, "slack"@)
                &&& channels.discord is Some == enables(*config, "discord"@)
                &&& channels.slack matches Some(slack) ==> {
                    &&& Some(slack.bot()) == channel_secret(
                        *config,
                        "slack"@,
                        "bot_token"@,
                        variables.slack_bot_token,
                    )
                    &&& Some(slack.app()) == channel_secret(
                        *config,
                        "slack"@,
                        "app_token"@,
                        variables.slack_app_token,
                    )
                }
                &&& channels.discord matches Some(discord) ==> Some(discord.bot())
                    == channel_secret(
                    *config,
                    "discord"@,
                    "bot_token"@,
                    variables.discord_bot_token,
                )
            },
        },
{
    let mut slack: Option<SlackChannel> = None;
    let mut discord: Option<DiscordChannel> = None;
    if let Some(cfg) = config.get("slack") {
        if cfg.enabled {
            let bot_token = match cfg.resolve_secret("bot_token", variables.slack_bot_token) {
                Some(token) => token,
                None => return Err(ConfigError::NoSlackBotToken),
            };
            let app_token = match cfg.resolve_secret("app_token", variables.slack_app_token) {
                Some(token) => token,
                None => return Err(ConfigError::NoSlackAppToken),
            };
            slack = Some(SlackChannel::new(bot_token, app_token));
        }
    }
    if let Some(cfg) = config.get("discord") {
        if cfg.enabled {
            let bot_token = match cfg.resolve_secret("bot_token", variables.discord_bot_token) {
                Some(token) => token,
                None => return Err(ConfigError::NoDiscordBotToken),
            };
            discord = Some(DiscordChannel::new(bot_token));
        }
    }
    if slack.is_none() && discord.is_none() {
        return Err(ConfigError::NoChannels);
    }
    Ok(EnabledChannels { slack, discord })
}

/// A stored text that begins with `env:` names a variable, whose value is the
/// secret.
pub proof fn env_secrets_come_from_their_variable(
    config: &ChannelInstanceConfig,
    key: &str,
    name: Seq<char>,
    environment: Option<String>,
    variable: Option<String>,
    secret: Option<String>,
)
    requires
        config.secrets@.field(key@) == JsonTree::Text("env:"@ + name),
        call_ensures(ChannelInstanceConfig::secret_variable, (config, key), variable),
        call_ensures(ChannelInstanceConfig::resolve_secret, (config, key, environment), secret),
    ensures
        variable is Some,
        variable->0@ == name,
        secret is Some == environment is Some,
        secret is Some ==> secret->0@ == environment->0@,
{
    let value = "env:"@ + name;
    assert("env:"@.is_prefix_of(value));
    assert(value.skip("env:"@.len() as int) =~= name);
}

/// Any other stored text is itself the secret, whatever the environment holds.
pub proof fn plain_secrets_are_themselves(
    config: &ChannelInstanceConfig,
    key: &str,
    value: Seq<char>,
    environment: Option<String>,
    variable: Option<String>,
    secret: Option<String>,
)
    requires
        config.secrets@.field(key@) == JsonTree::Text(value),
        forall|name: Seq<char>| value != #[trigger] ("env:"@ + name),
        call_ensures(ChannelInstanceConfig::secret_variable, (config, key), variable),
        call_ensures(ChannelInstanceConfig::resolve_secret, (config, key, environment), secret),
    ensures
        variable is None,
        secret is Some,
        secret->0@ == value,
{
    if "env:"@.is_prefix_of(value) {
        let name = value.skip("env:"@.len() as int);
        assert(value =~= "env:"@ + name);
    }
}

/// What is not stored as a text is no secret.
pub proof fn only_texts_are_secrets(
    config: &ChannelInstanceConfig,
    key: &str,
    environment: Option<String>,
    variable: Option<String>,
    secret: Option<String>,
)
    requires
        !(config.secrets@.field(key@) is Text),
        call_ensures(ChannelInstanceConfig::secret_variable, (config, key), variable),
        call_ensures(ChannelInstanceConfig::resolve_secret, (config, key, environment), secret),
    ensures
        variable is None,
        secret is None,
{
}

proof fn latest_channel_counts(
    entries: Seq<(String, ChannelInstanceConfig)>,
    name: Seq<char>,
    i: int,
)
    requires
        0 <= i < entries.len(),
        entries[i].0@ == name,
        forall|j: int| i < j < entries.len() ==> (#[trigger] entries[j]).0@ != name,
    ensures
        entry_for(entries, name) == Some(entries[i].1),
    decreases entries.len(),
{
    if i < entries.len() - 1 {
        let front = entries.drop_last();
        assert(entries[entries.len() - 1].0@ != name);
        assert(front[i] == entries[i]);
        assert forall|j: int| i < j < front.len() implies (#[trigger] front[j]).0@ != name by {
            assert(front[j] == entries[j]);
        }
        latest_channel_counts(front, name, i);
    }
}

proof fn absent_channels_are_none(entries: Seq<(String, ChannelInstanceConfig)>, name: Seq<char>)
    requires
        forall|j: int| 0 <= j < entries.len() ==> (#[trigger] entries[j]).0@ != name,
    ensures
        entry_for(entries, name) is None,
    decreases entries.len(),
{
    if entries.len() > 0 {
        let front = entries.drop_last();
        assert(entries[entries.len() - 1].0@ != name);
        assert forall|j: int| 0 <= j < front.len() implies (#[trigger] front[j]).0@ != name by {
            assert(front[j] == entries[j]);
        }
        absent_channels_are_none(front, name);
    }
}

/// A channel's configuration is its last entry, and who may interact there is
/// up to the policy of that entry.
pub proof fn channels_are_their_last_entries(
    config: &ChannelsConfig,
    i: int,
    name: &str,
    sender: &str,
    found: Option<&ChannelInstanceConfig>,
    admitted: bool,
)
    requires
        0 <= i < config.channels@.len(),
        config.channels@[i].0@ == name@,
        forall|j: int|
            i < j < config.channels@.len() ==> (#[trigger] config.channels@[j]).0@ != name@,
        call_ensures(ChannelsConfig::get, (config, name), found),
        call_ensures(ChannelsConfig::is_admitted, (config, name, sender), admitted),
    ensures
        found is Some,
        *found->0 == config.channels@[i].1,
        match config.channels@[i].1.allow_from {
            AllowPolicy::Open => admitted,
            AllowPolicy::List(ids) => admitted == exists|k: int|
                0 <= k < ids@.len() && #[trigger] ids@[k]@ == sender@,
        },
{
    latest_channel_counts(config.channels@, name@, i);
    if let AllowPolicy::List(ids) = config.channels@[i].1.allow_from {
        if admitted {
            let k = choose|k: int| 0 <= k < texts(ids@).len() && texts(ids@)[k] == sender@;
            assert(ids@[k]@ == sender@);
        }
        assert forall|k: int|
            0 <= k < ids@.len() && #[trigger] ids@[k]@ == sender@ implies admitted by {
            assert(texts(ids@)[k] == sender@);
        }
    }
}

/// A channel without an entry has no configuration, and rejects nobody.
pub proof fn other_channels_reject_nobody(
    config: &ChannelsConfig,
    name: &str,
    sender: &str,
    found: Option<&ChannelInstanceConfig>,
    admitted: bool,
)
    requires
        forall|j: int|
            0 <= j < config.channels@.len() ==> (#[trigger] config.channels@[j]).0@ != name@,
        call_ensures(ChannelsConfig::get, (config, name), found),
        call_ensures(ChannelsConfig::is_admitted, (config, name, sender), admitted),
    ensures
        found is None,
        admitted,
{
    absent_channels_are_none(config.channels@, name@);
}

/// What each error says.
pub proof fn startup_errors_say_what_is_missing(error: &ConfigError, path: &str, said: String)
    requires
        call_ensures(ConfigError::message, (error, path), said),
    ensures
        match *error {
            ConfigError::NoSlackBotToken => said@ == "slack: missing bot_token"@,
            ConfigError::NoSlackAppToken => said@ == "slack: missing app_token"@,
            ConfigError::NoDiscordBotToken => said@ == "discord: missing bot_token"@,
            ConfigError::NoChannels => said@ == "no channels enabled in "@ + path@,
        },
{
}

/// The gateway starts with just the channels that are enabled, each with the
/// secrets that its configuration gives. It does not start where a secret of an
/// enabled channel is missing, the first one being named, or where no channel is
/// enabled.
pub proof fn enabled_channels_start_with_their_secrets(
    config: &ChannelsConfig,
    variables: SecretVariables,
    slack_name: &str,
    discord_name: &str,
    bot_key: &str,
    app_key: &str,
    slack: Option<&ChannelInstanceConfig>,
    discord: Option<&ChannelInstanceConfig>,
    bot: Option<String>,
    app: Option<String>,
    token: Option<String>,
    slack_on: bool,
    discord_on: bool,
    started: Result<EnabledChannels, ConfigError>,
)
    requires
        slack_on == (slack is Some && slack->0.enabled),
        discord_on == (discord is Some && discord->0.enabled),
        slack_name@ == "slack"@,
        discord_name@ == "discord"@,
        bot_key@ == "bot_token"@,
        app_key@ == "app_token"@,
        call_ensures(ChannelsConfig::get, (config, slack_name), slack),
        call_ensures(ChannelsConfig::get, (config, discord_name), discord),
        slack is Some ==> call_ensures(
            ChannelInstanceConfig::resolve_secret,
            (slack->0, bot_key, variables.slack_bot_token),
            bot,
        ),
        slack is Some ==> call_ensures(
            ChannelInstanceConfig::resolve_secret,
            (slack->0, app_key, variables.slack_app_token),
            app,
        ),
        discord is Some ==> call_ensures(
            ChannelInstanceConfig::resolve_secret,
            (discord->0, bot_key, variables.discord_bot_token),
            token,
        ),
        call_ensures(enabled_channels, (config, variables), started),
    ensures
        match started {
            Err(ConfigError::NoSlackBotToken) => slack_on && bot is None,
            Err(ConfigError::NoSlackAppToken) => slack_on && bot is Some && app is None,
            Err(ConfigError::NoDiscordBotToken) => {
                &&& slack_on ==> bot is Some && app is Some
                &&& discord_on && token is None
            },
            Err(ConfigError::NoChannels) => !slack_on && !discord_on,
            Ok(channels) => {
                &&& slack_on || discord_on
                &&& channels.slack is Some == slack_on
                &&& channels.discord is Some == discord_on
                &&& slack_on ==> {
                    &&& bot is Some && channels.slack->0.bot() == bot->0@
                    &&& app is Some && channels.slack->0.app() == app->0@
                }
                &&& discord_on ==> token is Some && channels.discord->0.bot() == token->0@
            },
        },
{
}

}
