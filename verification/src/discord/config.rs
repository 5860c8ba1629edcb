//! Starting the channel, and what it is told to do.

use vstd::prelude::*;
use vstd::string::*;
use crate::text::views;

verus! {

/// How the channel was configured.
#[derive(Debug)]
pub struct DiscordRuntimeConfig {
    pub polling_enabled: bool,
    pub poll_interval_ms: u32,
    pub mention_channel_ids: Vec<String>,
}

/// An endpoint that the host opens for the channel.
#[derive(Debug)]
pub struct HttpEndpointConfig {
    pub path: String,
    pub methods: Vec<String>,
    pub require_secret: bool,
}

/// How often the host polls.
#[derive(Debug)]
pub struct PollConfig {
    pub interval_ms: u32,
    pub enabled: bool,
}

/// What the channel asks of the host.
#[derive(Debug)]
pub struct ChannelConfig {
    pub display_name: String,
    pub http_endpoints: Vec<HttpEndpointConfig>,
    pub poll: Option<PollConfig>,
}

/// What the channel asks of the host.
pub open spec fn asks_for(config: DiscordRuntimeConfig, asked: ChannelConfig) -> bool {
    &&& asked.display_name@ == "Discord"@
    &&& asked.http_endpoints@.len() == 1
    &&& asked.http_endpoints@[0].path@ == "/webhook/discord"@
    &&& views(asked.http_endpoints@[0].methods@) == seq!["POST"@]
    &&& asked.http_endpoints@[0].require_secret
    &&& asked.poll == if config.polling_enabled {
        Some(
            PollConfig {
                interval_ms: if config.poll_interval_ms < 30_000 {
                    30_000
                } else {
                    config.poll_interval_ms
                },
                enabled: true,
            },
        )
    } else {
        None
    }
}

/// The configuration where none is given: no polling.
pub open spec fn is_default(config: DiscordRuntimeConfig) -> bool {
    &&& !config.polling_enabled
    &&& config.poll_interval_ms == 30_000
    &&& config.mention_channel_ids@ == Seq::<String>::empty()
}

/// The poll interval where none is given.
pub fn default_poll_interval_ms() -> (interval: u32)
    ensures
        interval == 30_000,
{
    30_000
}

/// The configuration that was read, or the default where there is none to be read.
pub fn config_or_default(read: Option<DiscordRuntimeConfig>) -> (config: DiscordRuntimeConfig)
    ensures
        match read {
            Some(given) => config == given,
            None => is_default(config),
        },
{
    match read {
        Some(given) => given,
        None => DiscordRuntimeConfig {
            polling_enabled: false,
            poll_interval_ms: default_poll_interval_ms(),
            mention_channel_ids: Vec::new(),
        },
    }
}

/// What the channel asks of the host.
pub fn channel_config(config: &DiscordRuntimeConfig) -> (asked: ChannelConfig)
    ensures
        asks_for(*config, asked),
{
    let mut methods: Vec<String> = Vec::new();
    methods.push("POST".to_owned());
    assert(views(methods@) =~= seq!["POST"@]);
    let mut http_endpoints: Vec<HttpEndpointConfig> = Vec::new();
    http_endpoints.push(
        HttpEndpointConfig { path: "/webhook/discord".to_owned(), methods, require_secret: true },
    );
    let poll = if config.polling_enabled {
        let interval_ms = if config.poll_interval_ms < 30_000 {
            30_000
        } else {
            config.poll_interval_ms
        };
        Some(PollConfig { interval_ms, enabled: true })
    } else {
        None
    };
    ChannelConfig { display_name: "Discord".to_owned(), http_endpoints, poll }
}

/// Starts the channel with the configuration that was read, if any: the configuration
/// to store, and what the channel asks of the host.
pub fn on_start(read: Option<DiscordRuntimeConfig>) -> (r: (DiscordRuntimeConfig, ChannelConfig))
    ensures
        match read {
            Some(given) => r.0 == given,
            None => is_default(r.0),
        },
        asks_for(r.0, r.1),
{
    let config = config_or_default(read);
    let asked = channel_config(&config);
    (config, asked)
}

/// Whether there is anything to poll.
pub fn is_polling(config: &DiscordRuntimeConfig) -> (r: bool)
    ensures
        r == (config.polling_enabled && config.mention_channel_ids@.len() > 0),
{
    config.polling_enabled && config.mention_channel_ids.len() > 0
}

/// The host is never asked to poll more often than every 30 seconds, and not at all
/// where polling is not enabled.
pub proof fn polling_is_never_too_frequent(config: DiscordRuntimeConfig, asked: ChannelConfig)
    requires
        asks_for(config, asked),
    ensures
        asked.poll matches Some(poll) ==> poll.enabled && poll.interval_ms >= 30_000,
        asked.poll is Some == config.polling_enabled,
{
}

/// What the channel asks for: one endpoint, which takes posts and wants the secret, and
/// polls at the configured interval, or every 30 seconds where that is longer.
pub proof fn what_is_asked_for(config: DiscordRuntimeConfig, asked: ChannelConfig)
    requires
        asks_for(config, asked),
    ensures
        asked.display_name@ == "Discord"@,
        asked.http_endpoints@.len() == 1,
        asked.http_endpoints@[0].path@ == "/webhook/discord"@,
        asked.http_endpoints@[0].methods@.len() == 1,
        asked.http_endpoints@[0].methods@[0]@ == "POST"@,
        asked.http_endpoints@[0].require_secret,
        asked.poll is Some <==> config.polling_enabled,
        asked.poll matches Some(poll) ==> {
            &&& poll.enabled
            &&& poll.interval_ms >= 30_000 && poll.interval_ms >= config.poll_interval_ms
            &&& poll.interval_ms == 30_000 || poll.interval_ms == config.poll_interval_ms
        },
{
    assert(views(asked.http_endpoints@[0].methods@).len() == 1);
    assert(views(asked.http_endpoints@[0].methods@)[0] == "POST"@);
}

/// Where no configuration is given nothing is polled.
pub proof fn by_default_nothing_is_polled(config: DiscordRuntimeConfig)
    requires
        is_default(config),
    ensures
        !config.polling_enabled,
        config.poll_interval_ms == 30_000,
        config.mention_channel_ids@.len() == 0,
{
}

} // verus!
