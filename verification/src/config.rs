//! Process configuration: the raw flag and environment values, their
//! conversion into the settings the engine runs on, and validation of the
//! chat-webhook address. Reading flags and the environment is the caller's
//! business; the rules for combining them live here.

use vstd::prelude::*;
use vstd::string::*;

verus! {

/// Raw configuration values, one per process flag or environment variable.
pub struct EnvArgs {
    /// Host of the relational database.
    pub db_host: String,
    /// Port of the relational database.
    pub db_port: u16,
    /// Username for the relational database.
    pub db_user: String,
    /// Password for the relational database.
    pub db_password: String,
    /// Database name within the relational database.
    pub db_name: String,
    /// Optional chat webhook address.
    pub discord_webhook: Option<DiscordWebhook>,
    /// Host of the optional message broker.
    pub mqtt_host: Option<String>,
    /// Port of the optional message broker.
    pub mqtt_port: Option<u16>,
    /// Username for the optional message broker.
    pub mqtt_user: Option<String>,
    /// Password for the optional message broker.
    pub mqtt_password: Option<String>,
    /// Interval in seconds between polling cycles.
    pub interval: u64,
}

/// Why a configuration is rejected.
#[derive(Clone, Copy, PartialEq, Eq, Structural, Debug)]
pub enum ConfigError {
    /// A broker username was given without a password.
    MqttUserWithoutPassword,
    /// A broker password was given without a username.
    MqttPasswordWithoutUser,
    /// Broker settings were requested but no host was given.
    MqttHostMissing,
    /// Broker settings were requested but no port was given.
    MqttPortMissing,
    /// The chat-webhook address does not look like one.
    WebhookUrlInvalid,
}

/// Login for the message broker.
pub struct MqttCredentialEnvVariables {
    pub user: String,
    pub password: String,
}

/// Connection settings for the message broker.
pub struct MqttEnvVariables {
    pub host: String,
    pub port: u16,
    pub credentials: Option<MqttCredentialEnvVariables>,
}

/// The broker settings that a raw configuration yields: a username and a
/// password must come together, and both host and port must be present.
/// The credential pairing is checked first, as the raw values are read.
pub open spec fn spec_mqtt_from_args(a: EnvArgs) -> Result<MqttEnvVariables, ConfigError> {
    match (a.mqtt_user, a.mqtt_password) {
        (Some(_), None) => Err(ConfigError::MqttUserWithoutPassword),
        (None, Some(_)) => Err(ConfigError::MqttPasswordWithoutUser),
        _ => match a.mqtt_host {
            None => Err(ConfigError::MqttHostMissing),
            Some(host) => match a.mqtt_port {
                None => Err(ConfigError::MqttPortMissing),
                Some(port) => Ok(
                    MqttEnvVariables {
                        host: host,
                        port: port,
                        credentials: match (a.mqtt_user, a.mqtt_password) {
                            (Some(u), Some(p)) => Some(
                                MqttCredentialEnvVariables { user: u, password: p },
                            ),
                            _ => None,
                        },
                    },
                ),
            },
        },
    }
}

impl MqttEnvVariables {
    /// The broker settings of a raw configuration, or exactly why there are
    /// none.
    pub fn try_from_args(args: &EnvArgs) -> (r: Result<MqttEnvVariables, ConfigError>)
        ensures
            r == spec_mqtt_from_args(*args),
    {
        let credentials = match (&args.mqtt_user, &args.mqtt_password) {
            (Some(user), Some(password)) => Some(
                MqttCredentialEnvVariables { user: user.clone(), password: password.clone() },
            ),
            (Some(_), None) => {
                return Err(ConfigError::MqttUserWithoutPassword);
            },
            (None, Some(_)) => {
                return Err(ConfigError::MqttPasswordWithoutUser);
            },
            (None, None) => None,
        };
        let host = match &args.mqtt_host {
            Some(h) => h.clone(),
            None => {
                return Err(ConfigError::MqttHostMissing);
            },
        };
        let port = match args.mqtt_port {
            Some(p) => p,
            None => {
                return Err(ConfigError::MqttPortMissing);
            },
        };
        Ok(MqttEnvVariables { host, port, credentials })
    }
}

/// The settings the engine runs on.
pub struct EnvVariables {
    pub db_host: String,
    pub db_port: u16,
    pub db_user: String,
    pub db_password: String,
    pub db_name: String,
    pub discord_webhook: Option<DiscordWebhook>,
    pub mqtt: Option<MqttEnvVariables>,
    pub interval: u64,
}

/// The settings a raw configuration yields: the database values carried
/// over, broker settings kept only when complete, webhook kept as given.
pub open spec fn spec_env_from_args(a: EnvArgs) -> EnvVariables {
    EnvVariables {
        db_host: a.db_host,
        db_port: a.db_port,
        db_user: a.db_user,
        db_password: a.db_password,
        db_name: a.db_name,
        discord_webhook: a.discord_webhook,
        mqtt: match spec_mqtt_from_args(a) {
            Ok(m) => Some(m),
            Err(_) => None,
        },
        interval: a.interval,
    }
}

impl EnvVariables {
    /// Converts a raw configuration: an incomplete broker block is dropped,
    /// everything else is carried over.
    pub fn from_args(args: EnvArgs) -> (r: EnvVariables)
        ensures
            r == spec_env_from_args(args),
    {
        let mqtt = match MqttEnvVariables::try_from_args(&args) {
            Ok(m) => Some(m),
            Err(_) => None,
        };
        EnvVariables {
            db_host: args.db_host,
            db_port: args.db_port,
            db_user: args.db_user,
            db_password: args.db_password,
            db_name: args.db_name,
            discord_webhook: args.discord_webhook,
            mqtt,
            interval: args.interval,
        }
    }
}

/// The address prefix every chat-webhook address must carry.
pub open spec fn webhook_url_prefix() -> Seq<char> {
    "https://discord.com/api/webhooks"@
}

/// Whether an address starts with the required webhook prefix.
pub open spec fn has_webhook_prefix(s: Seq<char>) -> bool {
    s.len() >= webhook_url_prefix().len() && s.subrange(
        0,
        webhook_url_prefix().len() as int,
    ) == webhook_url_prefix()
}

/// A validated chat-webhook address.
pub struct DiscordWebhook {
    webhook_url: String,
}

impl Clone for DiscordWebhook {
    fn clone(&self) -> (res: Self)
        ensures
            res == *self,
    {
        DiscordWebhook { webhook_url: self.webhook_url.clone() }
    }
}

impl View for DiscordWebhook {
    type V = Seq<char>;

    closed spec fn view(&self) -> Seq<char> {
        self.webhook_url@
    }
}

impl DiscordWebhook {
    /// Accepts an address exactly when it starts with the webhook prefix.
    pub fn parse(s: &str) -> (r: Result<DiscordWebhook, ConfigError>)
        ensures
            match r {
                Ok(w) => has_webhook_prefix(s@) && w@ == s@,
                Err(e) => !has_webhook_prefix(s@) && e == ConfigError::WebhookUrlInvalid,
            },
    {
        let prefix: &str = "https://discord.com/api/webhooks";
        proof {
            reveal_strlit("https://discord.com/api/webhooks");
        }
        let plen = prefix.unicode_len();
        let slen = s.unicode_len();
        if slen < plen {
            return Err(ConfigError::WebhookUrlInvalid);
        }
        let mut i: usize = 0;
        while i < plen
            invariant
                0 <= i <= plen,
                plen == prefix@.len(),
                slen == s@.len(),
                slen >= plen,
                prefix@ == webhook_url_prefix(),
                forall|j: int| 0 <= j < i ==> #[trigger] s@[j] == prefix@[j],
            decreases plen - i,
        {
            if s.get_char(i) != prefix.get_char(i) {
                proof {
                    assert(s@.subrange(0, plen as int)[i as int] != webhook_url_prefix()[i as int]);
                }
                return Err(ConfigError::WebhookUrlInvalid);
            }
            i = i + 1;
        }
        proof {
            assert(s@.subrange(0, plen as int) =~= webhook_url_prefix());
        }
        Ok(DiscordWebhook { webhook_url: s.to_owned() })
    }

    /// The validated address.
    pub fn url(&self) -> (r: &str)
        ensures
            r@ == self@,
    {
        self.webhook_url.as_str()
    }
}

} // verus!
