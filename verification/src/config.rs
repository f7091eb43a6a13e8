//! The configuration of the bot, read from named variables.

use vstd::prelude::*;
use crate::text::{rsplit_once, trimmed, unsigned, NumberFault};

verus! {

// ---------------------------------------------------------------------------
// Variables and errors
// ---------------------------------------------------------------------------

pub const DISCORD_TOKEN: &'static str = "DISCORD_TOKEN";

pub const DISCORD_GUILD_ID: &'static str = "DISCORD_GUILD_ID";

pub const DISCORD_ADMIN_ROLE_ID: &'static str = "DISCORD_ADMIN_ROLE_ID";

pub const DISCORD_REMOVER_ROLE_ID: &'static str = "DISCORD_REMOVER_ROLE_ID";

pub const DISCORD_NOTIFY_CHANNEL_ID: &'static str = "DISCORD_NOTIFY_CHANNEL_ID";

pub const DOCKER_API_URL: &'static str = "DOCKER_API_URL";

pub const RCON_ADDR: &'static str = "RCON_ADDR";

pub const RCON_PASSWORD: &'static str = "RCON_PASSWORD";

pub const SERVER_ADDRESS: &'static str = "SERVER_ADDRESS";

/// The variables that can be at fault.
#[derive(Debug, Clone, Copy, PartialEq, Eq, Structural)]
pub enum Variable {
    Token,
    GuildId,
    AdminRoleId,
    RemoverRoleId,
    NotifyChannelId,
    RconPassword,
}

pub open spec fn name_of(v: Variable) -> Seq<char> {
    match v {
        Variable::Token => DISCORD_TOKEN@,
        Variable::GuildId => DISCORD_GUILD_ID@,
        Variable::AdminRoleId => DISCORD_ADMIN_ROLE_ID@,
        Variable::RemoverRoleId => DISCORD_REMOVER_ROLE_ID@,
        Variable::NotifyChannelId => DISCORD_NOTIFY_CHANNEL_ID@,
        Variable::RconPassword => RCON_PASSWORD@,
    }
}

impl Variable {
    pub fn name(self) -> (r: &'static str)
        ensures
            r@ == name_of(self),
    {
        match self {
            Variable::Token => DISCORD_TOKEN,
            Variable::GuildId => DISCORD_GUILD_ID,
            Variable::AdminRoleId => DISCORD_ADMIN_ROLE_ID,
            Variable::RemoverRoleId => DISCORD_REMOVER_ROLE_ID,
            Variable::NotifyChannelId => DISCORD_NOTIFY_CHANNEL_ID,
            Variable::RconPassword => RCON_PASSWORD,
        }
    }
}

#[derive(Debug, Clone, Copy, PartialEq, Eq, Structural)]
pub enum ConfigError {
    /// A variable that must be set is not.
    Missing(Variable),
    /// A variable does not hold a Discord id, and why not.
    NotAnId(Variable, NumberFault),
    /// The RCON address holds no colon.
    NotHostPort,
    /// What follows the last colon of the RCON address is no port, and why not.
    BadPort(NumberFault),
}

pub open spec fn words_of(e: ConfigError) -> Seq<char> {
    match e {
        ConfigError::Missing(v) => "missing env var "@ + name_of(v),
        ConfigError::NotAnId(v, _) => name_of(v) + " must be a numeric Discord id"@,
        ConfigError::NotHostPort => "RCON_ADDR must be host:port"@,
        ConfigError::BadPort(_) => "RCON_ADDR port"@,
    }
}

/// What is wrong with the number that an error is about, if it is about one.
pub open spec fn cause_of(e: ConfigError) -> Option<Seq<char>> {
    match e {
        ConfigError::NotAnId(_, fault) => Some(crate::text::fault_words(fault)),
        ConfigError::BadPort(fault) => Some(crate::text::fault_words(fault)),
        _ => None,
    }
}

impl ConfigError {
    /// The error in words.
    pub fn message(self) -> (r: String)
        ensures
            r@ == words_of(self),
    {
        match self {
            ConfigError::Missing(v) => {
                let mut s = String::from_str("missing env var ");
                s.append(v.name());
                s
            },
            ConfigError::NotAnId(v, _) => {
                let mut s = String::from_str(v.name());
                s.append(" must be a numeric Discord id");
                s
            },
            ConfigError::NotHostPort => String::from_str("RCON_ADDR must be host:port"),
            ConfigError::BadPort(_) => String::from_str("RCON_ADDR port"),
        }
    }

    /// The cause of the error in words, where it has one.
    pub fn cause(self) -> (r: Option<&'static str>)
        ensures
            crate::text::opt(r) == cause_of(self),
    {
        match self {
            ConfigError::NotAnId(_, fault) => Some(fault.message()),
            ConfigError::BadPort(fault) => Some(fault.message()),
            _ => None,
        }
    }
}

/// An error about a variable names it.
pub proof fn law_errors_name_their_variable(v: Variable, fault: NumberFault)
    ensures
        crate::text::contains(words_of(ConfigError::Missing(v)), name_of(v)),
        crate::text::contains(words_of(ConfigError::NotAnId(v, fault)), name_of(v)),
{
    let name = name_of(v);
    let lead = "missing env var "@;
    let missing = words_of(ConfigError::Missing(v));
    assert(missing.subrange(lead.len() as int, lead.len() as int + name.len()) == name);
    assert(crate::text::occurs_at(missing, name, lead.len() as int));
    let bad = words_of(ConfigError::NotAnId(v, fault));
    assert(bad.subrange(0, name.len() as int) == name);
    assert(crate::text::occurs_at(bad, name, 0));
}

/// The errors in words, with the names of the variables, and the cause where a
/// number is at fault.
pub proof fn law_errors_in_words(v: Variable, fault: NumberFault)
    ensures
        name_of(v) == (match v {
            Variable::Token => "DISCORD_TOKEN"@,
            Variable::GuildId => "DISCORD_GUILD_ID"@,
            Variable::AdminRoleId => "DISCORD_ADMIN_ROLE_ID"@,
            Variable::RemoverRoleId => "DISCORD_REMOVER_ROLE_ID"@,
            Variable::NotifyChannelId => "DISCORD_NOTIFY_CHANNEL_ID"@,
            Variable::RconPassword => "RCON_PASSWORD"@,
        }),
        words_of(ConfigError::Missing(v)) == "missing env var "@ + name_of(v),
        words_of(ConfigError::NotAnId(v, fault)) == name_of(v) + " must be a numeric Discord id"@,
        words_of(ConfigError::NotHostPort) == "RCON_ADDR must be host:port"@,
        words_of(ConfigError::BadPort(fault)) == "RCON_ADDR port"@,
        cause_of(ConfigError::Missing(v)) is None,
        cause_of(ConfigError::NotHostPort) is None,
        cause_of(ConfigError::NotAnId(v, fault)) == cause_of(ConfigError::BadPort(fault)),
        cause_of(ConfigError::BadPort(fault)) == Some(
            match fault {
                NumberFault::Empty => "cannot parse integer from empty string"@,
                NumberFault::InvalidDigit => "invalid digit found in string"@,
                NumberFault::TooLarge => "number too large to fit in target type"@,
            },
        ),
{
}

// ---------------------------------------------------------------------------
// The configuration
// ---------------------------------------------------------------------------

/// What the variables hold; none where one is not set.
pub struct Settings {
    pub discord_token: Option<String>,
    pub guild_id: Option<String>,
    pub admin_role_id: Option<String>,
    pub remover_role_id: Option<String>,
    pub notify_channel_id: Option<String>,
    pub docker_api_url: Option<String>,
    pub rcon_addr: Option<String>,
    pub rcon_password: Option<String>,
    pub server_address: Option<String>,
}

#[derive(Clone, Debug)]
pub struct Config {
    pub discord_token: String,
    pub guild_id: u64,
    pub admin_role_id: u64,
    /// The role that may run `/whitelist remove`; the admin role if unset.
    pub remover_role_id: Option<u64>,
    pub notify_channel_id: u64,
    pub docker_api_url: String,
    pub rcon_addr: String,
    pub rcon_password: String,
    pub server_address: String,
}

#[verifier::ext_equal]
pub struct ConfigView {
    pub discord_token: Seq<char>,
    pub guild_id: u64,
    pub admin_role_id: u64,
    pub remover_role_id: Option<u64>,
    pub notify_channel_id: u64,
    pub docker_api_url: Seq<char>,
    pub rcon_addr: Seq<char>,
    pub rcon_password: Seq<char>,
    pub server_address: Seq<char>,
}

impl View for Config {
    type V = ConfigView;

    open spec fn view(&self) -> ConfigView {
        ConfigView {
            discord_token: self.discord_token@,
            guild_id: self.guild_id,
            admin_role_id: self.admin_role_id,
            remover_role_id: self.remover_role_id,
            notify_channel_id: self.notify_channel_id,
            docker_api_url: self.docker_api_url@,
            rcon_addr: self.rcon_addr@,
            rcon_password: self.rcon_password@,
            server_address: self.server_address@,
        }
    }
}

/// The text that a variable must hold.
pub open spec fn required(value: Option<String>, v: Variable) -> Result<Seq<char>, ConfigError> {
    match value {
        Some(s) => Ok(s@),
        None => Err(ConfigError::Missing(v)),
    }
}

/// The id that a variable must hold.
pub open spec fn id(value: Option<String>, v: Variable) -> Result<u64, ConfigError> {
    match value {
        Some(s) => match crate::text::parse_unsigned(s@, u64::MAX as nat) {
            Some(n) => Ok(n as u64),
            None => Err(
                ConfigError::NotAnId(v, crate::text::number_fault(s@, u64::MAX as nat)),
            ),
        },
        None => Err(ConfigError::Missing(v)),
    }
}

/// The id that a variable may hold; unset and blank are the same.
pub open spec fn optional_id(value: Option<String>, v: Variable) -> Result<
    Option<u64>,
    ConfigError,
> {
    match value {
        Some(s) => if crate::text::trim(s@).len() == 0 {
            Ok(None)
        } else {
            match id(value, v) {
                Ok(n) => Ok(Some(n)),
                Err(e) => Err(e),
            }
        },
        None => Ok(None),
    }
}

pub open spec fn or_default(value: Option<String>, default: Seq<char>) -> Seq<char> {
    match value {
        Some(s) => s@,
        None => default,
    }
}

/// The variables are read in this order, and the first at fault decides.
pub open spec fn first_fault(s: Settings) -> Option<ConfigError> {
    if let Err(e) = required(s.discord_token, Variable::Token) {
        Some(e)
    } else if let Err(e) = id(s.guild_id, Variable::GuildId) {
        Some(e)
    } else if let Err(e) = id(s.admin_role_id, Variable::AdminRoleId) {
        Some(e)
    } else if let Err(e) = optional_id(s.remover_role_id, Variable::RemoverRoleId) {
        Some(e)
    } else if let Err(e) = id(s.notify_channel_id, Variable::NotifyChannelId) {
        Some(e)
    } else if let Err(e) = required(s.rcon_password, Variable::RconPassword) {
        Some(e)
    } else {
        None
    }
}

/// The configuration that the variables give.
pub open spec fn config_of(s: Settings) -> Result<ConfigView, ConfigError> {
    match first_fault(s) {
        Some(e) => Err(e),
        None => Ok(
            ConfigView {
                discord_token: required(s.discord_token, Variable::Token).unwrap(),
                guild_id: id(s.guild_id, Variable::GuildId).unwrap(),
                admin_role_id: id(s.admin_role_id, Variable::AdminRoleId).unwrap(),
                remover_role_id: optional_id(s.remover_role_id, Variable::RemoverRoleId).unwrap(),
                notify_channel_id: id(s.notify_channel_id, Variable::NotifyChannelId).unwrap(),
                docker_api_url: or_default(s.docker_api_url, "http://socket-proxy:2375"@),
                rcon_addr: or_default(s.rcon_addr, "mc:25575"@),
                rcon_password: required(s.rcon_password, Variable::RconPassword).unwrap(),
                server_address: or_default(s.server_address, "unknown"@),
            },
        ),
    }
}

fn read_text(value: &Option<String>, v: Variable) -> (r: Result<String, ConfigError>)
    ensures
        match r {
            Ok(s) => required(*value, v) == Ok::<Seq<char>, ConfigError>(s@),
            Err(e) => required(*value, v) == Err::<Seq<char>, ConfigError>(e),
        },
{
    match value {
        Some(s) => Ok(s.clone()),
        None => Err(ConfigError::Missing(v)),
    }
}

fn read_id(value: &Option<String>, v: Variable) -> (r: Result<u64, ConfigError>)
    ensures
        r == id(*value, v),
{
    match value {
        Some(s) => match unsigned(s.as_str(), u64::MAX) {
            Ok(n) => Ok(n),
            Err(fault) => Err(ConfigError::NotAnId(v, fault)),
        },
        None => Err(ConfigError::Missing(v)),
    }
}

fn read_optional_id(value: &Option<String>, v: Variable) -> (r: Result<Option<u64>, ConfigError>)
    ensures
        r == optional_id(*value, v),
{
    match value {
        Some(s) => if trimmed(s.as_str()).as_str().is_empty() {
            Ok(None)
        } else {
            match read_id(value, v) {
                Ok(n) => Ok(Some(n)),
                Err(e) => Err(e),
            }
        },
        None => Ok(None),
    }
}

fn read_or(value: &Option<String>, default: &str) -> (r: String)
    ensures
        r@ == or_default(*value, default@),
{
    match value {
        Some(s) => s.clone(),
        None => default.to_owned(),
    }
}

/// The host and the port of an address: what stands before and after its
/// last colon.
pub open spec fn host_port(addr: Seq<char>) -> Result<(Seq<char>, u16), ConfigError> {
    let i = crate::text::last_index_of(addr, ':');
    if i < 0 {
        Err(ConfigError::NotHostPort)
    } else {
        match crate::text::parse_unsigned(addr.skip(i + 1), u16::MAX as nat) {
            Some(n) => Ok((addr.take(i), n as u16)),
            None => Err(
                ConfigError::BadPort(
                    crate::text::number_fault(addr.skip(i + 1), u16::MAX as nat),
                ),
            ),
        }
    }
}

impl Config {
    /// The configuration that the given values give.
    pub fn from_settings(s: &Settings) -> (r: Result<Config, ConfigError>)
        ensures
            match r {
                Ok(c) => config_of(*s) == Ok::<ConfigView, ConfigError>(c@),
                Err(e) => config_of(*s) == Err::<ConfigView, ConfigError>(e),
            },
    {
        let discord_token = match read_text(&s.discord_token, Variable::Token) {
            Ok(x) => x,
            Err(e) => return Err(e),
        };
        let guild_id: u64 = match read_id(&s.guild_id, Variable::GuildId) {
            Ok(x) => x,
            Err(e) => return Err(e),
        };
        let admin_role_id: u64 = match read_id(&s.admin_role_id, Variable::AdminRoleId) {
            Ok(x) => x,
            Err(e) => return Err(e),
        };
        let remover_role_id: Option<u64> = match read_optional_id(
            &s.remover_role_id,
            Variable::RemoverRoleId,
        ) {
            Ok(x) => x,
            Err(e) => return Err(e),
        };
        let notify_channel_id: u64 = match read_id(&s.notify_channel_id, Variable::NotifyChannelId) {
            Ok(x) => x,
            Err(e) => return Err(e),
        };
        let rcon_password = match read_text(&s.rcon_password, Variable::RconPassword) {
            Ok(x) => x,
            Err(e) => return Err(e),
        };
        Ok(
            Config {
                discord_token,
                guild_id,
                admin_role_id,
                remover_role_id,
                notify_channel_id,
                docker_api_url: read_or(&s.docker_api_url, "http://socket-proxy:2375"),
                rcon_addr: read_or(&s.rcon_addr, "mc:25575"),
                rcon_password,
                server_address: read_or(&s.server_address, "unknown"),
            },
        )
    }

    /// The configuration that the values found by `get` give.
    pub fn from_lookup<F: Fn(&str) -> Option<String>>(get: F) -> (r: Result<Config, ConfigError>)
        requires
            forall|k: &str| call_requires(get, (k,)),
        ensures
            exists|s: Settings|
                {
                    &&& looked_up(get, s)
                    &&& match r {
                        Ok(c) => #[trigger] config_of(s) == Ok::<ConfigView, ConfigError>(c@),
                        Err(e) => config_of(s) == Err::<ConfigView, ConfigError>(e),
                    }
                },
    {
        let s = Settings {
            discord_token: get(DISCORD_TOKEN),
            guild_id: get(DISCORD_GUILD_ID),
            admin_role_id: get(DISCORD_ADMIN_ROLE_ID),
            remover_role_id: get(DISCORD_REMOVER_ROLE_ID),
            notify_channel_id: get(DISCORD_NOTIFY_CHANNEL_ID),
            docker_api_url: get(DOCKER_API_URL),
            rcon_addr: get(RCON_ADDR),
            rcon_password: get(RCON_PASSWORD),
            server_address: get(SERVER_ADDRESS),
        };
        assert(looked_up(get, s));
        Config::from_settings(&s)
    }

    /// The host and the port of the RCON address.
    pub fn rcon_host_port(&self) -> (r: Result<(String, u16), ConfigError>)
        ensures
            match r {
                Ok((h, p)) => host_port(self@.rcon_addr) == Ok::<(Seq<char>, u16), ConfigError>(
                    (h@, p),
                ),
                Err(e) => host_port(self@.rcon_addr) == Err::<(Seq<char>, u16), ConfigError>(e),
            },
    {
        match rsplit_once(self.rcon_addr.as_str(), ':') {
            Some((h, p)) => match unsigned(p.as_str(), 65535) {
                Ok(n) => Ok((h, n as u16)),
                Err(fault) => Err(ConfigError::BadPort(fault)),
            },
            None => Err(ConfigError::NotHostPort),
        }
    }
}

/// `get` found the given values under the names of the variables.
pub open spec fn looked_up<F: Fn(&str) -> Option<String>>(get: F, s: Settings) -> bool {
    &&& call_ensures(get, (DISCORD_TOKEN,), s.discord_token)
    &&& call_ensures(get, (DISCORD_GUILD_ID,), s.guild_id)
    &&& call_ensures(get, (DISCORD_ADMIN_ROLE_ID,), s.admin_role_id)
    &&& call_ensures(get, (DISCORD_REMOVER_ROLE_ID,), s.remover_role_id)
    &&& call_ensures(get, (DISCORD_NOTIFY_CHANNEL_ID,), s.notify_channel_id)
    &&& call_ensures(get, (DOCKER_API_URL,), s.docker_api_url)
    &&& call_ensures(get, (RCON_ADDR,), s.rcon_addr)
    &&& call_ensures(get, (RCON_PASSWORD,), s.rcon_password)
    &&& call_ensures(get, (SERVER_ADDRESS,), s.server_address)
}

/// Whatever the host, colons included, its address is read back.
pub proof fn law_host_port_round_trip(host: Seq<char>, port: u16)
    ensures
        host_port(host + seq![':'] + crate::text::decimal(port as nat)) == Ok::<
            (Seq<char>, u16),
            ConfigError,
        >((host, port)),
{
    let n = crate::text::decimal(port as nat);
    let addr = host + seq![':'] + n;
    let i = crate::text::last_index_of(addr, ':');
    crate::text::lemma_last_index_of(addr, ':');
    crate::text::lemma_decimal(port as nat);
    crate::text::law_numeral_round_trip(port as nat, u16::MAX as nat);
    assert(addr[host.len() as int] == ':');
    assert(i == host.len()) by {
        if i > host.len() {
            let d = n[i - host.len() - 1];
            assert(addr[i] == d);
            assert(crate::text::ascii_digit(d));
        }
    }
    assert(addr.take(i) == host);
    assert(addr.skip(i + 1) == n);
}

/// An address without a colon has no port; with one, the port is what stands
/// behind the last of them.
pub proof fn law_the_last_colon_parts_the_address(host: Seq<char>, port: Seq<char>)
    requires
        !port.contains(':'),
    ensures
        host_port(port) == Err::<(Seq<char>, u16), ConfigError>(ConfigError::NotHostPort),
        host_port(host + seq![':'] + port) == (match crate::text::parse_unsigned(port, 65535) {
            Some(n) => Ok::<(Seq<char>, u16), ConfigError>((host, n as u16)),
            None => Err(ConfigError::BadPort(crate::text::number_fault(port, 65535))),
        }),
{
    let addr = host + seq![':'] + port;
    let i = crate::text::last_index_of(addr, ':');
    crate::text::lemma_last_index_of(addr, ':');
    crate::text::lemma_last_index_of(port, ':');
    let j = crate::text::last_index_of(port, ':');
    if j >= 0 {
        assert(port[j] == ':');
    }
    assert(addr[host.len() as int] == ':');
    assert(i == host.len()) by {
        if i > host.len() {
            assert(addr[i] == port[i - host.len() - 1]);
        }
    }
    assert(addr.take(i) == host);
    assert(addr.skip(i + 1) == port);
}

/// What a variable for an id holds: a missing one is told to be missing, one
/// that is no number up to 64 bits to be no id, and any other is that number.
/// The remover role alone may be missing or blank.
pub proof fn law_ids_are_numbers(value: Option<String>, v: Variable)
    ensures
        value is None ==> id(value, v) == Err::<u64, ConfigError>(ConfigError::Missing(v)),
        value matches Some(text) ==> match crate::text::parse_unsigned(
            text@,
            0xFFFF_FFFF_FFFF_FFFF,
        ) {
            Some(n) => id(value, v) == Ok::<u64, ConfigError>(n as u64),
            None => id(value, v) == Err::<u64, ConfigError>(
                ConfigError::NotAnId(
                    v,
                    crate::text::number_fault(text@, 0xFFFF_FFFF_FFFF_FFFF),
                ),
            ),
        },
        value is None ==> optional_id(value, v) == Ok::<Option<u64>, ConfigError>(None),
        value matches Some(text) ==> {
            &&& crate::text::trim(text@).len() == 0 ==> optional_id(value, v) == Ok::<
                Option<u64>,
                ConfigError,
            >(None)
            &&& crate::text::trim(text@).len() > 0 ==> match id(value, v) {
                Ok(n) => optional_id(value, v) == Ok::<Option<u64>, ConfigError>(Some(n)),
                Err(e) => optional_id(value, v) == Err::<Option<u64>, ConfigError>(e),
            }
        },
{
}

/// When there is a configuration, and what it holds: exactly if the token and
/// the password are set and every id can be read; each part is what its own
/// variable holds, and the two addresses and the name of the server have
/// defaults.
pub proof fn law_what_a_configuration_holds(s: Settings)
    ensures
        config_of(s) is Ok <==> {
            &&& s.discord_token is Some
            &&& id(s.guild_id, Variable::GuildId) is Ok
            &&& id(s.admin_role_id, Variable::AdminRoleId) is Ok
            &&& optional_id(s.remover_role_id, Variable::RemoverRoleId) is Ok
            &&& id(s.notify_channel_id, Variable::NotifyChannelId) is Ok
            &&& s.rcon_password is Some
        },
        config_of(s) matches Ok(c) ==> {
            &&& s.discord_token.unwrap()@ == c.discord_token
            &&& id(s.guild_id, Variable::GuildId) == Ok::<u64, ConfigError>(c.guild_id)
            &&& id(s.admin_role_id, Variable::AdminRoleId) == Ok::<u64, ConfigError>(
                c.admin_role_id,
            )
            &&& optional_id(s.remover_role_id, Variable::RemoverRoleId) == Ok::<
                Option<u64>,
                ConfigError,
            >(c.remover_role_id)
            &&& id(s.notify_channel_id, Variable::NotifyChannelId) == Ok::<u64, ConfigError>(
                c.notify_channel_id,
            )
            &&& s.rcon_password.unwrap()@ == c.rcon_password
            &&& c.docker_api_url == (match s.docker_api_url {
                Some(text) => text@,
                None => "http://socket-proxy:2375"@,
            })
            &&& c.rcon_addr == (match s.rcon_addr {
                Some(text) => text@,
                None => "mc:25575"@,
            })
            &&& c.server_address == (match s.server_address {
                Some(text) => text@,
                None => "unknown"@,
            })
        },
{
}

/// Of several variables at fault the first is told of: the token, the guild,
/// the admin role, the remover role, the channel, then the password.
pub proof fn law_the_first_fault_is_told(s: Settings)
    ensures
        ({
            let token = s.discord_token is Some;
            let guild = id(s.guild_id, Variable::GuildId);
            let admin = id(s.admin_role_id, Variable::AdminRoleId);
            let remover = optional_id(s.remover_role_id, Variable::RemoverRoleId);
            let channel = id(s.notify_channel_id, Variable::NotifyChannelId);
            &&& !token ==> config_of(s) == Err::<ConfigView, ConfigError>(
                ConfigError::Missing(Variable::Token),
            )
            &&& token ==> (guild matches Err(e) ==> config_of(s) == Err::<ConfigView, ConfigError>(
                e,
            ))
            &&& token && guild is Ok ==> (admin matches Err(e) ==> config_of(s) == Err::<
                ConfigView,
                ConfigError,
            >(e))
            &&& token && guild is Ok && admin is Ok ==> (remover matches Err(e) ==> config_of(s)
                == Err::<ConfigView, ConfigError>(e))
            &&& token && guild is Ok && admin is Ok && remover is Ok ==> (channel matches Err(e)
                ==> config_of(s) == Err::<ConfigView, ConfigError>(e))
            &&& token && guild is Ok && admin is Ok && remover is Ok && channel is Ok
                && s.rcon_password is None ==> config_of(s) == Err::<ConfigView, ConfigError>(
                ConfigError::Missing(Variable::RconPassword),
            )
        }),
{
}

} // verus!
