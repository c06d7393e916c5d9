//! What the operator configures.

use vstd::prelude::*;
use crate::pb::Reason;
use crate::text;
use crate::text::{parse_flag, parse_number, parse_protocol_version};

verus! {

/// The environment variables that configure the server, each as it was found: `None` where it is
/// not set or is not valid Unicode.
#[derive(Debug, Clone)]
pub struct Environment {
    /// `SERVER_HOST`
    pub server_host: Option<String>,
    /// `SERVER_PORT`
    pub server_port: Option<String>,
    /// `TURN_ADDR`
    pub turn_addr: Option<String>,
    /// `TURN_USER`
    pub turn_user: Option<String>,
    /// `TURN_CREDENTIAL`
    pub turn_credential: Option<String>,
    /// `TURN_SECRET`
    pub turn_secret: Option<String>,
    /// `TURN_CREDENTIAL_TTL`
    pub turn_credential_ttl: Option<String>,
    /// `DEBUG`
    pub debug: Option<String>,
    /// `USE_STATIC_TURN_CREDENTIAL`
    pub use_static_turn_credential: Option<String>,
    /// `LOG_LEVEL`
    pub log_level: Option<String>,
    /// `BROADCAST_SERVER`
    pub broadcast_server: Option<String>,
    /// `SERVER_NAME`
    pub server_name: Option<String>,
    /// `SERVER_DESCRIPTION`
    pub server_description: Option<String>,
    /// `SERVER_COUNTRY_CODE_ALPHA2`
    pub server_country_code_alpha2: Option<String>,
    /// `ENDPOINT_ADDRESS`
    pub endpoint_address: Option<String>,
    /// `MIN_PROTOCOL_VERSION`
    pub min_protocol_version: Option<String>,
    /// `MAX_PROTOCOL_VERSION`
    pub max_protocol_version: Option<String>,
}

/// The server's configuration.
#[derive(Debug, Clone)]
pub struct Config {
    pub server_host: String,
    pub server_port: u16,
    pub turn_addr: Option<String>,
    pub turn_user: Option<String>,
    pub turn_credential: Option<String>,
    /// Shared `static-auth-secret` with the co-located coturn instance, used to
    /// mint time-limited (REST API) credentials when static credentials are disabled.
    pub turn_secret: Option<String>,
    /// TTL, in seconds, for dynamically generated TURN credentials.
    pub turn_credential_ttl: u64,
    pub debug: bool,
    pub use_static_turn_credential: bool,
    pub log_level: String,
    /// Broadcast server to HCT API
    pub broadcast_server: bool,
    pub server_name: String,
    pub server_description: String,
    pub server_country_code_alpha2: String,
    pub endpoint_address: String,
    /// Lowest signaling protocol version this server will matchmake for.
    /// Clients advertising an older version are rejected with
    /// `REASON_PROTOCOL_VERSION_TOO_OLD`. `None` disables the lower bound.
    pub min_protocol_version: Option<u32>,
    /// Highest signaling protocol version this server will matchmake for.
    /// Clients advertising a newer version are rejected with
    /// `REASON_PROTOCOL_VERSION_TOO_NEW`. `None` disables the upper bound.
    pub max_protocol_version: Option<u32>,
}

/// A text variable, or `default` where it is not set.
pub open spec fn text_or(var: Option<String>, default: Seq<char>) -> Seq<char> {
    match var {
        Some(v) => v@,
        None => default,
    }
}

/// A decimal variable, or `default` where it is not set or not a number of at most `max`.
pub open spec fn decimal_or(var: Option<String>, max: nat, default: nat) -> nat {
    match var {
        Some(v) => match text::number_in(v@, 10, max) {
            Some(n) => n,
            None => default,
        },
        None => default,
    }
}

/// A flag variable, off where it is not set.
pub open spec fn flag_or_off(var: Option<String>) -> bool {
    match var {
        Some(v) => text::flag_in(v@),
        None => false,
    }
}

/// A protocol version variable: no bound where it is not set or is no version.
pub open spec fn version_or_none(var: Option<String>) -> Option<nat> {
    match var {
        Some(v) => text::protocol_version_in(v@),
        None => None,
    }
}

/// A version as a number.
pub open spec fn version_value(version: Option<u32>) -> Option<nat> {
    match version {
        Some(v) => Some(v as nat),
        None => None,
    }
}

fn read_text(var: Option<String>, default: &str) -> (r: String)
    ensures
        r@ == text_or(var, default@),
{
    match var {
        Some(v) => v,
        None => default.to_owned(),
    }
}

fn read_decimal(var: &Option<String>, max: u64, default: u64) -> (r: u64)
    requires
        default <= max,
    ensures
        r as nat == decimal_or(*var, max as nat, default as nat),
        r <= max,
{
    match var {
        Some(v) => match parse_number(v.as_str(), 10, max) {
            Some(n) => n,
            None => default,
        },
        None => default,
    }
}

fn read_flag(var: &Option<String>) -> (r: bool)
    ensures
        r == flag_or_off(*var),
{
    match var {
        Some(v) => parse_flag(v.as_str()),
        None => false,
    }
}

fn read_version(var: &Option<String>) -> (r: Option<u32>)
    ensures
        version_value(r) == version_or_none(*var),
{
    match var {
        Some(v) => parse_protocol_version(v.as_str()),
        None => None,
    }
}

/// Why a client that advertises `version` is turned away from a server that matchmakes for the
/// versions from `min` to `max`, if it is. An absent bound, or an absent version, turns nobody
/// away.
pub open spec fn abort_reason(
    min: Option<u32>,
    max: Option<u32>,
    version: Option<u32>,
) -> Option<Reason> {
    match version {
        Some(v) => if min is Some && v < min->0 {
            Some(Reason::ProtocolVersionTooOld)
        } else if max is Some && v > max->0 {
            Some(Reason::ProtocolVersionTooNew)
        } else {
            None
        },
        None => None,
    }
}

impl Config {
    /// The configuration that the environment describes, with the defaults for what it leaves
    /// out or writes in a form that cannot be read.
    pub fn from_env(env: Environment) -> (r: Self)
        ensures
            r.server_host@ == text_or(env.server_host, "0.0.0.0"@),
            r.server_port as nat == decimal_or(env.server_port, u16::MAX as nat, 8000),
            r.turn_addr == env.turn_addr,
            r.turn_user == env.turn_user,
            r.turn_credential == env.turn_credential,
            r.turn_secret == env.turn_secret,
            r.turn_credential_ttl as nat == decimal_or(
                env.turn_credential_ttl,
                u64::MAX as nat,
                3600,
            ),
            r.debug == flag_or_off(env.debug),
            r.use_static_turn_credential == flag_or_off(env.use_static_turn_credential),
            r.log_level@ == text_or(env.log_level, "INFO"@),
            r.broadcast_server == flag_or_off(env.broadcast_server),
            r.server_name@ == text_or(env.server_name, Seq::empty()),
            r.server_description@ == text_or(env.server_description, Seq::empty()),
            r.server_country_code_alpha2@ == text_or(
                env.server_country_code_alpha2,
                Seq::empty(),
            ),
            r.endpoint_address@ == text_or(env.endpoint_address, Seq::empty()),
            version_value(r.min_protocol_version) == version_or_none(env.min_protocol_version),
            version_value(r.max_protocol_version) == version_or_none(env.max_protocol_version),
            env.server_host matches Some(v) ==> r.server_host@ == v@,
            env.server_host is None ==> r.server_host@ == "0.0.0.0"@,
            env.log_level matches Some(v) ==> r.log_level@ == v@,
            env.log_level is None ==> r.log_level@ == "INFO"@,
            env.server_name matches Some(v) ==> r.server_name@ == v@,
            env.server_name is None ==> r.server_name@ == Seq::<char>::empty(),
            env.server_description matches Some(v) ==> r.server_description@ == v@,
            env.server_description is None ==> r.server_description@ == Seq::<char>::empty(),
            env.server_country_code_alpha2 matches Some(v) ==> r.server_country_code_alpha2@ == v@,
            env.server_country_code_alpha2 is None ==> r.server_country_code_alpha2@ == Seq::<char>::empty(),
            env.endpoint_address matches Some(v) ==> r.endpoint_address@ == v@,
            env.endpoint_address is None ==> r.endpoint_address@ == Seq::<char>::empty(),
            env.server_port matches Some(v) ==> match text::number_in(v@, 10, 0xffff) {
                Some(n) => r.server_port as nat == n,
                None => r.server_port == 8000,
            },
            env.server_port is None ==> r.server_port == 8000,
            env.turn_credential_ttl matches Some(v) ==> match text::number_in(v@, 10, 0xffff_ffff_ffff_ffff) {
                Some(n) => r.turn_credential_ttl as nat == n,
                None => r.turn_credential_ttl == 3600,
            },
            env.turn_credential_ttl is None ==> r.turn_credential_ttl == 3600,
            env.debug matches Some(v) ==> r.debug == text::flag_in(v@),
            env.debug is None ==> !r.debug,
            env.use_static_turn_credential matches Some(v) ==> r.use_static_turn_credential == text::flag_in(v@),
            env.use_static_turn_credential is None ==> !r.use_static_turn_credential,
            env.broadcast_server matches Some(v) ==> r.broadcast_server == text::flag_in(v@),
            env.broadcast_server is None ==> !r.broadcast_server,
            env.min_protocol_version matches Some(v) ==> match r.min_protocol_version {
                Some(n) => text::protocol_version_in(v@) == Some(n as nat),
                None => text::protocol_version_in(v@) is None,
            },
            env.min_protocol_version is None ==> r.min_protocol_version is None,
            env.max_protocol_version matches Some(v) ==> match r.max_protocol_version {
                Some(n) => text::protocol_version_in(v@) == Some(n as nat),
                None => text::protocol_version_in(v@) is None,
            },
            env.max_protocol_version is None ==> r.max_protocol_version is None,
    {
        proof {
            reveal_strlit("");
            assert(""@ =~= Seq::<char>::empty());
        }
        Config {
            server_host: read_text(env.server_host, "0.0.0.0"),
            server_port: read_decimal(&env.server_port, u16::MAX as u64, 8000) as u16,
            turn_addr: env.turn_addr,
            turn_user: env.turn_user,
            turn_credential: env.turn_credential,
            turn_secret: env.turn_secret,
            turn_credential_ttl: read_decimal(&env.turn_credential_ttl, u64::MAX, 3600),
            debug: read_flag(&env.debug),
            use_static_turn_credential: read_flag(&env.use_static_turn_credential),
            log_level: read_text(env.log_level, "INFO"),
            broadcast_server: read_flag(&env.broadcast_server),
            server_name: read_text(env.server_name, ""),
            server_description: read_text(env.server_description, ""),
            server_country_code_alpha2: read_text(env.server_country_code_alpha2, ""),
            endpoint_address: read_text(env.endpoint_address, ""),
            min_protocol_version: read_version(&env.min_protocol_version),
            max_protocol_version: read_version(&env.max_protocol_version),
        }
    }

    /// Decide whether a client advertising `protocol_version` should be turned
    /// away, and with which [`Reason`]. Returns `None` when the client is
    /// acceptable (including when no bounds are configured, or when the client
    /// advertised no version at all).
    pub fn protocol_version_abort_reason(&self, protocol_version: Option<u32>) -> (r: Option<
        Reason,
    >)
        ensures
            r == abort_reason(
                self.min_protocol_version,
                self.max_protocol_version,
                protocol_version,
            ),
            r == Some(Reason::ProtocolVersionTooOld) <==> {
                &&& protocol_version is Some && self.min_protocol_version is Some
                &&& protocol_version->0 < self.min_protocol_version->0
            },
            r == Some(Reason::ProtocolVersionTooNew) <==> {
                &&& protocol_version is Some && self.max_protocol_version is Some
                &&& protocol_version->0 > self.max_protocol_version->0
                &&& self.min_protocol_version is None || protocol_version->0
                    >= self.min_protocol_version->0
            },
    {
        let version: u32 = match protocol_version {
            Some(v) => v,
            None => {
                return None;
            },
        };
        if let Some(min) = self.min_protocol_version {
            if version < min {
                return Some(Reason::ProtocolVersionTooOld);
            }
        }
        if let Some(max) = self.max_protocol_version {
            if version > max {
                return Some(Reason::ProtocolVersionTooNew);
            }
        }
        None
    }
}

/// A client is acceptable exactly when it advertises no version, or one that lies within the
/// bounds that are configured, both included. The reason for turning it away names the bound
/// that it misses.
pub proof fn law_versions_within_bounds_are_accepted(
    min: Option<u32>,
    max: Option<u32>,
    version: Option<u32>,
)
    ensures
        abort_reason(min, max, version) is None <==> (version matches Some(v) ==> (min is None
            || min->0 <= v) && (max is None || v <= max->0)),
        abort_reason(min, max, version) == Some(Reason::ProtocolVersionTooOld) <==> min is Some
            && version is Some && version->0 < min->0,
        abort_reason(min, max, version) == Some(Reason::ProtocolVersionTooNew) <==> max is Some
            && version is Some && version->0 > max->0 && (min is None || min->0 <= version->0),
        abort_reason(None, None, version) is None,
        abort_reason(min, max, None) is None,
{
}

/// What is set is used as it is set: a text to the letter, a number and a version as they read.
/// What is not set, or does not read, gives way to the default.
pub proof fn law_settings_are_used_as_set(
    var: Option<String>,
    default_text: Seq<char>,
    max: nat,
    default: nat,
)
    ensures
        text_or(var, default_text) == match var {
            Some(v) => v@,
            None => default_text,
        },
        decimal_or(var, max, default) == if var is Some && text::number_in(var->0@, 10, max) is Some {
            text::number_in(var->0@, 10, max)->0
        } else {
            default
        },
        flag_or_off(var) <==> var is Some && text::flag_in(var->0@),
        version_or_none(var) == if var is Some {
            text::protocol_version_in(var->0@)
        } else {
            None
        },
{
}

} // verus!
