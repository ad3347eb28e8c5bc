//! A server's settings, and how they are read from the environment.
use vstd::prelude::*;
use crate::ids::{fresh_id, is_uuid_text};
use crate::text::{parse_u16, parse_u64, spec_parse_u16, spec_parse_u64};

verus! {

/// The settings of one server of the cluster.
#[derive(Clone, Debug)]
pub struct Config {
    pub server_id: String,
    pub http_host: String,
    pub http_port: u16,
    pub tcp_host: String,
    pub tcp_port_start: u16,
    pub tcp_port_end: u16,
    pub base_domain: Option<String>,
    pub turso_url: String,
    pub turso_token: String,
    pub heartbeat_interval_ms: u64,
    pub leader_timeout_ms: u64,
    pub agent_timeout_ms: u64,
}

/// The environment variables the settings are read from (`SERVER_ID`,
/// `HTTP_HOST`, `HTTP_PORT`, ...): each one's value, or `None` when it is
/// not set.
#[derive(Clone, Debug)]
pub struct ConfigVars {
    pub server_id: Option<String>,
    pub http_host: Option<String>,
    pub http_port: Option<String>,
    pub tcp_host: Option<String>,
    pub tcp_port_start: Option<String>,
    pub tcp_port_end: Option<String>,
    pub base_domain: Option<String>,
    pub turso_url: Option<String>,
    pub turso_token: Option<String>,
    pub heartbeat_interval_ms: Option<String>,
    pub leader_timeout_ms: Option<String>,
    pub agent_timeout_ms: Option<String>,
}

/// A port setting: its variable read as a `u16`, or `default` when unset.
pub open spec fn port_setting(v: Option<String>, default: u16) -> Option<u16> {
    match v {
        Some(s) => spec_parse_u16(s@),
        None => Some(default),
    }
}

/// A duration setting in milliseconds: its variable read as a `u64`, or
/// `default` when unset.
pub open spec fn millis_setting(v: Option<String>, default: u64) -> Option<u64> {
    match v {
        Some(s) => spec_parse_u64(s@),
        None => Some(default),
    }
}

/// What is wrong with the variables: the complaint about the first one,
/// in the order the settings are listed, that is required but unset or
/// that does not read as a number; `None` when nothing is.
pub open spec fn config_problem(v: ConfigVars) -> Option<Seq<char>> {
    if v.http_host is None {
        Some("HTTP_HOST required"@)
    } else if port_setting(v.http_port, 8080) is None {
        Some("Invalid HTTP_PORT"@)
    } else if v.tcp_host is None {
        Some("TCP_HOST required"@)
    } else if port_setting(v.tcp_port_start, 10000) is None {
        Some("Invalid TCP_PORT_START"@)
    } else if port_setting(v.tcp_port_end, 20000) is None {
        Some("Invalid TCP_PORT_END"@)
    } else if v.turso_url is None {
        Some("TURSO_URL required"@)
    } else if v.turso_token is None {
        Some("TURSO_TOKEN required"@)
    } else if millis_setting(v.heartbeat_interval_ms, 5000) is None {
        Some("Invalid HEARTBEAT_INTERVAL_MS"@)
    } else if millis_setting(v.leader_timeout_ms, 15000) is None {
        Some("Invalid LEADER_TIMEOUT_MS"@)
    } else if millis_setting(v.agent_timeout_ms, 30000) is None {
        Some("Invalid AGENT_TIMEOUT_MS"@)
    } else {
        None
    }
}

/// Whether `c` holds the settings the variables `v` give, with `fresh_id`
/// as the server id when `SERVER_ID` is unset.
pub open spec fn is_config_of(c: Config, v: ConfigVars, fresh_id: String) -> bool {
    &&& c.server_id == (match v.server_id {
        Some(s) => s,
        None => fresh_id,
    })
    &&& Some(c.http_host) == v.http_host
    &&& Some(c.http_port) == port_setting(v.http_port, 8080)
    &&& Some(c.tcp_host) == v.tcp_host
    &&& Some(c.tcp_port_start) == port_setting(v.tcp_port_start, 10000)
    &&& Some(c.tcp_port_end) == port_setting(v.tcp_port_end, 20000)
    &&& c.base_domain == v.base_domain
    &&& Some(c.turso_url) == v.turso_url
    &&& Some(c.turso_token) == v.turso_token
    &&& Some(c.heartbeat_interval_ms) == millis_setting(v.heartbeat_interval_ms, 5000)
    &&& Some(c.leader_timeout_ms) == millis_setting(v.leader_timeout_ms, 15000)
    &&& Some(c.agent_timeout_ms) == millis_setting(v.agent_timeout_ms, 30000)
}

fn port_value(v: &Option<String>, default: u16) -> (r: Option<u16>)
    ensures
        r == port_setting(*v, default),
{
    match v {
        Some(s) => parse_u16(s.as_str()),
        None => Some(default),
    }
}

fn millis_value(v: &Option<String>, default: u64) -> (r: Option<u64>)
    ensures
        r == millis_setting(*v, default),
{
    match v {
        Some(s) => parse_u64(s.as_str()),
        None => Some(default),
    }
}

fn complaint(msg: &str) -> (r: Result<Config, String>)
    ensures
        r matches Err(m) && m@ == msg@,
{
    Err(String::from_str(msg))
}

impl Config {
    /// The settings the environment variables `vars` give. `SERVER_ID`
    /// defaults to `fresh_id`; `HTTP_PORT`, `TCP_PORT_START` and
    /// `TCP_PORT_END` to 8080, 10000 and 20000; the heartbeat interval, the
    /// leader timeout and the agent timeout to 5, 15 and 30 seconds. The
    /// base domain may be left unset. The hosts and the database URL and
    /// token are required.
    /// A missing or malformed variable is answered with its complaint.
    pub fn from_vars(vars: ConfigVars, fresh_id: String) -> (r: Result<Config, String>)
        ensures
            match config_problem(vars) {
                Some(m) => r matches Err(e) && e@ == m,
                None => r matches Ok(c) && is_config_of(c, vars, fresh_id),
            },
    {
        let http_port = port_value(&vars.http_port, 8080);
        let tcp_port_start = port_value(&vars.tcp_port_start, 10000);
        let tcp_port_end = port_value(&vars.tcp_port_end, 20000);
        let heartbeat_interval_ms = millis_value(&vars.heartbeat_interval_ms, 5000);
        let leader_timeout_ms = millis_value(&vars.leader_timeout_ms, 15000);
        let agent_timeout_ms = millis_value(&vars.agent_timeout_ms, 30000);
        let ConfigVars {
            server_id,
            http_host,
            http_port: _,
            tcp_host,
            tcp_port_start: _,
            tcp_port_end: _,
            base_domain,
            turso_url,
            turso_token,
            heartbeat_interval_ms: _,
            leader_timeout_ms: _,
            agent_timeout_ms: _,
        } = vars;
        let server_id = match server_id {
            Some(s) => s,
            None => fresh_id,
        };
        let http_host = match http_host {
            Some(s) => s,
            None => return complaint("HTTP_HOST required"),
        };
        let http_port = match http_port {
            Some(p) => p,
            None => return complaint("Invalid HTTP_PORT"),
        };
        let tcp_host = match tcp_host {
            Some(s) => s,
            None => return complaint("TCP_HOST required"),
        };
        let tcp_port_start = match tcp_port_start {
            Some(p) => p,
            None => return complaint("Invalid TCP_PORT_START"),
        };
        let tcp_port_end = match tcp_port_end {
            Some(p) => p,
            None => return complaint("Invalid TCP_PORT_END"),
        };
        let turso_url = match turso_url {
            Some(s) => s,
            None => return complaint("TURSO_URL required"),
        };
        let turso_token = match turso_token {
            Some(s) => s,
            None => return complaint("TURSO_TOKEN required"),
        };
        let heartbeat_interval_ms = match heartbeat_interval_ms {
            Some(p) => p,
            None => return complaint("Invalid HEARTBEAT_INTERVAL_MS"),
        };
        let leader_timeout_ms = match leader_timeout_ms {
            Some(p) => p,
            None => return complaint("Invalid LEADER_TIMEOUT_MS"),
        };
        let agent_timeout_ms = match agent_timeout_ms {
            Some(p) => p,
            None => return complaint("Invalid AGENT_TIMEOUT_MS"),
        };
        Ok(Config {
            server_id,
            http_host,
            http_port,
            tcp_host,
            tcp_port_start,
            tcp_port_end,
            base_domain,
            turso_url,
            turso_token,
            heartbeat_interval_ms,
            leader_timeout_ms,
            agent_timeout_ms,
        })
    }

    /// The settings the environment variables `vars` give, as `from_vars`
    /// reads them, with a fresh random server id when `SERVER_ID` is unset.
    pub fn from_env_vars(vars: ConfigVars) -> (r: Result<Config, String>)
        ensures
            match config_problem(vars) {
                Some(m) => r matches Err(e) && e@ == m,
                None => r matches Ok(c) && is_config_of(c, vars, c.server_id) && (vars.server_id is None
                    ==> is_uuid_text(c.server_id@)),
            },
    {
        let fresh = match &vars.server_id {
            Some(s) => s.clone(),
            None => fresh_id(),
        };
        Self::from_vars(vars, fresh)
    }

    /// The ports that TCP tunnels may be given: from the start port up to,
    /// but not including, the end port.
    pub fn tcp_port_range(&self) -> (r: std::ops::Range<u16>)
        ensures
            r.start == self.tcp_port_start,
            r.end == self.tcp_port_end,
    {
        self.tcp_port_start..self.tcp_port_end
    }
}

} // verus!
