use vstd::prelude::*;

verus! {

/// A span of time: whole seconds and the nanoseconds past them.
#[derive(PartialEq, Eq, Structural, Clone, Copy, Debug)]
pub struct Timeout {
    pub secs: u64,
    pub nanos: u32,
}

/// Arguments for establishing a database connection.
#[derive(Clone, Debug)]
pub struct DatabaseOptions {
    /// Connection URL; when given, the other location fields are not used.
    pub url: Option<String>,
    pub host: Option<String>,
    pub port: Option<u16>,
    pub db_name: Option<String>,
    pub username: Option<String>,
    pub password: Option<String>,
    pub max_connections: Option<u32>,
    pub acquire_timeout: Option<Timeout>,
    pub require_ssl: bool,
    pub migrations: bool,
}

/// Where the pool connects to.
pub enum ConnectTarget {
    /// A connection URL, used as given.
    Url(String),
    /// A server given by its parts; TLS is required or merely allowed.
    Server {
        host: String,
        port: u16,
        username: Option<String>,
        password: Option<String>,
        db_name: Option<String>,
        require_ssl: bool,
    },
}

/// Everything the connection pool is configured with.
pub struct PoolSettings {
    pub target: ConnectTarget,
    pub max_connections: Option<u32>,
    pub acquire_timeout: Option<Timeout>,
    pub run_migrations: bool,
}

/// Database options that name no server.
#[derive(PartialEq, Eq, Structural, Clone, Copy, Debug)]
pub enum OptionsError {
    MissingHost,
    MissingPort,
}

/// Why a duration could not be read.
#[derive(Clone, Debug)]
pub struct ParseDurationError {
    pub reason: String,
}

/// What cld reads from a duration string: seconds and nanoseconds, or the
/// reason it refused the string.
pub uninterp spec fn cl_duration_parse(s: Seq<char>) -> Result<(u64, u32), Seq<char>>;

/// Relies on cld's `ClDuration::from_str`, converted to `Duration`: a
/// duration written with a unit (`9s`, `2d`) or as `hh:mm:ss`, read from the
/// string alone; strings longer than 64 bytes are refused.
#[verifier::external_body]
fn cl_duration_from_str(s: &str) -> (r: Result<(u64, u32), String>)
    ensures
        match r {
            Ok(v) => cl_duration_parse(s@) == Ok::<(u64, u32), Seq<char>>(v),
            Err(m) => cl_duration_parse(s@) == Err::<(u64, u32), Seq<char>>(m@),
        },
        vstd::string::StringSliceAdditionalSpecFns::spec_bytes(s).len() > 64 ==> r is Err,
{
    match <cld::ClDuration as std::str::FromStr>::from_str(s) {
        Ok(d) => {
            let d = std::time::Duration::from(d);
            Ok((d.as_secs(), d.subsec_nanos()))
        },
        Err(e) => Err(e.to_string()),
    }
}

/// The duration that a parse gave, or the reason it failed.
pub fn timeout_from_parse(parsed: Result<(u64, u32), String>) -> (r: Result<
    Timeout,
    ParseDurationError,
>)
    ensures
        match parsed {
            Ok(v) => r == Ok::<Timeout, ParseDurationError>(Timeout { secs: v.0, nanos: v.1 }),
            Err(m) => r matches Err(e) && e.reason@ == m@,
        },
{
    match parsed {
        Ok(v) => Ok(Timeout { secs: v.0, nanos: v.1 }),
        Err(reason) => Err(ParseDurationError { reason }),
    }
}

/// Reads a duration written with a unit or as `hh:mm:ss`.
pub fn parse_duration(s: &str) -> (r: Result<Timeout, ParseDurationError>)
    ensures
        match cl_duration_parse(s@) {
            Ok(v) => r == Ok::<Timeout, ParseDurationError>(Timeout { secs: v.0, nanos: v.1 }),
            Err(m) => r matches Err(e) && e.reason@ == m,
        },
        vstd::string::StringSliceAdditionalSpecFns::spec_bytes(s).len() > 64 ==> r is Err,
{
    timeout_from_parse(cl_duration_from_str(s))
}

impl DatabaseOptions {
    /// The pool settings these options describe: the URL when one is given,
    /// else the server's parts, of which host and port are required.
    pub fn connection_settings(self) -> (r: Result<PoolSettings, OptionsError>)
        ensures
            self.url is None && self.host is None ==> r == Err::<PoolSettings, OptionsError>(
                OptionsError::MissingHost,
            ),
            self.url is None && self.host is Some && self.port is None ==> r == Err::<
                PoolSettings,
                OptionsError,
            >(OptionsError::MissingPort),
            r is Ok <==> self.url is Some || (self.host is Some && self.port is Some),
            r matches Ok(p) ==> p.max_connections == self.max_connections && p.acquire_timeout
                == self.acquire_timeout && p.run_migrations == self.migrations && match self.url {
                Some(u) => p.target == ConnectTarget::Url(u),
                None => p.target == (ConnectTarget::Server {
                    host: self.host->Some_0,
                    port: self.port->Some_0,
                    username: self.username,
                    password: self.password,
                    db_name: self.db_name,
                    require_ssl: self.require_ssl,
                }),
            },
    {
        let DatabaseOptions {
            url,
            host,
            port,
            db_name,
            username,
            password,
            max_connections,
            acquire_timeout,
            require_ssl,
            migrations,
        } = self;
        let target = match url {
            Some(u) => ConnectTarget::Url(u),
            None => {
                let host = match host {
                    Some(h) => h,
                    None => { return Err(OptionsError::MissingHost); },
                };
                let port = match port {
                    Some(p) => p,
                    None => { return Err(OptionsError::MissingPort); },
                };
                ConnectTarget::Server { host, port, username, password, db_name, require_ssl }
            },
        };
        Ok(PoolSettings { target, max_connections, acquire_timeout, run_migrations: migrations })
    }
}

} // verus!
