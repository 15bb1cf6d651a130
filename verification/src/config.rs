//! Connection configuration for SMTP delivery: host and port, a transport
//! security mode, and plaintext credentials, assembled by a staged builder.
//! There is no plaintext-transport mode: a configuration cannot be built
//! without choosing one of the two TLS modes.

use vstd::prelude::*;

verus! {

/// Transport security for the SMTP connection: TLS from the first byte, or
/// a plaintext start upgraded in-protocol. The two are mutually exclusive;
/// when both builder methods are called, the last call wins.
#[derive(Clone, Copy, PartialEq, Eq, Structural, Debug)]
pub enum Security {
    /// Wrap the connection in TLS before any SMTP exchange.
    DirectTls,
    /// Start in plaintext and upgrade with an in-protocol command.
    StartTls,
}

/// Why a configuration could not be assembled.
#[derive(Clone, Copy, PartialEq, Eq, Structural, Debug)]
pub enum ConfigError {
    /// The host is empty or holds a byte no host name may hold.
    MalformedHost,
    /// A credential holds a NUL byte, which the plaintext exchange reserves.
    InvalidCredentials,
    /// `build` was called before a security mode was selected.
    MissingSecurity,
    /// `build` was called before credentials were supplied.
    MissingAuth,
}

/// True when `h` can stand as a host name: nonempty, ASCII graphic bytes only.
pub open spec fn spec_valid_host(h: Seq<u8>) -> bool {
    h.len() > 0 && forall|i: int| 0 <= i < h.len() ==> 33 <= #[trigger] h[i] <= 126
}

/// True when a credential can be framed by the plaintext authentication
/// exchange, which reserves the NUL byte as a separator.
pub open spec fn spec_valid_credential(c: Seq<u8>) -> bool {
    forall|i: int| 0 <= i < c.len() ==> c[i] != 0
}

/// Checks that every byte of `c` is acceptable in a credential.
fn credential_ok(c: &[u8]) -> (r: bool)
    ensures
        r == spec_valid_credential(c@),
{
    let mut i: usize = 0;
    while i < c.len()
        invariant
            0 <= i <= c@.len(),
            forall|j: int| 0 <= j < i ==> c@[j] != 0,
        decreases c@.len() - i,
    {
        if c[i] == 0 {
            return false;
        }
        i = i + 1;
    }
    true
}

/// Plaintext credentials for SMTP authentication.
#[derive(Clone)]
pub struct Plain {
    /// The account name presented to the server.
    pub username: Vec<u8>,
    /// The account secret presented to the server.
    pub password: Vec<u8>,
}

impl Plain {
    /// Builds plaintext credentials, rejecting values the exchange cannot frame.
    pub fn from_username(username: Vec<u8>, password: Vec<u8>) -> (r: Result<
        Plain,
        ConfigError,
    >)
        ensures
            r is Ok <==> spec_valid_credential(username@) && spec_valid_credential(
                password@,
            ),
            r matches Ok(p) ==> p.username == username && p.password == password,
            r matches Err(e) ==> e == ConfigError::InvalidCredentials,
    {
        if credential_ok(username.as_slice()) && credential_ok(password.as_slice()) {
            Ok(Plain { username, password })
        } else {
            Err(ConfigError::InvalidCredentials)
        }
    }
}

/// A staged builder for `ConnectionConfig`. Host and port are fixed at
/// creation; security mode and credentials are each set by a later call,
/// and `build` refuses a configuration that misses either.
pub struct ConnectionConfigBuilder {
    /// Host name the connection will be opened to.
    pub host: Vec<u8>,
    /// TCP port the connection will be opened to.
    pub port: u16,
    /// Selected security mode, if one was selected yet.
    pub security: Option<Security>,
    /// Supplied credentials, if any were supplied yet.
    pub auth: Option<Plain>,
}

/// An immutable delivery configuration. Built once, then only read; it can
/// be cloned and reused for any number of independent sends.
#[derive(Clone)]
pub struct ConnectionConfig {
    /// Host name the connection is opened to.
    pub host: Vec<u8>,
    /// TCP port the connection is opened to.
    pub port: u16,
    /// The transport security mode in force.
    pub security: Security,
    /// The credentials presented during authentication.
    pub auth: Plain,
}

impl ConnectionConfig {
    /// Starts a builder for the given endpoint, rejecting a malformed host.
    pub fn builder_with_port(host: Vec<u8>, port: u16) -> (r: Result<
        ConnectionConfigBuilder,
        ConfigError,
    >)
        ensures
            r is Ok <==> spec_valid_host(host@),
            r matches Ok(b) ==> b.host == host && b.port == port && b.security is None
                && b.auth is None,
            r matches Err(e) ==> e == ConfigError::MalformedHost,
    {
        if host.len() == 0 {
            return Err(ConfigError::MalformedHost);
        }
        let mut i: usize = 0;
        while i < host.len()
            invariant
                0 <= i <= host@.len(),
                forall|j: int| 0 <= j < i ==> 33 <= #[trigger] host@[j] <= 126,
            decreases host@.len() - i,
        {
            if host[i] < 33 || host[i] > 126 {
                return Err(ConfigError::MalformedHost);
            }
            i = i + 1;
        }
        Ok(ConnectionConfigBuilder { host, port, security: None, auth: None })
    }
}

/// The builder after a security mode was selected: only the mode changes.
pub open spec fn spec_with_security(b: ConnectionConfigBuilder, s: Security) -> ConnectionConfigBuilder {
    ConnectionConfigBuilder { host: b.host, port: b.port, security: Some(s), auth: b.auth }
}

/// The two selections are mutually exclusive and the last call wins:
/// selecting one mode after the other leaves only the later mode in
/// effect, whatever was selected before.
pub proof fn lemma_last_security_mode_wins(b: ConnectionConfigBuilder)
    ensures
        spec_with_security(spec_with_security(b, Security::DirectTls), Security::StartTls).security
            == Some(Security::StartTls),
        spec_with_security(spec_with_security(b, Security::StartTls), Security::DirectTls).security
            == Some(Security::DirectTls),
{
}

impl ConnectionConfigBuilder {
    /// Selects TLS from the first byte. Overrides any earlier selection.
    pub fn use_direct_tls(self) -> (r: ConnectionConfigBuilder)
        ensures
            r == spec_with_security(self, Security::DirectTls),
            r.security == Some(Security::DirectTls),
    {
        ConnectionConfigBuilder { security: Some(Security::DirectTls), ..self }
    }

    /// Selects the in-protocol TLS upgrade. Overrides any earlier selection.
    pub fn use_start_tls(self) -> (r: ConnectionConfigBuilder)
        ensures
            r == spec_with_security(self, Security::StartTls),
            r.security == Some(Security::StartTls),
    {
        ConnectionConfigBuilder { security: Some(Security::StartTls), ..self }
    }

    /// Supplies the credentials to authenticate with.
    pub fn auth(self, credentials: Plain) -> (r: ConnectionConfigBuilder)
        ensures
            r.auth == Some(credentials),
            r.host == self.host && r.port == self.port && r.security == self.security,
    {
        ConnectionConfigBuilder { auth: Some(credentials), ..self }
    }

    /// Finishes the configuration. Fails when no security mode was selected
    /// or no credentials were supplied; succeeds exactly otherwise.
    pub fn build(self) -> (r: Result<ConnectionConfig, ConfigError>)
        ensures
            r is Ok <==> self.security is Some && self.auth is Some,
            r matches Ok(c) ==> c.host == self.host && c.port == self.port
                && Some(c.security) == self.security && Some(c.auth) == self.auth,
            r matches Err(e) ==> if self.security is None {
                e == ConfigError::MissingSecurity
            } else {
                e == ConfigError::MissingAuth
            },
    {
        let ConnectionConfigBuilder { host, port, security, auth } = self;
        match security {
            None => Err(ConfigError::MissingSecurity),
            Some(sec) => match auth {
                None => Err(ConfigError::MissingAuth),
                Some(a) => Ok(
                    ConnectionConfig { host, port, security: sec, auth: a },
                ),
            },
        }
    }
}

} // verus!
