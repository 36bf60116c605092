//! The RocketMQ backend choice and the parameters a connection runs with.
use vstd::prelude::*;
use vstd::string::*;
use crate::rocketmq_form::{CredentialReference, RocketmqParams, RocketmqSshTunnelConfig};

verus! {

/// The backend of RocketMQ connections.
#[derive(Clone, Copy, Debug, PartialEq, Eq, Structural)]
pub enum RocketmqBackendKind {
    /// The in-process implementation of the Remoting protocol.
    Builtin,
    Unavailable,
}

/// The default backend: always the built-in implementation, which needs no
/// external runtime.
pub fn default_backend_kind() -> (r: RocketmqBackendKind)
    ensures
        r == RocketmqBackendKind::Builtin,
{
    RocketmqBackendKind::Builtin
}

/// The factory of RocketMQ connections, by backend.
#[derive(Clone, Copy, Debug, PartialEq, Eq, Structural)]
pub enum RocketmqConnectionFactory {
    Builtin,
    Unavailable,
}

impl RocketmqConnectionFactory {
    /// The factory of the default backend.
    pub fn default_factory() -> (r: Self)
        ensures
            r == RocketmqConnectionFactory::Builtin,
    {
        match default_backend_kind() {
            RocketmqBackendKind::Builtin => RocketmqConnectionFactory::Builtin,
            RocketmqBackendKind::Unavailable => RocketmqConnectionFactory::Unavailable,
        }
    }

    /// The backend this factory creates connections with.
    pub fn backend_kind(&self) -> (r: RocketmqBackendKind)
        ensures
            (*self == RocketmqConnectionFactory::Builtin) <==> (r == RocketmqBackendKind::Builtin),
            (*self == RocketmqConnectionFactory::Unavailable) <==> (r
                == RocketmqBackendKind::Unavailable),
    {
        match self {
            RocketmqConnectionFactory::Builtin => RocketmqBackendKind::Builtin,
            RocketmqConnectionFactory::Unavailable => RocketmqBackendKind::Unavailable,
        }
    }
}

/// The connection timeout of the runtime when none is configured, in
/// seconds.
pub const DEFAULT_CONNECT_TIMEOUT: u64 = 5;

/// The request timeout of the runtime when none is configured, in
/// milliseconds.
pub const DEFAULT_REQUEST_TIMEOUT: u64 = 3000;

/// An error of the RocketMQ runtime.
#[derive(Debug, PartialEq, Eq)]
pub enum RocketmqError {
    /// The connection is configured wrongly.
    Config(String),
}

/// The parameters a RocketMQ connection runs with: the stored parameters
/// with the runtime's timeouts filled in.
#[derive(Debug, Clone, PartialEq, Eq)]
pub struct RocketmqRuntimeParams {
    pub namesrv_addrs: Vec<String>,
    pub access_key: Option<String>,
    pub secret_key: Option<String>,
    pub credential_reference: Option<CredentialReference>,
    pub domain: Option<String>,
    /// Seconds.
    pub connect_timeout: u64,
    /// Milliseconds.
    pub request_timeout: u64,
    pub ssh_tunnel: Option<RocketmqSshTunnelConfig>,
}

/// Whether an optional key is set and not empty.
pub open spec fn key_present(key: Option<String>) -> bool {
    match key {
        Some(k) => k@.len() > 0,
        None => false,
    }
}

impl RocketmqRuntimeParams {
    /// Whether requests are signed with ACL credentials: both keys are set
    /// and neither is empty.
    pub fn acl_enabled(&self) -> (r: bool)
        ensures
            r == (key_present(self.access_key) && key_present(self.secret_key)),
    {
        match (&self.access_key, &self.secret_key) {
            (Some(access), Some(secret)) => access.as_str().unicode_len() > 0 && secret.as_str().unicode_len() > 0,
            _ => false,
        }
    }
}

/// The message of a factory without a backend.
pub const UNAVAILABLE_BACKEND_MESSAGE: &'static str = "RocketMQ 后端不可用: builtin 为唯一实现";

/// The message for a connection registered without an id.
pub const MISSING_CONNECTION_ID_MESSAGE: &'static str = "RocketMQ connection id is required";

/// A connection of the built-in backend before it is opened: the parameters
/// it opens with.  Opening it, and testing it against a NameServer, is the
/// runtime's work.
#[derive(Debug, Clone, PartialEq, Eq)]
pub struct RocketmqConnection {
    pub params: RocketmqRuntimeParams,
}

impl RocketmqConnection {
    /// A connection with these parameters.
    pub fn new(params: RocketmqRuntimeParams) -> (r: Result<Self, RocketmqError>)
        ensures
            r matches Ok(c) && c.params == params,
    {
        Ok(RocketmqConnection { params })
    }

    /// What the connection offers: RocketMQ has every management page.
    pub fn capabilities(&self) -> (r: crate::middleware_pages::MiddlewareCapabilities)
        ensures
            r.metrics && r.cluster_overview && r.topics && r.groups && r.message_query,
    {
        crate::middleware_pages::MiddlewareCapabilities {
            metrics: true,
            cluster_overview: true,
            topics: true,
            groups: true,
            message_query: true,
        }
    }
}

impl RocketmqConnectionFactory {
    /// A connection of this factory's backend; a factory without a backend
    /// refuses.
    pub fn create_native(&self, params: RocketmqRuntimeParams) -> (r: Result<RocketmqConnection, RocketmqError>)
        ensures
            *self == RocketmqConnectionFactory::Builtin ==> (r matches Ok(c) && c.params == params),
            *self == RocketmqConnectionFactory::Unavailable ==> (r matches Err(RocketmqError::Config(m)) && m@
                == UNAVAILABLE_BACKEND_MESSAGE@),
    {
        match self {
            RocketmqConnectionFactory::Builtin => RocketmqConnection::new(params),
            RocketmqConnectionFactory::Unavailable => Err(
                RocketmqError::Config(crate::text::owned(UNAVAILABLE_BACKEND_MESSAGE)),
            ),
        }
    }

    /// A connection for the management pages; the same as `create_native`.
    pub fn create(&self, params: RocketmqRuntimeParams) -> (r: Result<RocketmqConnection, RocketmqError>)
        ensures
            *self == RocketmqConnectionFactory::Builtin ==> (r matches Ok(c) && c.params == params),
            *self == RocketmqConnectionFactory::Unavailable ==> (r matches Err(RocketmqError::Config(m)) && m@
                == UNAVAILABLE_BACKEND_MESSAGE@),
    {
        self.create_native(params)
    }

    /// The connection to register under an id, before it is tested: an
    /// empty id is refused first, then a factory without a backend.
    pub fn create_for(&self, connection_id: &str, params: RocketmqRuntimeParams) -> (r: Result<
        RocketmqConnection,
        RocketmqError,
    >)
        ensures
            connection_id@.len() == 0 ==> (r matches Err(RocketmqError::Config(m)) && m@
                == MISSING_CONNECTION_ID_MESSAGE@),
            connection_id@.len() > 0 && *self == RocketmqConnectionFactory::Builtin ==> (r matches Ok(c)
                && c.params == params),
            connection_id@.len() > 0 && *self == RocketmqConnectionFactory::Unavailable ==> (r matches Err(
                RocketmqError::Config(m),
            ) && m@ == UNAVAILABLE_BACKEND_MESSAGE@),
    {
        if connection_id.unicode_len() == 0 {
            return Err(RocketmqError::Config(crate::text::owned(MISSING_CONNECTION_ID_MESSAGE)));
        }
        self.create_native(params)
    }
}

/// Helpers of the RocketMQ connection manager.
pub struct RocketmqManager;

impl RocketmqManager {
    /// The runtime parameters of a stored connection, given what reading its
    /// stored parameters gave: a read failure is a configuration error, and
    /// a missing timeout takes the runtime's default.
    pub fn params_from_stored(stored: Result<RocketmqParams, String>) -> (r: Result<
        RocketmqRuntimeParams,
        RocketmqError,
    >)
        ensures
            match stored {
                Err(e) => r matches Err(RocketmqError::Config(m)) && m@ == e@,
                Ok(p) => r matches Ok(q) && q.namesrv_addrs == p.namesrv_addrs && q.access_key
                    == p.access_key && q.secret_key == p.secret_key && q.credential_reference
                    == p.credential_reference && q.domain == p.domain && q.connect_timeout == (
                match p.connect_timeout {
                    Some(t) => t,
                    None => DEFAULT_CONNECT_TIMEOUT,
                }) && q.request_timeout == (match p.request_timeout {
                    Some(t) => t,
                    None => DEFAULT_REQUEST_TIMEOUT,
                }) && q.ssh_tunnel == p.ssh_tunnel,
            },
    {
        match stored {
            Err(error) => Err(RocketmqError::Config(error)),
            Ok(params) => {
                let connect_timeout = match params.connect_timeout {
                    Some(t) => t,
                    None => DEFAULT_CONNECT_TIMEOUT,
                };
                let request_timeout = match params.request_timeout {
                    Some(t) => t,
                    None => DEFAULT_REQUEST_TIMEOUT,
                };
                Ok(
                    RocketmqRuntimeParams {
                        namesrv_addrs: params.namesrv_addrs,
                        access_key: params.access_key,
                        secret_key: params.secret_key,
                        credential_reference: params.credential_reference,
                        domain: params.domain,
                        connect_timeout,
                        request_timeout,
                        ssh_tunnel: params.ssh_tunnel,
                    },
                )
            },
        }
    }
}

} // verus!
