//! Plain value types of the virtual bus: call descriptors, spawn
//! configuration, and the bus error taxonomy.
//!
//! The bus itself — spawning, polling and invocation — is asynchronous
//! host plumbing and lives with the host; the types here are the data its
//! callers exchange.

use vstd::prelude::*;

verus! {

/// A handle to one call on the bus.
#[derive(Debug, Clone, Copy, PartialEq, Eq, Structural)]
pub struct CallDescriptor(pub u32);

impl CallDescriptor {
    /// The raw handle value.
    pub fn raw(&self) -> (r: u32)
        ensures
            r == self.0,
    {
        self.0
    }
}

impl From<u32> for CallDescriptor {
    /// A descriptor from its raw handle value.
    fn from(a: u32) -> (r: Self) {
        CallDescriptor(a)
    }
}

impl vstd::std_specs::convert::FromSpecImpl<u32> for CallDescriptor {
    open spec fn obeys_from_spec() -> bool {
        true
    }

    open spec fn from_spec(a: u32) -> CallDescriptor {
        CallDescriptor(a)
    }
}

/// The configuration a spawned process starts with.
pub struct SpawnOptionsConfig<T> {
    /// Whether an existing instance may be reused.
    pub reuse: bool,
    /// The environment handed to the process.
    pub env: T,
    /// The remote instance to attach to, if any.
    pub remote_instance: Option<String>,
    /// The access token presented on attach, if any.
    pub access_token: Option<String>,
}

impl<T> SpawnOptionsConfig<T> {
    /// Whether an existing instance may be reused.
    pub fn reuse(&self) -> (r: bool)
        ensures
            r == self.reuse,
    {
        self.reuse
    }

    /// The environment handed to the process.
    pub fn env(&self) -> (r: &T)
        ensures
            *r == self.env,
    {
        &self.env
    }

    /// The environment, mutably.
    pub fn env_mut(&mut self) -> (r: &mut T)
        ensures
            *r == old(self).env,
            *final(self) == (SpawnOptionsConfig { env: *final(r), ..*old(self) }),
    {
        &mut self.env
    }

    /// The remote instance to attach to, if any.
    pub fn remote_instance(&self) -> (r: Option<&String>)
        ensures
            r is Some <==> self.remote_instance is Some,
            r matches Some(s) ==> self.remote_instance matches Some(v) && *s == v,
    {
        self.remote_instance.as_ref()
    }

    /// The access token presented on attach, if any.
    pub fn access_token(&self) -> (r: Option<&String>)
        ensures
            r is Some <==> self.access_token is Some,
            r matches Some(s) ==> self.access_token matches Some(v) && *s == v,
    {
        self.access_token.as_ref()
    }
}

/// A spawner that supports nothing; every spawn fails with `Unsupported`.
#[derive(Debug, Clone, Copy, PartialEq, Eq, Structural)]
pub struct UnsupportedVirtualBusSpawner {}

/// The default bus: it spawns through the default spawner and supports no
/// listeners.
#[derive(Debug, Clone, Copy, PartialEq, Eq, Structural)]
pub struct DefaultVirtualBus {}

/// The default spawner.
#[derive(Debug, Clone, Copy, PartialEq, Eq, Structural)]
pub struct DefaultVirtualBusSpawner {}

/// Signal handlers process signals delivered to a spawned process.
pub trait SignalHandlerAbi {
    /// Processes a signal.
    fn signal(&self, sig: u8);
}

/// The bus error taxonomy.
#[derive(Clone, Copy, Debug, PartialEq, Eq, Structural)]
pub enum VirtualBusError {
    /// Failed during serialization.
    Serialization,
    /// Failed during deserialization.
    Deserialization,
    /// Invalid guest package.
    InvalidWapm,
    /// Failed to fetch the guest package.
    FetchFailed,
    /// Failed to compile the guest package.
    CompileError,
    /// Invalid ABI.
    InvalidABI,
    /// Call was aborted.
    Aborted,
    /// Bad handle.
    BadHandle,
    /// Invalid topic.
    InvalidTopic,
    /// Invalid callback.
    BadCallback,
    /// Call is unsupported.
    Unsupported,
    /// Not found.
    NotFound,
    /// Bad request.
    BadRequest,
    /// Access denied.
    AccessDenied,
    /// Internal error.
    InternalError,
    /// Memory allocation failed.
    MemoryAllocationFailed,
    /// Invocation has failed.
    InvokeFailed,
    /// Already consumed.
    AlreadyConsumed,
    /// Memory access violation.
    MemoryAccessViolation,
    /// Some other unhandled error; a bug if ever seen.
    UnknownError,
}

} // verus!
