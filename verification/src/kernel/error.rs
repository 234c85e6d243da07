//! Unified error type of the kernel.

use vstd::prelude::*;
use crate::text::{prefixed, push_signed_decimal, signed_decimal, string_push_str, to_owned_string};

verus! {

/// Kinds of resources whose limits can be exceeded.
#[derive(Debug, Clone, Copy, PartialEq, Eq, Hash, Structural)]
pub enum ResourceType {
    Memory,
    Cpu,
    Time,
    FileDescriptor,
    Thread,
    Storage,
}

impl ResourceType {
    /// The displayed (lower-case) name.
    pub open spec fn display_name(self) -> Seq<char> {
        match self {
            ResourceType::Memory => "memory"@,
            ResourceType::Cpu => "cpu"@,
            ResourceType::Time => "time"@,
            ResourceType::FileDescriptor => "file_descriptor"@,
            ResourceType::Thread => "thread"@,
            ResourceType::Storage => "storage"@,
        }
    }

    /// The debug (variant) name.
    pub open spec fn variant_name(self) -> Seq<char> {
        match self {
            ResourceType::Memory => "Memory"@,
            ResourceType::Cpu => "Cpu"@,
            ResourceType::Time => "Time"@,
            ResourceType::FileDescriptor => "FileDescriptor"@,
            ResourceType::Thread => "Thread"@,
            ResourceType::Storage => "Storage"@,
        }
    }

    /// The displayed name, such as `file_descriptor`.
    pub fn to_string(&self) -> (r: String)
        ensures
            r@ == self.display_name(),
    {
        match self {
            ResourceType::Memory => to_owned_string("memory"),
            ResourceType::Cpu => to_owned_string("cpu"),
            ResourceType::Time => to_owned_string("time"),
            ResourceType::FileDescriptor => to_owned_string("file_descriptor"),
            ResourceType::Thread => to_owned_string("thread"),
            ResourceType::Storage => to_owned_string("storage"),
        }
    }

    fn variant_str(&self) -> (r: &'static str)
        ensures
            r@ == self.variant_name(),
    {
        match self {
            ResourceType::Memory => "Memory",
            ResourceType::Cpu => "Cpu",
            ResourceType::Time => "Time",
            ResourceType::FileDescriptor => "FileDescriptor",
            ResourceType::Thread => "Thread",
            ResourceType::Storage => "Storage",
        }
    }
}

/// What went wrong, with its details.
#[derive(Debug, Clone)]
pub enum ErrorKind {
    BusTopicNotFound(String),
    BusSubscriptionFailed(String),
    BusPublishFailed(String),
    BusChannelClosed,
    BusFull,
    CoreInitFailed(String),
    CoreRunFailed(String),
    CoreShutdownFailed(String),
    CoreNotRunning,
    CoreAlreadyRunning,
    PluginNotFound(String),
    PluginLoadFailed(String),
    PluginUnloadFailed(String),
    PluginAlreadyLoaded(String),
    PluginInitFailed(String),
    PluginExecuteFailed(String),
    SandboxCreationFailed(String),
    SandboxExecutionDenied(String),
    SandboxResourceLimitExceeded(ResourceType),
    SandboxTimeout,
    SandboxProcessCrashed(i32),
    ResourceQuotaExceeded(String),
    ResourceNotAvailable(String),
    ResourceBusy(String),
    InvalidArgument(String),
    InvalidState(String),
    NotSupported(String),
    InternalError(String),
}

/// The message displayed for an error kind.
pub open spec fn kind_message(k: ErrorKind) -> Seq<char> {
    match k {
        ErrorKind::BusTopicNotFound(t) => "Topic not found: "@ + t@,
        ErrorKind::BusSubscriptionFailed(m) => "Subscription failed: "@ + m@,
        ErrorKind::BusPublishFailed(m) => "Publish failed: "@ + m@,
        ErrorKind::BusChannelClosed => "Bus channel closed"@,
        ErrorKind::BusFull => "Bus channel full"@,
        ErrorKind::CoreInitFailed(m) => "Core init failed: "@ + m@,
        ErrorKind::CoreRunFailed(m) => "Core run failed: "@ + m@,
        ErrorKind::CoreShutdownFailed(m) => "Core shutdown failed: "@ + m@,
        ErrorKind::CoreNotRunning => "Core not running"@,
        ErrorKind::CoreAlreadyRunning => "Core already running"@,
        ErrorKind::PluginNotFound(i) => "Plugin not found: "@ + i@,
        ErrorKind::PluginLoadFailed(i) => "Plugin load failed: "@ + i@,
        ErrorKind::PluginUnloadFailed(i) => "Plugin unload failed: "@ + i@,
        ErrorKind::PluginAlreadyLoaded(i) => "Plugin already loaded: "@ + i@,
        ErrorKind::PluginInitFailed(i) => "Plugin init failed: "@ + i@,
        ErrorKind::PluginExecuteFailed(i) => "Plugin execute failed: "@ + i@,
        ErrorKind::SandboxCreationFailed(m) => "Sandbox creation failed: "@ + m@,
        ErrorKind::SandboxExecutionDenied(m) => "Execution denied: "@ + m@,
        ErrorKind::SandboxResourceLimitExceeded(k) => "Resource limit exceeded: "@ + k.variant_name(),
        ErrorKind::SandboxTimeout => "Sandbox timeout"@,
        ErrorKind::SandboxProcessCrashed(c) => "Process crashed: "@ + signed_decimal(c as int),
        ErrorKind::ResourceQuotaExceeded(n) => "Resource quota exceeded: "@ + n@,
        ErrorKind::ResourceNotAvailable(n) => "Resource not available: "@ + n@,
        ErrorKind::ResourceBusy(n) => "Resource busy: "@ + n@,
        ErrorKind::InvalidArgument(m) => "Invalid argument: "@ + m@,
        ErrorKind::InvalidState(m) => "Invalid state: "@ + m@,
        ErrorKind::NotSupported(m) => "Not supported: "@ + m@,
        ErrorKind::InternalError(m) => "Internal error: "@ + m@,
    }
}

impl ErrorKind {
    /// The displayed message, such as `Topic not found: prices`.
    pub fn to_string(&self) -> (r: String)
        ensures
            r@ == kind_message(*self),
    {
        match self {
            ErrorKind::BusTopicNotFound(t) => prefixed("Topic not found: ", t),
            ErrorKind::BusSubscriptionFailed(m) => prefixed("Subscription failed: ", m),
            ErrorKind::BusPublishFailed(m) => prefixed("Publish failed: ", m),
            ErrorKind::BusChannelClosed => to_owned_string("Bus channel closed"),
            ErrorKind::BusFull => to_owned_string("Bus channel full"),
            ErrorKind::CoreInitFailed(m) => prefixed("Core init failed: ", m),
            ErrorKind::CoreRunFailed(m) => prefixed("Core run failed: ", m),
            ErrorKind::CoreShutdownFailed(m) => prefixed("Core shutdown failed: ", m),
            ErrorKind::CoreNotRunning => to_owned_string("Core not running"),
            ErrorKind::CoreAlreadyRunning => to_owned_string("Core already running"),
            ErrorKind::PluginNotFound(i) => prefixed("Plugin not found: ", i),
            ErrorKind::PluginLoadFailed(i) => prefixed("Plugin load failed: ", i),
            ErrorKind::PluginUnloadFailed(i) => prefixed("Plugin unload failed: ", i),
            ErrorKind::PluginAlreadyLoaded(i) => prefixed("Plugin already loaded: ", i),
            ErrorKind::PluginInitFailed(i) => prefixed("Plugin init failed: ", i),
            ErrorKind::PluginExecuteFailed(i) => prefixed("Plugin execute failed: ", i),
            ErrorKind::SandboxCreationFailed(m) => prefixed("Sandbox creation failed: ", m),
            ErrorKind::SandboxExecutionDenied(m) => prefixed("Execution denied: ", m),
            ErrorKind::SandboxResourceLimitExceeded(k) => {
                let mut r = to_owned_string("Resource limit exceeded: ");
                string_push_str(&mut r, k.variant_str());
                r
            },
            ErrorKind::SandboxTimeout => to_owned_string("Sandbox timeout"),
            ErrorKind::SandboxProcessCrashed(c) => {
                let mut r = to_owned_string("Process crashed: ");
                push_signed_decimal(&mut r, *c as i64);
                r
            },
            ErrorKind::ResourceQuotaExceeded(n) => prefixed("Resource quota exceeded: ", n),
            ErrorKind::ResourceNotAvailable(n) => prefixed("Resource not available: ", n),
            ErrorKind::ResourceBusy(n) => prefixed("Resource busy: ", n),
            ErrorKind::InvalidArgument(m) => prefixed("Invalid argument: ", m),
            ErrorKind::InvalidState(m) => prefixed("Invalid state: ", m),
            ErrorKind::NotSupported(m) => prefixed("Not supported: ", m),
            ErrorKind::InternalError(m) => prefixed("Internal error: ", m),
        }
    }
}

/// Unified error type of the kernel.
#[derive(Debug)]
pub struct MathCoreError {
    kind: ErrorKind,
}

impl MathCoreError {
    /// The kind this error carries.
    pub closed spec fn spec_kind(&self) -> ErrorKind {
        self.kind
    }

    pub fn new(kind: ErrorKind) -> (e: Self)
        ensures
            e.spec_kind() == kind,
    {
        MathCoreError { kind }
    }

    /// The kind of error.
    pub fn kind(&self) -> (k: &ErrorKind)
        ensures
            *k == self.spec_kind(),
    {
        &self.kind
    }

    /// The displayed message, which is that of its kind.
    pub fn to_string(&self) -> (r: String)
        ensures
            r@ == kind_message(self.spec_kind()),
    {
        self.kind.to_string()
    }
}

/// Result of kernel operations.
pub type Result<T> = core::result::Result<T, MathCoreError>;

} // verus!
