//! The execution sandbox of plugins and its resource limits.

use vstd::prelude::*;
use vstd::slice::slice_to_vec;
use vstd::utf8::encode_utf8;
use crate::kernel::error::{ErrorKind, MathCoreError};
use crate::text::to_owned_string;

verus! {

/// Calls `HashSet::clone`; the copy holds the same names.
#[verifier::external_body]
fn clone_names(set: &std::collections::HashSet<String>) -> (r: std::collections::HashSet<String>)
    ensures
        r@ == set@,
{
    set.clone()
}

/// Limits and policy of a sandbox.
#[derive(Debug)]
pub struct SandboxConfig {
    pub max_memory: u64,
    pub max_cpu_time: u64,
    pub max_wall_time: u64,
    pub seccomp_enabled: bool,
    pub allowed_syscalls: std::collections::HashSet<String>,
    pub max_processes: u32,
    pub max_file_size: u64,
}

impl Clone for SandboxConfig {
    /// A copy with the same limits and the same allowed system calls.
    fn clone(&self) -> (r: Self)
        ensures
            r.max_memory == self.max_memory,
            r.max_cpu_time == self.max_cpu_time,
            r.max_wall_time == self.max_wall_time,
            r.seccomp_enabled == self.seccomp_enabled,
            r.allowed_syscalls@ == self.allowed_syscalls@,
            r.max_processes == self.max_processes,
            r.max_file_size == self.max_file_size,
    {
        SandboxConfig {
            max_memory: self.max_memory,
            max_cpu_time: self.max_cpu_time,
            max_wall_time: self.max_wall_time,
            seccomp_enabled: self.seccomp_enabled,
            allowed_syscalls: clone_names(&self.allowed_syscalls),
            max_processes: self.max_processes,
            max_file_size: self.max_file_size,
        }
    }
}

impl Default for SandboxConfig {
    /// 256 MiB of memory, 30 s of CPU, 60 s of wall time, no seccomp, no extra
    /// system calls, 4 processes and 64 MiB files.
    fn default() -> (r: Self)
        ensures
            r.max_memory == 256 * 1024 * 1024,
            r.max_cpu_time == 30_000,
            r.max_wall_time == 60_000,
            !r.seccomp_enabled,
            r.allowed_syscalls@.is_empty(),
            r.max_processes == 4,
            r.max_file_size == 64 * 1024 * 1024,
    {
        SandboxConfig {
            max_memory: 256 * 1024 * 1024,
            max_cpu_time: 30_000,
            max_wall_time: 60_000,
            seccomp_enabled: false,
            allowed_syscalls: std::collections::HashSet::new(),
            max_processes: 4,
            max_file_size: 64 * 1024 * 1024,
        }
    }
}

/// What running code in a sandbox gave.
#[derive(Debug, Clone)]
pub struct ExecutionResult {
    pub exit_code: i32,
    pub stdout: Vec<u8>,
    pub stderr: Vec<u8>,
    pub killed: bool,
    pub kill_reason: Option<String>,
}

/// Something that runs code under limits.
pub trait SandboxTrait {
    fn execute(&self, code: &[u8]) -> Result<ExecutionResult, MathCoreError>;

    fn get_memory_usage(&self) -> u64;
}

/// The error for empty code.
pub open spec fn empty_code_error(e: MathCoreError) -> bool {
    e.spec_kind() matches ErrorKind::InvalidArgument(m) && m@ == "Empty code"@
}

/// The result of code that ran to completion.
pub open spec fn completed_run(r: ExecutionResult) -> bool {
    &&& r.exit_code == 0
    &&& r.stdout@ == encode_utf8("Executed"@)
    &&& r.stderr@.len() == 0
    &&& !r.killed
    &&& r.kill_reason is None
}

/// The result of code that was stopped for using too much memory.
pub open spec fn memory_killed_run(r: ExecutionResult) -> bool {
    &&& r.exit_code == -1
    &&& r.stdout@.len() == 0
    &&& r.stderr@ == encode_utf8("Memory limit exceeded"@)
    &&& r.killed
    &&& r.kill_reason matches Some(m) && m@ == "Memory limit exceeded"@
}

/// A sandbox: its limits and the resources its code has used.
#[derive(Debug)]
pub struct Sandbox {
    active: bool,
    config: SandboxConfig,
    memory_usage: u64,
    total_time: u64,
}

impl Sandbox {
    /// Whether the sandbox accepts code.
    pub closed spec fn spec_active(&self) -> bool {
        self.active
    }

    /// The memory that code in the sandbox uses.
    pub closed spec fn spec_memory(&self) -> u64 {
        self.memory_usage
    }

    /// The total execution time of code in the sandbox.
    pub closed spec fn spec_total_time(&self) -> u64 {
        self.total_time
    }

    /// The memory limit.
    pub closed spec fn spec_max_memory(&self) -> u64 {
        self.config.max_memory
    }

    /// Whether a seccomp filter was asked for.
    pub closed spec fn spec_seccomp_enabled(&self) -> bool {
        self.config.seccomp_enabled
    }

    /// An active sandbox with the default limits and nothing used.
    pub fn new() -> (r: Self)
        ensures
            r.spec_active(),
            r.spec_memory() == 0,
            r.spec_total_time() == 0,
            r.spec_max_memory() == 256 * 1024 * 1024,
            !r.spec_seccomp_enabled(),
    {
        Sandbox { active: true, config: SandboxConfig::default(), memory_usage: 0, total_time: 0 }
    }

    /// An active sandbox with the given limits and nothing used.
    pub fn with_config(config: SandboxConfig) -> (r: Self)
        ensures
            r.spec_active(),
            r.spec_memory() == 0,
            r.spec_total_time() == 0,
            r.spec_max_memory() == config.max_memory,
            r.spec_seccomp_enabled() == config.seccomp_enabled,
    {
        Sandbox { active: true, config, memory_usage: 0, total_time: 0 }
    }

    pub fn is_active(&self) -> (r: bool)
        ensures
            r == self.spec_active(),
    {
        self.active
    }

    /// Runs code: empty code is refused; code in a sandbox over its memory
    /// limit is killed; other code completes. The seccomp setting does not
    /// change this.
    pub fn execute(&self, code: &[u8]) -> (r: Result<ExecutionResult, MathCoreError>)
        ensures
            code@.len() == 0 ==> (r matches Err(e) && empty_code_error(e)),
            code@.len() > 0 && self.spec_memory() > self.spec_max_memory() ==> (r matches Ok(x)
                && memory_killed_run(x)),
            code@.len() > 0 && self.spec_memory() <= self.spec_max_memory() ==> (r matches Ok(x)
                && completed_run(x)),
    {
        if code.len() == 0 {
            return Err(MathCoreError::new(ErrorKind::InvalidArgument(to_owned_string("Empty code"))));
        }
        if self.memory_usage > self.config.max_memory {
            return Ok(
                ExecutionResult {
                    exit_code: -1,
                    stdout: Vec::new(),
                    stderr: slice_to_vec("Memory limit exceeded".as_bytes()),
                    killed: true,
                    kill_reason: Some(to_owned_string("Memory limit exceeded")),
                },
            );
        }
        Ok(
            ExecutionResult {
                exit_code: 0,
                stdout: slice_to_vec("Executed".as_bytes()),
                stderr: Vec::new(),
                killed: false,
                kill_reason: None,
            },
        )
    }

    pub fn get_memory_usage(&self) -> (r: u64)
        ensures
            r == self.spec_memory(),
    {
        self.memory_usage
    }

    pub fn get_total_execution_time(&self) -> (r: u64)
        ensures
            r == self.spec_total_time(),
    {
        self.total_time
    }
}

impl Clone for Sandbox {
    /// A copy with the same state and limits.
    fn clone(&self) -> (r: Self)
        ensures
            r.spec_active() == self.spec_active(),
            r.spec_memory() == self.spec_memory(),
            r.spec_total_time() == self.spec_total_time(),
            r.spec_max_memory() == self.spec_max_memory(),
            r.spec_seccomp_enabled() == self.spec_seccomp_enabled(),
    {
        Sandbox {
            active: self.active,
            config: self.config.clone(),
            memory_usage: self.memory_usage,
            total_time: self.total_time,
        }
    }
}

impl Default for Sandbox {
    /// The same as [`Sandbox::new`].
    fn default() -> (r: Self)
        ensures
            r.spec_active(),
            r.spec_memory() == 0,
            r.spec_total_time() == 0,
            r.spec_max_memory() == 256 * 1024 * 1024,
            !r.spec_seccomp_enabled(),
    {
        Sandbox::new()
    }
}

impl SandboxTrait for Sandbox {
    /// The same as [`Sandbox::execute`].
    fn execute(&self, code: &[u8]) -> (r: Result<ExecutionResult, MathCoreError>)
        ensures
            code@.len() == 0 ==> (r matches Err(e) && empty_code_error(e)),
            code@.len() > 0 && self.spec_memory() > self.spec_max_memory() ==> (r matches Ok(x)
                && memory_killed_run(x)),
            code@.len() > 0 && self.spec_memory() <= self.spec_max_memory() ==> (r matches Ok(x)
                && completed_run(x)),
    {
        Sandbox::execute(self, code)
    }

    /// The same as [`Sandbox::get_memory_usage`].
    fn get_memory_usage(&self) -> (r: u64)
        ensures
            r == self.spec_memory(),
    {
        Sandbox::get_memory_usage(self)
    }
}

} // verus!
