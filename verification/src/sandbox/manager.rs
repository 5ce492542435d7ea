use super::namespace::{no_namespaces, NamespaceConfig};
use crate::platform::Platform;
use vstd::prelude::*;

verus! {

/// A sandbox: the isolation it asks for.
pub struct Sandbox {
    namespace_config: NamespaceConfig,
}

/// The process that a sandbox starts: a program and its arguments.
pub struct LaunchPlan {
    pub program: String,
    pub args: Vec<String>,
}

/// The program a sandbox starts on a platform: the command interpreter.
pub open spec fn shell_program(platform: Platform) -> Seq<char> {
    if platform == Platform::Windows { "cmd"@ } else { "/bin/sh"@ }
}

/// The arguments a sandbox passes to the interpreter: with the PID namespace on, a command that
/// reports it; otherwise none.
pub open spec fn shell_args(platform: Platform, config: NamespaceConfig) -> Seq<Seq<char>> {
    if !config.enable_pid {
        Seq::empty()
    } else if platform == Platform::Windows {
        seq!["/c"@, "echo PID namespace enabled"@]
    } else {
        seq!["-c"@, "echo 'PID namespace enabled'"@]
    }
}

impl Sandbox {
    /// The namespaces this sandbox isolates.
    pub closed spec fn config(self) -> NamespaceConfig {
        self.namespace_config
    }

    /// A sandbox with every namespace off.
    pub fn new() -> (r: Sandbox)
        ensures
            r.config() == no_namespaces(),
    {
        Sandbox { namespace_config: NamespaceConfig::new() }
    }

    /// The sandbox with its namespaces set to `config`.
    pub fn with_namespace(self, config: NamespaceConfig) -> (r: Sandbox)
        ensures
            r.config() == config,
    {
        Sandbox { namespace_config: config }
    }

    /// The namespaces this sandbox isolates.
    pub fn namespace_config(&self) -> (r: NamespaceConfig)
        ensures
            r == self.config(),
    {
        self.namespace_config
    }

    /// The process that building this sandbox starts on `platform`.
    pub fn launch_plan(&self, platform: Platform) -> (r: LaunchPlan)
        ensures
            r.program@ == shell_program(platform),
            r.args@.map_values(|a: String| a@) == shell_args(platform, self.config()),
    {
        let windows = platform == Platform::Windows;
        let program = if windows { "cmd".to_string() } else { "/bin/sh".to_string() };
        let mut args: Vec<String> = Vec::new();
        if self.namespace_config.enable_pid {
            if windows {
                args.push("/c".to_string());
                args.push("echo PID namespace enabled".to_string());
            } else {
                args.push("-c".to_string());
                args.push("echo 'PID namespace enabled'".to_string());
            }
        }
        let r = LaunchPlan { program, args };
        assert(r.args@.map_values(|a: String| a@) =~= shell_args(platform, self.config()));
        r
    }
}

impl Default for Sandbox {
    fn default() -> (r: Sandbox)
        ensures
            r.config() == no_namespaces(),
    {
        Sandbox::new()
    }
}

} // verus!
