use vstd::prelude::*;

verus! {

/// Which Linux namespaces a sandbox isolates.
#[derive(Debug, Clone, Copy, PartialEq, Eq, Structural)]
pub struct NamespaceConfig {
    pub enable_pid: bool,
    pub enable_network: bool,
    pub enable_mount: bool,
    pub enable_uts: bool,
    pub enable_ipc: bool,
    pub enable_user: bool,
}

/// The configuration with every namespace off.
pub open spec fn no_namespaces() -> NamespaceConfig {
    NamespaceConfig {
        enable_pid: false,
        enable_network: false,
        enable_mount: false,
        enable_uts: false,
        enable_ipc: false,
        enable_user: false,
    }
}

impl NamespaceConfig {
    /// Every namespace off.
    pub fn new() -> (r: NamespaceConfig)
        ensures
            r == no_namespaces(),
    {
        NamespaceConfig {
            enable_pid: false,
            enable_network: false,
            enable_mount: false,
            enable_uts: false,
            enable_ipc: false,
            enable_user: false,
        }
    }

    /// The configuration with the PID namespace on or off.
    pub fn with_pid(self, enable: bool) -> (r: NamespaceConfig)
        ensures
            r == (NamespaceConfig { enable_pid: enable, ..self }),
    {
        NamespaceConfig { enable_pid: enable, ..self }
    }

    /// The configuration with the network namespace on or off.
    pub fn with_network(self, enable: bool) -> (r: NamespaceConfig)
        ensures
            r == (NamespaceConfig { enable_network: enable, ..self }),
    {
        NamespaceConfig { enable_network: enable, ..self }
    }

    /// The configuration with the mount namespace on or off.
    pub fn with_mount(self, enable: bool) -> (r: NamespaceConfig)
        ensures
            r == (NamespaceConfig { enable_mount: enable, ..self }),
    {
        NamespaceConfig { enable_mount: enable, ..self }
    }

    /// The configuration with the UTS namespace on or off.
    pub fn with_uts(self, enable: bool) -> (r: NamespaceConfig)
        ensures
            r == (NamespaceConfig { enable_uts: enable, ..self }),
    {
        NamespaceConfig { enable_uts: enable, ..self }
    }

    /// The configuration with the IPC namespace on or off.
    pub fn with_ipc(self, enable: bool) -> (r: NamespaceConfig)
        ensures
            r == (NamespaceConfig { enable_ipc: enable, ..self }),
    {
        NamespaceConfig { enable_ipc: enable, ..self }
    }

    /// The configuration with the user namespace on or off.
    pub fn with_user(self, enable: bool) -> (r: NamespaceConfig)
        ensures
            r == (NamespaceConfig { enable_user: enable, ..self }),
    {
        NamespaceConfig { enable_user: enable, ..self }
    }
}

impl Default for NamespaceConfig {
    fn default() -> (r: NamespaceConfig)
        ensures
            r == no_namespaces(),
    {
        NamespaceConfig::new()
    }
}

} // verus!
