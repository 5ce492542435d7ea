use crate::text::same_text;
use vstd::prelude::*;

verus! {

/// Errors of the platform layer.
#[derive(Debug)]
pub enum PlatformError {
    UnsupportedPlatform(String),
    SystemCallFailed(String),
}

/// An operating system family.
#[derive(Debug, Clone, Copy, PartialEq, Eq, Structural)]
pub enum Platform {
    Linux,
    MacOS,
    Windows,
    Unknown,
}

/// The platform that an operating system name (as `std::env::consts::OS` gives it) stands for.
pub open spec fn platform_of(os: Seq<char>) -> Platform {
    if os == "linux"@ {
        Platform::Linux
    } else if os == "macos"@ {
        Platform::MacOS
    } else if os == "windows"@ {
        Platform::Windows
    } else {
        Platform::Unknown
    }
}

/// The name of a platform.
pub open spec fn platform_name(p: Platform) -> Seq<char> {
    match p {
        Platform::Linux => "linux"@,
        Platform::MacOS => "macos"@,
        Platform::Windows => "windows"@,
        Platform::Unknown => "unknown"@,
    }
}

impl Platform {
    /// The platform that the operating system name `os` stands for.
    pub fn from_os_name(os: &str) -> (r: Platform)
        ensures
            r == platform_of(os@),
    {
        if same_text(os, "linux") {
            Platform::Linux
        } else if same_text(os, "macos") {
            Platform::MacOS
        } else if same_text(os, "windows") {
            Platform::Windows
        } else {
            Platform::Unknown
        }
    }

    /// The platform's name.
    pub fn name(&self) -> (r: &'static str)
        ensures
            r@ == platform_name(*self),
    {
        match self {
            Platform::Linux => "linux",
            Platform::MacOS => "macos",
            Platform::Windows => "windows",
            Platform::Unknown => "unknown",
        }
    }

    /// Whether the sandbox runs on this platform: on Linux and macOS.
    pub fn supports_sandbox(&self) -> (r: bool)
        ensures
            r == (*self == Platform::Linux || *self == Platform::MacOS),
    {
        match self {
            Platform::Linux | Platform::MacOS => true,
            _ => false,
        }
    }
}

/// Where the program runs.
pub struct PlatformInfo {
    platform: Platform,
    arch: String,
}

impl PlatformInfo {
    /// The platform recorded.
    pub closed spec fn spec_platform(self) -> Platform {
        self.platform
    }

    /// The architecture recorded.
    pub closed spec fn spec_arch(self) -> Seq<char> {
        self.arch@
    }

    /// Information on a platform and an architecture name.
    pub fn from_parts(platform: Platform, arch: &str) -> (r: PlatformInfo)
        ensures
            r.spec_platform() == platform,
            r.spec_arch() == arch@,
    {
        PlatformInfo { platform, arch: arch.to_string() }
    }

    /// The platform.
    pub fn platform(&self) -> (r: Platform)
        ensures
            r == self.spec_platform(),
    {
        self.platform
    }

    /// The architecture's name.
    pub fn arch(&self) -> (r: &str)
        ensures
            r@ == self.spec_arch(),
    {
        self.arch.as_str()
    }

    /// Whether the platform is a known one.
    pub fn is_supported(&self) -> (r: bool)
        ensures
            r == (self.spec_platform() != Platform::Unknown),
    {
        self.platform != Platform::Unknown
    }
}

/// Every known operating system name maps to a supported platform, and each platform's name
/// maps back to it.
pub proof fn lemma_name_round_trip(p: Platform)
    requires
        p != Platform::Unknown,
    ensures
        platform_of(platform_name(p)) == p,
{
    reveal_strlit("linux");
    reveal_strlit("macos");
    reveal_strlit("windows");
    assert("macos"@[0] != "linux"@[0]);
    assert("windows"@[0] != "linux"@[0]);
    assert("windows"@[0] != "macos"@[0]);
}

} // verus!
