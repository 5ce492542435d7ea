use super::NetworkError;
use vstd::prelude::*;

verus! {

/// A TLS protocol version, oldest first.
#[derive(Debug, Clone, Copy, PartialEq, Eq, Structural, PartialOrd, Ord)]
pub enum TlsVersion {
    Tls1_0,
    Tls1_1,
    Tls1_2,
    Tls1_3,
}

/// The place of a version in the order of versions, oldest first.
pub open spec fn version_rank(v: TlsVersion) -> nat {
    match v {
        TlsVersion::Tls1_0 => 0,
        TlsVersion::Tls1_1 => 1,
        TlsVersion::Tls1_2 => 2,
        TlsVersion::Tls1_3 => 3,
    }
}

impl TlsVersion {
    /// The place of this version in the order of versions, oldest first.
    pub fn rank(&self) -> (r: u8)
        ensures
            r == version_rank(*self),
    {
        match self {
            TlsVersion::Tls1_0 => 0,
            TlsVersion::Tls1_1 => 1,
            TlsVersion::Tls1_2 => 2,
            TlsVersion::Tls1_3 => 3,
        }
    }
}

/// TLS settings.
#[derive(Debug, Clone)]
pub struct TlsConfig {
    pub verify_certificates: bool,
    pub min_tls_version: TlsVersion,
    pub max_tls_version: TlsVersion,
}

/// Whether a configuration's version range is non-empty.
pub open spec fn versions_ordered(c: TlsConfig) -> bool {
    version_rank(c.min_tls_version) <= version_rank(c.max_tls_version)
}

impl TlsConfig {
    /// Certificates verified, TLS 1.2 to 1.3.
    pub fn new() -> (r: TlsConfig)
        ensures
            r.verify_certificates,
            r.min_tls_version == TlsVersion::Tls1_2,
            r.max_tls_version == TlsVersion::Tls1_3,
    {
        TlsConfig {
            verify_certificates: true,
            min_tls_version: TlsVersion::Tls1_2,
            max_tls_version: TlsVersion::Tls1_3,
        }
    }

    /// The configuration with certificate verification on or off.
    pub fn with_verify_certificates(self, verify: bool) -> (r: TlsConfig)
        ensures
            r == (TlsConfig { verify_certificates: verify, ..self }),
    {
        TlsConfig { verify_certificates: verify, ..self }
    }

    /// The configuration with its oldest accepted version set.
    pub fn with_min_tls_version(self, version: TlsVersion) -> (r: TlsConfig)
        ensures
            r == (TlsConfig { min_tls_version: version, ..self }),
    {
        TlsConfig { min_tls_version: version, ..self }
    }

    /// The configuration with its newest accepted version set.
    pub fn with_max_tls_version(self, version: TlsVersion) -> (r: TlsConfig)
        ensures
            r == (TlsConfig { max_tls_version: version, ..self }),
    {
        TlsConfig { max_tls_version: version, ..self }
    }

    /// `Ok` exactly when the oldest accepted version is not newer than the newest.
    pub fn validate(&self) -> (r: Result<(), NetworkError>)
        ensures
            r is Ok <==> versions_ordered(*self),
            r matches Err(e) ==> (e matches NetworkError::TlsError(m)
                && m@ == "Min TLS version cannot be greater than max TLS version"@),
    {
        if self.min_tls_version.rank() > self.max_tls_version.rank() {
            return Err(NetworkError::TlsError(
                "Min TLS version cannot be greater than max TLS version".to_string(),
            ));
        }
        Ok(())
    }
}

impl Default for TlsConfig {
    fn default() -> (r: TlsConfig)
        ensures
            r.verify_certificates,
            r.min_tls_version == TlsVersion::Tls1_2,
            r.max_tls_version == TlsVersion::Tls1_3,
    {
        TlsConfig::new()
    }
}

/// The default configuration is valid, and so is any that keeps its version range.
pub proof fn lemma_default_config_valid(verify: bool)
    ensures
        versions_ordered(TlsConfig { verify_certificates: verify, min_tls_version: TlsVersion::Tls1_2, max_tls_version: TlsVersion::Tls1_3 }),
{
}

/// Narrowing the range from either end to a version inside it keeps a configuration valid.
pub proof fn lemma_narrowing_keeps_valid(c: TlsConfig, v: TlsVersion)
    requires
        versions_ordered(c),
        version_rank(c.min_tls_version) <= version_rank(v) <= version_rank(c.max_tls_version),
    ensures
        versions_ordered(TlsConfig { min_tls_version: v, ..c }),
        versions_ordered(TlsConfig { max_tls_version: v, ..c }),
{
}

} // verus!
