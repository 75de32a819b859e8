//! Persisted configuration of slave servers and master connections.
use crate::data_point::InformationObjectDef;
use crate::master::TlsConfig;
use crate::slave::SlaveTlsConfig;
use vstd::prelude::*;

verus! {

/// Configuration for a slave server.
pub struct SlaveServerConfig {
    pub bind_address: String,
    pub port: u16,
    pub tls: SlaveTlsConfig,
    pub stations: Vec<StationConfig>,
}

/// Configuration for a station within a slave server.
pub struct StationConfig {
    pub common_address: u16,
    pub name: String,
    pub data_points: Vec<InformationObjectDef>,
}

/// Configuration for a master connection.
pub struct MasterConnectionConfig {
    pub target_address: String,
    pub port: u16,
    pub common_address: u16,
    pub timeout_ms: u64,
    pub tls: TlsConfig,
}

impl Default for MasterConnectionConfig {
    fn default() -> (r: Self)
        ensures
            r.target_address@ == "127.0.0.1"@,
            r.port == 2404,
            r.common_address == 1,
            r.timeout_ms == 3000,
            !r.tls.enabled,
            r.tls.ca_file@.len() == 0,
            r.tls.cert_file@.len() == 0,
            r.tls.key_file@.len() == 0,
            !r.tls.accept_invalid_certs,
    {
        MasterConnectionConfig {
            target_address: "127.0.0.1".to_string(),
            port: 2404,
            common_address: 1,
            timeout_ms: 3000,
            tls: TlsConfig::default(),
        }
    }
}

/// Full app state for persistence.
pub struct PersistedAppState {
    pub version: u32,
    pub servers: Vec<SlaveServerConfig>,
}

/// Full master app state for persistence.
pub struct PersistedMasterState {
    pub version: u32,
    pub connections: Vec<MasterConnectionConfig>,
}

} // verus!
