//! The master's configuration.
use vstd::prelude::*;
use crate::start_infos::StartInfos;

verus! {

/// Where the master listens, which directory it archives as updates, and
/// the launch configurations it offers.
pub struct MasterConfig {
    pub addr: String,
    pub data_path: String,
    pub start_infos: StartInfos,
}

/// Why a configuration is refused.
#[derive(Debug, Clone, Copy, PartialEq, Eq, Structural)]
pub enum ConfigError {
    /// It offers no launch configuration.
    NoStartInfos,
}

/// Accepts a configuration that offers at least one launch configuration.
pub fn validate_config(config: MasterConfig) -> (r: Result<MasterConfig, ConfigError>)
    ensures
        match r {
            Ok(c) => c == config && !config.start_infos@.dom().is_empty(),
            Err(e) => e == ConfigError::NoStartInfos && config.start_infos@.dom().is_empty(),
        },
{
    if config.start_infos.is_empty() {
        Err(ConfigError::NoStartInfos)
    } else {
        Ok(config)
    }
}

} // verus!
