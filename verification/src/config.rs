use vstd::prelude::*;

verus! {

/// General settings: how often the device is polled and where artifacts
/// are stored. The refresh rate is kept in whole seconds.
#[derive(Clone, Debug)]
pub struct Settings {
    pub refresh_rate_secs: u64,
    pub base_dir: String,
}

/// Encryption configuration: the public keys artifacts may be encrypted to.
#[derive(Clone, Debug)]
pub struct EncryptionConfig {
    pub public_keys: Vec<String>,
}

/// Configuration values.
#[derive(Clone, Debug)]
pub struct Config {
    pub settings: Settings,
    pub encryption: EncryptionConfig,
}

impl Config {
    pub fn new(refresh_rate_secs: u64, base_dir: String, public_keys: Vec<String>) -> (r: Config)
        ensures
            r.settings.refresh_rate_secs == refresh_rate_secs,
            r.settings.base_dir@ == base_dir@,
            r.encryption.public_keys@ == public_keys@,
    {
        Config {
            settings: Settings { refresh_rate_secs, base_dir },
            encryption: EncryptionConfig { public_keys },
        }
    }

    /// The directory under which every device's artifacts live.
    pub fn get_base_dir(&self) -> (r: String)
        ensures
            r@ == self.settings.base_dir@,
    {
        self.settings.base_dir.clone()
    }
}

} // verus!
