//! The daemon's settings and their defaults.
use vstd::prelude::*;

verus! {

/// The daemon's settings.
///
/// `min_entropy_bits` is the bit pattern of the `f64` entropy threshold (in
/// bits per byte) above which clipboard content may count as a secret.
pub struct AppConfig {
    pub rp_id: String,
    pub rp_origin: String,
    pub rp_name: String,
    pub min_entropy_bits: u64,
    pub min_length: usize,
    pub zeroize_timeout_secs: u64,
    pub enable_notifications: bool,
}

/// The bit pattern of the `f64` value 4.5.
pub const DEFAULT_MIN_ENTROPY_BITS: u64 = 0x4012_0000_0000_0000;

impl Default for AppConfig {
    /// Relying party `localhost` at `http://localhost` named "PassClip Vault",
    /// entropy threshold 4.5, minimum length 8 bytes, wipe timeout 30 s,
    /// notifications on.
    fn default() -> (c: Self)
        ensures
            c.rp_id@ == "localhost"@,
            c.rp_origin@ == "http://localhost"@,
            c.rp_name@ == "PassClip Vault"@,
            c.min_entropy_bits == DEFAULT_MIN_ENTROPY_BITS,
            c.min_length == 8,
            c.zeroize_timeout_secs == 30,
            c.enable_notifications,
    {
        AppConfig {
            rp_id: "localhost".to_owned(),
            rp_origin: "http://localhost".to_owned(),
            rp_name: "PassClip Vault".to_owned(),
            min_entropy_bits: DEFAULT_MIN_ENTROPY_BITS,
            min_length: 8,
            zeroize_timeout_secs: 30,
            enable_notifications: true,
        }
    }
}

} // verus!
