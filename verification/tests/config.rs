use passclip::config::{AppConfig, DEFAULT_MIN_ENTROPY_BITS};
use passclip::session::{AuthError, PasskeyAuthenticator};

#[test]
fn default_settings() {
    let c = AppConfig::default();
    assert_eq!(c.rp_id, "localhost");
    assert_eq!(c.rp_origin, "http://localhost");
    assert_eq!(c.rp_name, "PassClip Vault");
    assert_eq!(f64::from_bits(c.min_entropy_bits), 4.5);
    assert_eq!(c.min_entropy_bits, DEFAULT_MIN_ENTROPY_BITS);
    assert_eq!(c.min_length, 8);
    assert_eq!(c.zeroize_timeout_secs, 30);
    assert!(c.enable_notifications);
}

#[test]
fn relying_party_from_settings() {
    assert!(PasskeyAuthenticator::for_config(&AppConfig::default()).is_ok());
    let mut bad = AppConfig::default();
    bad.rp_origin = "::".to_string();
    assert!(matches!(PasskeyAuthenticator::for_config(&bad), Err(AuthError::InvalidOrigin)));
}
