use passclip::daemon::{check_interval_secs, default_icon_rgba, secs_to_nanos, ICON_SIZE, ZEROIZE_TIMEOUT_SECS};

#[test]
fn icon_is_uniform_green() {
    let buf = default_icon_rgba();
    assert_eq!(buf.len(), (ICON_SIZE * ICON_SIZE * 4) as usize);
    assert!(buf.chunks(4).all(|px| px == [0, 200, 100, 255]));
}

#[test]
fn wipe_schedule() {
    assert_eq!(check_interval_secs(ZEROIZE_TIMEOUT_SECS), 300);
    assert_eq!(check_interval_secs(1), 1);
    assert_eq!(check_interval_secs(3), 1);
    assert_eq!(secs_to_nanos(600), 600_000_000_000);
}
