//! Fixed settings of the background daemon: the tray icon's pixels and the
//! schedule of the worker that wipes expired secrets.
use vstd::prelude::*;

verus! {

/// Width and height of the tray icon, in pixels.
pub const ICON_SIZE: u32 = 16;

/// How long a secret may stay in the vault, in seconds.
pub const ZEROIZE_TIMEOUT_SECS: u64 = 600;

/// Channel `k` (0: red, 1: green, 2: blue, 3: alpha) of every pixel of the
/// tray icon: an opaque green.
pub open spec fn icon_channel(k: int) -> u8 {
    if k == 0 {
        0
    } else if k == 1 {
        200
    } else if k == 2 {
        100
    } else {
        255
    }
}

/// The RGBA bytes of the tray icon, row by row: `ICON_SIZE * ICON_SIZE`
/// pixels of the same colour.
pub fn default_icon_rgba() -> (buf: Vec<u8>)
    ensures
        buf@.len() == 4 * ICON_SIZE * ICON_SIZE,
        forall|i: int| 0 <= i < buf@.len() ==> #[trigger] buf@[i] == icon_channel(i % 4),
{
    let pixels: usize = 256;
    let mut buf: Vec<u8> = Vec::new();
    for p in 0..pixels
        invariant
            pixels == ICON_SIZE * ICON_SIZE,
            buf@.len() == 4 * p,
            forall|i: int| 0 <= i < buf@.len() ==> #[trigger] buf@[i] == icon_channel(i % 4),
    {
        buf.push(0);
        buf.push(200);
        buf.push(100);
        buf.push(255);
    }
    buf
}

/// How often the wipe worker wakes up: every half timeout, but at least
/// every second.
pub fn check_interval_secs(timeout_secs: u64) -> (secs: u64)
    ensures
        secs == (if timeout_secs / 2 > 1 {
            timeout_secs / 2
        } else {
            1
        }),
{
    let half = timeout_secs / 2;
    if half > 1 {
        half
    } else {
        1
    }
}

/// A timeout in seconds as nanoseconds, the unit the vault stamps slots in.
pub fn secs_to_nanos(secs: u64) -> (nanos: u128)
    ensures
        nanos == secs * 1_000_000_000,
{
    (secs as u128) * 1_000_000_000
}

} // verus!
