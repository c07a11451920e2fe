//! The activity log shown by the desktop front end: a bounded list of
//! entries, oldest first, from which the oldest entry leaves when the log is
//! full.
use vstd::prelude::*;
use chrono::TimeZone;

verus! {

/// The most entries the log keeps.
pub const MAX_LOG_ENTRIES: usize = 200;

/// One line of the activity log.
pub struct LogEntry {
    /// A random identifier in the hyphenated form of a UUID.
    pub id: String,
    /// Local time of day as `HH:MM:SS`.
    pub timestamp: String,
    pub level: String,
    pub message: String,
}

/// The activity log.
pub struct LogState {
    logs: Vec<LogEntry>,
}

impl View for LogState {
    type V = Seq<LogEntry>;

    closed spec fn view(&self) -> Seq<LogEntry> {
        self.logs@
    }
}

/// The log after `entry` was appended: the oldest entry leaves first when
/// the log already holds `MAX_LOG_ENTRIES` entries.
pub open spec fn appended(log: Seq<LogEntry>, entry: LogEntry) -> Seq<LogEntry> {
    if log.len() >= MAX_LOG_ENTRIES {
        log.drop_first().push(entry)
    } else {
        log.push(entry)
    }
}

/// The log obtained by appending every entry of `history` to an empty log.
pub open spec fn log_of_history(history: Seq<LogEntry>) -> Seq<LogEntry>
    decreases history.len(),
{
    if history.len() == 0 {
        Seq::empty()
    } else {
        appended(log_of_history(history.drop_last()), history.last())
    }
}

/// The last `MAX_LOG_ENTRIES` entries of `history` (all of it when shorter).
pub open spec fn latest_entries(history: Seq<LogEntry>) -> Seq<LogEntry> {
    if history.len() <= MAX_LOG_ENTRIES {
        history
    } else {
        history.subrange(history.len() - MAX_LOG_ENTRIES, history.len() as int)
    }
}

/// The lowercase hexadecimal digit of a value below 16.
pub open spec fn hex_digit(n: u128) -> char {
    if n < 10 {
        (('0' as u8) + n) as char
    } else {
        (('a' as u8) + (n - 10)) as char
    }
}

/// Position, among the 32 hex digits of a UUID, of the digit written at
/// character position `i` of its hyphenated text (hyphens stand at 8, 13, 18
/// and 23).
pub open spec fn uuid_digit_index(i: int) -> int {
    if i < 8 {
        i
    } else if i < 13 {
        i - 1
    } else if i < 18 {
        i - 2
    } else if i < 23 {
        i - 3
    } else {
        i - 4
    }
}

/// Whether character position `i` of a hyphenated UUID holds a hyphen.
pub open spec fn is_uuid_hyphen(i: int) -> bool {
    i == 8 || i == 13 || i == 18 || i == 23
}

/// The hyphenated lowercase text of a UUID given by its 128 bits, most
/// significant digit first (`xxxxxxxx-xxxx-xxxx-xxxx-xxxxxxxxxxxx`).
pub open spec fn uuid_text_of(bits: u128) -> Seq<char> {
    Seq::new(
        36,
        |i: int|
            if is_uuid_hyphen(i) {
                '-'
            } else {
                hex_digit((bits >> ((4 * (31 - uuid_digit_index(i))) as u32)) & 0xf)
            },
    )
}

/// Draws a random version-4 UUID and hands out its 128 bits.
///
/// Calls `uuid::Uuid::new_v4` and converts with `as_u128`. The bits are
/// random; the crate's source masks in the version (4) and the RFC 4122
/// variant, which is what the `ensures` states.
#[verifier::external_body]
pub(crate) fn new_v4_bits() -> (bits: u128)
    ensures
        is_v4_bits(bits),
{
    uuid::Uuid::new_v4().as_u128()
}

/// Whether a text has the shape `HH:MM:SS`: eight characters, colons at
/// positions 2 and 5, decimal digits elsewhere.
pub open spec fn is_clock_text(t: Seq<char>) -> bool {
    &&& t.len() == 8
    &&& t[2] == ':'
    &&& t[5] == ':'
    &&& forall|i: int| 0 <= i < 8 && i != 2 && i != 5 ==> '0' <= #[trigger] t[i] <= '9'
}

/// Whether 128 bits carry the version (4) and variant (RFC 4122) of a
/// random UUID.
pub open spec fn is_v4_bits(bits: u128) -> bool {
    bits & 0xF000_C000_0000_0000_0000 == 0x4000_8000_0000_0000_0000
}

/// The local time of day, as `HH:MM:SS`, of the instant `nanos_since_epoch`
/// nanoseconds after the Unix epoch.
///
/// Calls `chrono::TimeZone::timestamp_nanos` of `chrono::Local` (which
/// takes any `i64` and does not read the clock) and renders it with
/// `format("%H:%M:%S")`. The value depends on the machine's time zone; what
/// holds of every outcome is the shape.
#[verifier::external_body]
pub(crate) fn local_time_of_day_at(nanos_since_epoch: i64) -> (t: String)
    ensures
        is_clock_text(t@),
{
    chrono::Local.timestamp_nanos(nanos_since_epoch).format("%H:%M:%S").to_string()
}

/// The wall clock as nanoseconds since the epoch, saturated at `i64::MAX`.
fn clock_nanos_i64() -> (n: i64)
    ensures
        n >= 0,
{
    let now = crate::vault::clock_now_nanos();
    if now > 0x7fff_ffff_ffff_ffff {
        0x7fff_ffff_ffff_ffff
    } else {
        now as i64
    }
}

/// The lowercase hexadecimal digit of a value below 16.
fn hex_digit_exec(n: u128) -> (c: char)
    requires
        n < 16,
    ensures
        c == hex_digit(n),
{
    if n < 10 {
        (('0' as u8) + (n as u8)) as char
    } else {
        (('a' as u8) + ((n - 10) as u8)) as char
    }
}

/// The hyphenated lowercase text of a UUID given by its 128 bits.
pub fn uuid_text(bits: u128) -> (s: String)
    ensures
        s@ == uuid_text_of(bits),
{
    let mut s = String::new();
    let mut i: usize = 0;
    let mut digit: u32 = 0;
    while i < 36
        invariant
            i <= 36,
            digit as int == if i <= 8 {
                i as int
            } else if i <= 13 {
                i - 1
            } else if i <= 18 {
                i - 2
            } else if i <= 23 {
                i - 3
            } else {
                i - 4
            },
            s@.len() == i,
            forall|j: int| 0 <= j < i ==> s@[j] == #[trigger] uuid_text_of(bits)[j],
        decreases 36 - i,
    {
        if i == 8 || i == 13 || i == 18 || i == 23 {
            s.push('-');
        } else {
            let shift: u32 = 4 * (31 - digit);
            let n = (bits >> shift) & 0xf;
            assert(n < 16) by (bit_vector)
                requires
                    n == (bits >> shift) & 0xf,
            ;
            let c = hex_digit_exec(n);
            s.push(c);
            digit = digit + 1;
        }
        i = i + 1;
    }
    proof {
        assert(s@ =~= uuid_text_of(bits));
    }
    s
}

impl LogEntry {
    /// A copy of the entry, field for field.
    pub fn clone_entry(&self) -> (r: LogEntry)
        ensures
            r == *self,
    {
        LogEntry {
            id: self.id.clone(),
            timestamp: self.timestamp.clone(),
            level: self.level.clone(),
            message: self.message.clone(),
        }
    }
}

impl LogState {
    /// An empty log.
    pub fn new() -> (r: Self)
        ensures
            r@ == Seq::<LogEntry>::empty(),
    {
        LogState { logs: Vec::new() }
    }

    /// Appends `entry` as the newest entry; when the log already holds
    /// `MAX_LOG_ENTRIES` entries the oldest one leaves first.
    pub fn push_entry(&mut self, entry: LogEntry)
        ensures
            final(self)@ == appended(old(self)@, entry),
    {
        if self.logs.len() >= MAX_LOG_ENTRIES {
            self.logs.remove(0);
        }
        self.logs.push(entry);
        proof {
            assert(self.logs@ =~= appended(old(self)@, entry));
        }
    }

    /// The entry at position `i`, oldest first.
    pub fn entry(&self, i: usize) -> (e: &LogEntry)
        requires
            i < self@.len(),
        ensures
            *e == self@[i as int],
    {
        &self.logs[i]
    }

    /// Removes every entry.
    pub fn clear(&mut self)
        ensures
            final(self)@ == Seq::<LogEntry>::empty(),
    {
        self.logs.clear();
    }

    /// The number of entries held.
    pub fn len(&self) -> (r: usize)
        ensures
            r == self@.len(),
    {
        self.logs.len()
    }
}

/// Records a message at the given level in `state`, with a fresh random
/// identifier and the local time of day, and returns the entry that was
/// stored.
pub fn log(state: &mut LogState, level: &str, message: &str) -> (entry: LogEntry)
    ensures
        entry.level@ == level@,
        entry.message@ == message@,
        is_clock_text(entry.timestamp@),
        exists|bits: u128| is_v4_bits(bits) && entry.id@ == uuid_text_of(bits),
        final(state)@ == appended(old(state)@, entry),
{
    let bits = new_v4_bits();
    let entry = LogEntry {
        id: uuid_text(bits),
        timestamp: local_time_of_day_at(clock_nanos_i64()),
        level: level.to_owned(),
        message: message.to_owned(),
    };
    let stored = entry.clone_entry();
    state.push_entry(stored);
    entry
}

/// A copy of all entries of `state`, oldest first.
pub fn get_logs(state: &LogState) -> (r: Vec<LogEntry>)
    ensures
        r@ == state@,
{
    let mut out: Vec<LogEntry> = Vec::new();
    let n = state.len();
    for i in 0..n
        invariant
            n == state@.len(),
            out@ == state@.take(i as int),
    {
        out.push(state.entry(i).clone_entry());
        proof {
            assert(out@ =~= state@.take(i + 1));
        }
    }
    proof {
        assert(state@.take(n as int) =~= state@);
    }
    out
}

/// Removes every entry of `state`.
pub fn clear_logs(state: &mut LogState)
    ensures
        final(state)@ == Seq::<LogEntry>::empty(),
{
    state.clear();
}

/// The log never holds more than `MAX_LOG_ENTRIES` entries: appending to a
/// log within the bound keeps it within the bound.
pub proof fn lemma_append_keeps_bound(log: Seq<LogEntry>, entry: LogEntry)
    requires
        log.len() <= MAX_LOG_ENTRIES,
    ensures
        appended(log, entry).len() <= MAX_LOG_ENTRIES,
        appended(log, entry).last() == entry,
{
}

/// Starting from an empty log, the log holds exactly the latest
/// `MAX_LOG_ENTRIES` entries appended, oldest first: what came first leaves
/// first.
pub proof fn lemma_log_keeps_latest_entries(history: Seq<LogEntry>)
    ensures
        log_of_history(history) == latest_entries(history),
    decreases history.len(),
{
    if history.len() > 0 {
        let prev = history.drop_last();
        lemma_log_keeps_latest_entries(prev);
        let l = latest_entries(prev);
        if prev.len() >= MAX_LOG_ENTRIES {
            assert(l.drop_first().push(history.last()) =~= latest_entries(history));
        } else {
            assert(l.push(history.last()) =~= latest_entries(history));
        }
    }
}

} // verus!
