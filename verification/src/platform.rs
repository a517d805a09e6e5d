//! What is read from the running kernel, and the sample that it makes up.

use vstd::prelude::*;
use vstd::string::{StrSliceExecFns, StringExecFns};

use crate::external::{debug_form, debug_text};
use crate::model::{sample_of, SampleView, SystemSample};
use crate::numeric::fit_i64;
use crate::storage::fingerprints::has_colon;

verus! {

// ---------------------------------------------------------------------------
// The boot ID
// ---------------------------------------------------------------------------

/// Whether a character is white space.
pub open spec fn is_space(c: char) -> bool {
    ||| '\u{9}' <= c <= '\u{d}'
    ||| c == '\u{20}'
    ||| c == '\u{85}'
    ||| c == '\u{a0}'
    ||| c == '\u{1680}'
    ||| '\u{2000}' <= c <= '\u{200a}'
    ||| c == '\u{2028}'
    ||| c == '\u{2029}'
    ||| c == '\u{202f}'
    ||| c == '\u{205f}'
    ||| c == '\u{3000}'
}

fn check_space(c: char) -> (space: bool)
    ensures
        space == is_space(c),
{
    ('\u{9}' <= c && c <= '\u{d}') || c == '\u{20}' || c == '\u{85}' || c == '\u{a0}' || c == '\u{1680}' || (
    '\u{2000}' <= c && c <= '\u{200a}') || c == '\u{2028}' || c == '\u{2029}' || c == '\u{202f}' || c
        == '\u{205f}' || c == '\u{3000}'
}

/// Whether `inner` is `text` without the white space at its ends.
pub open spec fn is_trimmed(text: Seq<char>, inner: Seq<char>) -> bool {
    &&& inner.len() > 0 ==> !is_space(inner.first()) && !is_space(inner.last())
    &&& exists|from: int, to: int|
        {
            &&& 0 <= from <= to <= text.len()
            &&& inner == #[trigger] text.subrange(from, to)
            &&& forall|i: int| 0 <= i < from ==> is_space(#[trigger] text[i])
            &&& forall|i: int| to <= i < text.len() ==> is_space(#[trigger] text[i])
        }
}

/// There is one way to trim a text.
pub proof fn law_trimmed_is_unique(text: Seq<char>, left: Seq<char>, right: Seq<char>)
    requires
        is_trimmed(text, left),
        is_trimmed(text, right),
    ensures
        left == right,
{
    let (a, b) = choose|from: int, to: int|
        {
            &&& 0 <= from <= to <= text.len()
            &&& left == #[trigger] text.subrange(from, to)
            &&& forall|i: int| 0 <= i < from ==> is_space(#[trigger] text[i])
            &&& forall|i: int| to <= i < text.len() ==> is_space(#[trigger] text[i])
        };
    let (c, d) = choose|from: int, to: int|
        {
            &&& 0 <= from <= to <= text.len()
            &&& right == #[trigger] text.subrange(from, to)
            &&& forall|i: int| 0 <= i < from ==> is_space(#[trigger] text[i])
            &&& forall|i: int| to <= i < text.len() ==> is_space(#[trigger] text[i])
        };
    if a < b {
        assert(left.first() == text[a]);
        assert(left.last() == text[b - 1]);
    }
    if c < d {
        assert(right.first() == text[c]);
        assert(right.last() == text[d - 1]);
    }
    assert(left =~= right);
}

/// A copy of a text without the white space at its ends.
pub fn trim_text(text: &str) -> (inner: String)
    ensures
        is_trimmed(text@, inner@),
{
    let length: usize = text.unicode_len();
    let mut from: usize = 0;
    while from < length && check_space(text.get_char(from))
        invariant
            from <= length,
            length == text@.len(),
            forall|i: int| 0 <= i < from ==> is_space(#[trigger] text@[i]),
        decreases length - from,
    {
        from += 1;
    }
    let mut to: usize = length;
    while from < to && check_space(text.get_char(to - 1))
        invariant
            from <= to <= length,
            length == text@.len(),
            forall|i: int| to <= i < length ==> is_space(#[trigger] text@[i]),
        decreases to,
    {
        to -= 1;
    }
    let inner: String = text.substring_char(from, to).to_owned();
    proof {
        assert(inner@ == text@.subrange(from as int, to as int));
        if from < to {
            assert(!is_space(text@[from as int]));
            assert(!is_space(text@[to - 1]));
        }
    }
    inner
}

/// Whether a character may stand in a boot ID.
pub open spec fn is_boot_id_char(c: char) -> bool {
    '0' <= c <= '9' || 'a' <= c <= 'f' || 'A' <= c <= 'F' || c == '-'
}

/// Whether a text is a boot ID: 36 hexadecimal digits and hyphens.
pub open spec fn is_boot_id(text: Seq<char>) -> bool {
    &&& text.len() == 36
    &&& forall|i: int| 0 <= i < text.len() ==> is_boot_id_char(#[trigger] text[i])
}

/// Why no sample could be made.
#[derive(Clone, Debug)]
pub enum ProbeError {
    UnreadableBootId { cause: String },
    InvalidBootId { boot_id: String },
    BeforeEpoch { cause: String },
    WallClockOverflow,
    BootClockFailed { cause: String },
    NegativeBootClock,
    BootClockOverflow,
}

/// A probe error with its texts as characters.
#[verifier::ext_equal]
pub enum ProbeErrorView {
    UnreadableBootId { cause: Seq<char> },
    InvalidBootId { boot_id: Seq<char> },
    BeforeEpoch { cause: Seq<char> },
    WallClockOverflow,
    BootClockFailed { cause: Seq<char> },
    NegativeBootClock,
    BootClockOverflow,
}

impl View for ProbeError {
    type V = ProbeErrorView;

    open spec fn view(&self) -> ProbeErrorView {
        match *self {
            ProbeError::UnreadableBootId { cause } => ProbeErrorView::UnreadableBootId { cause: cause@ },
            ProbeError::InvalidBootId { boot_id } => ProbeErrorView::InvalidBootId { boot_id: boot_id@ },
            ProbeError::BeforeEpoch { cause } => ProbeErrorView::BeforeEpoch { cause: cause@ },
            ProbeError::WallClockOverflow => ProbeErrorView::WallClockOverflow,
            ProbeError::BootClockFailed { cause } => ProbeErrorView::BootClockFailed { cause: cause@ },
            ProbeError::NegativeBootClock => ProbeErrorView::NegativeBootClock,
            ProbeError::BootClockOverflow => ProbeErrorView::BootClockOverflow,
        }
    }
}

/// What is said of a failed probe, given the quoted form of the boot ID.
pub open spec fn probe_message_with(error: ProbeErrorView, quoted: Seq<char>) -> Seq<char> {
    match error {
        ProbeErrorView::UnreadableBootId { cause } =>
            "failed to read /proc/sys/kernel/random/boot_id: "@ + cause,
        ProbeErrorView::InvalidBootId { boot_id } => "kernel returned an invalid boot ID: "@ + quoted,
        ProbeErrorView::BeforeEpoch { cause } => "system clock is earlier than the Unix epoch: "@ + cause,
        ProbeErrorView::WallClockOverflow => "system time does not fit in an i64 millisecond timestamp"@,
        ProbeErrorView::BootClockFailed { cause } => "CLOCK_BOOTTIME failed: "@ + cause,
        ProbeErrorView::NegativeBootClock => "CLOCK_BOOTTIME returned a negative duration"@,
        ProbeErrorView::BootClockOverflow => "CLOCK_BOOTTIME overflow"@,
    }
}

/// What is said of a failed probe.
pub open spec fn probe_message(error: ProbeErrorView) -> Seq<char> {
    match error {
        ProbeErrorView::InvalidBootId { boot_id } => probe_message_with(error, debug_form(boot_id)),
        _ => probe_message_with(error, Seq::empty()),
    }
}

impl ProbeError {
    /// Says what failed, given the quoted form of the boot ID.
    pub fn message_with(&self, quoted: &str) -> (message: String)
        ensures
            message@ == probe_message_with(self@, quoted@),
    {
        match self {
            ProbeError::UnreadableBootId { cause } => {
                let mut message: String = "failed to read /proc/sys/kernel/random/boot_id: ".to_owned();
                message.append(cause.as_str());
                message
            },
            ProbeError::InvalidBootId { boot_id: _ } => {
                let mut message: String = "kernel returned an invalid boot ID: ".to_owned();
                message.append(quoted);
                message
            },
            ProbeError::BeforeEpoch { cause } => {
                let mut message: String = "system clock is earlier than the Unix epoch: ".to_owned();
                message.append(cause.as_str());
                message
            },
            ProbeError::WallClockOverflow => {
                "system time does not fit in an i64 millisecond timestamp".to_owned()
            },
            ProbeError::BootClockFailed { cause } => {
                let mut message: String = "CLOCK_BOOTTIME failed: ".to_owned();
                message.append(cause.as_str());
                message
            },
            ProbeError::NegativeBootClock => "CLOCK_BOOTTIME returned a negative duration".to_owned(),
            ProbeError::BootClockOverflow => "CLOCK_BOOTTIME overflow".to_owned(),
        }
    }

    /// Says what failed.
    pub fn message(&self) -> (message: String)
        ensures
            message@ == probe_message(self@),
    {
        match self {
            ProbeError::InvalidBootId { boot_id } => {
                self.message_with(debug_text(boot_id.as_str()).as_str())
            },
            _ => self.message_with(""),
        }
    }
}

/// Checks that a text is a boot ID.
pub fn validate_boot_id(boot_id: &str) -> (checked: Result<(), ProbeError>)
    ensures
        match checked {
            Ok(()) => is_boot_id(boot_id@),
            Err(error) => !is_boot_id(boot_id@) && error@ == (ProbeErrorView::InvalidBootId {
                boot_id: boot_id@,
            }),
        },
{
    let length: usize = boot_id.unicode_len();
    if length != 36 {
        return Err(ProbeError::InvalidBootId { boot_id: boot_id.to_owned() });
    }
    let mut i: usize = 0;
    while i < length
        invariant
            i <= length,
            length == boot_id@.len(),
            forall|j: int| 0 <= j < i ==> is_boot_id_char(#[trigger] boot_id@[j]),
        decreases length - i,
    {
        let c: char = boot_id.get_char(i);
        let allowed: bool = ('0' <= c && c <= '9') || ('a' <= c && c <= 'f') || ('A' <= c && c <= 'F') || c == '-';
        if !allowed {
            assert(!is_boot_id_char(boot_id@[i as int]));
            return Err(ProbeError::InvalidBootId { boot_id: boot_id.to_owned() });
        }
        i += 1;
    }
    Ok(())
}

// ---------------------------------------------------------------------------
// The clocks
// ---------------------------------------------------------------------------

/// A reading of a kernel clock: whole seconds, and nanoseconds beyond them.
#[derive(Clone, Copy, Debug, PartialEq, Eq, Structural)]
pub struct ClockReading {
    pub seconds: i64,
    pub nanos: i64,
}

/// The whole milliseconds of a clock reading.
pub open spec fn reading_millis(reading: ClockReading) -> int {
    reading.seconds * 1_000 + reading.nanos as int / 1_000_000
}

/// The whole milliseconds that the boot clock shows, where it shows a time
/// after the boot and they fit.
pub fn boottime_millis(reading: ClockReading) -> (millis: Result<i64, ProbeError>)
    ensures
        match millis {
            Ok(millis) => reading.seconds >= 0 && reading.nanos >= 0 && millis == reading_millis(reading),
            Err(error) => {
                ||| error is NegativeBootClock && (reading.seconds < 0 || reading.nanos < 0)
                ||| error is BootClockOverflow && reading.seconds >= 0 && reading.nanos >= 0
                    && reading_millis(reading) > i64::MAX
            },
        },
{
    if reading.seconds < 0 || reading.nanos < 0 {
        return Err(ProbeError::NegativeBootClock);
    }
    match reading.seconds.checked_mul(1_000) {
        Some(millis) => match millis.checked_add(reading.nanos / 1_000_000) {
            Some(millis) => Ok(millis),
            None => Err(ProbeError::BootClockOverflow),
        },
        None => Err(ProbeError::BootClockOverflow),
    }
}

/// The milliseconds since the Unix epoch as a timestamp, where they fit.
pub fn wall_clock_millis(since_epoch_ms: u128) -> (millis: Result<i64, ProbeError>)
    ensures
        match millis {
            Ok(millis) => millis == since_epoch_ms,
            Err(error) => since_epoch_ms > i64::MAX && error is WallClockOverflow,
        },
{
    match fit_i64(since_epoch_ms) {
        Some(millis) => Ok(millis),
        None => Err(ProbeError::WallClockOverflow),
    }
}

// ---------------------------------------------------------------------------
// Probing
// ---------------------------------------------------------------------------

/// Something that samples a running system.
pub trait SystemProbe {
    fn sample(&self) -> (sample: Result<SystemSample, ProbeError>);
}

/// What was read from the running kernel: the text of its boot ID, the
/// milliseconds that the wall clock counts since the Unix epoch, and the boot
/// clock; or, for each, why it could not be read.
#[derive(Debug)]
pub struct RealSystemProbe {
    pub boot_id_text: Result<String, String>,
    pub since_epoch_ms: Result<u128, String>,
    pub boottime: Result<ClockReading, String>,
}

/// What a probe gives for a boot ID that could be read, once it is trimmed.
pub open spec fn probed_clocks(probe: RealSystemProbe, boot_id: Seq<char>) -> Result<SampleView, ProbeErrorView> {
    if !is_boot_id(boot_id) {
        Err(ProbeErrorView::InvalidBootId { boot_id })
    } else {
        match probe.since_epoch_ms {
            Err(cause) => Err(ProbeErrorView::BeforeEpoch { cause: cause@ }),
            Ok(since_epoch_ms) => if since_epoch_ms > i64::MAX {
                Err(ProbeErrorView::WallClockOverflow)
            } else {
                match probe.boottime {
                    Err(cause) => Err(ProbeErrorView::BootClockFailed { cause: cause@ }),
                    Ok(reading) => if reading.seconds < 0 || reading.nanos < 0 {
                        Err(ProbeErrorView::NegativeBootClock)
                    } else if reading_millis(reading) > i64::MAX {
                        Err(ProbeErrorView::BootClockOverflow)
                    } else {
                        Ok(sample_of(boot_id, since_epoch_ms as i64, reading_millis(reading) as i64))
                    },
                }
            },
        }
    }
}

/// Whether a sample, or a failure, is what a probe gives: the first reading
/// that fails decides, and the boot ID is taken without the white space around
/// it.
pub open spec fn is_probed(probe: RealSystemProbe, probed: Result<SampleView, ProbeErrorView>) -> bool {
    match probe.boot_id_text {
        Err(cause) => probed == Err::<SampleView, _>(ProbeErrorView::UnreadableBootId { cause: cause@ }),
        Ok(text) => exists|boot_id: Seq<char>| #[trigger]
            is_trimmed(text@, boot_id) && probed == probed_clocks(probe, boot_id),
    }
}

/// The outcome of a probe as characters.
pub open spec fn probed_view(probed: Result<SystemSample, ProbeError>) -> Result<SampleView, ProbeErrorView> {
    match probed {
        Ok(sample) => Ok(sample@),
        Err(error) => Err(error@),
    }
}

impl SystemProbe for RealSystemProbe {
    fn sample(&self) -> (sample: Result<SystemSample, ProbeError>)
        ensures
            is_probed(*self, probed_view(sample)),
    {
        let boot_id: String = match &self.boot_id_text {
            Ok(text) => trim_text(text.as_str()),
            Err(cause) => {
                return Err(ProbeError::UnreadableBootId { cause: cause.clone() });
            },
        };
        match validate_boot_id(boot_id.as_str()) {
            Ok(()) => {},
            Err(error) => {
                return Err(error);
            },
        }
        let observed_at_ms: i64 = match &self.since_epoch_ms {
            Ok(since_epoch_ms) => match wall_clock_millis(*since_epoch_ms) {
                Ok(millis) => millis,
                Err(error) => {
                    return Err(error);
                },
            },
            Err(cause) => {
                return Err(ProbeError::BeforeEpoch { cause: cause.clone() });
            },
        };
        let boottime_ms: i64 = match &self.boottime {
            Ok(reading) => match boottime_millis(*reading) {
                Ok(millis) => millis,
                Err(error) => {
                    return Err(error);
                },
            },
            Err(cause) => {
                return Err(ProbeError::BootClockFailed { cause: cause.clone() });
            },
        };
        Ok(SystemSample::new(boot_id.as_str(), observed_at_ms, boottime_ms))
    }
}

/// A probe has one outcome.
pub proof fn law_probe_is_unique(
    probe: RealSystemProbe,
    left: Result<SampleView, ProbeErrorView>,
    right: Result<SampleView, ProbeErrorView>,
)
    requires
        is_probed(probe, left),
        is_probed(probe, right),
    ensures
        left == right,
{
    if let Ok(text) = probe.boot_id_text {
        let one = choose|boot_id: Seq<char>| #[trigger]
            is_trimmed(text@, boot_id) && left == probed_clocks(probe, boot_id);
        let other = choose|boot_id: Seq<char>| #[trigger]
            is_trimmed(text@, boot_id) && right == probed_clocks(probe, boot_id);
        law_trimmed_is_unique(text@, one, other);
    }
}

/// A sample that was probed has a valid boot ID, without a colon, and clocks
/// that do not run below zero.
pub proof fn law_probed_samples_are_sound(probe: RealSystemProbe, sample: SampleView)
    requires
        is_probed(probe, Ok(sample)),
    ensures
        is_boot_id(sample.boot_id),
        !has_colon(sample.boot_id),
        sample.observed_at_ms >= 0,
        sample.boottime_ms >= 0,
        sample.boot_started_at_ms == sample.observed_at_ms - sample.boottime_ms,
{
}

/// The characters of a boot ID are the hexadecimal digits of either case and
/// the hyphen, and there are 36 of them.
pub proof fn law_boot_id_alphabet(text: Seq<char>)
    ensures
        is_boot_id(text) <==> text.len() == 36 && forall|i: int|
            0 <= i < text.len() ==> "0123456789abcdefABCDEF-"@.contains(#[trigger] text[i]),
{
    reveal_strlit("0123456789abcdefABCDEF-");
    let alphabet = "0123456789abcdefABCDEF-"@;
    assert forall|c: char| is_boot_id_char(c) == #[trigger] alphabet.contains(c) by {
        if is_boot_id_char(c) {
            let place = if '0' <= c <= '9' {
                c as int - '0' as int
            } else if 'a' <= c <= 'f' {
                10 + c as int - 'a' as int
            } else if 'A' <= c <= 'F' {
                16 + c as int - 'A' as int
            } else {
                22
            };
            assert(alphabet[place] == c);
        }
    }
}

/// The milliseconds of a clock reading are those that are over: no later than
/// the reading, and less than a millisecond earlier.
pub proof fn law_reading_is_cut_to_milliseconds(reading: ClockReading)
    ensures
        ({
            let shown = reading.seconds * 1_000_000_000 + reading.nanos;
            reading_millis(reading) * 1_000_000 <= shown < (reading_millis(reading) + 1) * 1_000_000
        }),
{
}

/// A probe fails at the first reading that fails, in the order boot ID, wall
/// clock, boot clock, and says which; a probe whose readings are all good
/// gives the sample of the boot ID without white space around it, at the time
/// of the wall clock, with the boot clock as uptime.
pub proof fn law_first_failed_reading_decides(
    probe: RealSystemProbe,
    boot_id: Seq<char>,
    probed: Result<SampleView, ProbeErrorView>,
)
    requires
        is_probed(probe, probed),
        probe.boot_id_text matches Ok(text) ==> is_trimmed(text@, boot_id),
    ensures
        match (probe.boot_id_text, probe.since_epoch_ms, probe.boottime) {
            (Err(cause), _, _) => probed == Err::<SampleView, _>(
                ProbeErrorView::UnreadableBootId { cause: cause@ },
            ),
            (Ok(_), wall, boot) => if !is_boot_id(boot_id) {
                probed == Err::<SampleView, _>(ProbeErrorView::InvalidBootId { boot_id })
            } else {
                match (wall, boot) {
                    (Err(cause), _) => probed == Err::<SampleView, _>(
                        ProbeErrorView::BeforeEpoch { cause: cause@ },
                    ),
                    (Ok(millis), _) if millis > i64::MAX => probed == Err::<SampleView, _>(
                        ProbeErrorView::WallClockOverflow,
                    ),
                    (Ok(_), Err(cause)) => probed == Err::<SampleView, _>(
                        ProbeErrorView::BootClockFailed { cause: cause@ },
                    ),
                    (Ok(_), Ok(reading)) if reading.seconds < 0 || reading.nanos < 0 => probed
                        == Err::<SampleView, _>(ProbeErrorView::NegativeBootClock),
                    (Ok(_), Ok(reading)) if reading_millis(reading) > i64::MAX => probed
                        == Err::<SampleView, _>(ProbeErrorView::BootClockOverflow),
                    (Ok(millis), Ok(reading)) => {
                        &&& probed matches Ok(sample)
                        &&& sample.boot_id == boot_id
                        &&& sample.observed_at_ms == millis
                        &&& sample.boottime_ms == reading_millis(reading)
                        &&& sample.boot_started_at_ms == millis - reading_millis(reading)
                    },
                }
            },
        },
{
    if let Ok(text) = probe.boot_id_text {
        let trimmed = choose|trimmed: Seq<char>| #[trigger]
            is_trimmed(text@, trimmed) && probed == probed_clocks(probe, trimmed);
        law_trimmed_is_unique(text@, trimmed, boot_id);
    }
}

/// A failed probe says what failed first and then why, where there is a cause
/// or a boot ID to show.
pub proof fn law_probe_messages_show_the_cause(cause: Seq<char>, boot_id: Seq<char>, quoted: Seq<char>)
    ensures
        ({
            let message = probe_message(ProbeErrorView::UnreadableBootId { cause });
            &&& "failed to read /proc/sys/kernel/random/boot_id: "@.is_prefix_of(message)
            &&& cause.is_suffix_of(message)
            &&& message.len() == "failed to read /proc/sys/kernel/random/boot_id: "@.len() + cause.len()
        }),
        ({
            let message = probe_message(ProbeErrorView::BeforeEpoch { cause });
            &&& "system clock is earlier than the Unix epoch: "@.is_prefix_of(message)
            &&& cause.is_suffix_of(message)
            &&& message.len() == "system clock is earlier than the Unix epoch: "@.len() + cause.len()
        }),
        ({
            let message = probe_message(ProbeErrorView::BootClockFailed { cause });
            &&& "CLOCK_BOOTTIME failed: "@.is_prefix_of(message)
            &&& cause.is_suffix_of(message)
            &&& message.len() == "CLOCK_BOOTTIME failed: "@.len() + cause.len()
        }),
        ({
            let message = probe_message_with(ProbeErrorView::InvalidBootId { boot_id }, quoted);
            &&& "kernel returned an invalid boot ID: "@.is_prefix_of(message)
            &&& quoted.is_suffix_of(message)
            &&& message.len() == "kernel returned an invalid boot ID: "@.len() + quoted.len()
        }),
        probe_message(ProbeErrorView::InvalidBootId { boot_id }) == probe_message_with(
            ProbeErrorView::InvalidBootId { boot_id },
            debug_form(boot_id),
        ),
{
}

/// White space at the ends of a text makes no difference to what is left of
/// it, and a text without any there is left as it is.
pub proof fn law_trimming_ignores_the_ends(text: Seq<char>, inner: Seq<char>, space: char)
    requires
        space == ' ' || space == '\t' || space == '\n' || space == '\r',
        is_trimmed(text, inner),
    ensures
        is_trimmed(text.push(space), inner),
        is_trimmed(seq![space] + text, inner),
        inner.len() > 0 ==> inner.first() != space && inner.last() != space,
        is_trimmed(inner, inner),
{
    let (from, to) = choose|from: int, to: int|
        {
            &&& 0 <= from <= to <= text.len()
            &&& inner == #[trigger] text.subrange(from, to)
            &&& forall|i: int| 0 <= i < from ==> is_space(#[trigger] text[i])
            &&& forall|i: int| to <= i < text.len() ==> is_space(#[trigger] text[i])
        };
    let longer = text.push(space);
    assert(inner =~= longer.subrange(from, to));
    let later = seq![space] + text;
    assert(inner =~= later.subrange(from + 1, to + 1));
    assert forall|i: int| 0 <= i < from + 1 implies is_space(#[trigger] later[i]) by {
        if i > 0 {
            assert(later[i] == text[i - 1]);
        }
    }
    assert forall|i: int| to + 1 <= i < later.len() implies is_space(#[trigger] later[i]) by {
        assert(later[i] == text[i - 1]);
    }
    assert(inner =~= inner.subrange(0, inner.len() as int));
}

} // verus!
