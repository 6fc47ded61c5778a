//! Recording decisions that do not touch the device: how a session is set
//! up, durations, the silence auto-stop, silence trimming bounds, and how a finished recording
//! is classified. Chunk loudness is measured by the capture code (a float
//! RMS) and arrives here as a `ChunkLevel`.
use vstd::prelude::*;

use crate::error::CommandError;
use crate::text::{chars_of, decimal, decimal_of, eq_chars, push_all, push_str, string_from_chars, views};

verus! {

/// Audio kept on each side of detected speech when trimming silence.
pub const TRIM_PADDING_MS: u64 = 300;

/// RMS analysis window for silence trimming.
pub const TRIM_WINDOW_MS: u64 = 20;

/// A test clip records this long unless asked otherwise.
pub const DEFAULT_TEST_CLIP_MS: u64 = 3000;

#[derive(Debug, Clone)]
pub struct MicrophoneInfo {
    pub id: String,
    pub name: String,
    pub endpoint_id: Option<String>,
    pub is_default: bool,
    pub is_selected: bool,
    pub is_available: bool,
}

#[derive(Debug, Clone, Default)]
pub struct StartRecordingRequest {
    pub microphone_id: Option<String>,
    pub max_duration_ms: Option<u64>,
    /// Note-taking dictation: saved as a note, never auto-pasted.
    pub is_note: bool,
    /// The recording is a spoken instruction for the selected-text transform.
    pub is_transform: bool,
}

#[derive(Debug, Clone, Copy, PartialEq, Eq, Structural)]
pub enum RecordingResultStatus {
    Completed,
    TooShort,
    Cancelled,
    TimedOut,
}

#[derive(Debug, Clone)]
pub struct RecordingErrorEvent {
    pub code: String,
    pub message: String,
}

/// Why capture ended.
#[derive(Debug, Clone, Copy, PartialEq, Eq, Structural)]
pub enum StopReason {
    Completed,
    Cancelled,
    Timeout,
    Disconnected,
}

/// The loudness class of one chunk of samples.
#[derive(Debug, Clone, Copy, PartialEq, Eq, Structural)]
pub enum ChunkLevel {
    /// Below the silence threshold.
    Silence,
    /// Not silent, but below the speech threshold.
    Sound,
    /// At or above the speech threshold.
    Speech,
}

/// Milliseconds covered by `sample_count` samples at `sample_rate` (0 for a
/// zero rate), rounded down, and wrapped to 64 bits as the `u64` conversion
/// of the 128-bit quotient does.
pub open spec fn duration_of(sample_count: nat, sample_rate: nat) -> int {
    if sample_rate == 0 {
        0
    } else {
        (((sample_count * 1000) / sample_rate) % 0x1_0000_0000_0000_0000) as int
    }
}

pub fn duration_ms(sample_count: usize, sample_rate: u32) -> (r: u64)
    ensures
        r == duration_of(sample_count as nat, sample_rate as nat),
{
    if sample_rate == 0 {
        return 0;
    }
    let total: u128 = sample_count as u128 * 1000;
    let d: u128 = total / (sample_rate as u128);
    let wrapped: u128 = d % 0x1_0000_0000_0000_0000u128;
    wrapped as u64
}

/// Stops a toggle-style dictation after `auto_stop_after_ms` of continuous
/// silence, but only once speech has been heard, and only once.
#[derive(Debug, Clone, Copy)]
pub struct SilenceAutoStop {
    pub auto_stop_after_ms: Option<u64>,
    pub sample_rate: u32,
    pub speech_detected: bool,
    pub silence_samples: usize,
    pub triggered: bool,
}

impl SilenceAutoStop {
    pub fn new(auto_stop_after_ms: Option<u64>, sample_rate: u32) -> (s: Self)
        ensures
            s.auto_stop_after_ms == auto_stop_after_ms,
            s.sample_rate == sample_rate,
            !s.speech_detected,
            s.silence_samples == 0,
            !s.triggered,
    {
        SilenceAutoStop {
            auto_stop_after_ms,
            sample_rate,
            speech_detected: false,
            silence_samples: 0,
            triggered: false,
        }
    }

    /// Feeds one chunk of `len` samples. Returns `true` exactly when this
    /// chunk triggers the stop: a silent chunk after speech that brings the
    /// continuous silence to the limit.
    pub fn observe(&mut self, len: usize, level: ChunkLevel) -> (stop: bool)
        requires
            old(self).silence_samples + len <= usize::MAX,
        ensures
            stop == (old(self).auto_stop_after_ms is Some && !old(self).triggered && len > 0
                && level == ChunkLevel::Silence && old(self).speech_detected && duration_of(
                (old(self).silence_samples + len) as nat,
                old(self).sample_rate as nat,
            ) >= old(self).auto_stop_after_ms->0),
            final(self).triggered == (old(self).triggered || stop),
            final(self).auto_stop_after_ms == old(self).auto_stop_after_ms,
            final(self).sample_rate == old(self).sample_rate,
            final(self).speech_detected == (old(self).speech_detected || (old(
                self,
            ).auto_stop_after_ms is Some && !old(self).triggered && len > 0 && level
                == ChunkLevel::Speech)),
    {
        let limit_ms = match self.auto_stop_after_ms {
            Some(limit) => limit,
            None => return false,
        };
        if self.triggered || len == 0 {
            return false;
        }
        match level {
            ChunkLevel::Speech => {
                self.speech_detected = true;
                self.silence_samples = 0;
                false
            },
            ChunkLevel::Sound => {
                self.silence_samples = 0;
                false
            },
            ChunkLevel::Silence => {
                if !self.speech_detected {
                    return false;
                }
                self.silence_samples = self.silence_samples + len;
                if duration_ms(self.silence_samples, self.sample_rate) < limit_ms {
                    return false;
                }
                self.triggered = true;
                true
            },
        }
    }
}

/// Once the auto-stop has fired it never fires again, and it never fires
/// before speech was heard.
pub proof fn lemma_auto_stop_fires_once(before: SilenceAutoStop, after: SilenceAutoStop, len: usize, level: ChunkLevel, stop: bool)
    requires
        stop == (before.auto_stop_after_ms is Some && !before.triggered && len > 0 && level
            == ChunkLevel::Silence && before.speech_detected && duration_of(
            (before.silence_samples + len) as nat,
            before.sample_rate as nat,
        ) >= before.auto_stop_after_ms->0),
        after.triggered == (before.triggered || stop),
    ensures
        before.triggered ==> !stop && after.triggered,
        stop ==> before.speech_detected && level == ChunkLevel::Silence,
{
}

/// Samples per trimming window at `sample_rate` (at least one).
pub open spec fn trim_window_of(sample_rate: nat) -> nat {
    let w = sample_rate * TRIM_WINDOW_MS / 1000;
    if w >= 1 {
        w as nat
    } else {
        1
    }
}

pub fn trim_window_len(sample_rate: u32) -> (r: usize)
    ensures
        r == trim_window_of(sample_rate as nat),
        r >= 1,
{
    let w: u64 = (sample_rate as u64) * 20 / 1000;
    assert(w <= 0xffff_ffff) by (nonlinear_arith)
        requires
            w == (sample_rate as u64) * 20 / 1000,
            sample_rate <= 0xffff_ffff,
    ;
    if w >= 1 {
        w as usize
    } else {
        1
    }
}

/// Index of the first loud window.
pub open spec fn first_loud(loud: Seq<bool>) -> Option<int>
    decreases loud.len(),
{
    if loud.len() == 0 {
        None
    } else {
        match first_loud(loud.drop_last()) {
            Some(i) => Some(i),
            None => if loud.last() {
                Some(loud.len() - 1)
            } else {
                None
            },
        }
    }
}

/// Index of the last loud window.
pub open spec fn last_loud(loud: Seq<bool>) -> Option<int>
    decreases loud.len(),
{
    if loud.len() == 0 {
        None
    } else if loud.last() {
        Some(loud.len() - 1)
    } else {
        last_loud(loud.drop_last())
    }
}

pub open spec fn min_int(a: int, b: int) -> int {
    if a <= b {
        a
    } else {
        b
    }
}

/// The kept range `[start, end)` of a recording of `total` samples cut into
/// windows of `window` samples, given which windows are loud: `padding`
/// samples around the loud span, clipped to the recording. All-silent audio
/// is kept whole.
pub open spec fn trim_range(loud: Seq<bool>, window: nat, total: nat, padding: nat) -> (int, int) {
    match first_loud(loud) {
        None => (0, total as int),
        Some(f) => {
            let l = last_loud(loud)->0;
            let loud_end = min_int(l * window + window, total as int);
            let start = if f * window >= padding {
                f * window - padding
            } else {
                0
            };
            (start, min_int(loud_end + padding, total as int))
        },
    }
}

pub proof fn lemma_first_loud_prefix(loud: Seq<bool>, k: int)
    requires
        0 <= k <= loud.len(),
        first_loud(loud.take(k)) is Some,
    ensures
        first_loud(loud) == first_loud(loud.take(k)),
    decreases loud.len() - k,
{
    if k < loud.len() {
        assert(loud.take(k + 1).drop_last() == loud.take(k));
        lemma_first_loud_prefix(loud, k + 1);
    } else {
        assert(loud.take(k) == loud);
    }
}

pub proof fn lemma_loud_bounds(loud: Seq<bool>)
    ensures
        first_loud(loud) matches Some(f) ==> 0 <= f < loud.len() && (last_loud(loud) matches Some(
            l,
        ) && f <= l < loud.len()),
        first_loud(loud) is None ==> last_loud(loud) is None,
    decreases loud.len(),
{
    if loud.len() > 0 {
        lemma_loud_bounds(loud.drop_last());
    }
}

proof fn lemma_loud_window_between(loud: Seq<bool>, i: int)
    requires
        0 <= i < loud.len(),
        loud[i],
    ensures
        first_loud(loud) matches Some(f) && f <= i,
        last_loud(loud) matches Some(l) && i <= l,
    decreases loud.len(),
{
    if i < loud.len() - 1 {
        lemma_loud_window_between(loud.drop_last(), i);
        assert(loud.drop_last()[i] == loud[i]);
    } else {
        lemma_loud_bounds(loud.drop_last());
    }
    if i < loud.len() - 1 {
        assert(loud.drop_last()[i] == loud[i]);
    }
}

/// Trimming removes only leading and trailing silence: every loud window
/// lies inside the kept range, whatever silence separates the loud windows.
pub proof fn law_trim_keeps_every_loud_window(loud: Seq<bool>, window: nat, total: nat, padding: nat, i: int)
    requires
        window >= 1,
        0 <= i < loud.len(),
        loud[i],
    ensures
        trim_range(loud, window, total, padding).0 <= i * window,
        min_int(i * window + window, total as int) <= trim_range(loud, window, total, padding).1,
{
    lemma_loud_window_between(loud, i);
    let f = first_loud(loud)->0;
    let l = last_loud(loud)->0;
    assert(f * window <= i * window) by (nonlinear_arith)
        requires
            f <= i,
            window >= 1,
    ;
    assert(i * window <= l * window) by (nonlinear_arith)
        requires
            i <= l,
            window >= 1,
    ;
}

proof fn lemma_found_windows_are_loud(loud: Seq<bool>)
    ensures
        first_loud(loud) matches Some(f) ==> 0 <= f < loud.len() && loud[f],
        last_loud(loud) matches Some(l) ==> 0 <= l < loud.len() && loud[l],
    decreases loud.len(),
{
    if loud.len() > 0 {
        lemma_found_windows_are_loud(loud.drop_last());
    }
}

/// Trimming keeps no more than `padding` samples of silence on either side
/// of the loud span: the kept range starts at most `padding` before some
/// loud window and ends at most `padding` after the end of some loud window;
/// all-silent audio is kept whole.
pub proof fn law_trim_keeps_only_padding_around_speech(loud: Seq<bool>, window: nat, total: nat, padding: nat)
    ensures
        (forall|i: int| 0 <= i < loud.len() ==> !#[trigger] loud[i]) ==> trim_range(loud, window, total, padding)
            == (0int, total as int),
        (exists|i: int| 0 <= i < loud.len() && #[trigger] loud[i]) ==> {
            &&& exists|i: int|
                0 <= i < loud.len() && #[trigger] loud[i] && trim_range(loud, window, total, padding).0 + padding
                    >= i * window
            &&& exists|j: int|
                0 <= j < loud.len() && #[trigger] loud[j] && trim_range(loud, window, total, padding).1 <= min_int(
                    j * window + window,
                    total as int,
                ) + padding
        },
{
    lemma_found_windows_are_loud(loud);
    if exists|i: int| 0 <= i < loud.len() && #[trigger] loud[i] {
        let i = choose|i: int| 0 <= i < loud.len() && #[trigger] loud[i];
        lemma_loud_window_between(loud, i);
        let f = first_loud(loud)->0;
        let l = last_loud(loud)->0;
        assert(loud[f] && loud[l]);
    } else {
        if first_loud(loud) is Some {
            let f = first_loud(loud)->0;
            assert(loud[f]);
        }
    }
}

/// The samples `[start, end)` that silence trimming keeps. `loud[i]` says
/// whether window `i` (the last one may be short) reached the silence
/// threshold. Disabled trimming, empty audio or a zero rate keep everything.
pub fn silence_trim_bounds(
    loud: &Vec<bool>,
    total: usize,
    sample_rate: u32,
    enabled: bool,
) -> (r: (usize, usize))
    requires
        loud.len() * trim_window_of(sample_rate as nat) >= total,
        loud.len() > 0 ==> (loud.len() - 1) * trim_window_of(sample_rate as nat) < total,
    ensures
        !enabled || total == 0 || sample_rate == 0 ==> r == (0usize, total),
        enabled && total > 0 && sample_rate > 0 ==> (r.0 as int, r.1 as int) == trim_range(
            loud@,
            trim_window_of(sample_rate as nat),
            total as nat,
            (sample_rate as nat * TRIM_PADDING_MS / 1000) as nat,
        ),
        r.0 <= r.1 <= total,
        forall|i: int|
            0 <= i < loud.len() && #[trigger] loud@[i] ==> r.0 <= i * trim_window_of(sample_rate as nat) && min_int(
                i * trim_window_of(sample_rate as nat) + trim_window_of(sample_rate as nat),
                total as int,
            ) <= r.1,
{
    let ghost w = trim_window_of(sample_rate as nat);
    proof {
        assert forall|i: int| 0 <= i < loud.len() && #[trigger] loud@[i] implies trim_range(
            loud@,
            w,
            total as nat,
            (sample_rate as nat * TRIM_PADDING_MS / 1000) as nat,
        ).0 <= i * w && min_int(i * w + w, total as int) <= trim_range(
            loud@,
            w,
            total as nat,
            (sample_rate as nat * TRIM_PADDING_MS / 1000) as nat,
        ).1 by {
            law_trim_keeps_every_loud_window(loud@, w, total as nat, (sample_rate as nat * TRIM_PADDING_MS / 1000) as nat, i);
        }
        assert forall|i: int| 0 <= i < loud.len() && #[trigger] loud@[i] implies 0 <= i * w by {
            assert(0 <= i * w) by (nonlinear_arith)
                requires
                    0 <= i,
                    w >= 1,
            ;
        }
    }
    if !enabled || total == 0 || sample_rate == 0 {
        return (0, total);
    }
    let window = trim_window_len(sample_rate);
    let padding: u64 = (sample_rate as u64) * 300 / 1000;
    assert(padding <= 0xffff_ffff) by (nonlinear_arith)
        requires
            padding == (sample_rate as u64) * 300 / 1000,
            sample_rate <= 0xffff_ffff,
    ;
    let padding: usize = padding as usize;
    let mut first: Option<usize> = None;
    let mut i: usize = 0;
    while i < loud.len()
        invariant
            i <= loud.len(),
            first matches Some(f) ==> first_loud(loud@) == Some(f as int),
            first is None ==> first_loud(loud@.take(i as int)) is None,
        decreases loud.len() - i,
    {
        if first.is_none() {
            assert(loud@.take(i as int + 1).drop_last() == loud@.take(i as int));
            if loud[i] {
                proof {
                    lemma_first_loud_prefix(loud@, i as int + 1);
                }
                first = Some(i);
            }
        }
        i = i + 1;
    }
    proof {
        if first is None {
            assert(loud@.take(loud.len() as int) == loud@);
        }
        lemma_loud_bounds(loud@);
    }
    let f = match first {
        None => return (0, total),
        Some(f) => f,
    };
    let mut j: usize = loud.len();
    assert(loud@.take(j as int) == loud@);
    while j > 0 && !loud[j - 1]
        invariant
            j <= loud.len(),
            last_loud(loud@) == last_loud(loud@.take(j as int)),
        decreases j,
    {
        assert(loud@.take(j as int).drop_last() == loud@.take(j as int - 1));
        j = j - 1;
    }
    assert(j > 0) by {
        if j == 0 {
            assert(loud@.take(0) =~= Seq::<bool>::empty());
        }
    }
    assert(loud@.take(j as int).drop_last() == loud@.take(j as int - 1));
    let l = j - 1;
    assert(last_loud(loud@) == Some(l as int));
    let ghost w = window as int;
    assert(f * w <= l * w) by (nonlinear_arith)
        requires
            f <= l,
            w >= 1,
    ;
    assert(l * w < total) by (nonlinear_arith)
        requires
            l <= loud.len() - 1,
            (loud.len() - 1) * w < total,
            w >= 1,
    ;
    let window_start = f * window;
    let last_start = l * window;
    let loud_end = if window <= total - last_start {
        last_start + window
    } else {
        total
    };
    let start = if window_start >= padding {
        window_start - padding
    } else {
        0
    };
    let end = if padding <= total && loud_end <= total - padding {
        loud_end + padding
    } else {
        total
    };
    (start, end)
}

/// How a finished recording is reported: cancelled, too short (with the
/// minimum in the reason), timed out, or completed.
pub fn classify_recording(stop_reason: StopReason, duration_ms: u64, min_recording_ms: u64) -> (r:
    (RecordingResultStatus, Option<String>))
    ensures
        stop_reason == StopReason::Cancelled ==> r.0 == RecordingResultStatus::Cancelled && (r.1 matches Some(m)
            && m@ == "Recording was cancelled."@),
        stop_reason != StopReason::Cancelled && duration_ms < min_recording_ms ==> r.0
            == RecordingResultStatus::TooShort && (r.1 matches Some(m) && m@
            == "Recording was shorter than the "@ + decimal_of(min_recording_ms as nat)
            + " ms minimum."@),
        stop_reason != StopReason::Cancelled && duration_ms >= min_recording_ms ==> r.1 is None
            && r.0 == if stop_reason == StopReason::Timeout {
            RecordingResultStatus::TimedOut
        } else {
            RecordingResultStatus::Completed
        },
{
    if stop_reason == StopReason::Cancelled {
        return (RecordingResultStatus::Cancelled, Some("Recording was cancelled.".to_string()));
    }
    if duration_ms < min_recording_ms {
        let mut m = chars_of("Recording was shorter than the ");
        push_all(&mut m, &decimal(min_recording_ms));
        push_str(&mut m, " ms minimum.");
        return (RecordingResultStatus::TooShort, Some(string_from_chars(&m)));
    }
    if stop_reason == StopReason::Timeout {
        (RecordingResultStatus::TimedOut, None)
    } else {
        (RecordingResultStatus::Completed, None)
    }
}

/// A test clip's length: the request or the default, clamped to the
/// configured recording bounds.
pub fn test_clip_duration(requested: Option<u64>, min_recording_ms: u32, max_recording_ms: u32) -> (r:
    u64)
    requires
        min_recording_ms <= max_recording_ms,
    ensures
        min_recording_ms <= r <= max_recording_ms,
        ({
            let d = match requested {
                Some(d) => d,
                None => DEFAULT_TEST_CLIP_MS,
            };
            r == if d < min_recording_ms {
                min_recording_ms as u64
            } else if d > max_recording_ms {
                max_recording_ms as u64
            } else {
                d
            }
        }),
{
    let d = match requested {
        Some(d) => d,
        None => DEFAULT_TEST_CLIP_MS,
    };
    if d < min_recording_ms as u64 {
        min_recording_ms as u64
    } else if d > max_recording_ms as u64 {
        max_recording_ms as u64
    } else {
        d
    }
}

pub fn no_test_clip() -> (e: CommandError)
    ensures
        e.code@ == "no_test_clip"@,
        e.message@ == "No test clip is available yet. Record a test clip first."@,
{
    CommandError::new("no_test_clip", "No test clip is available yet. Record a test clip first.")
}

/// Id of a device that has no stable endpoint id: `cpal:<index>:<name>`.
pub fn fallback_microphone_id(index: usize, name: &str) -> (r: String)
    ensures
        r@ == "cpal:"@ + decimal_of(index as nat) + ":"@ + name@,
{
    let mut m = chars_of("cpal:");
    push_all(&mut m, &decimal(index as u64));
    push_str(&mut m, ":");
    push_str(&mut m, name);
    string_from_chars(&m)
}

/// The named microphone cannot be opened; `detail` is the device error.
pub fn microphone_unavailable(name: &str, detail: &str) -> (e: CommandError)
    ensures
        e.code@ == "microphone_unavailable"@,
        e.message@ == "Microphone '"@ + name@ + "' is unavailable. "@ + detail@,
{
    let mut m = chars_of("Microphone '");
    push_str(&mut m, name);
    push_str(&mut m, "' is unavailable. ");
    push_str(&mut m, detail);
    CommandError::from_parts("microphone_unavailable", string_from_chars(&m))
}

// --- the microphone list -------------------------------------------------------

/// A capture endpoint as Windows lists it: friendly name and endpoint id.
pub struct Endpoint {
    pub name: String,
    pub id: String,
}

pub open spec fn endpoint_views(eps: Seq<Endpoint>) -> Seq<(Seq<char>, Seq<char>)> {
    eps.map_values(|e: Endpoint| (e.name@, e.id@))
}

/// How many of `names` equal `name`.
pub open spec fn count_named(names: Seq<Seq<char>>, name: Seq<char>) -> nat
    decreases names.len(),
{
    if names.len() == 0 {
        0
    } else {
        count_named(names.drop_last(), name) + if names.last() == name {
            1nat
        } else {
            0nat
        }
    }
}

/// The id of the `k`-th endpoint (from 0) named `name`, in listing order.
pub open spec fn kth_endpoint(eps: Seq<(Seq<char>, Seq<char>)>, name: Seq<char>, k: nat) -> Option<Seq<char>>
    decreases eps.len(),
{
    if eps.len() == 0 {
        None
    } else if eps[0].0 == name {
        if k == 0 {
            Some(eps[0].1)
        } else {
            kth_endpoint(eps.drop_first(), name, (k - 1) as nat)
        }
    } else {
        kth_endpoint(eps.drop_first(), name, k)
    }
}

/// The name a device is shown under: its own, or "Microphone {n}" (from 1)
/// when it has none.
pub open spec fn device_name_of(name: Option<Seq<char>>, index: nat) -> Seq<char> {
    match name {
        Some(n) => n,
        None => "Microphone "@ + decimal_of(index + 1),
    }
}

pub open spec fn name_views(names: Seq<Option<String>>) -> Seq<Option<Seq<char>>> {
    names.map_values(|n: Option<String>| match n {
        Some(s) => Some(s@),
        None => None,
    })
}

/// The shown names of the first `i` devices.
pub open spec fn shown_names(names: Seq<Option<Seq<char>>>, i: int) -> Seq<Seq<char>> {
    Seq::new(i as nat, |j: int| device_name_of(names[j], j as nat))
}

/// The endpoint id of device `i`: two devices with one name take that
/// name's endpoints in listing order.
pub open spec fn endpoint_of_device(names: Seq<Option<Seq<char>>>, eps: Seq<(Seq<char>, Seq<char>)>, i: int) -> Option<Seq<char>> {
    let name = device_name_of(names[i], i as nat);
    kth_endpoint(eps, name, count_named(shown_names(names, i), name))
}

fn kth_endpoint_exec(eps: &Vec<Endpoint>, name: &Vec<char>, k: usize) -> (r: Option<String>)
    ensures
        match r {
            Some(id) => kth_endpoint(endpoint_views(eps@), name@, k as nat) == Some(id@),
            None => kth_endpoint(endpoint_views(eps@), name@, k as nat) is None,
        },
{
    let mut seen: usize = 0;
    let mut j: usize = 0;
    assert(endpoint_views(eps@).skip(0) == endpoint_views(eps@));
    while j < eps.len()
        invariant
            j <= eps.len(),
            seen <= k,
            kth_endpoint(endpoint_views(eps@), name@, k as nat) == kth_endpoint(
                endpoint_views(eps@).skip(j as int),
                name@,
                (k - seen) as nat,
            ),
        decreases eps.len() - j,
    {
        let ghost rest = endpoint_views(eps@).skip(j as int);
        assert(rest.drop_first() == endpoint_views(eps@).skip(j as int + 1));
        assert(rest[0] == (eps@[j as int].name@, eps@[j as int].id@));
        if eq_chars(&chars_of(eps[j].name.as_str()), name) {
            if seen == k {
                return Some(eps[j].id.clone());
            }
            seen = seen + 1;
        }
        j = j + 1;
    }
    assert(endpoint_views(eps@).skip(j as int).len() == 0);
    None
}

/// The microphones to offer: one per capture device, in the order the audio
/// host lists them (`names`, `None` for a device without a name). A device's
/// id is its Windows endpoint id when one is known, else a fallback id; it is
/// the default when its name is the default device's, and selected when the
/// selection names its id or its name.
pub fn microphone_list(
    names: &Vec<Option<String>>,
    default_name: Option<&str>,
    endpoints: &Vec<Endpoint>,
    selected: Option<&str>,
) -> (r: Vec<MicrophoneInfo>)
    ensures
        r.len() == names.len(),
        forall|i: int|
            0 <= i < r.len() ==> {
                let name = device_name_of(name_views(names@)[i], i as nat);
                let endpoint = endpoint_of_device(name_views(names@), endpoint_views(endpoints@), i);
                &&& (#[trigger] r@[i]).name@ == name
                &&& match r@[i].endpoint_id {
                    Some(e) => endpoint == Some(e@),
                    None => endpoint is None,
                }
                &&& r@[i].id@ == match endpoint {
                    Some(e) => e,
                    None => "cpal:"@ + decimal_of(i as nat) + ":"@ + name,
                }
                &&& r@[i].is_default == (default_name matches Some(d) && d@ == name)
                &&& r@[i].is_selected == (selected matches Some(s) && (s@ == r@[i].id@ || s@ == name))
                &&& r@[i].is_available
            },
{
    let ghost nv = name_views(names@);
    let mut shown: Vec<Vec<char>> = Vec::new();
    let mut out: Vec<MicrophoneInfo> = Vec::new();
    let mut i: usize = 0;
    while i < names.len()
        invariant
            i <= names.len(),
            nv == name_views(names@),
            out.len() == i,
            shown.len() == i,
            views(shown@) == shown_names(nv, i as int),
            forall|k: int|
                0 <= k < i ==> {
                    let name = device_name_of(nv[k], k as nat);
                    let endpoint = endpoint_of_device(nv, endpoint_views(endpoints@), k);
                    &&& (#[trigger] out@[k]).name@ == name
                    &&& match out@[k].endpoint_id {
                        Some(e) => endpoint == Some(e@),
                        None => endpoint is None,
                    }
                    &&& out@[k].id@ == match endpoint {
                        Some(e) => e,
                        None => "cpal:"@ + decimal_of(k as nat) + ":"@ + name,
                    }
                    &&& out@[k].is_default == (default_name matches Some(d) && d@ == name)
                    &&& out@[k].is_selected == (selected matches Some(s) && (s@ == out@[k].id@ || s@
                        == name))
                    &&& out@[k].is_available
                },
        decreases names.len() - i,
    {
        let name: Vec<char> = match &names[i] {
            Some(n) => chars_of(n.as_str()),
            None => {
                let mut m = chars_of("Microphone ");
                push_all(&mut m, &decimal(i as u64 + 1));
                m
            },
        };
        assert(name@ == device_name_of(nv[i as int], i as nat));
        let mut seen: usize = 0;
        let mut j: usize = 0;
        while j < i
            invariant
                j <= i,
                shown.len() == i,
                seen <= j,
                seen == count_named(views(shown@).take(j as int), name@),
            decreases i - j,
        {
            assert(views(shown@).take(j as int + 1).drop_last() == views(shown@).take(j as int));
            if eq_chars(&shown[j], &name) {
                seen = seen + 1;
            }
            j = j + 1;
        }
        assert(views(shown@).take(i as int) == views(shown@));
        let endpoint_id = kth_endpoint_exec(endpoints, &name, seen);
        let name_text = string_from_chars(&name);
        let id = match &endpoint_id {
            Some(e) => e.clone(),
            None => fallback_microphone_id(i, name_text.as_str()),
        };
        let is_default = match default_name {
            Some(d) => eq_chars(&chars_of(d), &name),
            None => false,
        };
        let is_selected = match selected {
            Some(s) => {
                let sv = chars_of(s);
                eq_chars(&sv, &chars_of(id.as_str())) || eq_chars(&sv, &name)
            },
            None => false,
        };
        out.push(
            MicrophoneInfo {
                id,
                name: name_text,
                endpoint_id,
                is_default,
                is_selected,
                is_available: true,
            },
        );
        let ghost before = shown@;
        shown.push(name);
        proof {
            assert forall|j: int| 0 <= j < i + 1 implies #[trigger] views(shown@)[j] == shown_names(
                nv,
                i as int + 1,
            )[j] by {
                if j < i {
                    assert(shown@[j] == before[j]);
                    assert(views(before)[j] == shown_names(nv, i as int)[j]);
                }
            }
            assert(views(shown@) =~= shown_names(nv, i as int + 1));
        }
        i = i + 1;
    }
    out
}

/// Which microphone to open: the one the selection names (by id or name),
/// else the default device, else the first one listed.
pub fn select_microphone(mics: &Vec<MicrophoneInfo>, selected: Option<&str>) -> (r: Result<usize, CommandError>)
    ensures
        match selected {
            Some(s) => match r {
                Ok(p) => p < mics.len() && (mics@[p as int].id@ == s@ || mics@[p as int].name@ == s@)
                    && forall|q: int| 0 <= q < p ==> !(mics@[q].id@ == s@ || mics@[q].name@ == s@),
                Err(e) => (forall|q: int|
                    0 <= q < mics.len() ==> !(mics@[q].id@ == s@ || mics@[q].name@ == s@))
                    && e.code@ == "microphone_unavailable"@ && e.message@
                    == "Selected microphone is not available: "@ + s@ + ". Choose another microphone."@,
            },
            None => match r {
                Ok(p) => p < mics.len() && ((mics@[p as int].is_default && forall|q: int|
                    0 <= q < p ==> !mics@[q].is_default) || (p == 0 && forall|q: int|
                    0 <= q < mics.len() ==> !mics@[q].is_default)),
                Err(e) => mics.len() == 0 && e.code@ == "no_microphone_selected"@ && e.message@
                    == "No microphone is available. Connect or enable a microphone, then try again."@,
            },
        },
{
    match selected {
        Some(s) => {
            let sv = chars_of(s);
            let mut p: usize = 0;
            while p < mics.len()
                invariant
                    p <= mics.len(),
                    selected == Some(s),
                    sv@ == s@,
                    forall|q: int| 0 <= q < p ==> !(mics@[q].id@ == s@ || mics@[q].name@ == s@),
                decreases mics.len() - p,
            {
                if eq_chars(&chars_of(mics[p].id.as_str()), &sv) || eq_chars(
                    &chars_of(mics[p].name.as_str()),
                    &sv,
                ) {
                    return Ok(p);
                }
                p = p + 1;
            }
            let mut m = chars_of("Selected microphone is not available: ");
            push_str(&mut m, s);
            push_str(&mut m, ". Choose another microphone.");
            Err(CommandError::from_parts("microphone_unavailable", string_from_chars(&m)))
        },
        None => {
            let mut p: usize = 0;
            while p < mics.len()
                invariant
                    p <= mics.len(),
                    selected is None,
                    forall|q: int| 0 <= q < p ==> !mics@[q].is_default,
                decreases mics.len() - p,
            {
                if mics[p].is_default {
                    return Ok(p);
                }
                p = p + 1;
            }
            if mics.len() > 0 {
                Ok(0)
            } else {
                Err(
                    CommandError::from_parts(
                        "no_microphone_selected",
                        "No microphone is available. Connect or enable a microphone, then try again.".to_string(),
                    ),
                )
            }
        },
    }
}


/// The recording settings a new session reads.
#[derive(Debug, Clone)]
pub struct SessionSettings {
    /// The microphone chosen in settings, if any.
    pub selected_mic_id: Option<String>,
    pub min_recording_ms: u32,
    pub max_recording_ms: u32,
    pub silence_auto_stop_enabled: bool,
    pub silence_auto_stop_ms: u32,
    pub incremental_transcription_enabled: bool,
    pub segment_pause_enabled: bool,
    pub segment_pause_ms: u32,
    pub segment_max_ms: u32,
}

/// How a new recording session is set up, decided before any device is
/// opened: its length cap, whether it is a note or a transform instruction,
/// the silence auto-stop, and the incremental segmenting.
#[derive(Debug, Clone, PartialEq, Eq)]
pub struct SessionPlan {
    /// The microphone to open: the request's when it names one, else the
    /// one in settings, else the system default (`None`).
    pub microphone_id: Option<String>,
    pub max_duration_ms: u64,
    pub is_note: bool,
    pub is_transform: bool,
    /// Stop after this much trailing silence; `None` never auto-stops.
    pub auto_stop_after_ms: Option<u64>,
    /// Whether segments are transcribed while recording.
    pub incremental: bool,
    /// The pause that ends a segment; `None` cuts at the length cap only.
    pub segment_pause_ms: Option<u64>,
    pub segment_max_ms: u64,
}

/// The plan of a session started by `request`. The request's microphone
/// wins over the one in settings. The length cap is the
/// request's or the configured maximum, never below the configured minimum.
/// A test clip is never a note or a transform, never auto-stopped and never
/// transcribed incrementally; silence auto-stop applies only to starts that
/// allow it (toggle-style) and when the setting is on.
pub fn session_plan(
    request: &StartRecordingRequest,
    settings: &SessionSettings,
    is_test_clip: bool,
    allow_auto_stop: bool,
) -> (p: SessionPlan)
    ensures
        p.microphone_id == match request.microphone_id {
            Some(m) => Some(m),
            None => settings.selected_mic_id,
        },
        ({
            let asked = match request.max_duration_ms {
                Some(d) => d,
                None => settings.max_recording_ms as u64,
            };
            p.max_duration_ms == if asked < settings.min_recording_ms {
                settings.min_recording_ms as u64
            } else {
                asked
            }
        }),
        p.max_duration_ms >= settings.min_recording_ms,
        p.is_note == (request.is_note && !is_test_clip),
        p.is_transform == (request.is_transform && !is_test_clip),
        p.auto_stop_after_ms == if allow_auto_stop && !is_test_clip && settings.silence_auto_stop_enabled {
            Some(settings.silence_auto_stop_ms as u64)
        } else {
            None::<u64>
        },
        p.incremental == (!is_test_clip && settings.incremental_transcription_enabled),
        p.segment_pause_ms == if settings.segment_pause_enabled {
            Some(settings.segment_pause_ms as u64)
        } else {
            None::<u64>
        },
        p.segment_max_ms == settings.segment_max_ms as u64,
{
    let asked = match request.max_duration_ms {
        Some(d) => d,
        None => settings.max_recording_ms as u64,
    };
    let max_duration_ms = if asked < settings.min_recording_ms as u64 {
        settings.min_recording_ms as u64
    } else {
        asked
    };
    let auto_stop_after_ms = if allow_auto_stop && !is_test_clip && settings.silence_auto_stop_enabled {
        Some(settings.silence_auto_stop_ms as u64)
    } else {
        None
    };
    let segment_pause_ms = if settings.segment_pause_enabled {
        Some(settings.segment_pause_ms as u64)
    } else {
        None
    };
    let microphone_id = match &request.microphone_id {
        Some(m) => Some(m.clone()),
        None => settings.selected_mic_id.clone(),
    };
    SessionPlan {
        microphone_id,
        max_duration_ms,
        is_note: request.is_note && !is_test_clip,
        is_transform: request.is_transform && !is_test_clip,
        auto_stop_after_ms,
        incremental: !is_test_clip && settings.incremental_transcription_enabled,
        segment_pause_ms,
        segment_max_ms: settings.segment_max_ms as u64,
    }
}

} // verus!
