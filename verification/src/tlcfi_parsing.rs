//! Decoding of raw TLC-FI update payloads and reconstruction of a monotonic
//! elapsed-time value from the controller's wrapping hardware tick counter.

use vstd::prelude::*;
use vstd::string::StringSliceAdditionalSpecFns;

use crate::{DecodeError, DetectorState, SignalState, TimestampedChanges};

verus! {

/// The kind of entity an update speaks about.
#[derive(Debug, PartialEq, Eq, Clone, Copy)]
pub enum ChangeType {
    Detector,
    Signal,
}

/// The longest run of consecutive ASCII digits a document may carry and
/// still be handed to the json parser. A number token whose fraction runs
/// for tens of thousands of digits drives the parser's internal decimal
/// exponent, a 16-bit counter, below its range; no document of this
/// protocol comes anywhere near this bound, and a text beyond it is
/// rejected as malformed without being parsed.
pub const MAX_DIGIT_RUN: usize = 1000;

/// An ASCII digit, as a byte.
pub open spec fn is_ascii_digit_byte(b: u8) -> bool {
    48 <= b <= 57
}

/// The window of [MAX_DIGIT_RUN] + 1 bytes starting at `i` holds digits
/// only.
pub open spec fn digit_window_at(bytes: Seq<u8>, i: int) -> bool {
    forall|k: int|
        i <= k <= i + (MAX_DIGIT_RUN as int) ==> is_ascii_digit_byte(#[trigger] bytes[k])
}

/// Some window of more than [MAX_DIGIT_RUN] consecutive digits lies within
/// the first `end` bytes.
pub open spec fn spec_long_digit_run_upto(bytes: Seq<u8>, end: int) -> bool {
    exists|i: int|
        0 <= i && i + (MAX_DIGIT_RUN as int) < end && (#[trigger] digit_window_at(bytes, i))
}

/// The text holds more than [MAX_DIGIT_RUN] consecutive ASCII digits.
pub open spec fn spec_long_digit_run(bytes: Seq<u8>) -> bool {
    spec_long_digit_run_upto(bytes, bytes.len() as int)
}

/// The count of consecutive ASCII digits ending just before position `j`.
pub open spec fn digit_tail_run(bytes: Seq<u8>, j: int) -> int
    recommends
        0 <= j <= bytes.len(),
    decreases j,
{
    if j <= 0 || !is_ascii_digit_byte(bytes[j - 1]) {
        0
    } else {
        digit_tail_run(bytes, j - 1) + 1
    }
}

/// Everything inside the tail run is a digit, and the byte just before the
/// run, if there is one, is not.
proof fn lemma_digit_tail_run(bytes: Seq<u8>, j: int)
    requires
        0 <= j <= bytes.len(),
    ensures
        0 <= digit_tail_run(bytes, j) <= j,
        forall|k: int|
            j - digit_tail_run(bytes, j) <= k < j ==> is_ascii_digit_byte(#[trigger] bytes[k]),
        j - digit_tail_run(bytes, j) > 0 ==> !is_ascii_digit_byte(
            bytes[j - digit_tail_run(bytes, j) - 1],
        ),
    decreases j,
{
    if j > 0 && is_ascii_digit_byte(bytes[j - 1]) {
        lemma_digit_tail_run(bytes, j - 1);
    }
}

/// Whether the text holds a run of consecutive ASCII digits longer than
/// [MAX_DIGIT_RUN]. Such a text is never handed to the json parser.
pub fn has_long_digit_run(s: &str) -> (r: bool)
    ensures
        r == spec_long_digit_run(s.spec_bytes()),
{
    let bytes = s.as_bytes();
    let ghost bs = s.spec_bytes();
    let mut run: usize = 0;
    let mut j: usize = 0;
    while j < bytes.len()
        invariant
            bs == s.spec_bytes(),
            bytes@ == bs,
            j <= bs.len(),
            run == digit_tail_run(bs, j as int),
            run <= MAX_DIGIT_RUN,
            !spec_long_digit_run_upto(bs, j as int),
        decreases bs.len() - j,
    {
        let b = bytes[j];
        if 48 <= b && b <= 57 {
            run += 1;
            if run > MAX_DIGIT_RUN {
                proof {
                    assert(digit_tail_run(bs, j + 1 as int) == MAX_DIGIT_RUN + 1);
                    lemma_digit_tail_run(bs, j + 1 as int);
                    let i = j - MAX_DIGIT_RUN as int;
                    assert(digit_window_at(bs, i));
                    assert(spec_long_digit_run(bs));
                }
                return true;
            }
        } else {
            run = 0;
        }
        proof {
            assert(run == digit_tail_run(bs, j + 1 as int));
            lemma_digit_tail_run(bs, j + 1 as int);
            assert(!spec_long_digit_run_upto(bs, j + 1 as int)) by {
                if spec_long_digit_run_upto(bs, j + 1 as int) {
                    let i = choose|i: int|
                        0 <= i && i + (MAX_DIGIT_RUN as int) < j + 1 && (#[trigger] digit_window_at(
                            bs,
                            i,
                        ));
                    if i + (MAX_DIGIT_RUN as int) < j {
                        assert(spec_long_digit_run_upto(bs, j as int));
                    } else {
                        assert(is_ascii_digit_byte(bs[j as int]));
                        let p = j - digit_tail_run(bs, j + 1 as int);
                        assert(i <= p <= j);
                        assert(is_ascii_digit_byte(bs[p]));
                        assert(!is_ascii_digit_byte(bs[p]));
                    }
                }
            }
        }
        j += 1;
    }
    proof {
        assert(!spec_long_digit_run(bs));
    }
    false
}

/// The shape of the state value paired with one entity name: the update
/// reports no change (null), a raw numeric state code, or something that is
/// neither and does not match the protocol.
#[derive(Debug, PartialEq, Eq, Clone, Copy)]
pub enum RawStateValue {
    Null,
    Num(u64),
    Other,
}

/// The shape of the `ids` and `states` members of a document's first update
/// object: whether `ids` is absent (null), whether each is an array, and the
/// lengths json reports for them (zero for scalars, the key count for
/// objects; only read here once both are known to be arrays).
#[derive(Debug, PartialEq, Eq, Clone, Copy)]
pub struct ArraysShape {
    pub ids_null: bool,
    pub ids_is_array: bool,
    pub states_is_array: bool,
    pub ids_len: usize,
    pub states_len: usize,
}

/// Whether the text is a well-formed JSON document, as json::parse decides
/// it: a function of the text alone.
pub uninterp spec fn document_parses(s: Seq<char>) -> bool;

/// The message type discriminator `params.update[0].objects.type` the
/// document determines, where the document parses and the value there is a
/// non-negative integer representable in 64 bits; nothing otherwise.
pub uninterp spec fn update_type_of(s: Seq<char>) -> Option<u64>;

/// The tick value `params.ticks` the document determines, where the
/// document parses and the value there is a non-negative integer
/// representable in 64 bits; nothing otherwise.
pub uninterp spec fn tick_of(s: Seq<char>) -> Option<u64>;

/// The shape of the document's `ids` and `states` arrays (see [ArraysShape]).
pub uninterp spec fn arrays_shape_of(s: Seq<char>) -> ArraysShape;

/// The text of `params.update[0].objects.ids[i]`, where the document
/// determines a string there; nothing otherwise.
pub uninterp spec fn id_of(s: Seq<char>, i: int) -> Option<Seq<char>>;

/// The shape of `params.update[0].states[i].state` the document determines
/// (see [RawStateValue]).
pub uninterp spec fn state_of(s: Seq<char>, i: int) -> RawStateValue;

/// Relies on json::parse: it returns a `Result` and accepts exactly the
/// well-formed JSON documents. The parser's decimal-exponent arithmetic can
/// overflow on number tokens with tens of thousands of fraction digits, so
/// texts with over-long digit runs are excluded by the precondition.
#[verifier::external_body]
fn doc_parses(s: &str) -> (r: bool)
    requires
        !spec_long_digit_run(s.spec_bytes()),
    ensures
        r == document_parses(s@),
{
    json::parse(s).is_ok()
}

/// Relies on json::parse, json's total index operators (null for misses)
/// and JsonValue::as_u64 (`Some` exactly for a non-negative number carried
/// as an integer with no decimal remainder; the conversion does no
/// arithmetic): the value at `params.ticks`. Over-long digit runs are
/// excluded by the precondition, as in [doc_parses].
#[verifier::external_body]
fn extract_tick(s: &str) -> (r: Option<u64>)
    requires
        !spec_long_digit_run(s.spec_bytes()),
    ensures
        r == tick_of(s@),
{
    json::parse(s).ok().and_then(|v| v["params"]["ticks"].as_u64())
}

/// Relies on json::parse, json's total index operators and
/// JsonValue::as_u64 (`Some` exactly for a non-negative number carried as
/// an integer with no decimal remainder; no arithmetic): the value at
/// `params.update[0].objects.type`. Over-long digit runs are excluded by
/// the precondition, as in [doc_parses].
#[verifier::external_body]
fn extract_update_type(s: &str) -> (r: Option<u64>)
    requires
        !spec_long_digit_run(s.spec_bytes()),
    ensures
        r == update_type_of(s@),
{
    json::parse(s).ok().and_then(
        |v| v["params"]["update"][0]["objects"]["type"].as_u64())
}

/// Relies on json::parse, json's total index operators and
/// JsonValue::{is_null, is_array, len}: the shape of the document's `ids`
/// and `states` members. Over-long digit runs are excluded by the
/// precondition, as in [doc_parses]; the accessors themselves cannot fail.
#[verifier::external_body]
fn extract_arrays_shape(s: &str) -> (r: ArraysShape)
    requires
        !spec_long_digit_run(s.spec_bytes()),
    ensures
        r == arrays_shape_of(s@),
{
    let root = match json::parse(s) { Ok(v) => v, Err(_) => json::JsonValue::Null };
    let update = &root["params"]["update"][0];
    let ids = &update["objects"]["ids"];
    let states = &update["states"];
    ArraysShape {
        ids_null: ids.is_null(), ids_is_array: ids.is_array(),
        states_is_array: states.is_array(),
        ids_len: ids.len(), states_len: states.len() }
}

/// Relies on json::parse, json's total index operators and
/// JsonValue::as_str (`Some` exactly for string values): the text at
/// `params.update[0].objects.ids[i]`, copied out. Over-long digit runs are
/// excluded by the precondition, as in [doc_parses].
#[verifier::external_body]
fn extract_id_at(s: &str, i: usize) -> (r: Option<String>)
    requires
        !spec_long_digit_run(s.spec_bytes()),
    ensures
        r is Some <==> id_of(s@, i as int) is Some,
        r matches Some(name) ==> id_of(s@, i as int) == Some(name@),
{
    let root = match json::parse(s) { Ok(v) => v, Err(_) => return None };
    root["params"]["update"][0]["objects"]["ids"][i].as_str().map(|x| x.to_owned())
}

/// Relies on json::parse, json's total index operators and
/// JsonValue::{is_null, as_u64} (`Some` exactly for a non-negative number
/// carried as an integer with no decimal remainder; no arithmetic): the
/// shape of the value at `params.update[0].states[i].state`, one arm per
/// shape. Over-long digit runs are excluded by the precondition, as in
/// [doc_parses].
#[verifier::external_body]
fn extract_state_at(s: &str, i: usize) -> (r: RawStateValue)
    requires
        !spec_long_digit_run(s.spec_bytes()),
    ensures
        r == state_of(s@, i as int),
{
    let root = match json::parse(s) { Ok(v) => v, Err(_) => return RawStateValue::Other };
    let node = &root["params"]["update"][0]["states"][i]["state"];
    if node.is_null() {
        RawStateValue::Null
    } else {
        match node.as_u64() {
            Some(v) => RawStateValue::Num(v),
            None => RawStateValue::Other,
        }
    }
}

/// The largest value the hardware tick counter reaches before wrapping to 0.
pub const MAX_TICKS: u64 = 4294967295;

/// Ticks closer to the wrap boundary than this are taken to have genuinely
/// overflowed rather than having been reset.
pub const OVERFLOW_WINDOW: u64 = 5000;

/// Mutable context threaded through tick normalization for a whole batch.
///
/// `None` in `first_tick` means the clock has not seen its first tick yet;
/// once it has, `previous_tick` and `bonus_ms` are set as well.
#[derive(Debug, PartialEq, Eq, Clone, Copy)]
pub struct ClockState {
    pub first_tick: Option<u64>,
    pub previous_tick: Option<u64>,
    pub bonus_ms: Option<u64>,
}

/// The shape every clock reachable through this module's functions keeps:
/// ticks stay in the counter's domain, and once running the previous tick is
/// known and not older than the anchor tick.
pub open spec fn clock_wf(c: ClockState) -> bool {
    c.first_tick matches Some(f) ==> {
        &&& f <= MAX_TICKS
        &&& c.previous_tick matches Some(p) && f <= p && p <= MAX_TICKS
    }
}

/// One normalization step on a running clock: the next clock state and the
/// emitted milliseconds since the beginning of the batch.
///
/// A tick at or past the anchor yields its distance from the anchor. A tick
/// behind the anchor is either a genuine 32-bit overflow (the previous tick
/// was within [OVERFLOW_WINDOW] of the wrap boundary), which credits the time
/// accumulated up to the wrap, or a controller reset, which credits the time
/// elapsed before the reset; both re-anchor the clock at the new tick.
pub open spec fn spec_normalize(c: ClockState, tick: u64) -> (ClockState, u64)
    recommends
        clock_wf(c),
        c.first_tick is Some,
        tick <= MAX_TICKS,
{
    match (c.first_tick, c.previous_tick) {
        (Some(first), Some(prev)) => if tick >= first {
            (
                ClockState {
                    first_tick: Some(first),
                    previous_tick: Some(tick),
                    bonus_ms: c.bonus_ms,
                },
                (tick - first) as u64,
            )
        } else if MAX_TICKS - prev < OVERFLOW_WINDOW {
            (
                ClockState {
                    first_tick: Some(tick),
                    previous_tick: Some(tick),
                    bonus_ms: Some((MAX_TICKS - first) as u64),
                },
                ((MAX_TICKS - first) + tick) as u64,
            )
        } else {
            (
                ClockState {
                    first_tick: Some(tick),
                    previous_tick: Some(tick),
                    bonus_ms: Some((prev - first) as u64),
                },
                (prev - first) as u64,
            )
        },
        _ => (c, 0),
    }
}

impl ClockState {
    /// A clock that has not processed any tick yet.
    pub fn new() -> (r: Self)
        ensures
            r.first_tick is None,
            r.previous_tick is None,
            r.bonus_ms is None,
            clock_wf(r),
    {
        ClockState { first_tick: None, previous_tick: None, bonus_ms: None }
    }

    /// The transition from an uninitialized clock to a running one: the first
    /// processed tick becomes the anchor, so that it is emitted as zero
    /// milliseconds from the beginning.
    pub fn set_first_tick(&mut self, tick: u64)
        requires
            tick <= MAX_TICKS,
        ensures
            *final(self) == (ClockState {
                first_tick: Some(tick),
                previous_tick: Some(tick),
                bonus_ms: Some(0u64),
            }),
            clock_wf(*final(self)),
    {
        self.first_tick = Some(tick);
        self.previous_tick = Some(tick);
        self.bonus_ms = Some(0);
    }
}

/// Normalizes one raw tick into milliseconds since the beginning of the
/// batch, updating the clock. Asking this of a clock that has no first tick
/// yet is a driver error and is rejected.
pub fn find_ms_from_beginning(data: &mut ClockState, tick: u64) -> (r: Result<u64, DecodeError>)
    requires
        clock_wf(*old(data)),
        tick <= MAX_TICKS,
    ensures
        clock_wf(*final(data)),
        old(data).first_tick is None ==> r == Err::<u64, DecodeError>(
            DecodeError::NormalizeBeforeInit,
        ) && *final(data) == *old(data),
        old(data).first_tick is Some ==> r == Ok::<u64, DecodeError>(
            spec_normalize(*old(data), tick).1,
        ) && *final(data) == spec_normalize(*old(data), tick).0,
{
    let first_tick = match data.first_tick {
        Some(first) => first,
        None => {
            return Err(DecodeError::NormalizeBeforeInit);
        },
    };
    let ms_from_beginning: u64 = if tick < first_tick {
        handle_tick_overflow_or_reset(data, first_tick, tick)
    } else {
        tick - first_tick
    };
    data.previous_tick = Some(tick);
    Ok(ms_from_beginning)
}

/// Resolves a tick that went backwards: either a genuine counter overflow or
/// a controller reset, as [spec_normalize] describes.
fn handle_tick_overflow_or_reset(data: &mut ClockState, first_tick: u64, tick: u64) -> (r: u64)
    requires
        clock_wf(*old(data)),
        old(data).first_tick == Some(first_tick),
        tick < first_tick,
    ensures
        r == spec_normalize(*old(data), tick).1,
        final(data).first_tick == Some(tick),
        final(data).bonus_ms == spec_normalize(*old(data), tick).0.bonus_ms,
        final(data).previous_tick == old(data).previous_tick,
{
    let previous_tick = match data.previous_tick {
        Some(prev) => prev,
        None => unreached(),
    };
    if MAX_TICKS - previous_tick < OVERFLOW_WINDOW {
        data.bonus_ms = Some(MAX_TICKS - first_tick);
        data.first_tick = Some(tick);
        (MAX_TICKS - first_tick) + tick
    } else {
        // a reset in the tlc has happened
        data.bonus_ms = Some(previous_tick - first_tick);
        data.first_tick = Some(tick);
        previous_tick - first_tick
    }
}

/// Every raw signal code lies in the closed signal table.
pub open spec fn codes_in_signal_domain(codes: Seq<u64>) -> bool {
    forall|i: int| 0 <= i < codes.len() ==> crate::spec_signal_from_code(#[trigger] codes[i]) is Some
}

/// Every raw detector code lies in the closed detector table.
pub open spec fn codes_in_detector_domain(codes: Seq<u64>) -> bool {
    forall|i: int|
        0 <= i < codes.len() ==> crate::spec_detector_from_code(#[trigger] codes[i]) is Some
}

/// The signal states the closed table assigns to a code sequence.
pub open spec fn signal_states_of(codes: Seq<u64>) -> Seq<SignalState> {
    Seq::new(codes.len(), |i: int| crate::spec_signal_from_code(codes[i])->0)
}

/// The detector states the closed table assigns to a code sequence.
pub open spec fn detector_states_of(codes: Seq<u64>) -> Seq<DetectorState> {
    Seq::new(codes.len(), |i: int| crate::spec_detector_from_code(codes[i])->0)
}

/// Groups the surviving name and raw-state pairs of one update into at most
/// one change set: none where no pair survived, and otherwise one carrying
/// the update's elapsed time and the states the closed code tables assign.
/// A code outside its table is a fatal configuration mismatch.
pub fn build_timestamped_changes(
    change_type: ChangeType,
    ms_from_beginning: u64,
    names: Vec<String>,
    states: Vec<u64>,
) -> (r: Result<Option<TimestampedChanges>, DecodeError>)
    requires
        names@.len() == states@.len(),
    ensures
        change_type == ChangeType::Signal ==> {
            &&& r is Ok <==> codes_in_signal_domain(states@)
            &&& !codes_in_signal_domain(states@) ==> r == Err::<
                Option<TimestampedChanges>,
                DecodeError,
            >(DecodeError::UnknownStateCode)
            &&& codes_in_signal_domain(states@) && names@.len() == 0 ==> r == Ok::<
                Option<TimestampedChanges>,
                DecodeError,
            >(None)
            &&& codes_in_signal_domain(states@) && names@.len() > 0 ==> (r matches Ok(Some(tc))
                && tc.wf() && tc.ms_from_beginning == ms_from_beginning && tc.signal_names@
                == names@ && tc.signal_states@ == signal_states_of(states@)
                && tc.detector_names@.len() == 0 && tc.detector_states@.len() == 0)
        },
        change_type == ChangeType::Detector ==> {
            &&& r is Ok <==> codes_in_detector_domain(states@)
            &&& !codes_in_detector_domain(states@) ==> r == Err::<
                Option<TimestampedChanges>,
                DecodeError,
            >(DecodeError::UnknownStateCode)
            &&& codes_in_detector_domain(states@) && names@.len() == 0 ==> r == Ok::<
                Option<TimestampedChanges>,
                DecodeError,
            >(None)
            &&& codes_in_detector_domain(states@) && names@.len() > 0 ==> (r matches Ok(Some(tc))
                && tc.wf() && tc.ms_from_beginning == ms_from_beginning && tc.detector_names@
                == names@ && tc.detector_states@ == detector_states_of(states@)
                && tc.signal_names@.len() == 0 && tc.signal_states@.len() == 0)
        },
{
    match change_type {
        ChangeType::Signal => {
            let mut signal_states: Vec<SignalState> = Vec::new();
            let mut i: usize = 0;
            while i < states.len()
                invariant
                    change_type == ChangeType::Signal,
                    names@.len() == states@.len(),
                    i <= states@.len(),
                    forall|k: int|
                        0 <= k < i ==> crate::spec_signal_from_code(#[trigger] states@[k]) is Some,
                    signal_states@ == signal_states_of(states@.take(i as int)),
                decreases states@.len() - i,
            {
                let state = match SignalState::from_tlcfi_state(states[i]) {
                    Ok(s) => s,
                    Err(e) => {
                        proof {
                            assert(crate::spec_signal_from_code(states@[i as int]) is None);
                            assert(!codes_in_signal_domain(states@));
                        }
                        return Err(e);
                    },
                };
                signal_states.push(state);
                proof {
                    assert(signal_states@ =~= signal_states_of(states@.take(i + 1 as int)));
                }
                i += 1;
            }
            proof {
                assert(states@.take(states@.len() as int) =~= states@);
                assert(signal_states@ =~= signal_states_of(states@));
            }
            if names.len() == 0 {
                return Ok(None);
            }
            Ok(
                Some(
                    TimestampedChanges {
                        ms_from_beginning,
                        signal_names: names,
                        signal_states,
                        detector_names: Vec::new(),
                        detector_states: Vec::new(),
                    },
                ),
            )
        },
        ChangeType::Detector => {
            let mut detector_states: Vec<DetectorState> = Vec::new();
            let mut i: usize = 0;
            while i < states.len()
                invariant
                    change_type == ChangeType::Detector,
                    names@.len() == states@.len(),
                    i <= states@.len(),
                    forall|k: int|
                        0 <= k < i ==> crate::spec_detector_from_code(
                            #[trigger] states@[k],
                        ) is Some,
                    detector_states@ == detector_states_of(states@.take(i as int)),
                decreases states@.len() - i,
            {
                let state = match DetectorState::from_tlcfi_state(states[i]) {
                    Ok(s) => s,
                    Err(e) => {
                        proof {
                            assert(crate::spec_detector_from_code(states@[i as int]) is None);
                            assert(!codes_in_detector_domain(states@));
                        }
                        return Err(e);
                    },
                };
                detector_states.push(state);
                proof {
                    assert(detector_states@ =~= detector_states_of(states@.take(i + 1 as int)));
                }
                i += 1;
            }
            proof {
                assert(states@.take(states@.len() as int) =~= states@);
                assert(detector_states@ =~= detector_states_of(states@));
            }
            if names.len() == 0 {
                return Ok(None);
            }
            Ok(
                Some(
                    TimestampedChanges {
                        ms_from_beginning,
                        signal_names: Vec::new(),
                        signal_states: Vec::new(),
                        detector_names: names,
                        detector_states,
                    },
                ),
            )
        },
    }
}

/// The clock either did not move, or took exactly one normalization step on
/// some tick in the counter's domain.
pub open spec fn clock_stepped(before: ClockState, after: ClockState) -> bool {
    after == before || (exists|t: u64| t <= MAX_TICKS && after == spec_normalize(before, t).0)
}

/// The character views of a sequence of strings.
pub open spec fn strings_view(v: Seq<String>) -> Seq<Seq<char>> {
    v.map_values(|x: String| x@)
}

/// The names among the first `n` entries whose paired state is a number:
/// the pairs that survive null-dropping, in document order.
pub open spec fn survivor_names(s: Seq<char>, n: int) -> Seq<Seq<char>>
    decreases n,
{
    if n <= 0 {
        Seq::empty()
    } else if state_of(s, n - 1) matches RawStateValue::Num(_) {
        survivor_names(s, n - 1).push(
            match id_of(s, n - 1) {
                Some(name) => name,
                None => Seq::empty(),
            },
        )
    } else {
        survivor_names(s, n - 1)
    }
}

/// The raw state codes paired with those surviving names, in the same order.
pub open spec fn survivor_codes(s: Seq<char>, n: int) -> Seq<u64>
    decreases n,
{
    if n <= 0 {
        Seq::empty()
    } else {
        match state_of(s, n - 1) {
            RawStateValue::Num(v) => survivor_codes(s, n - 1).push(v),
            _ => survivor_codes(s, n - 1),
        }
    }
}

/// Some entry among the first `n` does not match the update shape: its id
/// is not a string, or its state is neither a number nor null.
pub open spec fn walk_faulted(s: Seq<char>, n: int) -> bool {
    exists|i: int|
        0 <= i < n && ((#[trigger] id_of(s, i)) is None || state_of(s, i) == RawStateValue::Other)
}

/// The document carries one of the supported change message types.
pub open spec fn is_change_update(s: Seq<char>) -> bool {
    update_type_of(s) == Some(3u64) || update_type_of(s) == Some(4u64)
}

/// What the surviving (name, code) pairs of the first `n` entries become:
/// a code outside the closed table is fatal, no survivors yield no change
/// set, and otherwise exactly one change set carries the emitted elapsed
/// time `ms` and the surviving names with their table states.
pub open spec fn decoded_changes_ok(
    s: Seq<char>,
    n: int,
    ms: u64,
    r: Result<Vec<TimestampedChanges>, DecodeError>,
    change_type: ChangeType,
) -> bool {
    let names = survivor_names(s, n);
    let codes = survivor_codes(s, n);
    match change_type {
        ChangeType::Signal => if !codes_in_signal_domain(codes) {
            r == Err::<Vec<TimestampedChanges>, DecodeError>(DecodeError::UnknownStateCode)
        } else if names.len() == 0 {
            r matches Ok(v) && v@.len() == 0
        } else {
            r matches Ok(v) && v@.len() == 1 && v@[0].wf() && v@[0].ms_from_beginning == ms
                && strings_view(v@[0].signal_names@) == names && v@[0].signal_states@
                == signal_states_of(codes) && v@[0].detector_names@.len() == 0
                && v@[0].detector_states@.len() == 0
        },
        ChangeType::Detector => if !codes_in_detector_domain(codes) {
            r == Err::<Vec<TimestampedChanges>, DecodeError>(DecodeError::UnknownStateCode)
        } else if names.len() == 0 {
            r matches Ok(v) && v@.len() == 0
        } else {
            r matches Ok(v) && v@.len() == 1 && v@[0].wf() && v@[0].ms_from_beginning == ms
                && strings_view(v@[0].detector_names@) == names && v@[0].detector_states@
                == detector_states_of(codes) && v@[0].signal_names@.len() == 0
                && v@[0].signal_states@.len() == 0
        },
    }
}

/// What decoding one change update does, over the values the document
/// determines: a missing or out-of-domain tick is rejected and the clock
/// stands still, normalizing before the first tick is rejected, and
/// otherwise the clock takes exactly the step the tick asks for while a
/// null name array yields nothing, wrongly shaped or unequal-length arrays
/// and malformed entries are rejected with the matching error, and the
/// surviving pairs become change sets as [decoded_changes_ok] says.
pub open spec fn decode_step_ok(
    s: Seq<char>,
    before: ClockState,
    after: ClockState,
    r: Result<Vec<TimestampedChanges>, DecodeError>,
    change_type: ChangeType,
) -> bool {
    let tick_usable = tick_of(s) matches Some(t) && t <= MAX_TICKS;
    if !tick_usable {
        r == Err::<Vec<TimestampedChanges>, DecodeError>(DecodeError::MissingTick) && after
            == before
    } else if before.first_tick is None {
        r == Err::<Vec<TimestampedChanges>, DecodeError>(DecodeError::NormalizeBeforeInit) && after
            == before
    } else {
        let stepped = spec_normalize(before, tick_of(s)->0);
        let shape = arrays_shape_of(s);
        &&& after == stepped.0
        &&& if shape.ids_null {
            r matches Ok(v) && v@.len() == 0
        } else if !shape.ids_is_array || !shape.states_is_array {
            r == Err::<Vec<TimestampedChanges>, DecodeError>(DecodeError::MalformedState)
        } else if shape.ids_len != shape.states_len {
            r == Err::<Vec<TimestampedChanges>, DecodeError>(DecodeError::LengthMismatch)
        } else if walk_faulted(s, shape.ids_len as int) {
            r == Err::<Vec<TimestampedChanges>, DecodeError>(DecodeError::MalformedState)
        } else {
            decoded_changes_ok(s, shape.ids_len as int, stepped.1, r, change_type)
        }
    }
}

/// Decodes one change update: normalizes its tick through the clock, walks
/// the parallel name and state arrays dropping null (no-change) states, and
/// hands the surviving pairs to [build_timestamped_changes]. The whole
/// outcome is pinned to the document by [decode_step_ok].
fn parse_change_json(
    json_str: &str,
    data: &mut ClockState,
    change_type: ChangeType,
) -> (r: Result<Vec<TimestampedChanges>, DecodeError>)
    requires
        clock_wf(*old(data)),
        !spec_long_digit_run(json_str.spec_bytes()),
    ensures
        clock_wf(*final(data)),
        clock_stepped(*old(data), *final(data)),
        decode_step_ok(json_str@, *old(data), *final(data), r, change_type),
        r matches Ok(v) ==> v@.len() <= 1 && forall|k: int|
            0 <= k < v@.len() ==> (#[trigger] v@[k]).wf(),
{
    let ghost s = json_str@;
    let tick = match extract_tick(json_str) {
        Some(t) => t,
        None => {
            return Err(DecodeError::MissingTick);
        },
    };
    if tick > MAX_TICKS {
        return Err(DecodeError::MissingTick);
    }
    let ms_from_beginning = match find_ms_from_beginning(data, tick) {
        Ok(ms) => ms,
        Err(e) => {
            return Err(e);
        },
    };
    proof {
        assert(*data == spec_normalize(*old(data), tick).0);
        assert(clock_stepped(*old(data), *data));
    }
    let shape = extract_arrays_shape(json_str);
    if shape.ids_null {
        return Ok(Vec::new());
    }
    if !shape.ids_is_array || !shape.states_is_array {
        return Err(DecodeError::MalformedState);
    }
    if shape.ids_len != shape.states_len {
        return Err(DecodeError::LengthMismatch);
    }
    let n = shape.ids_len;
    let mut names: Vec<String> = Vec::new();
    let mut states: Vec<u64> = Vec::new();
    let mut i: usize = 0;
    while i < n
        invariant
            s == json_str@,
            !spec_long_digit_run(json_str.spec_bytes()),
            n == arrays_shape_of(s).ids_len,
            !arrays_shape_of(s).ids_null,
            arrays_shape_of(s).ids_is_array,
            arrays_shape_of(s).states_is_array,
            arrays_shape_of(s).ids_len == arrays_shape_of(s).states_len,
            i <= n,
            clock_wf(*old(data)),
            old(data).first_tick is Some,
            clock_wf(*data),
            tick <= MAX_TICKS,
            tick_of(s) == Some(tick),
            *data == spec_normalize(*old(data), tick).0,
            ms_from_beginning == spec_normalize(*old(data), tick).1,
            clock_stepped(*old(data), *data),
            forall|k: int|
                0 <= k < i ==> !((#[trigger] id_of(s, k)) is None || state_of(s, k)
                    == RawStateValue::Other),
            names@.len() == survivor_names(s, i as int).len(),
            forall|k: int|
                0 <= k < names@.len() ==> (#[trigger] names@[k])@ == survivor_names(
                    s,
                    i as int,
                )[k],
            states@ == survivor_codes(s, i as int),
            names@.len() == states@.len(),
        decreases n - i,
    {
        let name = match extract_id_at(json_str, i) {
            Some(nm) => nm,
            None => {
                proof {
                    assert(walk_faulted(s, n as int));
                }
                return Err(DecodeError::MalformedState);
            },
        };
        match extract_state_at(json_str, i) {
            RawStateValue::Null => {
                proof {
                    assert(survivor_names(s, i + 1 as int) =~= survivor_names(s, i as int));
                    assert(survivor_codes(s, i + 1 as int) =~= survivor_codes(s, i as int));
                }
            },
            RawStateValue::Num(state_num) => {
                names.push(name);
                states.push(state_num);
                proof {
                    assert(survivor_names(s, i + 1 as int) =~= survivor_names(s, i as int).push(
                        id_of(s, i as int)->0,
                    ));
                    assert(survivor_codes(s, i + 1 as int) =~= survivor_codes(s, i as int).push(
                        state_num,
                    ));
                }
            },
            RawStateValue::Other => {
                proof {
                    assert(walk_faulted(s, n as int));
                }
                return Err(DecodeError::MalformedState);
            },
        }
        i += 1;
    }
    let ghost names_spec = survivor_names(s, n as int);
    let ghost codes_spec = survivor_codes(s, n as int);
    proof {
        assert(!walk_faulted(s, n as int));
        assert forall|k: int| 0 <= k < names@.len() implies strings_view(names@)[k]
            == names_spec[k] by {
            assert(strings_view(names@)[k] == names@[k]@);
        }
        assert(strings_view(names@) =~= names_spec);
    }
    match build_timestamped_changes(change_type, ms_from_beginning, names, states) {
        Ok(Some(timestamped_changes)) => {
            let mut result: Vec<TimestampedChanges> = Vec::new();
            result.push(timestamped_changes);
            proof {
                assert(decoded_changes_ok(
                    s,
                    n as int,
                    ms_from_beginning,
                    Ok::<Vec<TimestampedChanges>, DecodeError>(result),
                    change_type,
                ));
            }
            Ok(result)
        },
        Ok(None) => Ok(Vec::new()),
        Err(e) => Err(e),
    }
}

/// Decodes one raw update document into at most one change set, advancing
/// the clock by the update's tick. Text with a pathologically long digit
/// run (see [MAX_DIGIT_RUN]) or that is not well-formed JSON is rejected
/// and leaves the clock unchanged; a document of an unsupported message
/// type yields no change sets and also leaves the clock unchanged; a
/// supported change update is decoded exactly as [decode_step_ok] says.
pub fn parse_string(json_str: &str, data: &mut ClockState) -> (r: Result<
    Vec<TimestampedChanges>,
    DecodeError,
>)
    requires
        clock_wf(*old(data)),
    ensures
        clock_wf(*final(data)),
        clock_stepped(*old(data), *final(data)),
        spec_long_digit_run(json_str.spec_bytes()) ==> r == Err::<
            Vec<TimestampedChanges>,
            DecodeError,
        >(DecodeError::MalformedState) && *final(data) == *old(data),
        !spec_long_digit_run(json_str.spec_bytes()) && !document_parses(json_str@) ==> r == Err::<
            Vec<TimestampedChanges>,
            DecodeError,
        >(DecodeError::MalformedState) && *final(data) == *old(data),
        !spec_long_digit_run(json_str.spec_bytes()) && document_parses(json_str@)
            && !is_change_update(json_str@) ==> (r matches Ok(v) && v@.len() == 0) && *final(data)
            == *old(data),
        !spec_long_digit_run(json_str.spec_bytes()) && document_parses(json_str@)
            && update_type_of(json_str@) == Some(3u64) ==> decode_step_ok(
            json_str@,
            *old(data),
            *final(data),
            r,
            ChangeType::Signal,
        ),
        !spec_long_digit_run(json_str.spec_bytes()) && document_parses(json_str@)
            && update_type_of(json_str@) == Some(4u64) ==> decode_step_ok(
            json_str@,
            *old(data),
            *final(data),
            r,
            ChangeType::Detector,
        ),
        r matches Ok(v) ==> v@.len() <= 1 && forall|k: int|
            0 <= k < v@.len() ==> (#[trigger] v@[k]).wf(),
{
    if has_long_digit_run(json_str) {
        return Err(DecodeError::MalformedState);
    }
    if !doc_parses(json_str) {
        return Err(DecodeError::MalformedState);
    }
    let message_type = extract_update_type(json_str);
    match message_type {
        Some(3u64) => parse_change_json(json_str, data, ChangeType::Signal),
        Some(4u64) => parse_change_json(json_str, data, ChangeType::Detector),
        // There are many valid message types that are not supported here.
        _ => Ok(Vec::new()),
    }
}

/// Reads the tick the document determines, exactly when it is present and
/// in the counter's domain, so that the clock can be anchored before any
/// update is normalized. Text with a pathologically long digit run (see
/// [MAX_DIGIT_RUN]) yields nothing without being parsed.
pub fn find_first_tick(first_line_json: &str) -> (r: Option<u64>)
    ensures
        r == (if spec_long_digit_run(first_line_json.spec_bytes()) {
            None::<u64>
        } else {
            match tick_of(first_line_json@) {
                Some(t) => if t <= MAX_TICKS {
                    Some(t)
                } else {
                    None::<u64>
                },
                None => None::<u64>,
            }
        }),
{
    if has_long_digit_run(first_line_json) {
        return None;
    }
    match extract_tick(first_line_json) {
        Some(tick) => if tick <= MAX_TICKS {
            Some(tick)
        } else {
            None
        },
        None => None,
    }
}

/// The first tick processed after the clock's initial transition is always
/// emitted as zero milliseconds from the beginning.
pub proof fn lemma_first_processed_tick_is_zero(c: ClockState, tick: u64)
    requires
        tick <= MAX_TICKS,
        c == (ClockState {
            first_tick: Some(tick),
            previous_tick: Some(tick),
            bonus_ms: Some(0u64),
        }),
    ensures
        spec_normalize(c, tick).1 == 0,
{
}

} // verus!

