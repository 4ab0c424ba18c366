//! Converts decoded traffic-controller state updates into VLog3 protocol
//! messages: monotonic clock reconstruction from a wrapping hardware tick
//! counter, state-code mapping, and hex-record encoding.

use vstd::prelude::*;

pub mod entry_sort;
pub mod hexfmt;
pub mod name_mapping;
pub mod tlcfi_parsing;
pub mod vlog_transformer;

verus! {

/// A set of changes with a time delta to the first decoded message in
/// milliseconds. It holds either signal names and states, or detector names
/// and states, never both.
#[derive(Debug, PartialEq)]
pub struct TimestampedChanges {
    pub ms_from_beginning: u64,
    pub signal_names: Vec<String>,
    pub signal_states: Vec<SignalState>,
    pub detector_names: Vec<String>,
    pub detector_states: Vec<DetectorState>,
}

impl TimestampedChanges {
    /// Every name is paired with exactly one state, and a set carries only
    /// one kind of data.
    pub open spec fn wf(self) -> bool {
        &&& self.signal_names@.len() == self.signal_states@.len()
        &&& self.detector_names@.len() == self.detector_states@.len()
        &&& (self.signal_names@.len() == 0 || self.detector_names@.len() == 0)
    }
}

impl Default for TimestampedChanges {
    fn default() -> (r: Self)
        ensures
            r.ms_from_beginning == 0,
            r.signal_names@.len() == 0,
            r.signal_states@.len() == 0,
            r.detector_names@.len() == 0,
            r.detector_states@.len() == 0,
            r.wf(),
    {
        TimestampedChanges {
            ms_from_beginning: 0,
            signal_names: Vec::new(),
            signal_states: Vec::new(),
            detector_names: Vec::new(),
            detector_states: Vec::new(),
        }
    }
}

/// The state of a signal group, as reported by the traffic-light controller.
#[derive(Debug, PartialEq, Eq, Clone, Copy)]
pub enum SignalState {
    Unavailable,
    Dark,
    Red,
    Amber,
    Green,
    AmberFlashing,
}

/// The occupancy state of a vehicle detector.
#[derive(Debug, PartialEq, Eq, Clone, Copy)]
pub enum DetectorState {
    FREE,
    OCCUPIED,
}

/// Why a raw update payload was rejected.
#[derive(Debug, PartialEq, Eq, Clone, Copy)]
pub enum DecodeError {
    /// The payload carries no usable tick value.
    MissingTick,
    /// The name array and the state array differ in length.
    LengthMismatch,
    /// A name or state entry does not have the expected shape.
    MalformedState,
    /// A raw state code falls outside the closed code table.
    UnknownStateCode,
    /// The clock was asked to normalize a tick before a first tick was set.
    NormalizeBeforeInit,
}

/// Why a change set could not be encoded into protocol records.
#[derive(Debug, PartialEq, Eq, Clone, Copy)]
pub enum EncodeError {
    /// An entity name has no entry in the name-to-id mapping.
    UnknownName,
    /// The delta time does not fit the three-hex-digit field.
    DeltaOverflow,
    /// The entry count does not fit the one-hex-digit field.
    TooManyEntries,
    /// Adding the elapsed time to the start date left the supported range.
    TimeOutOfRange,
}

/// The raw-code-to-state ingest table for signals. Codes outside the closed
/// domain map to nothing.
pub open spec fn spec_signal_from_code(code: u64) -> Option<SignalState> {
    if code == 0 {
        Some(SignalState::Unavailable)
    } else if code == 1 {
        Some(SignalState::Dark)
    } else if code == 2 || code == 3 {
        Some(SignalState::Red)
    } else if code == 5 || code == 6 {
        Some(SignalState::Green)
    } else if code == 7 || code == 8 {
        Some(SignalState::Amber)
    } else if code == 9 {
        Some(SignalState::AmberFlashing)
    } else {
        None
    }
}

/// The raw-code-to-state ingest table for detectors.
pub open spec fn spec_detector_from_code(code: u64) -> Option<DetectorState> {
    if code == 0 {
        Some(DetectorState::FREE)
    } else if code == 1 {
        Some(DetectorState::OCCUPIED)
    } else {
        None
    }
}

impl SignalState {
    /// The state-to-protocol-code emission table for signals.
    pub open spec fn spec_to_vlog_state(self) -> i16 {
        match self {
            SignalState::Unavailable => 4,
            SignalState::Dark => 4,
            SignalState::Red => 0,
            SignalState::Green => 1,
            SignalState::Amber => 2,
            SignalState::AmberFlashing => 5,
        }
    }

    /// Returns the [SignalState] corresponding to the given TLC-FI signal
    /// state represented as a number, or [DecodeError::UnknownStateCode] for
    /// a code outside the closed table.
    pub fn from_tlcfi_state(tlc_fi_state: u64) -> (r: Result<Self, DecodeError>)
        ensures
            r matches Ok(s) ==> spec_signal_from_code(tlc_fi_state) == Some(s),
            r is Err <==> spec_signal_from_code(tlc_fi_state) is None,
            r is Err ==> r == Err::<Self, DecodeError>(DecodeError::UnknownStateCode),
    {
        match tlc_fi_state {
            0 => Ok(SignalState::Unavailable),
            1 => Ok(SignalState::Dark),
            2 | 3 => Ok(SignalState::Red),
            5 | 6 => Ok(SignalState::Green),
            7 | 8 => Ok(SignalState::Amber),
            9 => Ok(SignalState::AmberFlashing),
            _ => Err(DecodeError::UnknownStateCode),
        }
    }

    /// Transforms a [SignalState] to the value corresponding to that state in
    /// VLog.
    pub fn to_vlog_state(&self) -> (r: i16)
        ensures
            r == self.spec_to_vlog_state(),
            0 <= r <= 5,
    {
        match self {
            Self::Unavailable => 4,
            Self::Dark => 4,
            Self::Red => 0,
            Self::Green => 1,
            Self::Amber => 2,
            Self::AmberFlashing => 5,
        }
    }
}

impl DetectorState {
    /// The state-to-protocol-code emission table for detectors.
    pub open spec fn spec_to_vlog_state(self) -> i16 {
        match self {
            DetectorState::FREE => 0,
            DetectorState::OCCUPIED => 1,
        }
    }

    /// Returns the [DetectorState] corresponding to the given TLC-FI detector
    /// state represented as a number, or [DecodeError::UnknownStateCode] for
    /// a code outside the closed table.
    pub fn from_tlcfi_state(tlc_fi_state: u64) -> (r: Result<Self, DecodeError>)
        ensures
            r matches Ok(s) ==> spec_detector_from_code(tlc_fi_state) == Some(s),
            r is Err <==> spec_detector_from_code(tlc_fi_state) is None,
            r is Err ==> r == Err::<Self, DecodeError>(DecodeError::UnknownStateCode),
    {
        match tlc_fi_state {
            0 => Ok(DetectorState::FREE),
            1 => Ok(DetectorState::OCCUPIED),
            _ => Err(DecodeError::UnknownStateCode),
        }
    }

    /// Transforms a [DetectorState] to the value corresponding to that state
    /// in VLog.
    pub fn to_vlog_state(&self) -> (r: i16)
        ensures
            r == self.spec_to_vlog_state(),
            0 <= r <= 1,
    {
        match self {
            Self::FREE => 0,
            Self::OCCUPIED => 1,
        }
    }
}

/// Round trip of the state-code tables: every raw code in the closed domain
/// maps to exactly one state (the ingest table is a function), and that
/// state's emission code is the one the protocol defines for it.
pub proof fn lemma_state_code_round_trip()
    ensures
        forall|code: u64| spec_signal_from_code(code) is Some <==> (code <= 9 && code != 4),
        forall|code: u64| spec_detector_from_code(code) is Some <==> code <= 1,
        spec_signal_from_code(0) == Some(SignalState::Unavailable),
        spec_signal_from_code(1) == Some(SignalState::Dark),
        spec_signal_from_code(2) == Some(SignalState::Red),
        spec_signal_from_code(3) == Some(SignalState::Red),
        spec_signal_from_code(5) == Some(SignalState::Green),
        spec_signal_from_code(6) == Some(SignalState::Green),
        spec_signal_from_code(7) == Some(SignalState::Amber),
        spec_signal_from_code(8) == Some(SignalState::Amber),
        spec_signal_from_code(9) == Some(SignalState::AmberFlashing),
        SignalState::Unavailable.spec_to_vlog_state() == 4,
        SignalState::Dark.spec_to_vlog_state() == 4,
        SignalState::Red.spec_to_vlog_state() == 0,
        SignalState::Green.spec_to_vlog_state() == 1,
        SignalState::Amber.spec_to_vlog_state() == 2,
        SignalState::AmberFlashing.spec_to_vlog_state() == 5,
        spec_detector_from_code(0) == Some(DetectorState::FREE),
        spec_detector_from_code(1) == Some(DetectorState::OCCUPIED),
        DetectorState::FREE.spec_to_vlog_state() == 0,
        DetectorState::OCCUPIED.spec_to_vlog_state() == 1,
{
}

} // verus!
