//! Transform [TimestampedChanges](crate::TimestampedChanges) into VLog3
//! messages: an identification record and a time reference first, then one
//! change record per change set, with fresh time references every five
//! minutes and oversized signal sets split across consecutive records.

use vstd::prelude::*;

use chrono::{Datelike, Timelike};

use crate::entry_sort::{
    entry_bounded, lemma_split_entries_bounded, lemma_split_entries_sizes,
    lemma_sort_entries_bounded, lemma_sort_entries_multiset, sort_entries, sort_entries_exec,
    split_changes_on_data_limit_signal, split_entries,
};
use crate::hexfmt::{
    dec_digits, dec_min2, hex1, hex2, hex3, hex_min2, push_dec_digits, push_dec_min2, push_hex1,
    push_hex2, push_hex3, push_hex_min2,
};
use crate::name_mapping::NameMapping;
use crate::{DetectorState, EncodeError, SignalState, TimestampedChanges};

verus! {

/// How much time may pass before a fresh time reference record is due.
pub const TIME_REFERENCE_INTERVAL_IN_S: u64 = 300;

/// A calendar date and time of day, held as plain fields. The time-reference
/// record renders these digits directly.
#[derive(Debug, PartialEq, Eq, Clone, Copy)]
pub struct DateTime {
    pub year: u16,
    pub month: u8,
    pub day: u8,
    pub hour: u8,
    pub minute: u8,
    pub second: u8,
    pub millisecond: u16,
}

/// The calendar sum of a date-time and a span of milliseconds, or nothing
/// where the fields name no real date or the sum leaves the representable
/// range. Calendar arithmetic is delegated to the chrono crate; this names
/// its result, which depends on the arguments alone.
pub uninterp spec fn date_time_plus_millis(dt: DateTime, ms: u64) -> Option<DateTime>;

/// Relies on chrono: `NaiveDateTime::checked_add_signed` adds an exact
/// millisecond duration in the proleptic Gregorian calendar and returns None
/// on overflow, and the `Datelike`/`Timelike` accessors are documented to
/// stay in their calendar ranges (month 1-12, day 1-31, hour 0-23,
/// minute 0-59, second 0-59, nanosecond below two billion counting a
/// possible leap second).
#[verifier::external_body]
fn add_millis(dt: &DateTime, ms: u64) -> (r: Option<DateTime>)
    ensures
        r == date_time_plus_millis(*dt, ms),
        r matches Some(d) ==> 1 <= d.month <= 12 && 1 <= d.day <= 31 && d.hour <= 23 && d.minute
            <= 59 && d.second <= 59 && d.millisecond <= 1999,
{
    let date = chrono::NaiveDate::from_ymd_opt(dt.year as i32, dt.month as u32, dt.day as u32)?;
    let time = chrono::NaiveTime::from_hms_milli_opt(
        dt.hour as u32, dt.minute as u32, dt.second as u32, dt.millisecond as u32)?;
    let delta = chrono::TimeDelta::try_milliseconds(i64::try_from(ms).ok()?)?;
    let s = chrono::NaiveDateTime::new(date, time).checked_add_signed(delta)?;
    Some(DateTime {
        year: u16::try_from(s.year()).ok()?, month: s.month() as u8, day: s.day() as u8,
        hour: s.hour() as u8, minute: s.minute() as u8, second: s.second() as u8,
        millisecond: (s.nanosecond() / 1_000_000) as u16 })
}

/// The time reference record: type `01`, then the date and time rendered as
/// readable decimal digit pairs, tenths of a second, and a trailing pad
/// nibble.
pub open spec fn spec_time_reference(dt: DateTime) -> Seq<char> {
    hex2(1) + dec_min2(dt.year as int) + dec_min2(dt.month as int) + dec_min2(dt.day as int)
        + dec_min2(dt.hour as int) + dec_min2(dt.minute as int) + dec_min2(dt.second as int)
        + dec_digits(dt.millisecond as int / 100) + seq!['0']
}

/// Builds the time reference record anchored `ms_since_beginning`
/// milliseconds after the start of the batch, or
/// [EncodeError::TimeOutOfRange](crate::EncodeError) where that moment
/// cannot be represented.
pub fn get_time_reference(start_date_time: &DateTime, ms_since_beginning: u64) -> (r: Result<
    String,
    crate::EncodeError,
>)
    ensures
        r is Ok <==> date_time_plus_millis(*start_date_time, ms_since_beginning) is Some,
        r matches Ok(s) ==> s@ == spec_time_reference(
            date_time_plus_millis(*start_date_time, ms_since_beginning)->0,
        ),
        r is Err ==> r == Err::<String, crate::EncodeError>(crate::EncodeError::TimeOutOfRange),
{
    let reference_time = match add_millis(start_date_time, ms_since_beginning) {
        Some(d) => d,
        None => {
            return Err(crate::EncodeError::TimeOutOfRange);
        },
    };
    let mut time_reference = String::new();
    push_hex2(&mut time_reference, 1);
    push_dec_min2(&mut time_reference, reference_time.year as u64);
    push_dec_min2(&mut time_reference, reference_time.month as u64);
    push_dec_min2(&mut time_reference, reference_time.day as u64);
    push_dec_min2(&mut time_reference, reference_time.hour as u64);
    push_dec_min2(&mut time_reference, reference_time.minute as u64);
    push_dec_min2(&mut time_reference, reference_time.second as u64);
    push_dec_digits(&mut time_reference, (reference_time.millisecond / 100) as u64);
    push_hex1(&mut time_reference, 0);
    proof {
        assert(time_reference@ =~= spec_time_reference(reference_time));
    }
    Ok(time_reference)
}

/// The UTF-16 code units of one character: the scalar value itself below
/// 0x10000, a surrogate pair above.
pub open spec fn utf16_units_of_char(c: char) -> Seq<u16> {
    let u = c as u32;
    if u < 0x10000 {
        seq![u as u16]
    } else {
        seq![
            (0xD800 + ((u - 0x10000) / 0x400)) as u16,
            (0xDC00 + ((u - 0x10000) % 0x400)) as u16,
        ]
    }
}

/// The UTF-16 code units of a character sequence.
pub open spec fn utf16_of(s: Seq<char>) -> Seq<u16>
    decreases s.len(),
{
    if s.len() == 0 {
        Seq::empty()
    } else {
        utf16_of(s.drop_last()) + utf16_units_of_char(s.last())
    }
}

/// Relies on str::chars: it yields exactly the characters of the string.
#[verifier::external_body]
fn chars_vec(s: &str) -> (r: Vec<char>)
    ensures
        r@ == s@,
{
    s.chars().collect()
}

/// Encodes characters as UTF-16 code units.
fn utf16_units(chars: &Vec<char>) -> (r: Vec<u16>)
    ensures
        r@ == utf16_of(chars@),
{
    let mut out: Vec<u16> = Vec::new();
    let mut i: usize = 0;
    while i < chars.len()
        invariant
            i <= chars@.len(),
            out@ == utf16_of(chars@.take(i as int)),
        decreases chars@.len() - i,
    {
        let c = chars[i];
        let u = c as u32;
        proof {
            vstd::utf8::char_is_scalar(c);
        }
        if u < 0x10000 {
            out.push(u as u16);
        } else {
            out.push((0xD800 + ((u - 0x10000) / 0x400)) as u16);
            out.push((0xDC00 + ((u - 0x10000) % 0x400)) as u16);
        }
        proof {
            assert(chars@.take(i + 1 as int).drop_last() =~= chars@.take(i as int));
            assert(chars@.take(i + 1 as int).last() == chars@[i as int]);
            assert(out@ =~= utf16_of(chars@.take(i + 1 as int)));
        }
        i += 1;
    }
    proof {
        assert(chars@.take(chars@.len() as int) =~= chars@);
    }
    out
}

/// Each code unit as a two-or-more hex digit field, in order.
pub open spec fn units_hex(units: Seq<u16>) -> Seq<char>
    decreases units.len(),
{
    if units.len() == 0 {
        Seq::empty()
    } else {
        units_hex(units.drop_last()) + hex_min2(units.last() as int)
    }
}

/// `k` padding slots, each the hex rendering `20` of an ASCII space.
pub open spec fn pad_spaces(k: int) -> Seq<char>
    decreases k,
{
    if k <= 0 {
        Seq::empty()
    } else {
        pad_spaces(k - 1) + seq!['2', '0']
    }
}

/// The identification record: type `04`, version `030000`, then the
/// controller name as UTF-16 code units rendered in hex, truncated to twenty
/// units and right-padded with spaces to exactly twenty.
pub open spec fn spec_vlog_info(name: Seq<char>) -> Seq<char> {
    let units = utf16_of(name);
    let used = if units.len() > 20 {
        units.take(20)
    } else {
        units
    };
    hex2(4) + seq!['0', '3', '0', '0', '0', '0'] + units_hex(used) + pad_spaces(20 - used.len())
}

/// Builds the identification record carrying the controller display name.
pub fn get_vlog_info(tlc_name: &str) -> (r: String)
    ensures
        r@ == spec_vlog_info(tlc_name@),
{
    let chars = chars_vec(tlc_name);
    let units = utf16_units(&chars);
    let ghost all_units = units@;
    let used_len: usize = if units.len() > 20 {
        20
    } else {
        units.len()
    };
    let ghost used = if all_units.len() > 20 {
        all_units.take(20)
    } else {
        all_units
    };
    let mut vlog_info = String::new();
    push_hex2(&mut vlog_info, 4);
    proof {
        reveal_strlit("030000");
        assert("030000"@ =~= seq!['0', '3', '0', '0', '0', '0']);
    }
    vlog_info.append("030000");
    let ghost head = hex2(4) + seq!['0', '3', '0', '0', '0', '0'];
    proof {
        assert(vlog_info@ =~= head + units_hex(all_units.take(0)));
    }
    let mut i: usize = 0;
    while i < used_len
        invariant
            used_len <= all_units.len(),
            used_len <= 20,
            used == all_units.take(used_len as int),
            units@ == all_units,
            i <= used_len,
            vlog_info@ == head + units_hex(all_units.take(i as int)),
        decreases used_len - i,
    {
        push_hex_min2(&mut vlog_info, units[i]);
        proof {
            assert(all_units.take(i + 1 as int).drop_last() =~= all_units.take(i as int));
            assert(all_units.take(i + 1 as int).last() == all_units[i as int]);
            assert(vlog_info@ =~= head + units_hex(all_units.take(i + 1 as int)));
        }
        i += 1;
    }
    proof {
        reveal_strlit("20");
        assert("20"@ =~= seq!['2', '0']);
    }
    let mut j: usize = used_len;
    while j < 20
        invariant
            used_len <= j <= 20,
            vlog_info@ == head + units_hex(used) + pad_spaces(j as int - used_len as int),
        decreases 20 - j,
    {
        vlog_info.append("20");
        proof {
            reveal_strlit("20");
            assert("20"@ =~= seq!['2', '0']);
            assert(vlog_info@ =~= head + units_hex(used) + pad_spaces(
                j + 1 as int - used_len as int,
            ));
        }
        j += 1;
    }
    proof {
        assert(vlog_info@ =~= spec_vlog_info(chars@));
    }
    vlog_info
}

/// The entry list of a change record: a two-hex-digit id and a two-hex-digit
/// protocol state code per entry, in order.
pub open spec fn spec_payload(entries: Seq<(i16, i16)>) -> Seq<char>
    decreases entries.len(),
{
    if entries.len() == 0 {
        Seq::empty()
    } else {
        spec_payload(entries.drop_last()) + hex2(entries.last().0 as int) + hex2(
            entries.last().1 as int,
        )
    }
}

/// One change record: a two-hex-digit type, the three-hex-digit delta time
/// in deciseconds, a one-hex-digit entry count, and the entry list.
pub open spec fn spec_change_record(message_type: int, delta_ds: int, entries: Seq<(i16, i16)>) -> Seq<
    char,
> {
    hex2(message_type) + hex3(delta_ds) + hex1(entries.len() as int) + spec_payload(entries)
}

/// Renders one change record from already sorted, already mapped entries.
fn build_change_record(message_type: u8, delta_ds: u16, entries: &Vec<(i16, i16)>) -> (r: String)
    requires
        delta_ds < 4096,
        entries@.len() <= 15,
        forall|i: int| 0 <= i < entries@.len() ==> entry_bounded(#[trigger] entries@[i]),
    ensures
        r@ == spec_change_record(message_type as int, delta_ds as int, entries@),
{
    let mut record = String::new();
    push_hex2(&mut record, message_type as u16);
    push_hex3(&mut record, delta_ds);
    push_hex1(&mut record, entries.len() as u8);
    let ghost head = hex2(message_type as int) + hex3(delta_ds as int) + hex1(
        entries@.len() as int,
    );
    proof {
        assert(record@ =~= head + spec_payload(entries@.take(0)));
    }
    let mut i: usize = 0;
    while i < entries.len()
        invariant
            i <= entries@.len(),
            forall|k: int| 0 <= k < entries@.len() ==> entry_bounded(#[trigger] entries@[k]),
            record@ == head + spec_payload(entries@.take(i as int)),
        decreases entries@.len() - i,
    {
        push_hex2(&mut record, entries[i].0 as u16);
        push_hex2(&mut record, entries[i].1 as u16);
        proof {
            assert(entries@.take(i + 1 as int).drop_last() =~= entries@.take(i as int));
            assert(entries@.take(i + 1 as int).last() == entries@[i as int]);
            assert(record@ =~= head + spec_payload(entries@.take(i + 1 as int)));
        }
        i += 1;
    }
    proof {
        assert(entries@.take(entries@.len() as int) =~= entries@);
        assert(record@ =~= spec_change_record(message_type as int, delta_ds as int, entries@));
    }
    record
}

/// Converts a duration in milliseconds to VLog time, which is counted in
/// deciseconds.
pub fn from_tlcfi_time_to_vlog_time(tlcfi_time: u64) -> (r: u64)
    ensures
        r == tlcfi_time / 100,
{
    tlcfi_time / 100
}

/// Every name has an entry in the mapping.
pub open spec fn all_names_known(names: Seq<String>, m: Map<Seq<char>, i16>) -> bool {
    forall|i: int| 0 <= i < names.len() ==> m.contains_key(#[trigger] names[i]@)
}

/// The (id, protocol state code) entries of a signal change set under a
/// name mapping.
pub open spec fn signal_entries(changes: TimestampedChanges, m: Map<Seq<char>, i16>) -> Seq<
    (i16, i16),
> {
    Seq::new(
        changes.signal_names@.len(),
        |i: int|
            (m[changes.signal_names@[i]@], changes.signal_states@[i].spec_to_vlog_state()),
    )
}

/// The (id, protocol state code) entries of a detector change set under a
/// name mapping.
pub open spec fn detector_entries(changes: TimestampedChanges, m: Map<Seq<char>, i16>) -> Seq<
    (i16, i16),
> {
    Seq::new(
        changes.detector_names@.len(),
        |i: int|
            (m[changes.detector_names@[i]@], changes.detector_states@[i].spec_to_vlog_state()),
    )
}

/// The delta from the last time reference is not negative and fits the
/// three-hex-digit decisecond field.
pub open spec fn delta_fits(ms: u64, last_ref: u64) -> bool {
    last_ref <= ms && (ms - last_ref) / 100 < 4096
}

/// The records a signal change set becomes: its entries sorted by id, split
/// into chunks of at most ten, each chunk one record with the set's delta
/// time.
pub open spec fn spec_signal_messages(
    changes: TimestampedChanges,
    m: Map<Seq<char>, i16>,
    last_ref: u64,
) -> Seq<Seq<char>> {
    split_entries(sort_entries(signal_entries(changes, m)), 10).map_values(
        |chunk: Seq<(i16, i16)>|
            spec_change_record(0x0E, (changes.ms_from_beginning - last_ref) / 100, chunk),
    )
}

/// The single record a detector change set becomes: its entries sorted by
/// id, with the set's delta time.
pub open spec fn spec_detector_message(
    changes: TimestampedChanges,
    m: Map<Seq<char>, i16>,
    last_ref: u64,
) -> Seq<char> {
    spec_change_record(
        0x06,
        (changes.ms_from_beginning - last_ref) / 100,
        sort_entries(detector_entries(changes, m)),
    )
}

/// Turns one signal change set into its change records: entries sorted
/// ascending by mapped id and split across consecutive records of at most
/// ten entries, all carrying the same delta time.
pub fn transform_signal_changes(
    signal_changes: &TimestampedChanges,
    vlog_signal_name_mapping: &NameMapping,
    ms_of_last_time_reference: u64,
) -> (r: Result<Vec<String>, EncodeError>)
    requires
        signal_changes.wf(),
        vlog_signal_name_mapping.wf(),
    ensures
        r is Ok <==> delta_fits(signal_changes.ms_from_beginning, ms_of_last_time_reference)
            && all_names_known(signal_changes.signal_names@, vlog_signal_name_mapping@),
        !delta_fits(signal_changes.ms_from_beginning, ms_of_last_time_reference) ==> r == Err::<
            Vec<String>,
            EncodeError,
        >(EncodeError::DeltaOverflow),
        delta_fits(signal_changes.ms_from_beginning, ms_of_last_time_reference)
            && !all_names_known(signal_changes.signal_names@, vlog_signal_name_mapping@) ==> r
            == Err::<Vec<String>, EncodeError>(EncodeError::UnknownName),
        r matches Ok(v) ==> v@.map_values(|s: String| s@) == spec_signal_messages(
            *signal_changes,
            vlog_signal_name_mapping@,
            ms_of_last_time_reference,
        ),
{
    if signal_changes.ms_from_beginning < ms_of_last_time_reference {
        return Err(EncodeError::DeltaOverflow);
    }
    let delta = from_tlcfi_time_to_vlog_time(
        signal_changes.ms_from_beginning - ms_of_last_time_reference,
    );
    if delta >= 4096 {
        return Err(EncodeError::DeltaOverflow);
    }
    let ghost m = vlog_signal_name_mapping@;
    let ghost want = signal_entries(*signal_changes, m);
    let mut entries: Vec<(i16, i16)> = Vec::new();
    let mut i: usize = 0;
    while i < signal_changes.signal_names.len()
        invariant
            signal_changes.wf(),
            vlog_signal_name_mapping.wf(),
            delta_fits(signal_changes.ms_from_beginning, ms_of_last_time_reference),
            m == vlog_signal_name_mapping@,
            want == signal_entries(*signal_changes, m),
            i <= signal_changes.signal_names@.len(),
            forall|k: int|
                0 <= k < i ==> m.contains_key(#[trigger] signal_changes.signal_names@[k]@),
            entries@ == want.take(i as int),
            forall|k: int| 0 <= k < i ==> entry_bounded(#[trigger] entries@[k]),
        decreases signal_changes.signal_names@.len() - i,
    {
        let id = match vlog_signal_name_mapping.lookup(signal_changes.signal_names[i].as_str()) {
            Some(id) => id,
            None => {
                return Err(EncodeError::UnknownName);
            },
        };
        entries.push((id, signal_changes.signal_states[i].to_vlog_state()));
        proof {
            assert(entries@ =~= want.take(i + 1 as int));
        }
        i += 1;
    }
    proof {
        assert(entries@ =~= want);
    }
    let sorted = sort_entries_exec(&entries);
    let chunks = split_changes_on_data_limit_signal(&sorted, 4);
    let ghost spec_chunks = split_entries(sort_entries(want), 10);
    proof {
        assert(40 as int / 4 as int == 10);
        lemma_sort_entries_bounded(entries@);
        lemma_split_entries_bounded(sorted@, 10);
        lemma_split_entries_sizes(sorted@, 10);
        assert(chunks@.map_values(|v: Vec<(i16, i16)>| v@) == spec_chunks);
        assert forall|k: int| 0 <= k < chunks@.len() implies (#[trigger] chunks@[k])@.len()
            <= 10 by {
            assert(chunks@.map_values(|v: Vec<(i16, i16)>| v@)[k] == chunks@[k]@);
        }
        assert forall|k: int, l: int|
            0 <= k < chunks@.len() && 0 <= l < chunks@[k]@.len() implies entry_bounded(
            #[trigger] chunks@[k]@[l]) by {
            assert(chunks@.map_values(|v: Vec<(i16, i16)>| v@)[k] == chunks@[k]@);
            assert(spec_chunks[k][l] == chunks@[k]@[l]);
        }
    }
    let ghost expected = spec_signal_messages(*signal_changes, m, ms_of_last_time_reference);
    let mut messages: Vec<String> = Vec::new();
    let mut j: usize = 0;
    while j < chunks.len()
        invariant
            j <= chunks@.len(),
            delta < 4096,
            delta == (signal_changes.ms_from_beginning - ms_of_last_time_reference) / 100,
            chunks@.map_values(|v: Vec<(i16, i16)>| v@) == spec_chunks,
            expected == spec_chunks.map_values(
                |chunk: Seq<(i16, i16)>| spec_change_record(0x0E, delta as int, chunk),
            ),
            forall|k: int| 0 <= k < chunks@.len() ==> (#[trigger] chunks@[k])@.len() <= 10,
            forall|k: int, l: int|
                0 <= k < chunks@.len() && 0 <= l < chunks@[k]@.len() ==> entry_bounded(
                    #[trigger] chunks@[k]@[l],
                ),
            messages@.len() == j as int,
            forall|k: int| 0 <= k < j ==> (#[trigger] messages@[k])@ == expected[k],
        decreases chunks@.len() - j,
    {
        proof {
            assert(chunks@.map_values(|v: Vec<(i16, i16)>| v@)[j as int] == chunks@[j as int]@);
            assert(chunks@[j as int]@ == spec_chunks[j as int]);
            assert(expected[j as int] == spec_change_record(
                0x0E,
                delta as int,
                spec_chunks[j as int],
            ));
        }
        let record = build_change_record(0x0E, delta as u16, &chunks[j]);
        messages.push(record);
        proof {
            assert(messages@[j as int]@ == expected[j as int]);
        }
        j += 1;
    }
    proof {
        assert(messages@.map_values(|s: String| s@) =~= expected);
    }
    Ok(messages)
}

/// Turns one detector change set into its single change record, entries
/// sorted ascending by mapped id.
pub fn transform_detector_changes(
    detector_changes: &TimestampedChanges,
    vlog_detector_name_mapping: &NameMapping,
    ms_of_last_time_reference: u64,
) -> (r: Result<String, EncodeError>)
    requires
        detector_changes.wf(),
        vlog_detector_name_mapping.wf(),
    ensures
        r is Ok <==> delta_fits(detector_changes.ms_from_beginning, ms_of_last_time_reference)
            && detector_changes.detector_names@.len() <= 15 && all_names_known(
            detector_changes.detector_names@,
            vlog_detector_name_mapping@,
        ),
        !delta_fits(detector_changes.ms_from_beginning, ms_of_last_time_reference) ==> r == Err::<
            String,
            EncodeError,
        >(EncodeError::DeltaOverflow),
        delta_fits(detector_changes.ms_from_beginning, ms_of_last_time_reference)
            && detector_changes.detector_names@.len() > 15 ==> r == Err::<String, EncodeError>(
            EncodeError::TooManyEntries,
        ),
        delta_fits(detector_changes.ms_from_beginning, ms_of_last_time_reference)
            && detector_changes.detector_names@.len() <= 15 && !all_names_known(
            detector_changes.detector_names@,
            vlog_detector_name_mapping@,
        ) ==> r == Err::<String, EncodeError>(EncodeError::UnknownName),
        r matches Ok(s) ==> s@ == spec_detector_message(
            *detector_changes,
            vlog_detector_name_mapping@,
            ms_of_last_time_reference,
        ),
{
    if detector_changes.ms_from_beginning < ms_of_last_time_reference {
        return Err(EncodeError::DeltaOverflow);
    }
    let delta = from_tlcfi_time_to_vlog_time(
        detector_changes.ms_from_beginning - ms_of_last_time_reference,
    );
    if delta >= 4096 {
        return Err(EncodeError::DeltaOverflow);
    }
    if detector_changes.detector_names.len() > 15 {
        return Err(EncodeError::TooManyEntries);
    }
    let ghost m = vlog_detector_name_mapping@;
    let ghost want = detector_entries(*detector_changes, m);
    let mut entries: Vec<(i16, i16)> = Vec::new();
    let mut i: usize = 0;
    while i < detector_changes.detector_names.len()
        invariant
            detector_changes.wf(),
            vlog_detector_name_mapping.wf(),
            delta_fits(detector_changes.ms_from_beginning, ms_of_last_time_reference),
            detector_changes.detector_names@.len() <= 15,
            m == vlog_detector_name_mapping@,
            want == detector_entries(*detector_changes, m),
            i <= detector_changes.detector_names@.len(),
            forall|k: int|
                0 <= k < i ==> m.contains_key(#[trigger] detector_changes.detector_names@[k]@),
            entries@ == want.take(i as int),
            forall|k: int| 0 <= k < i ==> entry_bounded(#[trigger] entries@[k]),
        decreases detector_changes.detector_names@.len() - i,
    {
        let id = match vlog_detector_name_mapping.lookup(
            detector_changes.detector_names[i].as_str(),
        ) {
            Some(id) => id,
            None => {
                return Err(EncodeError::UnknownName);
            },
        };
        entries.push((id, detector_changes.detector_states[i].to_vlog_state()));
        proof {
            assert(entries@ =~= want.take(i + 1 as int));
        }
        i += 1;
    }
    proof {
        assert(entries@ =~= want);
        lemma_sort_entries_bounded(entries@);
        lemma_sort_entries_multiset(entries@);
    }
    let sorted = sort_entries_exec(&entries);
    let record = build_change_record(0x06, delta as u16, &sorted);
    Ok(record)
}

/// The records one change set contributes, measured against the last time
/// reference, or the error that stops the batch.
pub open spec fn spec_msgs_for_set(
    set: TimestampedChanges,
    smap: Map<Seq<char>, i16>,
    dmap: Map<Seq<char>, i16>,
    last_ref: u64,
) -> Result<Seq<Seq<char>>, EncodeError> {
    if set.signal_names@.len() > 0 {
        if !delta_fits(set.ms_from_beginning, last_ref) {
            Err(EncodeError::DeltaOverflow)
        } else if !all_names_known(set.signal_names@, smap) {
            Err(EncodeError::UnknownName)
        } else {
            Ok(spec_signal_messages(set, smap, last_ref))
        }
    } else if set.detector_names@.len() > 0 {
        if !delta_fits(set.ms_from_beginning, last_ref) {
            Err(EncodeError::DeltaOverflow)
        } else if set.detector_names@.len() > 15 {
            Err(EncodeError::TooManyEntries)
        } else if !all_names_known(set.detector_names@, dmap) {
            Err(EncodeError::UnknownName)
        } else {
            Ok(seq![spec_detector_message(set, dmap, last_ref)])
        }
    } else {
        Ok(Seq::empty())
    }
}

/// Five minutes or more have passed since the last time reference.
pub open spec fn needs_time_reference(set_ms: u64, last_ref: u64) -> bool {
    set_ms - last_ref >= TIME_REFERENCE_INTERVAL_IN_S * 1000
}

/// The change and time-reference records for an ordered tail of change
/// sets, given the elapsed time of the last emitted time reference.
pub open spec fn spec_to_vlog_rec(
    sets: Seq<TimestampedChanges>,
    smap: Map<Seq<char>, i16>,
    dmap: Map<Seq<char>, i16>,
    start: DateTime,
    last_ref: u64,
) -> Result<Seq<Seq<char>>, EncodeError>
    decreases sets.len(),
{
    if sets.len() == 0 {
        Ok(Seq::empty())
    } else {
        let set = sets[0];
        if needs_time_reference(set.ms_from_beginning, last_ref) {
            match date_time_plus_millis(start, set.ms_from_beginning) {
                None => Err(EncodeError::TimeOutOfRange),
                Some(d) => match spec_msgs_for_set(set, smap, dmap, set.ms_from_beginning) {
                    Err(e) => Err(e),
                    Ok(msgs) => match spec_to_vlog_rec(
                        sets.drop_first(),
                        smap,
                        dmap,
                        start,
                        set.ms_from_beginning,
                    ) {
                        Err(e) => Err(e),
                        Ok(more) => Ok(seq![spec_time_reference(d)] + msgs + more),
                    },
                },
            }
        } else {
            match spec_msgs_for_set(set, smap, dmap, last_ref) {
                Err(e) => Err(e),
                Ok(msgs) => match spec_to_vlog_rec(sets.drop_first(), smap, dmap, start, last_ref) {
                    Err(e) => Err(e),
                    Ok(more) => Ok(msgs + more),
                },
            }
        }
    }
}

/// The whole output of the pipeline: a time reference anchored at elapsed
/// time zero, the identification record, then the change records in order.
pub open spec fn spec_to_vlog(
    sets: Seq<TimestampedChanges>,
    smap: Map<Seq<char>, i16>,
    dmap: Map<Seq<char>, i16>,
    start: DateTime,
    name: Seq<char>,
) -> Result<Seq<Seq<char>>, EncodeError> {
    match date_time_plus_millis(start, 0) {
        None => Err(EncodeError::TimeOutOfRange),
        Some(d0) => match spec_to_vlog_rec(sets, smap, dmap, start, 0) {
            Err(e) => Err(e),
            Ok(msgs) => Ok(seq![spec_time_reference(d0), spec_vlog_info(name)] + msgs),
        },
    }
}

/// Builds the header block that precedes all change records: the initial
/// time reference and the identification record.
pub fn insert_vlog_statuses(start_date_time: &DateTime, tlc_name: &str) -> (r: Result<
    Vec<String>,
    EncodeError,
>)
    ensures
        r is Ok <==> date_time_plus_millis(*start_date_time, 0) is Some,
        r matches Ok(v) ==> v@.len() == 2 && v@[0]@ == spec_time_reference(
            date_time_plus_millis(*start_date_time, 0)->0,
        ) && v@[1]@ == spec_vlog_info(tlc_name@),
        r is Err ==> r == Err::<Vec<String>, EncodeError>(EncodeError::TimeOutOfRange),
{
    let time_reference = match get_time_reference(start_date_time, 0) {
        Ok(s) => s,
        Err(e) => {
            return Err(e);
        },
    };
    let vlog_info = get_vlog_info(tlc_name);
    let mut statuses: Vec<String> = Vec::new();
    statuses.push(time_reference);
    statuses.push(vlog_info);
    Ok(statuses)
}

/// Transforms the given ordered change sets into the full ordered list of
/// VLog3 messages: the header block first, then each set's change records,
/// with a fresh time reference whenever five minutes have passed since the
/// last one.
pub fn to_vlog(
    timestamped_changes_vec: Vec<TimestampedChanges>,
    start_date_time: &DateTime,
    vlog_signal_name_mapping: &NameMapping,
    vlog_detector_name_mapping: &NameMapping,
    tlc_name: &str,
) -> (r: Result<Vec<String>, EncodeError>)
    requires
        forall|i: int|
            0 <= i < timestamped_changes_vec@.len() ==> (#[trigger] timestamped_changes_vec@[i]).wf(),
        vlog_signal_name_mapping.wf(),
        vlog_detector_name_mapping.wf(),
    ensures
        r matches Ok(v) ==> spec_to_vlog(
            timestamped_changes_vec@,
            vlog_signal_name_mapping@,
            vlog_detector_name_mapping@,
            *start_date_time,
            tlc_name@,
        ) == Ok::<Seq<Seq<char>>, EncodeError>(v@.map_values(|s: String| s@)),
        r matches Err(e) ==> spec_to_vlog(
            timestamped_changes_vec@,
            vlog_signal_name_mapping@,
            vlog_detector_name_mapping@,
            *start_date_time,
            tlc_name@,
        ) == Err::<Seq<Seq<char>>, EncodeError>(e),
{
    let ghost sets = timestamped_changes_vec@;
    let ghost smap = vlog_signal_name_mapping@;
    let ghost dmap = vlog_detector_name_mapping@;
    let mut vlog_messages: Vec<String> = match insert_vlog_statuses(start_date_time, tlc_name) {
        Ok(v) => v,
        Err(e) => {
            return Err(e);
        },
    };
    let mut ms_of_last_time_reference: u64 = 0;
    let mut i: usize = 0;
    proof {
        assert(sets.skip(0) =~= sets);
        assert(vlog_messages@.map_values(|s: String| s@) =~= seq![
            spec_time_reference(date_time_plus_millis(*start_date_time, 0)->0),
            spec_vlog_info(tlc_name@),
        ]);
    }
    while i < timestamped_changes_vec.len()
        invariant
            timestamped_changes_vec@ == sets,
            smap == vlog_signal_name_mapping@,
            dmap == vlog_detector_name_mapping@,
            vlog_signal_name_mapping.wf(),
            vlog_detector_name_mapping.wf(),
            forall|k: int| 0 <= k < sets.len() ==> (#[trigger] sets[k]).wf(),
            i <= sets.len(),
            spec_to_vlog_rec(sets.skip(i as int), smap, dmap, *start_date_time,
                ms_of_last_time_reference) matches Ok(more) ==> spec_to_vlog(
                    sets, smap, dmap, *start_date_time, tlc_name@,
                ) == Ok::<Seq<Seq<char>>, EncodeError>(
                    vlog_messages@.map_values(|s: String| s@) + more,
                ),
            forall|e: EncodeError|
                spec_to_vlog_rec(sets.skip(i as int), smap, dmap, *start_date_time,
                    ms_of_last_time_reference) == Err::<Seq<Seq<char>>, EncodeError>(e)
                    ==> spec_to_vlog(sets, smap, dmap, *start_date_time, tlc_name@)
                    == Err::<Seq<Seq<char>>, EncodeError>(e),
        decreases sets.len() - i,
    {
        let ghost tail = sets.skip(i as int);
        let ghost cur = sets[i as int];
        let ghost old_last = ms_of_last_time_reference;
        let ghost old_map = vlog_messages@.map_values(|s: String| s@);
        proof {
            assert(tail[0] == cur);
            assert(tail.drop_first() =~= sets.skip(i + 1 as int));
        }
        let needs_ref = timestamped_changes_vec[i].ms_from_beginning >= ms_of_last_time_reference
            && timestamped_changes_vec[i].ms_from_beginning - ms_of_last_time_reference
            >= TIME_REFERENCE_INTERVAL_IN_S * 1000;
        proof {
            assert(needs_ref == needs_time_reference(cur.ms_from_beginning, old_last));
        }
        let ghost mut ref_part = Seq::<Seq<char>>::empty();
        if needs_ref {
            let time_reference = match get_time_reference(
                start_date_time,
                timestamped_changes_vec[i].ms_from_beginning,
            ) {
                Ok(s) => s,
                Err(e) => {
                    return Err(e);
                },
            };
            proof {
                ref_part = seq![time_reference@];
            }
            vlog_messages.push(time_reference);
            ms_of_last_time_reference = timestamped_changes_vec[i].ms_from_beginning;
        }
        let ghost before_set = vlog_messages@.map_values(|s: String| s@);
        proof {
            assert(before_set =~= old_map + ref_part);
        }
        let ghost mut set_msgs = Seq::<Seq<char>>::empty();
        if !timestamped_changes_vec[i].signal_names.is_empty() {
            let mut msgs = match transform_signal_changes(
                &timestamped_changes_vec[i],
                vlog_signal_name_mapping,
                ms_of_last_time_reference,
            ) {
                Ok(v) => v,
                Err(e) => {
                    return Err(e);
                },
            };
            proof {
                set_msgs = msgs@.map_values(|s: String| s@);
                assert(spec_msgs_for_set(cur, smap, dmap, ms_of_last_time_reference)
                    == Ok::<Seq<Seq<char>>, EncodeError>(set_msgs));
            }
            vlog_messages.append(&mut msgs);
            proof {
                assert(vlog_messages@.map_values(|s: String| s@) =~= before_set + set_msgs);
            }
        } else if !timestamped_changes_vec[i].detector_names.is_empty() {
            let msg = match transform_detector_changes(
                &timestamped_changes_vec[i],
                vlog_detector_name_mapping,
                ms_of_last_time_reference,
            ) {
                Ok(s) => s,
                Err(e) => {
                    return Err(e);
                },
            };
            proof {
                set_msgs = seq![msg@];
                assert(spec_msgs_for_set(cur, smap, dmap, ms_of_last_time_reference)
                    == Ok::<Seq<Seq<char>>, EncodeError>(set_msgs));
            }
            vlog_messages.push(msg);
            proof {
                assert(vlog_messages@.map_values(|s: String| s@) =~= before_set + set_msgs);
            }
        } else {
            proof {
                assert(spec_msgs_for_set(cur, smap, dmap, ms_of_last_time_reference)
                    == Ok::<Seq<Seq<char>>, EncodeError>(set_msgs));
                assert(vlog_messages@.map_values(|s: String| s@) =~= before_set + set_msgs);
            }
        }
        proof {
            let rec_cur = spec_to_vlog_rec(tail, smap, dmap, *start_date_time, old_last);
            let rec_next = spec_to_vlog_rec(
                sets.skip(i + 1 as int),
                smap,
                dmap,
                *start_date_time,
                ms_of_last_time_reference,
            );
            let new_map = vlog_messages@.map_values(|s: String| s@);
            match rec_next {
                Ok(more2) => {
                    if needs_ref {
                        assert(rec_cur == Ok::<Seq<Seq<char>>, EncodeError>(
                            ref_part + set_msgs + more2,
                        ));
                        assert(old_map + (ref_part + set_msgs + more2) =~= new_map + more2);
                    } else {
                        assert(rec_cur == Ok::<Seq<Seq<char>>, EncodeError>(set_msgs + more2));
                        assert(old_map + (set_msgs + more2) =~= new_map + more2);
                    }
                },
                Err(_) => {
                    assert(rec_cur == rec_next);
                },
            }
        }
        i += 1;
    }
    proof {
        assert(sets.skip(sets.len() as int) =~= Seq::<TimestampedChanges>::empty());
        assert(spec_to_vlog_rec(sets.skip(sets.len() as int), smap, dmap, *start_date_time,
            ms_of_last_time_reference) == Ok::<Seq<Seq<char>>, EncodeError>(
            Seq::<Seq<char>>::empty()));
        assert(vlog_messages@.map_values(|s: String| s@) + Seq::<Seq<char>>::empty()
            =~= vlog_messages@.map_values(|s: String| s@));
    }
    Ok(vlog_messages)
}

/// What the splitting and sorting of a signal change set guarantee: all
/// records carry the set's one delta time; their entry lists are chunks of
/// at most ten entries that concatenate, in order, to the set's entries
/// sorted ascending by mapped id; and those sorted entries are exactly the
/// set's entries, counted with multiplicity, so nothing is duplicated or
/// lost, and entries sharing one id keep their original order. Ascending
/// order therefore holds within every record and across the split boundary.
pub proof fn lemma_signal_messages_shape(
    changes: TimestampedChanges,
    m: Map<Seq<char>, i16>,
    last_ref: u64,
)
    ensures
        ({
            let entries = signal_entries(changes, m);
            let sorted = sort_entries(entries);
            let chunks = split_entries(sorted, 10);
            let delta = (changes.ms_from_beginning - last_ref) / 100;
            &&& spec_signal_messages(changes, m, last_ref).len() == chunks.len()
            &&& forall|i: int|
                0 <= i < chunks.len() ==> spec_signal_messages(changes, m, last_ref)[i]
                    == spec_change_record(0x0E, delta, #[trigger] chunks[i])
            &&& chunks.flatten() == sorted
            &&& forall|i: int| 0 <= i < chunks.len() ==> (#[trigger] chunks[i]).len() <= 10
            &&& crate::entry_sort::sorted_by_id(sorted)
            &&& forall|i: int|
                0 <= i < chunks.len() ==> crate::entry_sort::sorted_by_id(#[trigger] chunks[i])
            &&& sorted.to_multiset() == entries.to_multiset()
            &&& forall|id: i16| sorted.filter(crate::entry_sort::has_id(id)) == entries.filter(
                #[trigger] crate::entry_sort::has_id(id),
            )
            &&& chunks.len() == (if entries.len() == 0 {
                1int
            } else {
                (entries.len() - 1) as int / 10 + 1
            })
        }),
{
    let entries = signal_entries(changes, m);
    let sorted = sort_entries(entries);
    let chunks = split_entries(sorted, 10);
    crate::entry_sort::lemma_sort_entries_sorted(entries);
    crate::entry_sort::lemma_sort_entries_multiset(entries);
    crate::entry_sort::lemma_split_entries_flatten(sorted, 10);
    crate::entry_sort::lemma_split_entries_sizes(sorted, 10);
    crate::entry_sort::lemma_split_entries_sorted(sorted, 10);
    crate::entry_sort::lemma_split_entries_count(sorted, 10);
    assert forall|id: i16|
        sorted.filter(crate::entry_sort::has_id(id)) == entries.filter(
            #[trigger] crate::entry_sort::has_id(id),
        ) by {
        crate::entry_sort::lemma_sort_entries_stable(entries, id);
    }
}

/// The pipeline's output is a function of its inputs alone: re-running it on
/// an identical, already-ordered input list yields identical output.
pub proof fn lemma_to_vlog_deterministic(
    sets: Seq<TimestampedChanges>,
    smap: Map<Seq<char>, i16>,
    dmap: Map<Seq<char>, i16>,
    start: DateTime,
    name: Seq<char>,
    v1: Seq<Seq<char>>,
    v2: Seq<Seq<char>>,
)
    requires
        spec_to_vlog(sets, smap, dmap, start, name) == Ok::<Seq<Seq<char>>, EncodeError>(v1),
        spec_to_vlog(sets, smap, dmap, start, name) == Ok::<Seq<Seq<char>>, EncodeError>(v2),
    ensures
        v1 == v2,
{
}

} // verus!

