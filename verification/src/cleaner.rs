//! Per-entry evaluation: split a filename at its first `.`, parse the
//! timestamp prefix, compute the entry's age against a given current time,
//! and report whether the entry is due for deletion or why it was skipped.

use vstd::arithmetic::div_mod::lemma_div_is_ordered;
use vstd::arithmetic::div_mod::lemma_div_pos_is_pos;
use vstd::arithmetic::div_mod::lemma_fundamental_div_mod;
use vstd::arithmetic::div_mod::lemma_fundamental_div_mod_converse;
use vstd::arithmetic::div_mod::lemma_div_nonincreasing;
use vstd::prelude::*;
use vstd::string::StringSliceAdditionalSpecFns;
use vstd::utf8::encode_utf8;

use crate::decision::is_due_for_deletion;
use crate::decision::spec_due;
use crate::timestamp::epoch_seconds;
use crate::timestamp::parse_timestamp;
use crate::timestamp::spec_epoch_seconds;
use crate::timestamp::spec_timestamp_of;
use crate::timestamp::spec_valid_timestamp;

verus! {

/// Byte of the ASCII full stop that ends the timestamp prefix.
pub const DOT: u8 = 46;

/// Seconds in one day.
pub const SECONDS_PER_DAY: u64 = 86400;

/// Length of the prefix before the first `.`: the whole length when no
/// byte is a `.`.
pub open spec fn spec_stem_len(s: Seq<u8>) -> int
    decreases s.len(),
{
    if s.len() == 0 {
        0
    } else if s[0] == DOT {
        0
    } else {
        1 + spec_stem_len(s.subrange(1, s.len() as int))
    }
}

/// The prefix before the first `.`: the timestamp candidate.
pub open spec fn spec_stem(s: Seq<u8>) -> Seq<u8> {
    s.subrange(0, spec_stem_len(s))
}

/// A scan that saw no `.` before `k` and a `.` (or the end) at `k` found
/// the stem length.
proof fn lemma_stem_len_from_scan(s: Seq<u8>, k: int)
    requires
        0 <= k <= s.len(),
        forall|j: int| 0 <= j < k ==> s[j] != DOT,
        k < s.len() ==> s[k] == DOT,
    ensures
        spec_stem_len(s) == k,
    decreases s.len(),
{
    if s.len() == 0 {
    } else if s[0] == DOT {
        assert(k == 0);
    } else {
        let tail = s.subrange(1, s.len() as int);
        assert(forall|j: int| 0 <= j < k - 1 ==> tail[j] == s[j + 1] && s[j + 1] != DOT);
        assert(k - 1 < tail.len() ==> tail[k - 1] == s[k]);
        lemma_stem_len_from_scan(tail, k - 1);
    }
}

/// Index of the first `.` in the bytes, or their length when none occurs.
fn stem_len(s: &[u8]) -> (k: usize)
    ensures
        k == spec_stem_len(s@),
        k <= s@.len(),
{
    let n = s.len();
    let mut i: usize = 0;
    while i < n && s[i] != DOT
        invariant
            i <= n,
            n == s@.len(),
            forall|j: int| 0 <= j < i ==> s@[j] != DOT,
        decreases n - i,
    {
        i = i + 1;
    }
    proof {
        lemma_stem_len_from_scan(s@, i as int);
    }
    i
}

/// The age in whole days that `now` sees in an instant `epoch` seconds
/// from the Unix epoch: the difference rounded down, so an instant less
/// than a full day in the past has age 0 and one in the future has a
/// negative age.
pub open spec fn spec_age_days(now: int, epoch: int) -> int {
    (now - epoch) / (SECONDS_PER_DAY as int)
}

/// Computes the age in whole days, rounding down, of an instant
/// `timestamp_seconds` from the Unix epoch as seen at `now_seconds`.
pub fn age_days(now_seconds: i64, timestamp_seconds: i64) -> (age: i64)
    ensures
        age == spec_age_days(now_seconds as int, timestamp_seconds as int),
{
    let diff: i128 = now_seconds as i128 - timestamp_seconds as i128;
    if diff >= 0 {
        let q: u128 = (diff as u128) / (SECONDS_PER_DAY as u128);
        proof {
            lemma_div_pos_is_pos(diff as int, SECONDS_PER_DAY as int);
            lemma_div_nonincreasing(diff as int, SECONDS_PER_DAY as int);
        }
        q as i64
    } else {
        let p: u128 = (-diff) as u128;
        let q: u128 = (p + (SECONDS_PER_DAY - 1) as u128) / (SECONDS_PER_DAY as u128);
        proof {
            let day = SECONDS_PER_DAY as int;
            let pi = p as int;
            let qi = q as int;
            lemma_fundamental_div_mod(pi + day - 1, day);
            let rr = (pi + day - 1) % day;
            lemma_fundamental_div_mod_converse(diff as int, day, -qi, day - 1 - rr);
            lemma_div_pos_is_pos(pi + day - 1, day);
            lemma_div_is_ordered(pi + day - 1, 0x10000000000000000 + day - 1, day);
        }
        -(q as i64)
    }
}

/// Why an entry was skipped rather than judged: the filename is empty and
/// holds no timestamp candidate, or its candidate does not spell a
/// timestamp. Either way the offending filename is kept for diagnostics.
#[derive(Debug)]
pub enum EntryError {
    Format { filename: String },
    Parse { filename: String },
}

impl EntryError {
    /// The filename the skipped entry had.
    pub fn filename(&self) -> (r: &String)
        ensures
            (self matches EntryError::Format { filename: f } ==> r@ == f@)
                && (self matches EntryError::Parse { filename: f } ==> r@ == f@),
    {
        match self {
            EntryError::Format { filename } => filename,
            EntryError::Parse { filename } => filename,
        }
    }
}

/// The filename's timestamp candidate spells a timestamp.
pub open spec fn spec_name_valid(name: Seq<u8>) -> bool {
    spec_valid_timestamp(spec_stem(name))
}

/// Seconds from the Unix epoch to the instant the filename's timestamp
/// candidate spells; meaningful when `spec_name_valid(name)`.
pub open spec fn spec_name_epoch_seconds(name: Seq<u8>) -> int {
    spec_epoch_seconds(spec_timestamp_of(spec_stem(name)))
}

/// An entry of this name is due for deletion at time `now` under
/// `threshold`: the name spells a timestamp, and the age it gives the
/// entry is strictly positive and at least the threshold.
pub open spec fn spec_name_due(name: Seq<u8>, now: int, threshold: int) -> bool {
    &&& spec_name_valid(name)
    &&& spec_due(spec_age_days(now, spec_name_epoch_seconds(name)), threshold)
}

/// Judges one entry by its filename, as seen at `now_seconds` (seconds
/// from the Unix epoch): `Ok(true)` when it is due for deletion,
/// `Ok(false)` when it is to be kept, and an error naming the file when
/// the filename is empty or its timestamp candidate does not parse.
pub fn evaluate_entry(filename: &str, now_seconds: i64, threshold: u16) -> (r: Result<
    bool,
    EntryError,
>)
    ensures
        filename.spec_bytes().len() == 0 ==> (r matches Err(EntryError::Format { filename: f })
            && f@ == filename@),
        filename.spec_bytes().len() > 0 && !spec_name_valid(filename.spec_bytes()) ==> (r matches
            Err(EntryError::Parse { filename: f }) && f@ == filename@),
        spec_name_valid(filename.spec_bytes()) ==> (r matches Ok(due) && due == spec_name_due(
            filename.spec_bytes(),
            now_seconds as int,
            threshold as int,
        )),
{
    let bytes = filename.as_bytes();
    if bytes.len() == 0 {
        return Err(EntryError::Format { filename: filename.to_owned() });
    }
    let k: usize = stem_len(bytes);
    let stem = &bytes[0..k];
    match parse_timestamp(stem) {
        None => Err(EntryError::Parse { filename: filename.to_owned() }),
        Some(ts) => {
            let epoch: i64 = epoch_seconds(ts);
            let age: i64 = age_days(now_seconds, epoch);
            Ok(is_due_for_deletion(age, threshold))
        },
    }
}

/// Relies on `chrono::Utc::now` and `chrono::DateTime::timestamp`: whole
/// seconds from the Unix epoch by the system clock. Nothing is promised of
/// the value, since the clock may say anything; `Utc::now` panics on a
/// system clock set before the epoch.
#[verifier::external_body]
fn now_utc_seconds() -> i64 {
    chrono::Utc::now().timestamp()
}

/// Judges one entry by its filename, as [`evaluate_entry`] does, taking
/// the current time from the system clock. Which filenames are rejected
/// does not depend on the clock; a verdict on a well-formed filename is
/// the deletion rule's verdict at whatever time the clock gave.
pub fn evaluate_entry_now(filename: &str, threshold: u16) -> (r: Result<bool, EntryError>)
    ensures
        filename.spec_bytes().len() == 0 ==> (r matches Err(EntryError::Format { filename: f })
            && f@ == filename@),
        filename.spec_bytes().len() > 0 && !spec_name_valid(filename.spec_bytes()) ==> (r matches
            Err(EntryError::Parse { filename: f }) && f@ == filename@),
        spec_name_valid(filename.spec_bytes()) ==> (r matches Ok(due) && exists|now: int|
            due == spec_name_due(filename.spec_bytes(), now, threshold as int)),
{
    let now: i64 = now_utc_seconds();
    let r = evaluate_entry(filename, now, threshold);
    proof {
        if spec_name_valid(filename.spec_bytes()) {
            assert(r matches Ok(due) && due == spec_name_due(
                filename.spec_bytes(),
                now as int,
                threshold as int,
            ));
        }
    }
    r
}

/// How many of the filenames, taken as the UTF-8 bytes of their text, name
/// entries due for deletion at time `now` under `threshold`.
pub open spec fn spec_count_due(names: Seq<Seq<char>>, now: int, threshold: int) -> int
    decreases names.len(),
{
    if names.len() == 0 {
        0
    } else {
        spec_count_due(names.drop_last(), now, threshold) + if spec_name_due(
            encode_utf8(names.last()),
            now,
            threshold,
        ) {
            1int
        } else {
            0int
        }
    }
}

/// The view of a list of filenames: each as its text.
pub open spec fn spec_names_of(filenames: Seq<String>) -> Seq<Seq<char>> {
    filenames.map_values(|s: String| s@)
}

/// Counts the filenames that name entries due for deletion at
/// `now_seconds` under `threshold`: the count a run over these entries
/// reports when every deletion it attempts succeeds. Empty and unparsable
/// filenames are not counted.
pub fn count_due(filenames: &Vec<String>, now_seconds: i64, threshold: u16) -> (count: usize)
    ensures
        count == spec_count_due(spec_names_of(filenames@), now_seconds as int, threshold as int),
        count <= filenames@.len(),
{
    let ghost names = spec_names_of(filenames@);
    let mut count: usize = 0;
    let mut i: usize = 0;
    while i < filenames.len()
        invariant
            i <= filenames@.len(),
            count <= i,
            names == spec_names_of(filenames@),
            count == spec_count_due(names.take(i as int), now_seconds as int, threshold as int),
        decreases filenames@.len() - i,
    {
        let verdict = evaluate_entry(filenames[i].as_str(), now_seconds, threshold);
        proof {
            assert(names.take(i + 1).drop_last() =~= names.take(i as int));
            assert(names.take(i + 1).last() == names[i as int]);
        }
        match verdict {
            Ok(true) => {
                count = count + 1;
            },
            Ok(false) => {
            },
            Err(_) => {
            },
        }
        i = i + 1;
    }
    proof {
        assert(names.take(filenames@.len() as int) =~= names);
    }
    count
}

/// The subset of the names that are due for deletion at time `now` under
/// `threshold`: what one run over entries of these names deletes when
/// every deletion it attempts succeeds.
pub open spec fn spec_due_names(names: Set<Seq<u8>>, now: int, threshold: int) -> Set<Seq<u8>> {
    names.filter(|n: Seq<u8>| spec_name_due(n, now, threshold))
}

/// Law: no entry is deleted twice. A run over a directory deletes the due
/// names and leaves the rest; a second run sees only what the first left,
/// so whatever time and threshold it runs under, it deletes none of the
/// names the first run deleted.
pub proof fn lemma_second_run_spares_first_deletions(
    names: Set<Seq<u8>>,
    now1: int,
    threshold1: int,
    now2: int,
    threshold2: int,
)
    ensures
        spec_due_names(
            names.difference(spec_due_names(names, now1, threshold1)),
            now2,
            threshold2,
        ).disjoint(spec_due_names(names, now1, threshold1)),
{
    let first = spec_due_names(names, now1, threshold1);
    let survivors = names.difference(first);
    let second = spec_due_names(survivors, now2, threshold2);
    assert forall|n: Seq<u8>| second.contains(n) implies !first.contains(n) by {
        assert(survivors.contains(n));
    }
}

} // verus!
