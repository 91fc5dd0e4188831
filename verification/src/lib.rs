//! Age-based directory cleanup rules.
//!
//! A filename is expected to begin with a timestamp of the fixed form
//! `YYYY-MM-DD_hh-mm-ss` (24-hour clock, UTC), optionally followed by `.`
//! and a suffix. This library parses that prefix, turns it into seconds
//! since the Unix epoch, computes an entry's age in whole days against a
//! given current time, and decides whether the entry is due for deletion:
//! strictly in the past, and at least as old as the configured threshold.
//!
//! The library itself touches no filesystem and no clock, with one
//! exception: [`evaluate_entry_now`] reads the system clock. The caller
//! enumerates directory entries, hands each filename here, and performs
//! the deletions the verdicts call for.

pub mod cleaner;
pub mod decision;
pub mod timestamp;

pub use cleaner::EntryError;
pub use cleaner::age_days;
pub use cleaner::count_due;
pub use cleaner::evaluate_entry;
pub use cleaner::evaluate_entry_now;
pub use cleaner::lemma_second_run_spares_first_deletions;
pub use cleaner::spec_age_days;
pub use cleaner::spec_count_due;
pub use cleaner::spec_due_names;
pub use cleaner::spec_name_due;
pub use cleaner::spec_name_valid;
pub use decision::is_due_for_deletion;
pub use decision::lemma_future_never_due;
pub use decision::lemma_threshold_boundary;
pub use decision::spec_due;
pub use timestamp::Timestamp;
pub use timestamp::epoch_seconds;
pub use timestamp::parse_timestamp;
