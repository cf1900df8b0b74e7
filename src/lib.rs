//! Timer types for measuring time in a program in different ways, and a list
//! whose elements expire after a per-element duration.

mod alarm;
mod clock;
mod convert;
mod duration;
mod stopwatch;
mod timed_list;
mod timer;

pub use alarm::{next_step, AlarmStep};
pub use clock::instant_plus;
pub use convert::{FromDuration, ToDuration};
pub use duration::{max_nanos, Duration, NANOS_PER_SEC};
pub use timer::{
    lemma_ready_exactly_after_target, lemma_ready_stays_ready, lemma_zero_span_ready, remaining,
    EggTimer, Timer,
};
pub use stopwatch::{
    capped_sum, lemma_pause_idempotent, lemma_paused_total_fixed, lemma_run_adds_its_length,
    lemma_running_total_monotone, lemma_started_paused_counts_zero, total_time, Stopwatch,
};
pub use timed_list::{
    alive_mask, kept, lemma_all_alive_all_come_out, lemma_appended_comes_out_last,
    lemma_only_alive_come_out, lemma_zero_span_never_comes_out, TimedList,
};
