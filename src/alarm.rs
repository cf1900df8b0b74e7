//! The decisions of a background wait that fires once a countdown has run out.
use crate::duration::Duration;
use vstd::prelude::*;

verus! {

/// What a waiting task does next.
#[derive(Clone, Copy, Debug, PartialEq, Eq, Structural)]
pub enum AlarmStep {
    /// Sleep for this long, then look again.
    Sleep(Duration),
    /// Look again at once: the end is within the safety margin.
    Spin,
    /// The countdown has run out: run the callback.
    Fire,
}

/// The next step of a wait, given what is left of its countdown (`None` once
/// it has run out) and a safety margin kept back from each sleep, since a
/// sleep may wake late but the callback must not run early.
pub fn next_step(left: Option<Duration>, margin: &Duration) -> (r: AlarmStep)
    requires
        left.is_some() ==> left.unwrap().wf(),
        margin.wf(),
    ensures
        (r == AlarmStep::Fire) == left.is_none(),
        left.is_some() && left.unwrap()@ > margin@ ==> match r {
            AlarmStep::Sleep(d) => d.wf() && d@ == left.unwrap()@ - margin@,
            _ => false,
        },
        left.is_some() && left.unwrap()@ <= margin@ ==> r == AlarmStep::Spin,
{
    match left {
        None => AlarmStep::Fire,
        Some(l) => {
            if margin.at_least(&l) {
                AlarmStep::Spin
            } else {
                match l.checked_sub(margin) {
                    Some(d) => AlarmStep::Sleep(d),
                    None => AlarmStep::Spin,
                }
            }
        },
    }
}

} // verus!
