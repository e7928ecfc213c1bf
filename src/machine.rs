use vstd::prelude::*;

verus! {

/// Where a debounce stands between two awaits.
#[derive(Debug, PartialEq, Eq)]
pub enum Phase<T> {
    /// Waiting for the probe, started from the baseline, to report a departure.
    Detecting,
    /// Racing the stability wait against the probe started from this candidate.
    Racing(T),
    /// The candidate held for one full stability period: the debounce resolves to it.
    Stable(T),
}

/// How the work that the current phase awaited came to an end.
#[derive(Debug, PartialEq, Eq)]
pub enum Event<T> {
    /// The probe resolved first, with this value.
    Changed(T),
    /// The stability wait resolved first.
    Settled,
}

/// The phase that follows `phase` once `event` has come in.
///
/// A departure from the baseline becomes the candidate; a stability wait that wins
/// the race settles on the candidate; a change during the race is noise, and the
/// debounce goes back to waiting for a departure from the baseline. An event that the
/// phase did not wait for changes nothing, and a stable phase is final.
pub open spec fn next_phase<T>(phase: Phase<T>, event: Event<T>) -> Phase<T> {
    match phase {
        Phase::Detecting => match event {
            Event::Changed(v) => Phase::Racing(v),
            Event::Settled => Phase::Detecting,
        },
        Phase::Racing(c) => match event {
            Event::Changed(_) => Phase::Detecting,
            Event::Settled => Phase::Stable(c),
        },
        Phase::Stable(v) => Phase::Stable(v),
    }
}

impl<T> Phase<T> {
    /// The phase a debounce starts in.
    pub fn start() -> (r: Phase<T>)
        ensures
            r == Phase::<T>::Detecting,
    {
        Phase::Detecting
    }

    /// Takes in how the awaited work ended and gives the phase that follows.
    pub fn advance(self, event: Event<T>) -> (r: Phase<T>)
        ensures
            r == next_phase(self, event),
    {
        match self {
            Phase::Detecting => match event {
                Event::Changed(v) => Phase::Racing(v),
                Event::Settled => Phase::Detecting,
            },
            Phase::Racing(c) => match event {
                Event::Changed(_) => Phase::Detecting,
                Event::Settled => Phase::Stable(c),
            },
            Phase::Stable(v) => Phase::Stable(v),
        }
    }
}

} // verus!
