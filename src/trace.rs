use vstd::prelude::*;
use crate::machine::{next_phase, Event, Phase};

verus! {

/// The phase reached from `phase` once `events` have come in, in order.
pub open spec fn run<T>(phase: Phase<T>, events: Seq<Event<T>>) -> Phase<T>
    decreases events.len(),
{
    if events.len() == 0 {
        phase
    } else {
        run(next_phase(phase, events[0]), events.drop_first())
    }
}

/// Whether `event`, coming in at `phase`, keeps the probe's promise: a probe started
/// from the baseline only resolves with a value other than the baseline.
pub open spec fn departs<T>(baseline: T, phase: Phase<T>, event: Event<T>) -> bool {
    match phase {
        Phase::Detecting => match event {
            Event::Changed(v) => v != baseline,
            Event::Settled => true,
        },
        _ => true,
    }
}

/// Whether every event of `events`, coming in from `phase` on, keeps the probe's
/// promise at the phase where it comes in.
pub open spec fn departs_all<T>(baseline: T, phase: Phase<T>, events: Seq<Event<T>>) -> bool
    decreases events.len(),
{
    if events.len() == 0 {
        true
    } else {
        departs(baseline, phase, events[0]) && departs_all(
            baseline,
            next_phase(phase, events[0]),
            events.drop_first(),
        )
    }
}

proof fn baseline_stays_out<T>(baseline: T, phase: Phase<T>, events: Seq<Event<T>>)
    requires
        departs_all(baseline, phase, events),
        phase != Phase::Racing(baseline),
        phase != Phase::Stable(baseline),
    ensures
        run(phase, events) != Phase::Racing(baseline),
        run(phase, events) != Phase::Stable(baseline),
    decreases events.len(),
{
    if events.len() > 0 {
        baseline_stays_out(baseline, next_phase(phase, events[0]), events.drop_first());
    }
}

/// A debounce never resolves to its baseline, provided that the probe, started from
/// the baseline, only ever resolves with another value.
pub proof fn lemma_never_resolves_to_baseline<T>(baseline: T, events: Seq<Event<T>>)
    requires
        departs_all(baseline, Phase::Detecting, events),
    ensures
        run(Phase::Detecting, events) != Phase::Stable(baseline),
{
    baseline_stays_out(baseline, Phase::Detecting, events);
}

proof fn stable_is_final<T>(value: T, events: Seq<Event<T>>)
    ensures
        run(Phase::Stable(value), events) == Phase::Stable(value),
    decreases events.len(),
{
    if events.len() > 0 {
        stable_is_final(value, events.drop_first());
    }
}

proof fn stable_comes_from_won_race<T>(phase: Phase<T>, events: Seq<Event<T>>, value: T)
    requires
        phase !is Stable,
        run(phase, events) == Phase::Stable(value),
    ensures
        exists|i: int|
            0 <= i < events.len() && run(phase, events.take(i)) == Phase::Racing(value)
                && events[i] == Event::<T>::Settled,
    decreases events.len(),
{
    assert(events.len() > 0);
    let after = next_phase(phase, events[0]);
    let rest = events.drop_first();
    if after is Stable {
        stable_is_final(after->Stable_0, rest);
        assert(events.take(0) =~= Seq::<Event<T>>::empty());
        assert(run(phase, events.take(0)) == Phase::Racing(value));
    } else {
        stable_comes_from_won_race(after, rest, value);
        let j = choose|j: int|
            0 <= j < rest.len() && run(after, rest.take(j)) == Phase::Racing(value)
                && rest[j] == Event::<T>::Settled;
        let prefix = events.take(j + 1);
        assert(prefix.drop_first() =~= rest.take(j));
        assert(prefix[0] == events[0]);
        assert(run(phase, prefix) == run(after, rest.take(j)));
        assert(events[j + 1] == rest[j]);
        assert(run(phase, events.take(j + 1)) == Phase::Racing(value));
    }
}

/// A debounce resolves to a value only after a race in which that value was the
/// candidate and the stability wait won: the probe started from the value did not
/// resolve before one full stability period had passed.
pub proof fn lemma_resolves_only_after_stability<T>(events: Seq<Event<T>>, value: T)
    requires
        run(Phase::Detecting, events) == Phase::Stable(value),
    ensures
        exists|i: int|
            0 <= i < events.len() && run(Phase::Detecting, events.take(i)) == Phase::Racing(value)
                && events[i] == Event::<T>::Settled,
{
    stable_comes_from_won_race(Phase::Detecting, events, value);
}

/// A change during the race is noise: the debounce goes back to waiting for a
/// departure from the baseline, and from there on goes exactly as a fresh debounce
/// would, whatever the candidate and the noisy value were.
pub proof fn lemma_noise_restarts_from_baseline<T>(
    candidate: T,
    noise: T,
    events: Seq<Event<T>>,
)
    ensures
        next_phase(Phase::Racing(candidate), Event::Changed(noise)) == Phase::<T>::Detecting,
        run(Phase::Racing(candidate), seq![Event::Changed(noise)] + events) == run(
            Phase::Detecting,
            events,
        ),
{
    assert((seq![Event::Changed(noise)] + events).drop_first() =~= events);
}

/// While the probe started from the baseline never resolves, no event reports a
/// change, and the debounce never leaves the wait for a departure: it never resolves.
pub proof fn lemma_no_departure_never_resolves<T>(events: Seq<Event<T>>)
    requires
        forall|i: int| 0 <= i < events.len() ==> events[i] == Event::<T>::Settled,
    ensures
        run(Phase::Detecting, events) == Phase::<T>::Detecting,
    decreases events.len(),
{
    if events.len() > 0 {
        lemma_no_departure_never_resolves(events.drop_first());
    }
}

} // verus!
