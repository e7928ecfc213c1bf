use asyncplay::machine::{Event, Phase};
use futures::future::{select, Either};
use std::cell::Cell;
use std::time::Duration;

/// Drives the debounce phases with real awaits, as a caller of the library would.
async fn drive<T, WAIT, SLEEP>(wait_until_not: WAIT, not_pressed_value: T, stable_wait: SLEEP) -> T
where
    T: Clone,
    WAIT: AsyncFn(T) -> T,
    SLEEP: AsyncFn() -> (),
{
    let mut phase = Phase::start();
    loop {
        phase = match phase {
            Phase::Stable(value) => return value,
            Phase::Detecting => {
                let departed = wait_until_not(not_pressed_value.clone()).await;
                Phase::Detecting.advance(Event::Changed(departed))
            }
            Phase::Racing(candidate) => {
                let stable = Box::pin(stable_wait());
                let changed = Box::pin(wait_until_not(candidate.clone()));
                let event = match select(stable, changed).await {
                    Either::Left(((), _)) => Event::Settled,
                    Either::Right((value, _)) => Event::Changed(value),
                };
                Phase::Racing(candidate).advance(event)
            }
        };
    }
}

fn runtime() -> tokio::runtime::Runtime {
    tokio::runtime::Builder::new_current_thread()
        .enable_time()
        .build()
        .unwrap()
}

async fn forever() {
    loop {
        tokio::time::sleep(Duration::from_secs(1)).await;
    }
}

#[test]
fn test_debounce() {
    let result = runtime().block_on(async {
        let count = Cell::new(0);
        let wait_until_not = |_old_state: i32| async {
            if count.get() <= 10 {
                count.replace(count.get() + 1);
                count.get()
            } else {
                forever().await;
                0
            }
        };
        let stable_time = || async move {
            tokio::time::sleep(Duration::from_secs(1)).await;
        };
        drive(wait_until_not, 0, stable_time).await
    });
    assert_eq!(result, 11);
}

#[test]
fn timed_single_transition_resolves() {
    let result = runtime().block_on(async {
        let wait_until_not = |old_state: i32| async move {
            if old_state == 0 {
                5
            } else {
                forever().await;
                old_state
            }
        };
        let stable_time = || async move {
            tokio::time::sleep(Duration::from_millis(50)).await;
        };
        drive(wait_until_not, 0, stable_time).await
    });
    assert_eq!(result, 5);
}

#[test]
fn timed_oscillation_does_not_resolve() {
    let outcome = runtime().block_on(async {
        let wait_until_not = |old_state: i32| async move {
            tokio::time::sleep(Duration::from_millis(1)).await;
            if old_state == 1 { 2 } else { 1 }
        };
        let stable_time = || async move {
            tokio::time::sleep(Duration::from_millis(100)).await;
        };
        tokio::time::timeout(Duration::from_millis(500), drive(wait_until_not, 0, stable_time)).await
    });
    assert!(outcome.is_err());
}

#[test]
fn timed_resting_signal_does_not_resolve() {
    let outcome = runtime().block_on(async {
        let wait_until_not = |old_state: i32| async move {
            forever().await;
            old_state
        };
        let stable_time = || async move {
            tokio::time::sleep(Duration::from_millis(10)).await;
        };
        tokio::time::timeout(Duration::from_millis(200), drive(wait_until_not, 0, stable_time)).await
    });
    assert!(outcome.is_err());
}
