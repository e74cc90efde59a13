use rust_m3u8::scheduler::{
    is_usable, Attempt, DownloadOutcome, NextStep, Scheduler, SegmentState, BACKOFF_BASE_MS,
};

fn failed(status: Option<u16>) -> Attempt {
    Attempt { status, body_len: 10, stored: false }
}

fn stored() -> Attempt {
    Attempt { status: Some(200), body_len: 10, stored: true }
}

/// Runs the work on one segment against attempts that end as given, and
/// returns the final state, the number of attempts made, and the waits.
fn run(max_retries: usize, outcomes: &[Attempt]) -> (SegmentState, usize, Vec<u64>) {
    let (mut state, mut step) = SegmentState::start(max_retries, BACKOFF_BASE_MS);
    let mut made = 0;
    let mut waits = Vec::new();
    while !state.is_terminal() {
        match step {
            NextStep::Fetch => {}
            NextStep::WaitThenFetch(ms) => waits.push(ms),
            NextStep::Finished => panic!("no step in a state that is not final"),
        }
        let outcome = outcomes[made];
        made += 1;
        let next = state.advance(&outcome, max_retries, BACKOFF_BASE_MS);
        state = next.0;
        step = next.1;
    }
    assert_eq!(step, NextStep::Finished);
    (state, made, waits)
}

#[test]
fn segment_that_always_fails_ends_as_failed() {
    let outcomes = vec![failed(Some(500)); 10];
    let (state, made, waits) = run(3, &outcomes);
    assert_eq!(state, SegmentState::Failed);
    assert_eq!(made, 3);
    assert_eq!(waits, vec![1000, 2000]);
}

#[test]
fn every_kind_of_failure_is_tried_again() {
    let outcomes = vec![
        failed(None),
        failed(Some(404)),
        Attempt { status: Some(200), body_len: 0, stored: false },
        Attempt { status: Some(200), body_len: 5, stored: false },
        Attempt { status: Some(302), body_len: 5, stored: true },
        stored(),
    ];
    let (state, made, waits) = run(10, &outcomes);
    assert_eq!(state, SegmentState::Succeeded);
    assert_eq!(made, 6);
    assert_eq!(waits, vec![1000, 2000, 3000, 4000, 5000]);
}

#[test]
fn success_ends_the_work_at_once() {
    let (state, made, waits) = run(3, &[stored(), failed(None)]);
    assert_eq!(state, SegmentState::Succeeded);
    assert_eq!(made, 1);
    assert!(waits.is_empty());
}

#[test]
fn no_attempt_allowed_means_failure() {
    assert_eq!(SegmentState::start(0, 1000), (SegmentState::Failed, NextStep::Finished));
    assert_eq!(SegmentState::start(1, 1000), (SegmentState::Attempting(1), NextStep::Fetch));
}

#[test]
fn final_and_pending_states_do_not_move() {
    for state in [SegmentState::Pending, SegmentState::Succeeded, SegmentState::Failed] {
        assert_eq!(state.advance(&stored(), 3, 1000), (state, NextStep::Finished));
    }
    assert!(!SegmentState::Pending.is_terminal());
    assert!(!SegmentState::Attempting(2).is_terminal());
}

#[test]
fn wait_grows_with_the_attempt_and_stops_at_the_limit() {
    let state = SegmentState::Attempting(7);
    assert_eq!(
        state.advance(&failed(None), 9, 250),
        (SegmentState::Attempting(8), NextStep::WaitThenFetch(1750))
    );
    assert_eq!(
        state.advance(&failed(None), 9, u64::MAX),
        (SegmentState::Attempting(8), NextStep::WaitThenFetch(u64::MAX))
    );
    assert_eq!(state.advance(&failed(None), 7, 250), (SegmentState::Failed, NextStep::Finished));
}

#[test]
fn usable_response_needs_success_and_a_body() {
    assert!(is_usable(Some(200), 1));
    assert!(is_usable(Some(206), 1));
    assert!(!is_usable(Some(200), 0));
    assert!(!is_usable(Some(199), 1));
    assert!(!is_usable(Some(300), 1));
    assert!(!is_usable(None, 1));
}

#[test]
fn only_segments_outside_the_cache_are_queued() {
    let cached = vec![true, false, true, false];
    let mut scheduler = Scheduler::new(6, &cached, 2, 8);
    let mut handed = Vec::new();
    while let Some(place) = scheduler.start_next() {
        handed.push(place);
    }
    assert_eq!(handed, vec![1, 3, 4, 5]);
    assert_eq!(scheduler.outcome(), DownloadOutcome { ads: 2, needed: 4, downloaded: 0, failed: 0 });
}

#[test]
fn never_more_in_flight_than_the_limit() {
    let mut scheduler = Scheduler::new(5, &vec![], 0, 2);
    assert_eq!(scheduler.start_next(), Some(0));
    assert_eq!(scheduler.start_next(), Some(1));
    assert_eq!(scheduler.start_next(), None);
    assert!(!scheduler.is_done());
    assert!(scheduler.finish(SegmentState::Succeeded));
    assert_eq!(scheduler.start_next(), Some(2));
    assert_eq!(scheduler.start_next(), None);
    assert!(scheduler.finish(SegmentState::Failed));
    assert!(scheduler.finish(SegmentState::Failed));
    assert_eq!(scheduler.start_next(), Some(3));
    assert_eq!(scheduler.start_next(), Some(4));
    assert_eq!(scheduler.start_next(), None);
    assert!(scheduler.finish(SegmentState::Succeeded));
    assert!(!scheduler.is_done());
    assert!(scheduler.finish(SegmentState::Succeeded));
    assert!(scheduler.is_done());
    assert!(!scheduler.finish(SegmentState::Succeeded));
    let outcome = scheduler.outcome();
    assert_eq!(outcome, DownloadOutcome { ads: 0, needed: 5, downloaded: 3, failed: 2 });
    assert!(!outcome.is_complete());
}

#[test]
fn only_final_states_are_counted() {
    let mut scheduler = Scheduler::new(1, &vec![], 0, 1);
    assert_eq!(scheduler.start_next(), Some(0));
    assert!(!scheduler.finish(SegmentState::Pending));
    assert!(!scheduler.finish(SegmentState::Attempting(1)));
    assert!(!scheduler.is_done());
    assert!(scheduler.finish(SegmentState::Failed));
    assert!(scheduler.is_done());
    assert_eq!(scheduler.outcome(), DownloadOutcome { ads: 0, needed: 1, downloaded: 0, failed: 1 });
}

#[test]
fn limit_of_zero_still_fetches_one_at_a_time() {
    let mut scheduler = Scheduler::new(2, &vec![], 0, 0);
    assert_eq!(scheduler.start_next(), Some(0));
    assert_eq!(scheduler.start_next(), None);
    scheduler.finish(SegmentState::Succeeded);
    assert_eq!(scheduler.start_next(), Some(1));
}

#[test]
fn failing_segment_does_not_stop_the_others() {
    let total = 7;
    let mut scheduler = Scheduler::new(total, &vec![], 0, 3);
    let mut running: Vec<usize> = Vec::new();
    let mut ends: Vec<(usize, SegmentState)> = Vec::new();
    loop {
        while let Some(place) = scheduler.start_next() {
            running.push(place);
        }
        if running.is_empty() {
            break;
        }
        let place = running.remove(0);
        let outcomes = if place == 2 { vec![failed(Some(503)); 4] } else { vec![failed(None), stored()] };
        let (state, _, _) = run(4, &outcomes);
        scheduler.finish(state);
        ends.push((place, state));
    }
    assert!(scheduler.is_done());
    assert_eq!(ends.len(), total);
    for (place, state) in ends {
        assert_eq!(state, if place == 2 { SegmentState::Failed } else { SegmentState::Succeeded });
    }
    assert_eq!(scheduler.outcome(), DownloadOutcome { ads: 0, needed: 7, downloaded: 6, failed: 1 });
}

#[test]
fn second_run_fetches_nothing_that_the_first_stored() {
    let total = 5;
    let mut cache = vec![false, true, false, false, false];
    let mut first = Scheduler::new(total, &cache, 0, 2);
    let mut fetched_first = Vec::new();
    while let Some(place) = first.start_next() {
        let succeeded = place != 3;
        if succeeded {
            cache[place] = true;
        }
        fetched_first.push(place);
        first.finish(if succeeded { SegmentState::Succeeded } else { SegmentState::Failed });
    }
    assert_eq!(fetched_first, vec![0, 2, 3, 4]);
    assert_eq!(first.outcome(), DownloadOutcome { ads: 0, needed: 4, downloaded: 3, failed: 1 });

    let mut second = Scheduler::new(total, &cache, 0, 2);
    let mut fetched_second = Vec::new();
    while let Some(place) = second.start_next() {
        cache[place] = true;
        fetched_second.push(place);
        second.finish(SegmentState::Succeeded);
    }
    assert_eq!(fetched_second, vec![3]);

    let mut third = Scheduler::new(total, &cache, 0, 2);
    assert_eq!(third.start_next(), None);
    assert!(third.is_done());
    assert_eq!(third.outcome(), DownloadOutcome { ads: 0, needed: 0, downloaded: 0, failed: 0 });
}

#[test]
fn report_names_every_count() {
    let outcome = DownloadOutcome { ads: 2, needed: 5, downloaded: 4, failed: 1 };
    assert_eq!(outcome.report(12), "片段总数: 12, 广告: 2, 缓存命中: 7, 新下载: 4, 失败: 1");
    assert_eq!(outcome.report(3), "片段总数: 3, 广告: 2, 缓存命中: 0, 新下载: 4, 失败: 1");
    assert!(DownloadOutcome { ads: 0, needed: 0, downloaded: 0, failed: 0 }.is_complete());
}
