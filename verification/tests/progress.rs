use resumable_download::fetch::{FetchEvent, FetchStatus};
use resumable_download::plan::DownloadState;
use resumable_download::progress::{
    poll_of, state_file_action, sum_downloaded, Progress, SegmentPoll, StateFileAction, EMIT_INTERVAL_MS,
    TICK_INTERVAL_MS,
};
use resumable_download::segment::SegmentState;
use resumable_download::DownloadError;
use tokio_util::sync::CancellationToken;

fn seg(start: u64, end: u64, downloaded: u64) -> SegmentState {
    SegmentState { start, end, downloaded }
}

fn plan_1000_in_4() -> DownloadState {
    DownloadState::fresh(
        "job".to_string(),
        "http://host/file".to_string(),
        "/tmp/file.bin".to_string(),
        1000,
        4,
    )
    .unwrap()
}

fn counts(s: &DownloadState) -> Vec<u64> {
    s.segments.iter().map(|x| x.downloaded).collect()
}

fn pending(n: usize) -> Vec<SegmentPoll> {
    vec![SegmentPoll::Pending; n]
}

#[test]
fn intervals_of_the_loop() {
    assert_eq!(EMIT_INTERVAL_MS, 50);
    assert_eq!(TICK_INTERVAL_MS, 100);
}

#[test]
fn sum_of_the_counts() {
    assert_eq!(sum_downloaded(&vec![]), Some(0));
    assert_eq!(sum_downloaded(&vec![seg(0, 9, 4)]), Some(4));
    assert_eq!(
        sum_downloaded(&vec![seg(0, 249, 250), seg(250, 499, 17), seg(500, 999, 1)]),
        Some(268)
    );
    assert_eq!(
        sum_downloaded(&vec![seg(0, 1, u64::MAX - 1), seg(2, 3, 1)]),
        Some(u64::MAX)
    );
    assert_eq!(sum_downloaded(&vec![seg(0, 1, u64::MAX), seg(2, 3, 1)]), None);
    assert_eq!(sum_downloaded(&vec![seg(0, 1, u64::MAX), seg(2, 3, 1), seg(4, 5, 0)]), None);
}

#[test]
fn transferred_of_a_state() {
    let mut s = plan_1000_in_4();
    assert_eq!(s.transferred(), Some(0));
    s.segments[0].downloaded = 250;
    s.segments[2].downloaded = 3;
    assert_eq!(s.transferred(), Some(253));
    s.segments[1].downloaded = u64::MAX;
    assert_eq!(s.transferred(), None);
}

#[test]
fn round_without_news_reports_what_is_recorded() {
    let mut s = plan_1000_in_4();
    s.segments[1].downloaded = 20;
    let before = s.clone();
    let r = s.advance(false, &pending(4), 50);
    assert_eq!(r, Some(Ok(Progress { transferred: 20, emit: true, completed: false })));
    assert_eq!(s, before);
}

#[test]
fn finished_fetcher_sets_its_segment() {
    let mut s = plan_1000_in_4();
    let polls = vec![
        SegmentPoll::Pending,
        SegmentPoll::Finished(250),
        SegmentPoll::Pending,
        SegmentPoll::Finished(100),
    ];
    let r = s.advance(false, &polls, 1000);
    assert_eq!(r, Some(Ok(Progress { transferred: 350, emit: true, completed: false })));
    assert_eq!(counts(&s), vec![0, 250, 0, 100]);
    assert_eq!(s.segments[1], seg(250, 499, 250));
    assert_eq!(s.segments[3], seg(750, 999, 100));
    assert_eq!((s.total_size, s.concurrency), (1000, 4));
    assert_eq!(s.id, "job");
    assert_eq!(s.url, "http://host/file");
    assert_eq!(s.output, "/tmp/file.bin");
}

#[test]
fn finished_count_replaces_the_recorded_one() {
    let mut s = plan_1000_in_4();
    s.segments[0].downloaded = 200;
    let mut polls = pending(4);
    polls[0] = SegmentPoll::Finished(120);
    let r = s.advance(false, &polls, 0);
    assert_eq!(r, Some(Ok(Progress { transferred: 120, emit: false, completed: false })));
    assert_eq!(counts(&s), vec![120, 0, 0, 0]);
}

#[test]
fn event_is_due_after_fifty_milliseconds() {
    let mut s = plan_1000_in_4();
    for (since, due) in [(0u128, false), (49, false), (50, true), (51, true), (u128::MAX, true)] {
        let r = s.advance(false, &pending(4), since).unwrap().unwrap();
        assert_eq!(r.emit, due, "after {} ms", since);
    }
}

#[test]
fn attempt_is_complete_when_every_byte_is_there() {
    let mut s = plan_1000_in_4();
    let polls = vec![
        SegmentPoll::Finished(250),
        SegmentPoll::Finished(250),
        SegmentPoll::Finished(250),
        SegmentPoll::Finished(249),
    ];
    let r = s.advance(false, &polls, 10);
    assert_eq!(r, Some(Ok(Progress { transferred: 999, emit: false, completed: false })));
    let mut polls = pending(4);
    polls[3] = SegmentPoll::Finished(250);
    let r = s.advance(false, &polls, 10);
    assert_eq!(r, Some(Ok(Progress { transferred: 1000, emit: false, completed: true })));
    assert_eq!(state_file_action(&r.unwrap()), StateFileAction::Remove);
}

#[test]
fn more_than_the_total_size_is_complete_too() {
    let mut s = plan_1000_in_4();
    let mut polls = pending(4);
    polls[2] = SegmentPoll::Finished(4000);
    let r = s.advance(false, &polls, 70);
    assert_eq!(r, Some(Ok(Progress { transferred: 4000, emit: true, completed: true })));
}

#[test]
fn pause_leaves_the_state_and_asks_for_a_write() {
    let mut s = plan_1000_in_4();
    s.segments[0].downloaded = 250;
    let before = s.clone();
    let polls = vec![
        SegmentPoll::Pending,
        SegmentPoll::Finished(77),
        SegmentPoll::Failed("late".to_string()),
        SegmentPoll::Pending,
    ];
    let r = s.advance(true, &polls, 500);
    assert_eq!(r, Some(Err(DownloadError::Paused)));
    assert_eq!(s, before);
    assert_eq!(state_file_action(&r.unwrap()), StateFileAction::Write);
}

#[test]
fn pause_after_one_segment_of_four() {
    let mut s = plan_1000_in_4();
    assert_eq!(
        s.segments,
        vec![seg(0, 249, 0), seg(250, 499, 0), seg(500, 749, 0), seg(750, 999, 0)]
    );
    let mut polls = pending(4);
    polls[0] = SegmentPoll::Finished(250);
    let r = s.advance(false, &polls, 100);
    assert_eq!(r, Some(Ok(Progress { transferred: 250, emit: true, completed: false })));
    let r = s.advance(true, &pending(4), 100);
    assert_eq!(r, Some(Err(DownloadError::Paused)));
    assert_eq!(counts(&s), vec![250, 0, 0, 0]);
    // what is written is what is read back on the next start
    let resumed = DownloadState::resume_or_plan(
        Some(s.clone()),
        "job".to_string(),
        "http://host/file".to_string(),
        "/tmp/file.bin".to_string(),
        None,
    )
    .unwrap()
    .unwrap();
    assert_eq!(resumed, s);
    let headers: Vec<String> =
        resumed.fetchers().iter().map(|f| f.segment.range_header().unwrap()).collect();
    assert_eq!(headers, vec!["bytes=250-249", "bytes=250-499", "bytes=500-749", "bytes=750-999"]);
}

#[test]
fn paused_state_stays_within_its_bounds() {
    let mut s = plan_1000_in_4();
    let rounds = vec![
        vec![SegmentPoll::Pending, SegmentPoll::Finished(250), SegmentPoll::Pending, SegmentPoll::Pending],
        vec![SegmentPoll::Finished(13), SegmentPoll::Pending, SegmentPoll::Pending, SegmentPoll::Pending],
        vec![SegmentPoll::Pending, SegmentPoll::Pending, SegmentPoll::Pending, SegmentPoll::Finished(249)],
    ];
    for polls in &rounds {
        assert!(s.advance(false, polls, 0).unwrap().is_ok());
    }
    assert_eq!(s.advance(true, &pending(4), 0), Some(Err(DownloadError::Paused)));
    assert!(s.is_well_formed());
    for x in &s.segments {
        assert!(x.downloaded <= x.end - x.start + 1);
    }
    assert_eq!(s.transferred(), Some(512));
    assert!(s.transferred().unwrap() <= s.total_size);
}

#[test]
fn failed_segment_ends_the_attempt() {
    let mut s = plan_1000_in_4();
    let polls = vec![
        SegmentPoll::Finished(40),
        SegmentPoll::Pending,
        SegmentPoll::Failed("broken pipe".to_string()),
        SegmentPoll::Finished(9),
    ];
    let r = s.advance(false, &polls, 60);
    assert_eq!(
        r,
        Some(Err(DownloadError::SegmentTransferFailed {
            index: 2,
            cause: "broken pipe".to_string(),
        }))
    );
    assert_eq!(counts(&s), vec![40, 0, 0, 0]);
    assert_eq!(state_file_action(&r.unwrap()), StateFileAction::Keep);
}

#[test]
fn first_of_several_failures_is_reported() {
    let mut s = plan_1000_in_4();
    let polls = vec![
        SegmentPoll::Failed("first".to_string()),
        SegmentPoll::Finished(5),
        SegmentPoll::Failed("second".to_string()),
        SegmentPoll::Pending,
    ];
    let r = s.advance(false, &polls, 0);
    assert_eq!(
        r,
        Some(Err(DownloadError::SegmentTransferFailed { index: 0, cause: "first".to_string() }))
    );
    assert_eq!(counts(&s), vec![0, 0, 0, 0]);
    polls_last_failure(&mut s);
}

fn polls_last_failure(s: &mut DownloadState) {
    let polls = vec![
        SegmentPoll::Finished(1),
        SegmentPoll::Finished(2),
        SegmentPoll::Finished(3),
        SegmentPoll::Failed("".to_string()),
    ];
    let r = s.advance(false, &polls, 0);
    assert_eq!(
        r,
        Some(Err(DownloadError::SegmentTransferFailed { index: 3, cause: "".to_string() }))
    );
    assert_eq!(counts(s), vec![1, 2, 3, 0]);
}

#[test]
fn round_needs_one_poll_per_segment() {
    let mut s = plan_1000_in_4();
    let before = s.clone();
    assert_eq!(s.advance(false, &pending(3), 60), None);
    assert_eq!(s.advance(false, &vec![SegmentPoll::Finished(1); 5], 60), None);
    assert_eq!(s.advance(true, &pending(0), 60), None);
    assert_eq!(s, before);
}

#[test]
fn sum_that_does_not_fit_is_no_round() {
    let mut s = plan_1000_in_4();
    s.segments[0].downloaded = 1;
    let before = s.clone();
    let mut polls = pending(4);
    polls[1] = SegmentPoll::Finished(u64::MAX);
    assert_eq!(s.advance(false, &polls, 60), None);
    assert_eq!(s, before);
    polls[1] = SegmentPoll::Finished(u64::MAX - 1);
    assert_eq!(
        s.advance(false, &polls, 60),
        Some(Ok(Progress { transferred: u64::MAX, emit: true, completed: true }))
    );
}

#[test]
fn transferred_does_not_decrease_over_an_attempt() {
    let mut s = plan_1000_in_4();
    s.segments[0].downloaded = 100;
    s.segments[2].downloaded = 10;
    let rounds = vec![
        pending(4),
        vec![SegmentPoll::Pending, SegmentPoll::Finished(0), SegmentPoll::Pending, SegmentPoll::Pending],
        vec![SegmentPoll::Finished(100), SegmentPoll::Pending, SegmentPoll::Pending, SegmentPoll::Pending],
        vec![SegmentPoll::Pending, SegmentPoll::Pending, SegmentPoll::Finished(250), SegmentPoll::Pending],
        pending(4),
        vec![SegmentPoll::Pending, SegmentPoll::Pending, SegmentPoll::Pending, SegmentPoll::Finished(250)],
    ];
    let mut seen = Vec::new();
    for polls in &rounds {
        let p = s.advance(false, polls, 50).unwrap().unwrap();
        seen.push(p.transferred);
    }
    assert_eq!(seen, vec![110, 110, 110, 350, 350, 600]);
    assert!(seen.windows(2).all(|w| w[0] <= w[1]));
}

#[test]
fn state_file_follows_the_result_of_the_round() {
    let running = Ok(Progress { transferred: 5, emit: true, completed: false });
    let done = Ok(Progress { transferred: 5, emit: false, completed: true });
    assert_eq!(state_file_action(&running), StateFileAction::Keep);
    assert_eq!(state_file_action(&done), StateFileAction::Remove);
    assert_eq!(state_file_action(&Err(DownloadError::Paused)), StateFileAction::Write);
    assert_eq!(state_file_action(&Err(DownloadError::MissingContentLength)), StateFileAction::Keep);
    assert_eq!(
        state_file_action(&Err(DownloadError::SegmentTransferFailed {
            index: 0,
            cause: "x".to_string(),
        })),
        StateFileAction::Keep
    );
}

#[test]
fn after_completion_the_next_start_plans_anew() {
    let mut s = plan_1000_in_4();
    let r = s.advance(false, &vec![SegmentPoll::Finished(250); 4], 0).unwrap();
    assert_eq!(r, Ok(Progress { transferred: 1000, emit: false, completed: true }));
    assert_eq!(state_file_action(&r), StateFileAction::Remove);
    // with the file gone nothing is read back, and the plan starts from zero
    let next = DownloadState::resume_or_plan(
        None,
        "job".to_string(),
        "http://host/file".to_string(),
        "/tmp/file.bin".to_string(),
        Some(1000),
    )
    .unwrap()
    .unwrap();
    assert_eq!(next.transferred(), Some(0));
    assert_eq!(next.concurrency, 8);
}

#[test]
fn tick_goes_on_while_the_token_is_quiet() {
    let token = CancellationToken::new();
    let mut s = plan_1000_in_4();
    let mut polls = pending(4);
    polls[0] = SegmentPoll::Finished(250);
    let r = s.tick(&token, &polls, 50);
    assert_eq!(r, Some(Ok(Progress { transferred: 250, emit: true, completed: false })));
    assert_eq!(counts(&s), vec![250, 0, 0, 0]);
}

#[test]
fn tick_pauses_once_the_token_has_fired() {
    let token = CancellationToken::new();
    let mut s = plan_1000_in_4();
    let mut polls = pending(4);
    polls[0] = SegmentPoll::Finished(250);
    assert!(s.tick(&token, &polls, 50).unwrap().is_ok());
    token.clone().cancel();
    polls[1] = SegmentPoll::Finished(250);
    let r = s.tick(&token, &polls, 50);
    assert_eq!(r, Some(Err(DownloadError::Paused)));
    assert_eq!(counts(&s), vec![250, 0, 0, 0]);
}

#[test]
fn tick_needs_one_poll_per_segment() {
    let token = CancellationToken::new();
    let mut s = plan_1000_in_4();
    assert_eq!(s.tick(&token, &pending(2), 50), None);
    token.cancel();
    assert_eq!(s.tick(&token, &pending(2), 50), None);
}

#[test]
fn poll_of_a_fetcher_that_runs_is_pending() {
    assert_eq!(poll_of(FetchStatus::Running), SegmentPoll::Pending);
}

#[test]
fn poll_of_a_finished_fetcher_is_its_count() {
    assert_eq!(poll_of(FetchStatus::Finished(0)), SegmentPoll::Finished(0));
    assert_eq!(poll_of(FetchStatus::Finished(250)), SegmentPoll::Finished(250));
    assert_eq!(poll_of(FetchStatus::Finished(u64::MAX)), SegmentPoll::Finished(u64::MAX));
}

#[test]
fn poll_of_a_failed_fetcher_is_its_cause() {
    let failed = FetchStatus::Failed(DownloadError::SegmentTransferFailed {
        index: 2,
        cause: "broken pipe".to_string(),
    });
    assert_eq!(poll_of(failed), SegmentPoll::Failed("broken pipe".to_string()));
    assert_eq!(
        poll_of(FetchStatus::Failed(DownloadError::Paused)),
        SegmentPoll::Failed("Paused".to_string())
    );
    assert_eq!(
        poll_of(FetchStatus::Failed(DownloadError::MissingContentLength)),
        SegmentPoll::Failed("无 Content-Length".to_string())
    );
}

#[test]
fn failure_of_a_fetcher_reaches_the_caller_with_index_and_cause() {
    let mut s = plan_1000_in_4();
    let mut fetchers = s.fetchers();
    let ended = fetchers[2].step(FetchEvent::Failed("Paused".to_string())).unwrap();
    let mut polls = pending(4);
    polls[2] = poll_of(ended);
    let round = s.advance(false, &polls, 0).unwrap();
    assert_eq!(
        round,
        Err(DownloadError::SegmentTransferFailed { index: 2, cause: "Paused".to_string() })
    );
    assert_eq!(state_file_action(&round), StateFileAction::Keep);
    let text = resumable_download::describe_outcome(round.map(|_| ()));
    assert_eq!(text, Err("segment 2: Paused".to_string()));
}

#[test]
fn events_of_an_attempt_never_report_fewer_bytes() {
    let mut s = plan_1000_in_4();
    s.segments[0].downloaded = 100;
    s.segments[3].downloaded = 249;
    let mut fetchers = s.fetchers();
    let mut ended: Vec<Option<FetchStatus>> = vec![None; 4];
    // what each fetcher meets, round by round
    let script: Vec<Vec<(usize, FetchEvent)>> = vec![
        vec![(0, FetchEvent::ChunkWritten(50)), (1, FetchEvent::ChunkWritten(10))],
        vec![(3, FetchEvent::StreamEnded)],
        vec![(0, FetchEvent::ChunkWritten(100)), (0, FetchEvent::StreamEnded)],
        vec![(1, FetchEvent::ChunkWritten(240)), (2, FetchEvent::ChunkWritten(250))],
        vec![(1, FetchEvent::StreamEnded), (2, FetchEvent::StreamEnded)],
    ];
    let mut seen = vec![s.transferred().unwrap()];
    for events in script {
        for (i, e) in events {
            let status = fetchers[i].step(e).unwrap();
            if status != FetchStatus::Running {
                ended[i] = Some(status);
            }
        }
        let polls: Vec<SegmentPoll> = ended
            .iter_mut()
            .map(|x| x.take().map(poll_of).unwrap_or(SegmentPoll::Pending))
            .collect();
        let p = s.advance(false, &polls, 50).unwrap().unwrap();
        seen.push(p.transferred);
    }
    assert_eq!(seen, vec![349, 349, 349, 499, 499, 999]);
    assert!(seen.windows(2).all(|w| w[0] <= w[1]));
}
