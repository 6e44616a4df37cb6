use rss_parser::feed::Feed;
use rss_parser::fetcher::{check_status, FeedStatus, FetchResults, FetchScheduler, FetcherError};
use rss_parser::types::{FeedName, FeedUpdateInterval, FeedUpdateRetries, FeedUrl};

fn feed(name: &str, url: &str, retries: usize) -> Feed {
    Feed::new(
        FeedName::new(name).unwrap(),
        FeedUrl::new(url).unwrap(),
        FeedUpdateInterval::new(Some(15)).unwrap(),
        FeedUpdateRetries::new(Some(retries)).unwrap(),
    )
}

/// What a run observed: the results, the calls made per feed, and the most
/// calls that were running at once.
struct Run<'a> {
    results: FetchResults<'a>,
    calls: Vec<usize>,
    peak: usize,
}

/// Drives a pass the way a concurrent driver would: it starts every attempt
/// that the scheduler lets through, then completes the oldest running one.
fn run<'a>(
    feeds: &'a [Feed],
    ceiling: usize,
    answer: impl Fn(usize, usize) -> Result<Vec<u8>, FetcherError>,
) -> Run<'a> {
    let mut scheduler = FetchScheduler::new(feeds, ceiling);
    let mut calls = vec![0usize; feeds.len()];
    let mut running: Vec<usize> = Vec::new();
    let mut peak = 0;
    loop {
        while let Some(i) = scheduler.next_attempt() {
            assert!(!running.contains(&i), "two attempts at once for one feed");
            running.push(i);
            peak = peak.max(running.len());
            assert!(scheduler.in_flight() <= ceiling);
        }
        if running.is_empty() {
            break;
        }
        let i = running.remove(0);
        let outcome = answer(i, calls[i]);
        calls[i] += 1;
        assert!(scheduler.record(i, outcome));
    }
    assert!(scheduler.is_settled());
    for (i, c) in calls.iter().enumerate() {
        assert_eq!(scheduler.attempts(i), *c);
    }
    Run { results: scheduler.into_results(), calls, peak }
}

fn names<T>(entries: &[(&Feed, T)]) -> Vec<String> {
    entries.iter().map(|(f, _)| f.name().as_str().to_string()).collect()
}

#[test]
fn end_to_end_one_success_one_failure() {
    let feeds = vec![
        feed("A", "http://a.test/x", 3),
        feed("B", "http://b.test/y", 3),
    ];
    let r = run(&feeds, 4, |i, _| {
        if i == 0 {
            Ok(b"ok-a".to_vec())
        } else {
            Err(FetcherError::Connection("refused".to_string()))
        }
    });
    assert_eq!(names(&r.results.successful), vec!["A"]);
    assert_eq!(r.results.successful[0].1, b"ok-a".to_vec());
    assert_eq!(r.results.successful[0].0.url().as_str(), "http://a.test/x");
    assert_eq!(names(&r.results.failed), vec!["B"]);
    assert_eq!(
        r.results.failed[0].1,
        FetcherError::Connection("refused".to_string())
    );
    assert_eq!(r.calls, vec![1, 3]);
}

#[test]
fn partition_matches_fixed_answers_for_every_ceiling() {
    let feeds: Vec<Feed> = (0..7)
        .map(|i| feed(&format!("f{i}"), &format!("http://h{i}.test/"), 1 + i % 4))
        .collect();
    let good = |i: usize| i % 3 != 1;
    let k = (0..7).filter(|i| good(*i)).count();
    for ceiling in 1..=8 {
        let r = run(&feeds, ceiling, |i, _| {
            if good(i) {
                Ok(vec![i as u8])
            } else {
                Err(FetcherError::Status(503))
            }
        });
        assert_eq!(r.results.successful.len(), k);
        assert_eq!(r.results.failed.len(), 7 - k);
        let mut all: Vec<String> = names(&r.results.successful);
        all.extend(names(&r.results.failed));
        all.sort();
        let mut expected: Vec<String> = (0..7).map(|i| format!("f{i}")).collect();
        expected.sort();
        assert_eq!(all, expected);
        for (f, p) in &r.results.successful {
            let i: usize = f.name().as_str()[1..].parse().unwrap();
            assert!(good(i));
            assert_eq!(*p, vec![i as u8]);
        }
    }
}

#[test]
fn success_on_last_allowed_attempt() {
    for budget in 1..=10 {
        let feeds = vec![feed("R", "http://r.test/", budget)];
        let r = run(&feeds, 2, |_, attempt| {
            if attempt + 1 < budget {
                Err(FetcherError::Body("truncated".to_string()))
            } else {
                Ok(b"late".to_vec())
            }
        });
        assert_eq!(r.results.successful.len(), 1);
        assert!(r.results.failed.is_empty());
        assert_eq!(r.calls, vec![budget]);
    }
}

#[test]
fn always_failing_feed_uses_whole_budget_and_keeps_last_reason() {
    for budget in 1..=10 {
        let feeds = vec![feed("F", "http://f.test/", budget)];
        let r = run(&feeds, 3, |_, attempt| Err(FetcherError::Status(500 + attempt as u16)));
        assert!(r.results.successful.is_empty());
        assert_eq!(r.results.failed.len(), 1);
        assert_eq!(r.calls, vec![budget]);
        assert_eq!(
            r.results.failed[0].1,
            FetcherError::Status(500 + budget as u16 - 1)
        );
    }
}

#[test]
fn in_flight_never_exceeds_ceiling() {
    let feeds: Vec<Feed> = (0..20)
        .map(|i| feed(&format!("c{i}"), &format!("http://c{i}.test/"), 3))
        .collect();
    for ceiling in [1, 2, 4, 7, 20, 50] {
        let r = run(&feeds, ceiling, |i, attempt| {
            if (i + attempt) % 2 == 0 {
                Ok(vec![])
            } else {
                Err(FetcherError::Connection(String::new()))
            }
        });
        assert!(r.peak <= ceiling);
        assert_eq!(r.peak, ceiling.min(20));
        assert_eq!(r.results.successful.len() + r.results.failed.len(), 20);
    }
}

#[test]
fn gate_holds_back_retries_too() {
    let feeds = vec![feed("A", "http://a.test/", 3), feed("B", "http://b.test/", 3)];
    let mut s = FetchScheduler::new(&feeds, 1);
    assert_eq!(s.next_attempt(), Some(0));
    assert_eq!(s.next_attempt(), None);
    assert!(s.record(0, Err(FetcherError::Status(502))));
    assert!(matches!(s.status(0), FeedStatus::Waiting));
    assert_eq!(s.next_attempt(), Some(0));
    assert_eq!(s.next_attempt(), None);
    assert_eq!(s.in_flight(), 1);
    assert_eq!(s.ceiling(), 1);
}

#[test]
fn record_without_running_attempt_changes_nothing() {
    let feeds = vec![feed("A", "http://a.test/", 2)];
    let mut s = FetchScheduler::new(&feeds, 1);
    assert!(!s.record(0, Ok(vec![1])));
    assert!(!s.record(5, Ok(vec![1])));
    assert!(matches!(s.status(0), FeedStatus::Waiting));
    assert_eq!(s.attempts(0), 0);
    assert_eq!(s.len(), 1);
}

#[test]
fn cancel_settles_open_feeds_as_cancelled() {
    let feeds = vec![
        feed("A", "http://a.test/", 2),
        feed("B", "http://b.test/", 2),
        feed("C", "http://c.test/", 2),
    ];
    let mut s = FetchScheduler::new(&feeds, 2);
    assert_eq!(s.next_attempt(), Some(0));
    assert_eq!(s.next_attempt(), Some(1));
    assert!(s.record(0, Ok(b"a".to_vec())));
    s.cancel();
    assert_eq!(s.next_attempt(), None);
    assert_eq!(s.in_flight(), 0);
    assert!(s.is_settled());
    assert!(!s.record(1, Ok(b"late".to_vec())));
    let r = s.into_results();
    assert_eq!(names(&r.successful), vec!["A"]);
    assert_eq!(names(&r.failed), vec!["B", "C"]);
    assert!(r.failed.iter().all(|(_, e)| *e == FetcherError::Cancelled));
}

#[test]
fn fresh_pass_is_not_settled() {
    let feeds = vec![feed("A", "http://a.test/", 1)];
    let mut s = FetchScheduler::new(&feeds, 1);
    assert!(!s.is_settled());
    assert_eq!(s.feed(0).name().as_str(), "A");
    assert_eq!(s.next_attempt(), Some(0));
    assert!(!s.is_settled());
    assert!(s.record(0, Err(FetcherError::Connection("down".to_string()))));
    assert!(s.is_settled());
    assert!(matches!(s.status(0), FeedStatus::Failed(FetcherError::Connection(_))));
}

#[test]
fn status_outside_success_range_is_a_failure() {
    assert_eq!(check_status(200), Ok(()));
    assert_eq!(check_status(299), Ok(()));
    assert_eq!(check_status(199), Err(FetcherError::Status(199)));
    assert_eq!(check_status(300), Err(FetcherError::Status(300)));
    assert_eq!(check_status(404), Err(FetcherError::Status(404)));
}
