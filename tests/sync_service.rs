use hn_sync::config::Config;
use hn_sync::firebase_listener::{ErrorKind, FirebaseListener, FirebaseListenerErr};
use hn_sync::sync_service::{CatchupReport, Error, SyncService};

fn service(workers: usize) -> SyncService {
    SyncService::new("https://hacker-news.firebaseio.com/v0".to_string(), workers)
}

#[test]
fn plan_uses_stored_max_and_remote_max() {
    let plan = service(4).plan_catchup(None, None, Ok(Some(100)), Ok(109)).unwrap();
    assert_eq!(plan, vec![(100, 101), (102, 103), (104, 105), (106, 109)]);
}

#[test]
fn plan_uses_overrides() {
    let plan = service(10).plan_catchup(Some(2), Some(1), Ok(Some(500)), Ok(900)).unwrap();
    assert_eq!(plan, vec![(1, 1), (2, 2), (3, 3)]);
    let plan = service(2).plan_catchup(None, Some(40), Ok(None), Ok(44)).unwrap();
    assert_eq!(plan, vec![(40, 41), (42, 44)]);
}

#[test]
fn plan_count_is_bounded_by_largest_id() {
    let plan = service(1).plan_catchup(Some(i64::MAX), Some(i64::MAX - 1), Ok(None), Ok(0)).unwrap();
    assert_eq!(plan, vec![(i64::MAX - 1, i64::MAX - 1), (i64::MAX, i64::MAX)]);
}

#[test]
fn plan_nothing_to_do() {
    let plan = service(4).plan_catchup(None, None, Ok(Some(200)), Ok(200)).unwrap();
    assert!(plan.is_empty());
}

#[test]
fn plan_fails_fast_on_lookup_errors() {
    let e = service(4)
        .plan_catchup(None, None, Ok(Some(1)), Err(Error::FirebaseError(FirebaseListenerErr::ParseError("max".to_string()))))
        .unwrap_err();
    assert_eq!(e.kind(), ErrorKind::Parse);
    let e = service(4)
        .plan_catchup(None, None, Err(Error::StoreError("down".to_string())), Ok(10))
        .unwrap_err();
    assert_eq!(e.kind(), ErrorKind::Store);
    let e = service(4)
        .plan_catchup(None, None, Err(Error::StoreError("down".to_string())), Err(Error::ConnectError("x".to_string())))
        .unwrap_err();
    assert_eq!(e.kind(), ErrorKind::Connect);
}

#[test]
fn plan_fails_on_empty_store_without_start() {
    let e = service(4).plan_catchup(None, None, Ok(None), Ok(10)).unwrap_err();
    assert!(matches!(e, Error::ConnectError(_)));
}

#[test]
fn report_counts_each_outcome() {
    let report = CatchupReport::from_outcomes(vec![
        ((1, 2), Ok(())),
        ((3, 4), Err(Error::StoreError("no".to_string()))),
        ((5, 9), Ok(())),
    ]);
    assert_eq!(report.succeeded, 2);
    assert_eq!(report.failed, 1);
    assert_eq!(report.outcomes.len(), 3);
    let empty = CatchupReport::from_outcomes(vec![]);
    assert_eq!((empty.succeeded, empty.failed), (0, 0));
}

#[test]
fn error_kinds() {
    assert_eq!(FirebaseListenerErr::ConnectError(String::new()).kind(), ErrorKind::Connect);
    assert_eq!(FirebaseListenerErr::ParseError(String::new()).kind(), ErrorKind::Parse);
    assert_eq!(FirebaseListenerErr::ChannelError(3).kind(), ErrorKind::Forward);
    assert_eq!(Error::FirebaseError(FirebaseListenerErr::ChannelError(3)).kind(), ErrorKind::Forward);
    assert_eq!(Error::StoreError(String::new()).kind(), ErrorKind::Store);
}

#[test]
fn listener_refuses_non_https_url() {
    match FirebaseListener::new("http://hacker-news.firebaseio.com/v0".to_string()) {
        Err(FirebaseListenerErr::ConnectError(m)) => {
            assert_eq!(m, "Could not connect to URL http://hacker-news.firebaseio.com/v0")
        }
        other => panic!("unexpected {:?}", other.map(|l| l.base_url().to_string())),
    }
    assert!(matches!(
        FirebaseListener::new("not a url".to_string()),
        Err(FirebaseListenerErr::ConnectError(_))
    ));
}

#[test]
fn listener_accepts_https_url() {
    let l = FirebaseListener::new("https://hacker-news.firebaseio.com/v0".to_string()).unwrap();
    assert_eq!(l.base_url(), "https://hacker-news.firebaseio.com/v0");
}

#[test]
fn config_holds_settings() {
    let c = Config { hn_api_url: "https://x.firebaseio.com".to_string(), db_url: "postgres://db".to_string(), num_workers: 8 };
    let s = SyncService::new(c.hn_api_url.clone(), c.num_workers);
    assert_eq!(s.num_workers, 8);
    assert_eq!(s.firebase_url, "https://x.firebaseio.com");
}

#[test]
fn errors_describe_themselves() {
    assert_eq!(
        FirebaseListenerErr::ConnectError("Could not connect to x".to_string()).describe(),
        "ConnectError: Could not connect to x"
    );
    assert_eq!(FirebaseListenerErr::ParseError("Item 3 is not valid!".to_string()).describe(), "ParseError: Item 3 is not valid!");
    assert_eq!(FirebaseListenerErr::ChannelError(9).describe(), "ChannelError: sending on a closed channel");
    assert_eq!(Error::ConnectError("pool".to_string()).describe(), "Connection error: pool");
    assert_eq!(Error::FirebaseError(FirebaseListenerErr::ParseError("p".to_string())).describe(), "ParseError: p");
    assert_eq!(Error::StoreError("duplicate key".to_string()).describe(), "duplicate key");
}

#[test]
fn plan_without_workers_is_fine_when_there_is_no_work() {
    let plan = service(0).plan_catchup(None, None, Ok(Some(300)), Ok(300)).unwrap();
    assert!(plan.is_empty());
    let e = service(0).plan_catchup(None, None, Ok(None), Ok(300)).unwrap_err();
    assert!(matches!(e, Error::ConnectError(_)));
}
