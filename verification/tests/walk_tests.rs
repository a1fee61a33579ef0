use sys_metrics::error::Error;
use sys_metrics::iostats_walk::walk_query;
use sys_metrics::iostats_walk::walk_start;
use sys_metrics::iostats_walk::walk_step;
use sys_metrics::iostats_walk::WalkAction;
use sys_metrics::iostats_walk::WalkQuery;
use sys_metrics::iostats_walk::WalkReply;
use sys_metrics::models::IoStats;

/// An instrumented fake registry: a scripted sequence of replies, with a
/// tally of every handle it handed out and every handle given back.
struct FakeRegistry {
    script: Vec<WalkReply>,
    acquired: Vec<u64>,
    released: Vec<u64>,
}

impl FakeRegistry {
    fn new(script: Vec<WalkReply>) -> FakeRegistry {
        FakeRegistry { script, acquired: Vec::new(), released: Vec::new() }
    }

    fn reply(&mut self, _q: WalkQuery) -> WalkReply {
        let r = self.script.remove(0);
        match &r {
            WalkReply::Disk(Some(h)) => self.acquired.push(*h),
            WalkReply::Parent(Ok(h)) => self.acquired.push(*h),
            WalkReply::Props(Ok(h)) => self.acquired.push(*h),
            _ => {}
        }
        r
    }

    fn release_all(&mut self, handles: &[u64]) {
        for h in handles {
            self.released.push(*h);
        }
    }

    fn balanced(&self) -> bool {
        let mut a = self.acquired.clone();
        let mut r = self.released.clone();
        a.sort();
        r.sort();
        a == r
    }
}

/// Drives the walk against the fake registry, exactly as a platform
/// driver would.
fn run_walk(reg: &mut FakeRegistry, iter: u64) -> Result<Vec<IoStats>, Error> {
    reg.acquired.push(iter);
    let mut state = walk_start(Ok(iter)).unwrap();
    loop {
        let q = walk_query(&state);
        let reply = reg.reply(q);
        let (next, action) = walk_step(state, reply);
        state = next;
        match action {
            WalkAction::Continue { releases } => reg.release_all(&releases),
            WalkAction::Finish { result, releases } => {
                reg.release_all(&releases);
                return result;
            }
        }
    }
}

#[test]
fn failed_iterator_creation_acquires_nothing() {
    match walk_start(Err(99)) {
        Err(e) => assert_eq!(e, Error::OsError(99)),
        Ok(_) => panic!("an iterator that failed to open cannot start a walk"),
    }
}

#[test]
fn happy_path_yields_one_record_and_releases_everything() {
    let mut reg = FakeRegistry::new(vec![
        WalkReply::Disk(Some(2)),
        WalkReply::Parent(Ok(3)),
        WalkReply::Conforms(true),
        WalkReply::Props(Ok(4)),
        WalkReply::Props(Ok(5)),
        WalkReply::Name(Some("disk0".to_string())),
        WalkReply::Stats(Some(6)),
        WalkReply::Bytes(111),
        WalkReply::Bytes(222),
        WalkReply::Disk(None),
    ]);
    let got = run_walk(&mut reg, 1).unwrap();
    assert_eq!(
        got,
        vec![IoStats { device_name: "disk0".to_string(), bytes_read: 111, bytes_wrtn: 222 }]
    );
    assert!(reg.balanced());
    assert_eq!(reg.acquired.len(), 5);
}

#[test]
fn non_conforming_disk_is_skipped_and_released() {
    let mut reg = FakeRegistry::new(vec![
        WalkReply::Disk(Some(2)),
        WalkReply::Parent(Ok(3)),
        WalkReply::Conforms(false),
        WalkReply::Disk(None),
    ]);
    let got = run_walk(&mut reg, 1).unwrap();
    assert_eq!(got, Vec::<IoStats>::new());
    assert!(reg.balanced());
}

#[test]
fn parent_props_failure_releases_exactly_what_was_acquired() {
    // The lookup fails after the iterator, a disk, its parent and one
    // dictionary have been acquired: exactly those four come back.
    let mut reg = FakeRegistry::new(vec![
        WalkReply::Disk(Some(2)),
        WalkReply::Parent(Ok(3)),
        WalkReply::Conforms(true),
        WalkReply::Props(Ok(4)),
        WalkReply::Props(Err(77)),
    ]);
    let got = run_walk(&mut reg, 1);
    assert_eq!(got, Err(Error::OsError(77)));
    assert!(reg.balanced());
    let mut acq = reg.acquired.clone();
    acq.sort();
    assert_eq!(acq, vec![1, 2, 3, 4]);
    assert_eq!(reg.released.len(), 4);
}

#[test]
fn parent_resolution_failure_releases_disk_and_iterator() {
    let mut reg = FakeRegistry::new(vec![
        WalkReply::Disk(Some(2)),
        WalkReply::Parent(Err(13)),
    ]);
    let got = run_walk(&mut reg, 1);
    assert_eq!(got, Err(Error::OsError(13)));
    assert!(reg.balanced());
    assert_eq!(reg.released.len(), 2);
}

#[test]
fn missing_name_key_is_not_found_with_zero_leak() {
    let mut reg = FakeRegistry::new(vec![
        WalkReply::Disk(Some(2)),
        WalkReply::Parent(Ok(3)),
        WalkReply::Conforms(true),
        WalkReply::Props(Ok(4)),
        WalkReply::Props(Ok(5)),
        WalkReply::Name(None),
    ]);
    let got = run_walk(&mut reg, 1);
    assert_eq!(got, Err(Error::NotFound));
    assert!(reg.balanced());
    assert_eq!(reg.released.len(), 5);
}

#[test]
fn missing_stats_key_is_not_found_with_zero_leak() {
    let mut reg = FakeRegistry::new(vec![
        WalkReply::Disk(Some(2)),
        WalkReply::Parent(Ok(3)),
        WalkReply::Conforms(true),
        WalkReply::Props(Ok(4)),
        WalkReply::Props(Ok(5)),
        WalkReply::Name(Some("disk0".to_string())),
        WalkReply::Stats(None),
    ]);
    let got = run_walk(&mut reg, 1);
    assert_eq!(got, Err(Error::NotFound));
    assert!(reg.balanced());
}

#[test]
fn two_disks_walk_in_iterator_order() {
    let mut reg = FakeRegistry::new(vec![
        WalkReply::Disk(Some(2)),
        WalkReply::Parent(Ok(3)),
        WalkReply::Conforms(true),
        WalkReply::Props(Ok(4)),
        WalkReply::Props(Ok(5)),
        WalkReply::Name(Some("disk0".to_string())),
        WalkReply::Stats(Some(6)),
        WalkReply::Bytes(10),
        WalkReply::Bytes(20),
        WalkReply::Disk(Some(7)),
        WalkReply::Parent(Ok(8)),
        WalkReply::Conforms(true),
        WalkReply::Props(Ok(9)),
        WalkReply::Props(Ok(10)),
        WalkReply::Name(Some("disk1".to_string())),
        WalkReply::Stats(Some(11)),
        WalkReply::Bytes(30),
        WalkReply::Bytes(40),
        WalkReply::Disk(None),
    ]);
    let got = run_walk(&mut reg, 1).unwrap();
    assert_eq!(got.len(), 2);
    assert_eq!(got[0].device_name, "disk0");
    assert_eq!(got[1].device_name, "disk1");
    assert_eq!(got[1].bytes_read, 30);
    assert_eq!(got[1].bytes_wrtn, 40);
    assert!(reg.balanced());
}

#[test]
fn walk_queries_follow_the_phase() {
    let mut state = walk_start(Ok(1)).unwrap();
    assert_eq!(walk_query(&state), WalkQuery::NextDisk { iter: 1 });
    let (next, _) = walk_step(state, WalkReply::Disk(Some(2)));
    state = next;
    assert_eq!(walk_query(&state), WalkQuery::GetParent { disk: 2 });
    let (next, _) = walk_step(state, WalkReply::Parent(Ok(3)));
    state = next;
    assert_eq!(walk_query(&state), WalkQuery::Conforms { parent: 3 });
    let (next, _) = walk_step(state, WalkReply::Conforms(true));
    state = next;
    assert_eq!(walk_query(&state), WalkQuery::DiskProps { disk: 2 });
    let (next, _) = walk_step(state, WalkReply::Props(Ok(4)));
    state = next;
    assert_eq!(walk_query(&state), WalkQuery::ParentProps { parent: 3 });
    let (next, _) = walk_step(state, WalkReply::Props(Ok(5)));
    state = next;
    assert_eq!(walk_query(&state), WalkQuery::LookupName { dict: 4 });
    let (next, _) = walk_step(state, WalkReply::Name(Some("d".to_string())));
    state = next;
    assert_eq!(walk_query(&state), WalkQuery::LookupStats { dict: 5 });
    let (next, _) = walk_step(state, WalkReply::Stats(Some(6)));
    state = next;
    assert_eq!(walk_query(&state), WalkQuery::ReadBytes { dict: 6, write: false });
    let (next, _) = walk_step(state, WalkReply::Bytes(1));
    state = next;
    assert_eq!(walk_query(&state), WalkQuery::ReadBytes { dict: 6, write: true });
}

#[test]
fn failure_reply_finishes_the_walk_at_once() {
    let mut state = walk_start(Ok(1)).unwrap();
    for reply in [
        WalkReply::Disk(Some(2)),
        WalkReply::Parent(Ok(3)),
        WalkReply::Conforms(true),
        WalkReply::Props(Ok(4)),
    ] {
        let (next, action) = walk_step(state, reply);
        assert!(matches!(action, WalkAction::Continue { .. }));
        state = next;
    }
    let (_, action) = walk_step(state, WalkReply::Props(Err(77)));
    match action {
        WalkAction::Finish { result, releases } => {
            assert_eq!(result, Err(Error::OsError(77)));
            let mut r = releases;
            r.sort();
            assert_eq!(r, vec![1, 2, 3, 4]);
        }
        WalkAction::Continue { .. } => panic!("a failed lookup must end the walk"),
    }
}
