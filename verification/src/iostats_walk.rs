//! The device-registry walk behind the per-disk I/O statistics.
//!
//! On the platform whose disk counters live in a hierarchical device
//! registry, the accessor iterates device nodes, resolves each node's
//! parent, keeps the ones driven by a block-storage driver, and digs the
//! byte counters out of nested property dictionaries.  Every handle
//! acquired on the way — the iterator, each node, each parent, each
//! created dictionary — must be given back on every exit path.
//!
//! The walk is a step machine.  The platform driver owns the raw
//! registry calls: it asks the machine what to query, performs the
//! query, and hands the answer back; the machine decides the next query,
//! which handles to release now, and when the walk is over.  The
//! machine's contract carries the whole resource ledger: two ghost
//! multisets record every handle the replies brought in and every handle
//! handed out for release, and a finished walk — normal end or any
//! failure — has handed out exactly what it acquired.

use crate::error::Error;
use crate::models::IoStats;
use vstd::multiset::Multiset;
use vstd::prelude::*;

verus! {

/// One registry query the driver must perform for the machine.
#[derive(Clone, Debug, PartialEq)]
pub enum WalkQuery {
    /// Advance the device iterator.
    NextDisk { iter: u64 },
    /// Resolve the node's parent in the service plane.
    GetParent { disk: u64 },
    /// Does the parent conform to the block-storage driver class?
    Conforms { parent: u64 },
    /// Create the property dictionary of the disk node.
    DiskProps { disk: u64 },
    /// Create the property dictionary of the parent node.
    ParentProps { parent: u64 },
    /// Look the device name up in the disk's dictionary.
    LookupName { dict: u64 },
    /// Look the statistics sub-dictionary up in the parent's dictionary.
    LookupStats { dict: u64 },
    /// Read the bytes-read (`write == false`) or bytes-written
    /// (`write == true`) counter from the statistics dictionary.
    ReadBytes { dict: u64, write: bool },
}

/// The driver's answer to the pending query.
#[derive(Debug, PartialEq)]
pub enum WalkReply {
    /// The next device node, or `None` when the iterator is exhausted.
    Disk(Option<u64>),
    /// The parent node, or the kernel's failure code.
    Parent(Result<u64, i32>),
    /// Whether the parent conforms to the block-storage driver class.
    Conforms(bool),
    /// A created property dictionary, or the kernel's failure code.
    Props(Result<u64, i32>),
    /// The device name, or `None` when the key is absent or its value
    /// cannot be read out.
    Name(Option<String>),
    /// The statistics sub-dictionary — a borrowed reference, not a new
    /// handle — or `None` when the key is absent.
    Stats(Option<u64>),
    /// A byte counter's value.
    Bytes(i64),
}

/// Where the walk stands, carrying the handles it holds.
#[derive(Debug, PartialEq)]
pub enum WalkPhase {
    /// About to advance the iterator.
    AtIter,
    /// Holding a device node; its parent is wanted.
    AtDisk { disk: u64 },
    /// Holding node and parent; the class check is wanted.
    AtParent { disk: u64, parent: u64 },
    /// The parent conforms; the disk's dictionary is wanted.
    NeedDiskProps { disk: u64, parent: u64 },
    /// Holding the disk's dictionary; the parent's is wanted.
    NeedParentProps { disk: u64, parent: u64, dprops: u64 },
    /// Holding both dictionaries; the device name is wanted.
    NeedName { disk: u64, parent: u64, dprops: u64, pprops: u64 },
    /// The statistics sub-dictionary is wanted.
    NeedStats { disk: u64, parent: u64, dprops: u64, pprops: u64, name: String },
    /// The bytes-read counter is wanted; `stats` is borrowed from the
    /// parent's dictionary and owns nothing.
    NeedRead { disk: u64, parent: u64, dprops: u64, pprops: u64, stats: u64, name: String },
    /// The bytes-written counter is wanted.
    NeedWrite {
        disk: u64,
        parent: u64,
        dprops: u64,
        pprops: u64,
        stats: u64,
        name: String,
        read: i64,
    },
    /// The walk is over; nothing is held.
    Finished,
}

/// The walk's state: the iterator handle, the phase, the records
/// gathered so far, and the ghost resource ledger.
pub struct WalkState {
    pub iter: u64,
    pub phase: WalkPhase,
    pub out: Vec<IoStats>,
    /// Every handle a reply has brought in, the iterator included.
    pub acquired: Ghost<Multiset<u64>>,
    /// Every handle handed out for release.
    pub released: Ghost<Multiset<u64>>,
}

/// What one step tells the driver to do next.
#[derive(Debug, PartialEq)]
pub enum WalkAction {
    /// Release these handles, then perform the next query.
    Continue { releases: Vec<u64> },
    /// Release these handles; the walk is over with this result.
    Finish { result: Result<Vec<IoStats>, Error>, releases: Vec<u64> },
}

/// The handles a phase holds, the iterator aside.
pub open spec fn phase_held(p: WalkPhase) -> Multiset<u64> {
    match p {
        WalkPhase::AtIter => Multiset::empty(),
        WalkPhase::AtDisk { disk } => Multiset::empty().insert(disk),
        WalkPhase::AtParent { disk, parent } => Multiset::empty().insert(disk).insert(parent),
        WalkPhase::NeedDiskProps { disk, parent } => Multiset::empty().insert(disk).insert(
            parent,
        ),
        WalkPhase::NeedParentProps { disk, parent, dprops } => Multiset::empty().insert(
            disk,
        ).insert(parent).insert(dprops),
        WalkPhase::NeedName { disk, parent, dprops, pprops } => Multiset::empty().insert(
            disk,
        ).insert(parent).insert(dprops).insert(pprops),
        WalkPhase::NeedStats { disk, parent, dprops, pprops, .. } => Multiset::empty().insert(
            disk,
        ).insert(parent).insert(dprops).insert(pprops),
        WalkPhase::NeedRead { disk, parent, dprops, pprops, .. } => Multiset::empty().insert(
            disk,
        ).insert(parent).insert(dprops).insert(pprops),
        WalkPhase::NeedWrite { disk, parent, dprops, pprops, .. } => Multiset::empty().insert(
            disk,
        ).insert(parent).insert(dprops).insert(pprops),
        WalkPhase::Finished => Multiset::empty(),
    }
}

/// Everything the state still holds: the phase's handles plus the
/// iterator, or nothing once the walk is over.
pub open spec fn walk_held(s: WalkState) -> Multiset<u64> {
    match s.phase {
        WalkPhase::Finished => Multiset::empty(),
        _ => phase_held(s.phase).insert(s.iter),
    }
}

/// The resource ledger balances: what came in is what went out plus
/// what is still held.
pub open spec fn walk_wf(s: WalkState) -> bool {
    s.acquired@ == s.released@.add(walk_held(s))
}

/// The handles a reply brings in: a yielded node, a resolved parent, a
/// created dictionary.  A borrowed statistics sub-dictionary brings in
/// nothing.
pub open spec fn reply_acquires(reply: WalkReply) -> Multiset<u64> {
    match reply {
        WalkReply::Disk(Some(d)) => Multiset::empty().insert(d),
        WalkReply::Parent(Ok(p)) => Multiset::empty().insert(p),
        WalkReply::Props(Ok(x)) => Multiset::empty().insert(x),
        _ => Multiset::empty(),
    }
}

/// The query the machine expects answered in each phase.
pub open spec fn spec_walk_query(s: WalkState) -> WalkQuery {
    match s.phase {
        WalkPhase::AtIter => WalkQuery::NextDisk { iter: s.iter },
        WalkPhase::AtDisk { disk } => WalkQuery::GetParent { disk },
        WalkPhase::AtParent { parent, .. } => WalkQuery::Conforms { parent },
        WalkPhase::NeedDiskProps { disk, .. } => WalkQuery::DiskProps { disk },
        WalkPhase::NeedParentProps { parent, .. } => WalkQuery::ParentProps { parent },
        WalkPhase::NeedName { dprops, .. } => WalkQuery::LookupName { dict: dprops },
        WalkPhase::NeedStats { pprops, .. } => WalkQuery::LookupStats { dict: pprops },
        WalkPhase::NeedRead { stats, .. } => WalkQuery::ReadBytes { dict: stats, write: false },
        WalkPhase::NeedWrite { stats, .. } => WalkQuery::ReadBytes { dict: stats, write: true },
        WalkPhase::Finished => WalkQuery::NextDisk { iter: s.iter },
    }
}

/// Whether a reply answers the query of the current phase.
pub open spec fn walk_reply_matches(p: WalkPhase, reply: WalkReply) -> bool {
    match (p, reply) {
        (WalkPhase::AtIter, WalkReply::Disk(_)) => true,
        (WalkPhase::AtDisk { .. }, WalkReply::Parent(_)) => true,
        (WalkPhase::AtParent { .. }, WalkReply::Conforms(_)) => true,
        (WalkPhase::NeedDiskProps { .. }, WalkReply::Props(_)) => true,
        (WalkPhase::NeedParentProps { .. }, WalkReply::Props(_)) => true,
        (WalkPhase::NeedName { .. }, WalkReply::Name(_)) => true,
        (WalkPhase::NeedStats { .. }, WalkReply::Stats(_)) => true,
        (WalkPhase::NeedRead { .. }, WalkReply::Bytes(_)) => true,
        (WalkPhase::NeedWrite { .. }, WalkReply::Bytes(_)) => true,
        _ => false,
    }
}

/// The phase one answered query leads to.  Total over every reply the
/// phase accepts: a failed or missing answer — and an exhausted
/// iterator — leads to `Finished` and nowhere else, a successful one
/// carries its handles and values into the next phase, and the device
/// is left (back to the iterator) only by failing the class check or by
/// completing its record.
pub open spec fn spec_next_phase(p: WalkPhase, reply: WalkReply) -> WalkPhase {
    match (p, reply) {
        (WalkPhase::AtIter, WalkReply::Disk(Some(d))) => WalkPhase::AtDisk { disk: d },
        (WalkPhase::AtIter, WalkReply::Disk(None)) => WalkPhase::Finished,
        (WalkPhase::AtDisk { disk }, WalkReply::Parent(Ok(parent))) => WalkPhase::AtParent {
            disk,
            parent,
        },
        (WalkPhase::AtDisk { .. }, WalkReply::Parent(Err(_))) => WalkPhase::Finished,
        (WalkPhase::AtParent { disk, parent }, WalkReply::Conforms(true)) => (
        WalkPhase::NeedDiskProps { disk, parent }),
        (WalkPhase::AtParent { .. }, WalkReply::Conforms(false)) => WalkPhase::AtIter,
        (WalkPhase::NeedDiskProps { disk, parent }, WalkReply::Props(Ok(dprops))) => (
        WalkPhase::NeedParentProps { disk, parent, dprops }),
        (WalkPhase::NeedDiskProps { .. }, WalkReply::Props(Err(_))) => WalkPhase::Finished,
        (WalkPhase::NeedParentProps { disk, parent, dprops }, WalkReply::Props(Ok(pprops))) => (
        WalkPhase::NeedName { disk, parent, dprops, pprops }),
        (WalkPhase::NeedParentProps { .. }, WalkReply::Props(Err(_))) => WalkPhase::Finished,
        (WalkPhase::NeedName { disk, parent, dprops, pprops }, WalkReply::Name(Some(name))) => (
        WalkPhase::NeedStats { disk, parent, dprops, pprops, name }),
        (WalkPhase::NeedName { .. }, WalkReply::Name(None)) => WalkPhase::Finished,
        (WalkPhase::NeedStats { disk, parent, dprops, pprops, name }, WalkReply::Stats(
            Some(stats),
        )) => WalkPhase::NeedRead { disk, parent, dprops, pprops, stats, name },
        (WalkPhase::NeedStats { .. }, WalkReply::Stats(None)) => WalkPhase::Finished,
        (
            WalkPhase::NeedRead { disk, parent, dprops, pprops, stats, name },
            WalkReply::Bytes(read),
        ) => WalkPhase::NeedWrite { disk, parent, dprops, pprops, stats, name, read },
        (WalkPhase::NeedWrite { .. }, WalkReply::Bytes(_)) => WalkPhase::AtIter,
        _ => WalkPhase::Finished,
    }
}

/// How far into one device's processing a phase stands.
pub open spec fn phase_rank(p: WalkPhase) -> nat {
    match p {
        WalkPhase::AtIter => 0,
        WalkPhase::AtDisk { .. } => 1,
        WalkPhase::AtParent { .. } => 2,
        WalkPhase::NeedDiskProps { .. } => 3,
        WalkPhase::NeedParentProps { .. } => 4,
        WalkPhase::NeedName { .. } => 5,
        WalkPhase::NeedStats { .. } => 6,
        WalkPhase::NeedRead { .. } => 7,
        WalkPhase::NeedWrite { .. } => 8,
        WalkPhase::Finished => 9,
    }
}

/// Every step makes progress: it ends the walk, leaves the current
/// device for the iterator, or moves one rank deeper into the device.
/// A driver therefore spends at most nine steps on each device the
/// iterator yields, and a finite iterator means a finite walk.
pub proof fn lemma_walk_progress(p: WalkPhase, reply: WalkReply)
    requires
        !(p is Finished),
        walk_reply_matches(p, reply),
    ensures
        ({
            let n = spec_next_phase(p, reply);
            n is Finished || n == WalkPhase::AtIter || phase_rank(n) == phase_rank(p) + 1
        }),
{
}

/// The bag of handles in a release list.
pub open spec fn handle_bag(l: Seq<u64>) -> Multiset<u64>
    decreases l.len(),
{
    if l.len() == 0 {
        Multiset::empty()
    } else {
        handle_bag(l.drop_last()).insert(l.last())
    }
}

/// Opens the walk from the iterator-creation call: a failed call
/// acquired nothing and surfaces the OS error; a successful one holds
/// exactly the iterator and stands ready to advance it.
pub fn walk_start(iter_result: Result<u64, i32>) -> (r: Result<WalkState, Error>)
    ensures
        match iter_result {
            Ok(h) => match r {
                Ok(s) => {
                    &&& walk_wf(s)
                    &&& s.iter == h
                    &&& s.phase == WalkPhase::AtIter
                    &&& s.out@ == Seq::<IoStats>::empty()
                    &&& s.acquired@ == Multiset::empty().insert(h)
                    &&& s.released@ == Multiset::<u64>::empty()
                },
                Err(_) => false,
            },
            Err(c) => r == Err::<WalkState, Error>(Error::OsError(c)),
        },
{
    match iter_result {
        Ok(h) => {
            let s = WalkState {
                iter: h,
                phase: WalkPhase::AtIter,
                out: Vec::new(),
                acquired: Ghost(Multiset::empty().insert(h)),
                released: Ghost(Multiset::empty()),
            };
            proof {
                assert(walk_held(s) =~= Multiset::empty().insert(h));
                assert(s.released@.add(walk_held(s)) =~= s.acquired@);
            }
            Ok(s)
        },
        Err(c) => Err(Error::OsError(c)),
    }
}

/// The query the driver must perform next.
pub fn walk_query(s: &WalkState) -> (q: WalkQuery)
    requires
        !(s.phase is Finished),
    ensures
        q == spec_walk_query(*s),
{
    match &s.phase {
        WalkPhase::AtIter => WalkQuery::NextDisk { iter: s.iter },
        WalkPhase::AtDisk { disk } => WalkQuery::GetParent { disk: *disk },
        WalkPhase::AtParent { parent, .. } => WalkQuery::Conforms { parent: *parent },
        WalkPhase::NeedDiskProps { disk, .. } => WalkQuery::DiskProps { disk: *disk },
        WalkPhase::NeedParentProps { parent, .. } => WalkQuery::ParentProps { parent: *parent },
        WalkPhase::NeedName { dprops, .. } => WalkQuery::LookupName { dict: *dprops },
        WalkPhase::NeedStats { pprops, .. } => WalkQuery::LookupStats { dict: *pprops },
        WalkPhase::NeedRead { stats, .. } => WalkQuery::ReadBytes { dict: *stats, write: false },
        WalkPhase::NeedWrite { stats, .. } => WalkQuery::ReadBytes { dict: *stats, write: true },
        WalkPhase::Finished => WalkQuery::NextDisk { iter: s.iter },
    }
}

/// Appending a handle to a release list adds it to the bag.
pub proof fn lemma_handle_bag_push(l: Seq<u64>, a: u64)
    ensures
        handle_bag(l.push(a)) == handle_bag(l).insert(a),
{
    assert(l.push(a).drop_last() =~= l);
    assert(l.push(a).last() == a);
}

/// An empty release list.
fn rel0() -> (r: Vec<u64>)
    ensures
        handle_bag(r@) == Multiset::<u64>::empty(),
        r@.len() == 0,
{
    let r: Vec<u64> = Vec::new();
    proof {
        assert(handle_bag(r@) =~= Multiset::<u64>::empty());
    }
    r
}

/// A release list of two handles.
fn rel2(a: u64, b: u64) -> (r: Vec<u64>)
    ensures
        handle_bag(r@) == Multiset::empty().insert(a).insert(b),
        r@ == seq![a, b],
{
    let mut r: Vec<u64> = Vec::new();
    proof {
        assert(handle_bag(r@) =~= Multiset::<u64>::empty());
    }
    let ghost g0 = r@;
    r.push(a);
    proof {
        lemma_handle_bag_push(g0, a);
    }
    let ghost g1 = r@;
    r.push(b);
    proof {
        lemma_handle_bag_push(g1, b);
        assert(r@ =~= seq![a, b]);
    }
    r
}

/// A release list of three handles.
fn rel3(a: u64, b: u64, c: u64) -> (r: Vec<u64>)
    ensures
        handle_bag(r@) == Multiset::empty().insert(a).insert(b).insert(c),
        r@ == seq![a, b, c],
{
    let mut r = rel2(a, b);
    let ghost g2 = r@;
    r.push(c);
    proof {
        lemma_handle_bag_push(g2, c);
        assert(r@ =~= seq![a, b, c]);
    }
    r
}

/// A release list of four handles.
fn rel4(a: u64, b: u64, c: u64, d: u64) -> (r: Vec<u64>)
    ensures
        handle_bag(r@) == Multiset::empty().insert(a).insert(b).insert(c).insert(d),
        r@ == seq![a, b, c, d],
{
    let mut r = rel2(a, b);
    let ghost g2 = r@;
    r.push(c);
    proof {
        lemma_handle_bag_push(g2, c);
    }
    let ghost g3 = r@;
    r.push(d);
    proof {
        lemma_handle_bag_push(g3, d);
        assert(r@ =~= seq![a, b, c, d]);
    }
    r
}

/// A release list of five handles.
fn rel5(a: u64, b: u64, c: u64, d: u64, e: u64) -> (r: Vec<u64>)
    ensures
        handle_bag(r@) == Multiset::empty().insert(a).insert(b).insert(c).insert(d).insert(e),
        r@ == seq![a, b, c, d, e],
{
    let mut r = rel4(a, b, c, d);
    let ghost g4 = r@;
    r.push(e);
    proof {
        lemma_handle_bag_push(g4, e);
        assert(r@ =~= seq![a, b, c, d, e]);
    }
    r
}

/// Advances the walk by one answered query.
///
/// The contract pins two things.  The successor phase is exactly
/// [`spec_next_phase`] of the reply: every failed or missing answer
/// reaches `Finished` — so the walk must end there, and a failure can
/// never be followed by more records or an `Ok` — and every successful
/// lookup carries its handle or value (the device name, the bytes-read
/// count) into the next phase, so the record finally pushed is built
/// from exactly the replies that delivered its fields.  And the ledger:
/// the new state's `acquired` grows by exactly what the reply brought
/// in, its `released` by exactly the handles this step hands out, the
/// ledger stays balanced — and when the action is `Finish`, for any
/// reason, released equals acquired: not one handle leaks on any exit
/// path.
pub fn walk_step(s: WalkState, reply: WalkReply) -> (r: (WalkState, WalkAction))
    requires
        walk_wf(s),
        !(s.phase is Finished),
        walk_reply_matches(s.phase, reply),
    ensures
        walk_wf(r.0),
        r.0.iter == s.iter,
        r.0.acquired@ == s.acquired@.add(reply_acquires(reply)),
        match r.1 {
            WalkAction::Continue { releases } => {
                &&& r.0.released@ == s.released@.add(handle_bag(releases@))
                &&& !(r.0.phase is Finished)
            },
            WalkAction::Finish { result, releases } => {
                &&& r.0.released@ == s.released@.add(handle_bag(releases@))
                &&& r.0.phase is Finished
                &&& r.0.released@ == r.0.acquired@
                &&& match (s.phase, reply) {
                    (WalkPhase::AtIter, WalkReply::Disk(ans)) => ans is None && (result
                        matches Ok(v) && v@ == s.out@),
                    (WalkPhase::AtDisk { .. }, WalkReply::Parent(ans)) => ans matches Err(c)
                        && result == Err::<Vec<IoStats>, Error>(Error::OsError(c)),
                    (WalkPhase::NeedDiskProps { .. }, WalkReply::Props(ans)) => ans matches Err(
                        c,
                    ) && result == Err::<Vec<IoStats>, Error>(Error::OsError(c)),
                    (WalkPhase::NeedParentProps { .. }, WalkReply::Props(ans)) => ans matches Err(
                        c,
                    ) && result == Err::<Vec<IoStats>, Error>(Error::OsError(c)),
                    (WalkPhase::NeedName { .. }, WalkReply::Name(ans)) => ans is None && result
                        == Err::<Vec<IoStats>, Error>(Error::NotFound),
                    (WalkPhase::NeedStats { .. }, WalkReply::Stats(ans)) => ans is None && result
                        == Err::<Vec<IoStats>, Error>(Error::NotFound),
                    _ => false,
                }
            },
        },
        match (s.phase, reply) {
            (WalkPhase::NeedWrite { name, read, .. }, WalkReply::Bytes(w)) => r.0.out@ == s.out@
                .push(IoStats { device_name: name, bytes_read: read, bytes_wrtn: w }),
            (WalkPhase::AtIter, WalkReply::Disk(Some(_))) => r.0.out@ == s.out@,
            _ => r.1 matches WalkAction::Finish { .. } || r.0.out@ == s.out@,
        },
        r.0.phase == spec_next_phase(s.phase, reply),
{
    let WalkState { iter, phase, mut out, acquired, released } = s;
    let ghost old_held = walk_held(s);
    match (phase, reply) {
        (WalkPhase::AtIter, WalkReply::Disk(ans)) => match ans {
            Some(d) => {
                let ns = WalkState {
                    iter,
                    phase: WalkPhase::AtDisk { disk: d },
                    out,
                    acquired: Ghost(acquired@.insert(d)),
                    released,
                };
                proof {
                    assert(walk_held(ns) =~= old_held.insert(d));
                    assert(ns.acquired@ =~= ns.released@.add(walk_held(ns)));
                    assert(ns.acquired@ =~= s.acquired@.add(reply_acquires(reply)));
                }
                let releases = rel0();
                proof {
                    assert(ns.released@ =~= ns.released@.add(handle_bag(releases@)));
                }
                (ns, WalkAction::Continue { releases })
            },
            None => {
                // The iterator is the only handle left; hand it out.
                let releases = rel1(iter);
                let ns = WalkState {
                    iter,
                    phase: WalkPhase::Finished,
                    out: Vec::new(),
                    acquired,
                    released: Ghost(released@.insert(iter)),
                };
                proof {
                    assert(ns.released@ =~= s.released@.add(handle_bag(releases@)));
                    assert(walk_held(ns) =~= Multiset::<u64>::empty());
                    assert(ns.acquired@ =~= ns.released@.add(walk_held(ns)));
                    assert(reply_acquires(reply) =~= Multiset::<u64>::empty());
                    assert(ns.acquired@ =~= s.acquired@.add(reply_acquires(reply)));
                }
                (ns, WalkAction::Finish { result: Ok(out), releases })
            },
        },
        (WalkPhase::AtDisk { disk }, WalkReply::Parent(ans)) => match ans {
            Ok(p) => {
                let ns = WalkState {
                    iter,
                    phase: WalkPhase::AtParent { disk, parent: p },
                    out,
                    acquired: Ghost(acquired@.insert(p)),
                    released,
                };
                proof {
                    assert(walk_held(ns) =~= old_held.insert(p));
                    assert(ns.acquired@ =~= ns.released@.add(walk_held(ns)));
                    assert(ns.acquired@ =~= s.acquired@.add(reply_acquires(reply)));
                }
                let releases = rel0();
                proof {
                    assert(ns.released@ =~= ns.released@.add(handle_bag(releases@)));
                }
                (ns, WalkAction::Continue { releases })
            },
            Err(c) => {
                let releases = rel2(disk, iter);
                let ns = WalkState {
                    iter,
                    phase: WalkPhase::Finished,
                    out: Vec::new(),
                    acquired,
                    released: Ghost(released@.add(handle_bag(releases@))),
                };
                proof {
                    assert(walk_held(ns) =~= Multiset::<u64>::empty());
                    assert(old_held =~= handle_bag(releases@));
                    assert(ns.acquired@ =~= ns.released@.add(walk_held(ns)));
                    assert(ns.acquired@ =~= s.acquired@.add(reply_acquires(reply)));
                }
                (ns, WalkAction::Finish { result: Err(Error::OsError(c)), releases })
            },
        },
        (WalkPhase::AtParent { disk, parent }, WalkReply::Conforms(c)) => {
            if c {
                let ns = WalkState {
                    iter,
                    phase: WalkPhase::NeedDiskProps { disk, parent },
                    out,
                    acquired,
                    released,
                };
                proof {
                    assert(walk_held(ns) =~= old_held);
                    assert(ns.acquired@ =~= ns.released@.add(walk_held(ns)));
                    assert(ns.acquired@ =~= s.acquired@.add(reply_acquires(reply)));
                }
                let releases = rel0();
                proof {
                    assert(ns.released@ =~= ns.released@.add(handle_bag(releases@)));
                }
                (ns, WalkAction::Continue { releases })
            } else {
                // Not a block-storage device: give the pair back and move on.
                let releases = rel2(disk, parent);
                let ns = WalkState {
                    iter,
                    phase: WalkPhase::AtIter,
                    out,
                    acquired,
                    released: Ghost(released@.add(handle_bag(releases@))),
                };
                proof {
                    assert(walk_held(ns) =~= Multiset::empty().insert(iter));
                    assert(old_held =~= handle_bag(releases@).insert(iter));
                    assert(ns.acquired@ =~= ns.released@.add(walk_held(ns)));
                    assert(ns.acquired@ =~= s.acquired@.add(reply_acquires(reply)));
                }
                (ns, WalkAction::Continue { releases })
            }
        },
        (WalkPhase::NeedDiskProps { disk, parent }, WalkReply::Props(ans)) => match ans {
            Ok(dd) => {
                let ns = WalkState {
                    iter,
                    phase: WalkPhase::NeedParentProps { disk, parent, dprops: dd },
                    out,
                    acquired: Ghost(acquired@.insert(dd)),
                    released,
                };
                proof {
                    assert(walk_held(ns) =~= old_held.insert(dd));
                    assert(ns.acquired@ =~= ns.released@.add(walk_held(ns)));
                    assert(ns.acquired@ =~= s.acquired@.add(reply_acquires(reply)));
                }
                let releases = rel0();
                proof {
                    assert(ns.released@ =~= ns.released@.add(handle_bag(releases@)));
                }
                (ns, WalkAction::Continue { releases })
            },
            Err(c) => {
                let releases = rel3(disk, parent, iter);
                let ns = WalkState {
                    iter,
                    phase: WalkPhase::Finished,
                    out: Vec::new(),
                    acquired,
                    released: Ghost(released@.add(handle_bag(releases@))),
                };
                proof {
                    assert(walk_held(ns) =~= Multiset::<u64>::empty());
                    assert(old_held =~= handle_bag(releases@));
                    assert(ns.acquired@ =~= ns.released@.add(walk_held(ns)));
                    assert(ns.acquired@ =~= s.acquired@.add(reply_acquires(reply)));
                }
                (ns, WalkAction::Finish { result: Err(Error::OsError(c)), releases })
            },
        },
        (WalkPhase::NeedParentProps { disk, parent, dprops }, WalkReply::Props(ans)) => match ans {
            Ok(pd) => {
                let ns = WalkState {
                    iter,
                    phase: WalkPhase::NeedName { disk, parent, dprops, pprops: pd },
                    out,
                    acquired: Ghost(acquired@.insert(pd)),
                    released,
                };
                proof {
                    assert(walk_held(ns) =~= old_held.insert(pd));
                    assert(ns.acquired@ =~= ns.released@.add(walk_held(ns)));
                    assert(ns.acquired@ =~= s.acquired@.add(reply_acquires(reply)));
                }
                let releases = rel0();
                proof {
                    assert(ns.released@ =~= ns.released@.add(handle_bag(releases@)));
                }
                (ns, WalkAction::Continue { releases })
            },
            Err(c) => {
                let releases = rel4(dprops, disk, parent, iter);
                let ns = WalkState {
                    iter,
                    phase: WalkPhase::Finished,
                    out: Vec::new(),
                    acquired,
                    released: Ghost(released@.add(handle_bag(releases@))),
                };
                proof {
                    assert(walk_held(ns) =~= Multiset::<u64>::empty());
                    assert(old_held =~= handle_bag(releases@));
                    assert(ns.acquired@ =~= ns.released@.add(walk_held(ns)));
                    assert(ns.acquired@ =~= s.acquired@.add(reply_acquires(reply)));
                }
                (ns, WalkAction::Finish { result: Err(Error::OsError(c)), releases })
            },
        },
        (WalkPhase::NeedName { disk, parent, dprops, pprops }, WalkReply::Name(ans)) => match ans {
            Some(name) => {
                let ns = WalkState {
                    iter,
                    phase: WalkPhase::NeedStats { disk, parent, dprops, pprops, name },
                    out,
                    acquired,
                    released,
                };
                proof {
                    assert(walk_held(ns) =~= old_held);
                    assert(ns.acquired@ =~= ns.released@.add(walk_held(ns)));
                    assert(ns.acquired@ =~= s.acquired@.add(reply_acquires(reply)));
                }
                let releases = rel0();
                proof {
                    assert(ns.released@ =~= ns.released@.add(handle_bag(releases@)));
                }
                (ns, WalkAction::Continue { releases })
            },
            None => {
                let releases = rel5(dprops, pprops, disk, parent, iter);
                let ns = WalkState {
                    iter,
                    phase: WalkPhase::Finished,
                    out: Vec::new(),
                    acquired,
                    released: Ghost(released@.add(handle_bag(releases@))),
                };
                proof {
                    assert(walk_held(ns) =~= Multiset::<u64>::empty());
                    assert(old_held =~= handle_bag(releases@));
                    assert(ns.acquired@ =~= ns.released@.add(walk_held(ns)));
                    assert(ns.acquired@ =~= s.acquired@.add(reply_acquires(reply)));
                }
                (ns, WalkAction::Finish { result: Err(Error::NotFound), releases })
            },
        },
        (WalkPhase::NeedStats { disk, parent, dprops, pprops, name }, WalkReply::Stats(ans)) => match ans {
            Some(sd) => {
                let ns = WalkState {
                    iter,
                    phase: WalkPhase::NeedRead { disk, parent, dprops, pprops, stats: sd, name },
                    out,
                    acquired,
                    released,
                };
                proof {
                    assert(walk_held(ns) =~= old_held);
                    assert(ns.acquired@ =~= ns.released@.add(walk_held(ns)));
                    assert(ns.acquired@ =~= s.acquired@.add(reply_acquires(reply)));
                }
                let releases = rel0();
                proof {
                    assert(ns.released@ =~= ns.released@.add(handle_bag(releases@)));
                }
                (ns, WalkAction::Continue { releases })
            },
            None => {
                let releases = rel5(dprops, pprops, disk, parent, iter);
                let ns = WalkState {
                    iter,
                    phase: WalkPhase::Finished,
                    out: Vec::new(),
                    acquired,
                    released: Ghost(released@.add(handle_bag(releases@))),
                };
                proof {
                    assert(walk_held(ns) =~= Multiset::<u64>::empty());
                    assert(old_held =~= handle_bag(releases@));
                    assert(ns.acquired@ =~= ns.released@.add(walk_held(ns)));
                    assert(ns.acquired@ =~= s.acquired@.add(reply_acquires(reply)));
                }
                (ns, WalkAction::Finish { result: Err(Error::NotFound), releases })
            },
        },
        (WalkPhase::NeedRead { disk, parent, dprops, pprops, stats, name }, WalkReply::Bytes(v)) => {
            let ns = WalkState {
                iter,
                phase: WalkPhase::NeedWrite { disk, parent, dprops, pprops, stats, name, read: v },
                out,
                acquired,
                released,
            };
            proof {
                assert(walk_held(ns) =~= old_held);
                assert(ns.acquired@ =~= ns.released@.add(walk_held(ns)));
                assert(ns.acquired@ =~= s.acquired@.add(reply_acquires(reply)));
            }
            let releases = rel0();
            proof {
                assert(ns.released@ =~= ns.released@.add(handle_bag(releases@)));
            }
            (ns, WalkAction::Continue { releases })
        },
        (
            WalkPhase::NeedWrite { disk, parent, dprops, pprops, stats: _, name, read },
            WalkReply::Bytes(v),
        ) => {
            let ghost prev_out = out@;
            out.push(IoStats { device_name: name, bytes_read: read, bytes_wrtn: v });
            let releases = rel4(dprops, pprops, disk, parent);
            let ns = WalkState {
                iter,
                phase: WalkPhase::AtIter,
                out,
                acquired,
                released: Ghost(released@.add(handle_bag(releases@))),
            };
            proof {
                assert(walk_held(ns) =~= Multiset::empty().insert(iter));
                assert(old_held =~= handle_bag(releases@).insert(iter));
                assert(ns.acquired@ =~= ns.released@.add(walk_held(ns)));
                assert(ns.acquired@ =~= s.acquired@.add(reply_acquires(reply)));
            }
            (ns, WalkAction::Continue { releases })
        },
        _ => {
            proof {
                assert(false);
            }
            (
                WalkState {
                    iter,
                    phase: WalkPhase::Finished,
                    out,
                    acquired,
                    released,
                },
                WalkAction::Continue { releases: rel0() },
            )
        },
    }
}

/// A release list of one handle.
fn rel1(a: u64) -> (r: Vec<u64>)
    ensures
        handle_bag(r@) == Multiset::empty().insert(a),
        r@ == seq![a],
{
    let mut r: Vec<u64> = Vec::new();
    proof {
        assert(handle_bag(r@) =~= Multiset::<u64>::empty());
    }
    let ghost g0 = r@;
    r.push(a);
    proof {
        lemma_handle_bag_push(g0, a);
        assert(r@ =~= seq![a]);
    }
    r
}

} // verus!
