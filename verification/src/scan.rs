//! Device discovery: sweeping an ID range and reporting what answered.
//!
//! The heart is [`ScanEngine`], a deterministic step machine that turns
//! per-ID observations (was cancellation requested? which devices
//! answered the ping?) into the reported event sequence. [`scan_servos`]
//! drives it over a freshly opened short-timeout bus.

use vstd::prelude::*;
use core::sync::atomic::AtomicBool;
use core::sync::atomic::Ordering;
use crate::connection::SCAN_TIMEOUT_MS;
use crate::connection::connect_bus;
use crate::connection::ping_on;
use crate::events::Protocol;
use crate::events::ScanEvent;
use crate::events::ServoError;
use crate::events::ServoInfo;
use crate::events::parse_protocol;
use crate::events::spec_protocol_of;

verus! {

/// The `Found` events for the devices one ping reported.
pub open spec fn found_events(devs: Seq<ServoInfo>) -> Seq<ScanEvent> {
    devs.map_values(|d: ServoInfo| ScanEvent::Found(d))
}

/// The events one ID contributes: its progress report, then one `Found`
/// per device that answered. `i` is the ID's offset from `id_start`.
pub open spec fn id_trace(id_start: int, total: int, i: int, devs: Seq<ServoInfo>) -> Seq<
    ScanEvent,
> {
    seq![ScanEvent::Progress { current: (id_start + i) as u8, total: total as u16 }]
        + found_events(devs)
}

/// The events of a scan that has pinged the first `founds.len()` IDs of
/// the range and has not finished yet.
pub open spec fn scan_body_trace(id_start: int, total: int, founds: Seq<Seq<ServoInfo>>) -> Seq<
    ScanEvent,
>
    decreases founds.len(),
{
    if founds.len() == 0 {
        Seq::empty()
    } else {
        scan_body_trace(id_start, total, founds.drop_last()) + id_trace(
            id_start,
            total,
            founds.len() - 1,
            founds.last(),
        )
    }
}

/// The full event sequence of a finished scan: one progress report and
/// zero or more `Found` events per pinged ID, closed by exactly one
/// `Finished` that tells whether the sweep was cut short.
pub open spec fn scan_trace(
    id_start: int,
    total: int,
    founds: Seq<Seq<ServoInfo>>,
    cancelled: bool,
) -> Seq<ScanEvent> {
    scan_body_trace(id_start, total, founds) + seq![ScanEvent::Finished { cancelled }]
}

/// In a sweep where no device answered, the partial trace is exactly one
/// progress event per pinged ID, in increasing ID order.
proof fn lemma_body_trace_no_devices(id_start: int, total: int, founds: Seq<Seq<ServoInfo>>)
    requires
        forall|i: int| 0 <= i < founds.len() ==> (#[trigger] founds[i]).len() == 0,
    ensures
        scan_body_trace(id_start, total, founds).len() == founds.len(),
        forall|i: int|
            0 <= i < founds.len() ==> scan_body_trace(id_start, total, founds)[i] == (
            ScanEvent::Progress { current: (id_start + i) as u8, total: total as u16 }),
    decreases founds.len(),
{
    if founds.len() > 0 {
        assert(forall|i: int|
            0 <= i < founds.drop_last().len() ==> (#[trigger] founds.drop_last()[i]).len() == 0);
        lemma_body_trace_no_devices(id_start, total, founds.drop_last());
        assert(found_events(founds.last()) =~= Seq::<ScanEvent>::empty());
        assert(id_trace(id_start, total, founds.len() - 1, founds.last()) =~= seq![
            ScanEvent::Progress {
                current: (id_start + founds.len() - 1) as u8,
                total: total as u16,
            },
        ]);
    }
}

/// A sweep in which no device answered reports nothing but its progress:
/// one progress event per pinged ID, in increasing ID order, then the
/// one final `Finished`. A sweep cancelled before its first ping
/// (`founds` empty, `cancelled` true) therefore reports exactly one
/// event, `Finished { cancelled: true }`, and no progress at all.
pub proof fn lemma_scan_trace_no_devices(
    id_start: int,
    total: int,
    founds: Seq<Seq<ServoInfo>>,
    cancelled: bool,
)
    requires
        forall|i: int| 0 <= i < founds.len() ==> (#[trigger] founds[i]).len() == 0,
    ensures
        scan_trace(id_start, total, founds, cancelled).len() == founds.len() + 1,
        forall|i: int|
            0 <= i < founds.len() ==> scan_trace(id_start, total, founds, cancelled)[i] == (
            ScanEvent::Progress { current: (id_start + i) as u8, total: total as u16 }),
        scan_trace(id_start, total, founds, cancelled).last() == (ScanEvent::Finished {
            cancelled,
        }),
{
    lemma_body_trace_no_devices(id_start, total, founds);
}

/// What a successful scan over `id_start..=id_end` reports: the trace of
/// some per-ID ping outcomes, covering the whole range unless cancelled.
pub open spec fn scan_result_ok(id_start: u8, id_end: u8, evs: Seq<ScanEvent>) -> bool {
    exists|founds: Seq<Seq<ServoInfo>>, cancelled: bool|
        {
            &&& #[trigger] scan_trace(id_start as int, id_end - id_start + 1, founds, cancelled)
                == evs
            &&& founds.len() <= id_end - id_start + 1
            &&& (!cancelled ==> founds.len() == id_end - id_start + 1)
        }
}

/// The discovery step machine for one sweep over `id_start..=id_end`.
///
/// Each [`ScanEngine::step`] consumes what was just observed for the
/// current ID and yields the events to report for it; `trace()` is
/// everything yielded so far. The engine stops either when cancellation
/// was observed or when the range is exhausted, and then has yielded
/// exactly one final `Finished` event.
pub struct ScanEngine {
    /// First ID of the sweep.
    pub id_start: u8,
    /// Last ID of the sweep, inclusive.
    pub id_end: u8,
    /// How many IDs have been fully processed.
    pub pos: u16,
    /// Whether a `Finished` event has been yielded.
    pub done: bool,
    /// Whether the sweep ended on an observed cancellation.
    pub ended_cancelled: bool,
    /// The ping outcomes consumed so far, one entry per processed ID.
    pub founds: Ghost<Seq<Seq<ServoInfo>>>,
}

impl ScanEngine {
    /// How many IDs the sweep covers.
    pub open spec fn total(self) -> int {
        self.id_end - self.id_start + 1
    }

    /// The engine's invariant.
    pub open spec fn wf(self) -> bool {
        &&& self.id_start <= self.id_end
        &&& self.founds@.len() == self.pos
        &&& self.pos <= self.total()
        &&& (!self.done ==> self.pos < self.total())
        &&& (!self.done ==> !self.ended_cancelled)
        &&& (self.done ==> (self.ended_cancelled || self.pos == self.total()))
    }

    /// Every event yielded so far.
    pub open spec fn trace(self) -> Seq<ScanEvent> {
        if self.done {
            scan_trace(self.id_start as int, self.total(), self.founds@, self.ended_cancelled)
        } else {
            scan_body_trace(self.id_start as int, self.total(), self.founds@)
        }
    }

    /// A fresh engine that has yielded nothing.
    pub fn new(id_start: u8, id_end: u8) -> (s: ScanEngine)
        requires
            id_start <= id_end,
        ensures
            s.wf(),
            !s.done,
            s.id_start == id_start,
            s.id_end == id_end,
            s.pos == 0,
            s.trace() == Seq::<ScanEvent>::empty(),
    {
        ScanEngine {
            id_start,
            id_end,
            pos: 0,
            done: false,
            ended_cancelled: false,
            founds: Ghost(Seq::empty()),
        }
    }

    /// Whether the sweep has finished (complete or cancelled).
    pub fn is_done(&self) -> (r: bool)
        ensures
            r == self.done,
    {
        self.done
    }

    /// The ID the next step will ping.
    pub fn current_id(&self) -> (id: u8)
        requires
            self.wf(),
            !self.done,
        ensures
            id == self.id_start + self.pos,
    {
        self.id_start + (self.pos as u8)
    }

    /// The number of IDs in the sweep, as reported in progress events.
    pub fn total_count(&self) -> (t: u16)
        requires
            self.wf(),
        ensures
            t == self.total(),
    {
        (self.id_end - self.id_start) as u16 + 1
    }

    /// Consumes the observations for the current ID and yields the events
    /// to report. If cancellation was observed, the sweep ends at once
    /// with `Finished { cancelled: true }` and the ping outcome is
    /// ignored; otherwise the ID's progress report and `Found` events are
    /// yielded, and the final ID adds `Finished { cancelled: false }`.
    pub fn step(&mut self, cancel_seen: bool, found: Vec<ServoInfo>) -> (evs: Vec<ScanEvent>)
        requires
            old(self).wf(),
            !old(self).done,
        ensures
            final(self).wf(),
            final(self).id_start == old(self).id_start,
            final(self).id_end == old(self).id_end,
            final(self).trace() == old(self).trace() + evs@,
            cancel_seen ==> (final(self).done && final(self).ended_cancelled && final(self).pos
                == old(self).pos && evs@ == seq![ScanEvent::Finished { cancelled: true }]),
            !cancel_seen ==> (final(self).pos == old(self).pos + 1 && (final(self).done <==> old(
                self,
            ).pos + 1 == old(self).total()) && !final(self).ended_cancelled),
            !cancel_seen ==> evs@ == id_trace(
                old(self).id_start as int,
                old(self).total(),
                old(self).pos as int,
                found@,
            ) + (if old(self).pos + 1 == old(self).total() {
                seq![ScanEvent::Finished { cancelled: false }]
            } else {
                Seq::<ScanEvent>::empty()
            }),
    {
        let mut evs: Vec<ScanEvent> = Vec::new();
        if cancel_seen {
            evs.push(ScanEvent::Finished { cancelled: true });
            self.done = true;
            self.ended_cancelled = true;
            proof {
                assert(evs@ =~= seq![ScanEvent::Finished { cancelled: true }]);
                assert(self.trace() =~= old(self).trace() + evs@);
            }
            evs
        } else {
            let current = self.current_id();
            let total_u16 = self.total_count();
            evs.push(ScanEvent::Progress { current, total: total_u16 });
            let mut k: usize = 0;
            while k < found.len()
                invariant
                    k <= found@.len(),
                    evs@ == seq![
                        ScanEvent::Progress { current, total: total_u16 },
                    ] + found_events(found@.take(k as int)),
                decreases found@.len() - k,
            {
                evs.push(ScanEvent::Found(found[k]));
                proof {
                    assert(found_events(found@.take(k as int + 1)) =~= found_events(
                        found@.take(k as int),
                    ).push(ScanEvent::Found(found@[k as int])));
                }
                k = k + 1;
            }
            proof {
                assert(found@.take(found@.len() as int) =~= found@);
                assert(evs@ =~= id_trace(
                    self.id_start as int,
                    self.total(),
                    self.pos as int,
                    found@,
                ));
            }
            self.pos = self.pos + 1;
            proof {
                self.founds@ = self.founds@.push(found@);
                assert(self.founds@.drop_last() =~= old(self).founds@);
                assert(self.founds@.last() == found@);
                assert(self.founds@.len() == old(self).founds@.len() + 1);
                assert(scan_body_trace(self.id_start as int, self.total(), self.founds@)
                    == scan_body_trace(self.id_start as int, self.total(), old(self).founds@)
                    + id_trace(
                    self.id_start as int,
                    self.total(),
                    old(self).pos as int,
                    found@,
                ));
            }
            if self.pos == total_u16 {
                evs.push(ScanEvent::Finished { cancelled: false });
                self.done = true;
                proof {
                    assert(self.trace() =~= old(self).trace() + evs@);
                }
            } else {
                proof {
                    assert(self.trace() =~= old(self).trace() + evs@);
                }
            }
            evs
        }
    }
}

/// Observes the shared cancellation flag once; another thread may change
/// it at any moment, so nothing is promised about the answer.
fn cancel_requested(cancel: &AtomicBool) -> bool {
    cancel.load(Ordering::Relaxed)
}

/// The devices reported for a list of answering IDs. The SDK in use
/// exposes no model number for an answering device, so every entry
/// carries a model number of 0.
fn found_from_ids(ids: &Vec<u8>) -> (r: Vec<ServoInfo>)
    ensures
        r@ == ids@.map_values(|i: u8| ServoInfo { id: i, model_number: 0u16 }),
{
    let mut r: Vec<ServoInfo> = Vec::new();
    let mut k: usize = 0;
    while k < ids.len()
        invariant
            k <= ids@.len(),
            r@ == ids@.take(k as int).map_values(
                |i: u8| ServoInfo { id: i, model_number: 0u16 },
            ),
        decreases ids@.len() - k,
    {
        r.push(ServoInfo { id: ids[k], model_number: 0 });
        proof {
            assert(ids@.take(k as int + 1).map_values(
                |i: u8| ServoInfo { id: i, model_number: 0u16 },
            ) =~= ids@.take(k as int).map_values(
                |i: u8| ServoInfo { id: i, model_number: 0u16 },
            ).push(ServoInfo { id: ids@[k as int], model_number: 0u16 }));
        }
        k = k + 1;
    }
    proof {
        assert(ids@.take(ids@.len() as int) =~= ids@);
    }
    r
}

/// Scans for servos on a freshly opened short-timeout bus, checking the
/// cancellation flag before each ping.
///
/// On success the returned events are the trace of some per-ID ping
/// outcomes: progress reports in increasing ID order, `Found` events for
/// whatever answered, and exactly one final `Finished`. The sweep covers
/// every ID in the range unless a cancellation was observed. The call
/// fails only on an unknown protocol string or when the port cannot be
/// opened; then no event at all is produced.
pub fn scan_servos(
    port: &str,
    protocol: &str,
    baudrate: u32,
    id_start: u8,
    id_end: u8,
    cancel: &AtomicBool,
) -> (r: Result<Vec<ScanEvent>, ServoError>)
    requires
        id_start <= id_end,
    ensures
        match r {
            Ok(evs) => spec_protocol_of(protocol@) is Some && scan_result_ok(
                id_start,
                id_end,
                evs@,
            ),
            Err(e) => match e {
                ServoError::UnsupportedProtocol { protocol: ps } => spec_protocol_of(protocol@)
                    is None && ps@ == protocol@,
                ServoError::ConnectionFailure { port: po, message: _ } => spec_protocol_of(
                    protocol@,
                ) is Some && po@ == port@,
                ServoError::NoActiveConnection => false,
            },
        },
{
    let p: Protocol = match parse_protocol(protocol) {
        None => {
            return Err(ServoError::UnsupportedProtocol { protocol: protocol.to_owned() });
        },
        Some(p) => p,
    };
    let mut conn = match connect_bus(p, port, baudrate, SCAN_TIMEOUT_MS) {
        Err(m) => {
            return Err(ServoError::ConnectionFailure { port: port.to_owned(), message: m });
        },
        Ok(c) => c,
    };
    let mut eng = ScanEngine::new(id_start, id_end);
    let mut evs: Vec<ScanEvent> = Vec::new();
    let mut done = eng.is_done();
    while !done
        invariant
            eng.wf(),
            eng.id_start == id_start,
            eng.id_end == id_end,
            done == eng.done,
            evs@ == eng.trace(),
        decreases (eng.total() - eng.pos) + (if eng.done {
            0int
        } else {
            1int
        }),
    {
        let c = cancel_requested(cancel);
        let found: Vec<ServoInfo> = if c {
            Vec::new()
        } else {
            let id = eng.current_id();
            match ping_on(&mut conn, id) {
                Ok(ids) => found_from_ids(&ids),
                Err(_) => Vec::new(),
            }
        };
        let mut batch = eng.step(c, found);
        evs.append(&mut batch);
        done = eng.is_done();
    }
    proof {
        assert(scan_trace(
            id_start as int,
            id_end - id_start + 1,
            eng.founds@,
            eng.ended_cancelled,
        ) == evs@);
        assert(scan_result_ok(id_start, id_end, evs@));
    }
    Ok(evs)
}

} // verus!
