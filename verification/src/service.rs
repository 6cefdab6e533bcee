use vstd::prelude::*;

use tokio::sync::mpsc::{Receiver, Sender};

use crate::alarm::manager::{fired_alarms, step_active, without_id, ActiveAlarmView, AlarmManager};
use crate::alarm::AlarmDescriptor;
use crate::error::{VoltaTestError, VoltaTestErrorView};
use crate::repo::{entries, entry, page_of, AlarmData, AlertData, AlertRepository};
use crate::types::{opt_text, Alert, AlertView, RawData, RawDataView, Timestamp};

verus! {

#[verifier::external_type_specification]
#[verifier::external_body]
#[verifier::reject_recursive_types(T)]
pub struct ExSender<T>(Sender<T>);

#[verifier::external_type_specification]
#[verifier::external_body]
#[verifier::reject_recursive_types(T)]
pub struct ExReceiver<T>(Receiver<T>);

/// `tokio::sync::mpsc::channel`: a bounded channel of `buffer` places, with the number of
/// places that its sender reports (`Sender::max_capacity`, documented as the buffer given
/// to `channel`). tokio panics on an empty buffer and on one above its semaphore's limit
/// (`usize::MAX >> 3`); nothing else is claimed of the channel.
#[verifier::external_body]
fn channel<T>(buffer: usize) -> (r: (Sender<T>, Receiver<T>, usize))
    requires
        0 < buffer <= usize::MAX / 8,
    ensures
        r.2 == buffer,
{
    let (tx, rx) = tokio::sync::mpsc::channel(buffer);
    let places = tx.max_capacity();
    (tx, rx, places)
}

/// `Sender::try_send`: hands the value to the channel if it has room and its receiver is
/// alive, and drops it otherwise. Which of the two happens depends on the channel's state
/// and is not claimed.
#[verifier::external_body]
fn offer<T>(tx: &Sender<T>, value: T) {
    let _ = tx.try_send(value);
}

/// `SystemTime::now().duration_since(UNIX_EPOCH)`: the time elapsed since the Unix epoch,
/// as whole seconds and the nanoseconds past them (`Duration::as_secs`,
/// `Duration::subsec_nanos`), or `None` when the system clock reads before the epoch. std
/// documents the nanoseconds past the second as below one second; the reading itself
/// depends on the clock and is not claimed.
#[verifier::external_body]
fn time_since_epoch() -> (t: Option<(u64, u32)>)
    ensures
        t matches Some(p) ==> p.1 < 1_000_000_000,
{
    match std::time::SystemTime::now().duration_since(std::time::UNIX_EPOCH) {
        Ok(d) => Some((d.as_secs(), d.subsec_nanos())),
        Err(_) => None,
    }
}

/// The timestamp of a reading of the system clock (seconds and nanoseconds since the Unix
/// epoch, or `None` for a clock before the epoch), or the error raised when it gives none.
pub open spec fn reading_timestamp(reading: Option<(u64, u32)>) -> Result<Timestamp, VoltaTestErrorView> {
    match reading {
        Some((secs, nanos)) => if secs <= i64::MAX {
            Ok(Timestamp { secs: secs as i64, nanos })
        } else {
            Err(VoltaTestErrorView::AlertingError("system clock reads beyond the last timestamp"@))
        },
        None => Err(VoltaTestErrorView::AlertingError("system clock reads before the Unix epoch"@)),
    }
}

/// The timestamp of a reading of the system clock, or the error raised when the reading
/// lies before the Unix epoch or beyond the seconds that a timestamp holds.
pub fn timestamp_of_reading(reading: Option<(u64, u32)>) -> (r: Result<Timestamp, VoltaTestError>)
    ensures
        match reading_timestamp(reading) {
            Ok(t) => r == Ok::<Timestamp, VoltaTestError>(t),
            Err(e) => r matches Err(e2) && e2@ == e,
        },
{
    match reading {
        Some((secs, nanos)) => {
            if secs <= i64::MAX as u64 {
                Ok(Timestamp::new(secs as i64, nanos))
            } else {
                Err(VoltaTestError::alerting_error("system clock reads beyond the last timestamp"))
            }
        },
        None => Err(VoltaTestError::alerting_error("system clock reads before the Unix epoch")),
    }
}

/// The number of places of the channel on which a service publishes its alerts.
pub const ALERT_CHANNEL_PLACES: usize = 32;

/// The alert raised for an alarm that fired: the alarm's description, the time of
/// reception and the received data.
pub open spec fn alert_for(fired: AlarmData, timestamp: Timestamp, data: Seq<u8>) -> AlertView {
    AlertView { description: Some(fired.value()@.description), timestamp, data }
}

/// The alerts to raise for the alarms that fired on data received at `timestamp`, one per
/// alarm and in the same order.
pub fn alerts_for(fired: &Vec<AlarmData>, timestamp: Timestamp, data: &Vec<u8>) -> (alerts: Vec<Alert>)
    ensures
        alerts@.len() == fired@.len(),
        forall|i: int| 0 <= i < fired@.len() ==> (#[trigger] alerts@[i])@ == alert_for(fired@[i], timestamp, data@),
{
    let mut alerts: Vec<Alert> = Vec::new();
    let mut i: usize = 0;
    while i < fired.len()
        invariant
            i <= fired@.len(),
            alerts@.len() == i,
            forall|j: int| 0 <= j < i ==> (#[trigger] alerts@[j])@ == alert_for(fired@[j], timestamp, data@),
        decreases fired@.len() - i,
    {
        let description = fired[i].get_ref_value().description.clone();
        let copy = data.clone();
        assert(copy@ =~= data@);
        let alert = Alert::new(Some(description), timestamp, copy);
        alerts.push(alert);
        i += 1;
    }
    alerts
}

/// The alerts raised for the alarms that fired, one per alarm and in the same order, each
/// with the alarm's description, the time of reception and the received data.
pub open spec fn raised_alerts(fired: Seq<ActiveAlarmView>, timestamp: Timestamp, data: Seq<u8>) -> Seq<AlertView> {
    fired.map_values(|a: ActiveAlarmView| AlertView { description: Some(a.description), timestamp, data })
}

/// A store after the entries are added to it in turn, each under its key.
pub open spec fn inserted_all<V>(store: Map<Seq<char>, V>, added: Seq<(Seq<char>, V)>) -> Map<Seq<char>, V>
    decreases added.len(),
{
    if added.len() == 0 {
        store
    } else {
        inserted_all(store, added.drop_last()).insert(added.last().0, added.last().1)
    }
}

/// Whether each entry is added under a key that neither the store nor an earlier entry
/// holds.
pub open spec fn fresh_keys<V>(store: Map<Seq<char>, V>, added: Seq<(Seq<char>, V)>) -> bool {
    forall|i: int| 0 <= i < added.len() ==> {
        &&& !store.contains_key(#[trigger] added[i].0)
        &&& forall|j: int| 0 <= j < i ==> added[j].0 != added[i].0
    }
}

/// The keys of a store after entries are added to it: those it held and those added.
pub proof fn lemma_inserted_all_keys<V>(store: Map<Seq<char>, V>, added: Seq<(Seq<char>, V)>, key: Seq<char>)
    ensures
        inserted_all(store, added).contains_key(key)
            <==> (store.contains_key(key) || exists|j: int| 0 <= j < added.len() && #[trigger] added[j].0 == key),
    decreases added.len(),
{
    if added.len() > 0 {
        let rest = added.drop_last();
        lemma_inserted_all_keys(store, rest, key);
        if exists|j: int| 0 <= j < added.len() && #[trigger] added[j].0 == key {
            let j = choose|j: int| 0 <= j < added.len() && #[trigger] added[j].0 == key;
            if j < added.len() - 1 {
                assert(rest[j].0 == key);
            }
        }
        if exists|j: int| 0 <= j < rest.len() && #[trigger] rest[j].0 == key {
            let j = choose|j: int| 0 <= j < rest.len() && #[trigger] rest[j].0 == key;
            assert(added[j].0 == key);
        }
    }
}

/// Evaluates received data against the active alarms of its manager, and stores and
/// publishes the alerts raised.
pub struct AlertService {
    repo: Box<dyn AlertRepository>,
    alarm_manager: AlarmManager,
    alert_tx: Sender<AlertData>,
    places: Ghost<nat>,
    offered: Ghost<Seq<(Seq<char>, AlertView)>>,
}

impl AlertService {
    /// The service's alarm manager.
    pub closed spec fn manager(&self) -> AlarmManager {
        self.alarm_manager
    }

    /// The alerts that the service's store holds, by key.
    pub closed spec fn alerts(&self) -> Map<Seq<char>, AlertView> {
        self.repo.stored_alerts()
    }

    /// The page that the service's store lists after the key `previous`.
    pub closed spec fn alert_listing(&self, previous: Option<Seq<char>>) -> Seq<(Seq<char>, AlertView)> {
        self.repo.alert_listing(previous)
    }

    /// The number of places of the channel that the service opened, as its sender reports
    /// it.
    pub closed spec fn channel_places(&self) -> nat {
        self.places@
    }

    /// The stored alerts that the service has offered to its channel, in order.
    pub closed spec fn offered(&self) -> Seq<(Seq<char>, AlertView)> {
        self.offered@
    }

    /// What an evaluation of `data` received at `timestamp` does, from `self` to `after`,
    /// with result `r`: either every alarm took its next state and was written back, and
    /// the alerts raised by the alarms that fired were stored, each under a new key, and
    /// offered to the channel in turn, up to the first that the store refused (`r` is `Ok`
    /// exactly when there was none); or the evaluation of the alarms was interrupted with
    /// the error `r` holds, and no alert was raised.
    pub open spec fn received_at(&self, after: AlertService, data: Seq<u8>, timestamp: Timestamp, r: Result<(), VoltaTestError>) -> bool {
        let m0 = self.manager();
        let m1 = after.manager();
        let raw = RawDataView { timestamp, data };
        let raised = raised_alerts(fired_alarms(m0@, raw), timestamp, data);
        let added = after.offered().skip(self.offered().len() as int);
        &&& m1.same_coding(m0)
        &&& self.offered().len() <= after.offered().len()
        &&& after.offered().take(self.offered().len() as int) == self.offered()
        &&& after.alerts() == inserted_all(self.alerts(), added)
        &&& fresh_keys(self.alerts(), added)
        &&& {
            ||| {
                &&& m1@ == m0@.map_values(|a: ActiveAlarmView| step_active(a, raw))
                &&& m0.all_encode(m0@, raw)
                &&& m1.stored() == m0.written_back(m0.stored(), m0@, raw)
                &&& added.len() <= raised.len()
                &&& forall|i: int| 0 <= i < added.len() ==> #[trigger] added[i].1 == raised[i]
                &&& (r is Ok <==> added.len() == raised.len())
            }
            ||| {
                &&& r matches Err(e) && exists|k: int| #[trigger] m0.interrupted_at(m0@, m1@, m0.stored(), m1.stored(), raw, k, e@)
                &&& added.len() == 0
            }
        }
    }

    /// A service over the given alert store and alarm manager, with the receiving end of the
    /// channel, of 32 places, on which it publishes the alerts it raises.
    pub fn new(repo: Box<dyn AlertRepository>, alarm_manager: AlarmManager) -> (r: (Self, Receiver<AlertData>))
        ensures
            r.0.manager() == alarm_manager,
            r.0.offered() == Seq::<(Seq<char>, AlertView)>::empty(),
            r.0.channel_places() == ALERT_CHANNEL_PLACES,
    {
        let (alert_tx, alert_rx, places) = channel(ALERT_CHANNEL_PLACES);
        (Self { repo, alarm_manager, alert_tx, places: Ghost(places as nat), offered: Ghost(Seq::empty()) }, alert_rx)
    }

    /// Store an alert under a new key.
    pub fn create_alert(&mut self, alert: Alert) -> (r: Result<AlertData, VoltaTestError>)
        ensures
            final(self).manager() == old(self).manager(),
            final(self).offered() == old(self).offered(),
            r matches Ok(d) ==> {
                &&& d.value()@ == alert@
                &&& !old(self).alerts().contains_key(d.key())
                &&& final(self).alerts() == old(self).alerts().insert(d.key(), alert@)
            },
            r is Err ==> final(self).alerts() == old(self).alerts(),
    {
        self.repo.create(alert)
    }

    /// The stored alert with the given key, as the store reads it.
    pub fn read_alert(&self, id: String) -> (r: Result<Option<AlertData>, VoltaTestError>)
        ensures
            r matches Ok(Some(d)) ==> d.key() == id@ && self.alerts().contains_key(id@) && self.alerts()[id@] == d.value()@,
            r matches Ok(None) ==> !self.alerts().contains_key(id@),
    {
        self.repo.read(id)
    }

    /// Remove the stored alert with the given key.
    pub fn delete_alert(&mut self, id: String) -> (r: Result<(), VoltaTestError>)
        ensures
            final(self).manager() == old(self).manager(),
            final(self).offered() == old(self).offered(),
            r is Ok ==> final(self).alerts() == old(self).alerts().remove(id@),
            r is Err ==> final(self).alerts() == old(self).alerts(),
    {
        self.repo.delete(id)
    }

    /// The page of stored alerts that follows the one with key `previous_id`, as the store
    /// lists it.
    pub fn list_alerts(&self, previous_id: Option<String>) -> (r: Result<Vec<AlertData>, VoltaTestError>)
        ensures
            r matches Ok(page) ==> entries(page@) == self.alert_listing(opt_text(previous_id))
                && page_of(self.alerts(), entries(page@)),
    {
        self.repo.list(previous_id)
    }

    /// What an evaluation of `data` does with a reading of the system clock: when the
    /// reading gives a timestamp, what an evaluation at that timestamp does; otherwise it
    /// returns the error of the reading and changes nothing.
    pub open spec fn received_with_reading(
        &self,
        after: AlertService,
        data: Seq<u8>,
        reading: Option<(u64, u32)>,
        r: Result<(), VoltaTestError>,
    ) -> bool {
        &&& reading matches Some(p) ==> p.1 < 1_000_000_000
        &&& match reading_timestamp(reading) {
            Ok(t) => self.received_at(after, data, t, r),
            Err(e) => r matches Err(e2) && e2@ == e && after == *self,
        }
    }

    /// Evaluate the alarms on data received now, and raise the alerts. When the system
    /// clock gives no timestamp, nothing is evaluated and the clock's error is returned.
    pub fn evaluate_received_data(&mut self, data: Vec<u8>) -> (r: Result<(), VoltaTestError>)
        ensures
            exists|reading: Option<(u64, u32)>| #[trigger] old(self).received_with_reading(*final(self), data@, reading, r),
    {
        let reading = time_since_epoch();
        let timestamp = match timestamp_of_reading(reading) {
            Ok(t) => t,
            Err(e) => {
                assert(old(self).received_with_reading(*self, data@, reading, Err(e)));
                return Err(e);
            },
        };
        let r = self.evaluate_received_data_at(data, timestamp);
        assert(old(self).received_with_reading(*self, data@, reading, r));
        r
    }

    /// Evaluate the alarms on data received at `timestamp`: every alarm takes its next
    /// state, and for each alarm that fires an alert is stored and published, in order.
    pub fn evaluate_received_data_at(&mut self, data: Vec<u8>, timestamp: Timestamp) -> (r: Result<(), VoltaTestError>)
        ensures
            old(self).received_at(*final(self), data@, timestamp, r),
    {
        let ghost m0 = self.alarm_manager;
        let ghost raw_view = RawDataView { timestamp, data: data@ };
        let raw = RawData::new(timestamp, data.clone());
        let triggered = match self.alarm_manager.evaluate_alarms(&raw) {
            Ok(t) => t,
            Err(e) => {
                assert(self.offered@.skip(old(self).offered@.len() as int) =~= Seq::<(Seq<char>, AlertView)>::empty());
                assert(self.offered@.take(old(self).offered@.len() as int) =~= old(self).offered@);
                return Err(e);
            },
        };
        let ghost m1 = self.alarm_manager;
        let ghost raised = raised_alerts(fired_alarms(m0@, raw_view), timestamp, data@);
        let alerts = alerts_for(&triggered, timestamp, &data);
        proof {
            assert forall|i: int| 0 <= i < alerts@.len() implies #[trigger] alerts@[i]@ == raised[i] by {
                assert(m0.reports(triggered@[i], fired_alarms(m0@, raw_view)[i]));
            }
        }
        let ghost n = alerts@.len();
        let mut remaining = alerts;
        let ghost mut added: Seq<(Seq<char>, AlertView)> = Seq::empty();
        while remaining.len() > 0
            invariant
                self.alarm_manager == m1,
                m0 == old(self).alarm_manager,
                raw_view == (RawDataView { timestamp, data: data@ }),
                raised == raised_alerts(fired_alarms(m0@, raw_view), timestamp, data@),
                m1.same_coding(m0),
                m1@ == m0@.map_values(|a: ActiveAlarmView| step_active(a, raw_view)),
                m0.all_encode(m0@, raw_view),
                m1.stored() == m0.written_back(m0.stored(), m0@, raw_view),
                n == raised.len(),
                added.len() + remaining@.len() == n,
                forall|i: int| 0 <= i < remaining@.len() ==> #[trigger] remaining@[i]@ == raised[added.len() + i],
                forall|i: int| 0 <= i < added.len() ==> #[trigger] added[i].1 == raised[i],
                self.offered@ == old(self).offered@ + added,
                self.repo.stored_alerts() == inserted_all(old(self).repo.stored_alerts(), added),
                fresh_keys(old(self).repo.stored_alerts(), added),
            decreases remaining.len(),
        {
            let alert = remaining.remove(0);
            let stored = match self.repo.create(alert) {
                Ok(s) => s,
                Err(e) => {
                    assert(self.offered@.skip(old(self).offered@.len() as int) =~= added);
                    assert(self.offered@.take(old(self).offered@.len() as int) =~= old(self).offered@);
                    return Err(e);
                },
            };
            proof {
                let key = stored.key();
                lemma_inserted_all_keys(old(self).repo.stored_alerts(), added, key);
                let next = added.push((key, stored.value()@));
                assert(next.drop_last() =~= added);
                assert forall|j: int| 0 <= j < added.len() implies added[j].0 != key by {
                    assert(added[j].0 == key ==> exists|i: int| 0 <= i < added.len() && #[trigger] added[i].0 == key);
                }
                added = next;
                self.offered@ = self.offered@.push(entry(stored));
                assert(self.offered@ =~= old(self).offered@ + added);
            }
            offer(&self.alert_tx, stored);
        }
        assert(self.offered@.skip(old(self).offered@.len() as int) =~= added);
        assert(self.offered@.take(old(self).offered@.len() as int) =~= old(self).offered@);
        Ok(())
    }

    /// Register a new alarm with the service's alarm manager.
    pub fn create_alarm(&mut self, descriptor: AlarmDescriptor) -> (r: Result<AlarmData, VoltaTestError>)
        ensures
            final(self).alerts() == old(self).alerts(),
            final(self).offered() == old(self).offered(),
            final(self).manager().same_coding(old(self).manager()),
            match old(self).manager().kind_of(descriptor@) {
                Err(e0) => {
                    &&& r matches Err(e) && e@ == e0
                    &&& final(self).manager()@ == old(self).manager()@
                    &&& final(self).manager().stored() == old(self).manager().stored()
                    &&& final(self).manager().creation_requests() == old(self).manager().creation_requests()
                },
                Ok(kind) => final(self).manager().creation_requests() == old(self).manager().creation_requests().push(
                    descriptor@,
                ) && match r {
                    Ok(d) => {
                        &&& d.value()@ == descriptor@
                        &&& !old(self).manager().stored().contains_key(d.key())
                        &&& final(self).manager().stored() == old(self).manager().stored().insert(d.key(), descriptor@)
                        &&& final(self).manager()@ == old(self).manager()@.push(
                            ActiveAlarmView { id: d.key(), description: descriptor@.description, kind },
                        )
                    },
                    Err(_) => final(self).manager()@ == old(self).manager()@
                        && final(self).manager().stored() == old(self).manager().stored(),
                },
            },
    {
        self.alarm_manager.create_alarm(descriptor)
    }

    /// The stored alarm with the given key, as the alarm store reads it.
    pub fn read_alarm(&self, id: String) -> (r: Result<Option<AlarmData>, VoltaTestError>)
        ensures
            r matches Ok(Some(d)) ==> d.key() == id@ && self.manager().stored().contains_key(id@)
                && self.manager().stored()[id@] == d.value()@,
            r matches Ok(None) ==> !self.manager().stored().contains_key(id@),
    {
        self.alarm_manager.read_alarm(id)
    }

    /// Remove an alarm from the alarm store and from the active alarms.
    pub fn delete_alarm(&mut self, id: String) -> (r: Result<(), VoltaTestError>)
        ensures
            final(self).alerts() == old(self).alerts(),
            final(self).offered() == old(self).offered(),
            final(self).manager().same_coding(old(self).manager()),
            r is Ok ==> final(self).manager()@ == without_id(old(self).manager()@, id@),
            r is Ok ==> final(self).manager().stored() == old(self).manager().stored().remove(id@),
            r is Err ==> final(self).manager()@ == old(self).manager()@,
            r is Err ==> final(self).manager().stored() == old(self).manager().stored(),
    {
        self.alarm_manager.delete_alarm(id)
    }

    /// The page of stored alarms that follows the one with key `previous_id`, as the alarm
    /// store lists it.
    pub fn list_alarms(&self, previous_id: Option<String>) -> (r: Result<Vec<AlarmData>, VoltaTestError>)
        ensures
            r matches Ok(page) ==> entries(page@) == self.manager().listing(opt_text(previous_id))
                && page_of(self.manager().stored(), entries(page@)),
    {
        self.alarm_manager.list_alarms(previous_id)
    }
}

} // verus!
