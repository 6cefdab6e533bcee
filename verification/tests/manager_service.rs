use std::cell::RefCell;
use std::rc::Rc;

use voltaalert_core::alarm::clock::AlarmClockData;
use voltaalert_core::alarm::manager::AlarmManager;
use voltaalert_core::alarm::pattern::{AlarmPatternData, Operator, OperatorView};
use voltaalert_core::alarm::{AlarmConfigCodec, AlarmDescriptor, AlarmKind, ClockDecoding, ConfigBytes, ConfigEncoding, PatternDecoding};
use voltaalert_core::error::VoltaTestError;
use voltaalert_core::repo::{
    AlarmData, AlarmPageView, AlarmRepository, AlarmStoreView, AlertData, AlertPageView, AlertRepository,
    AlertStoreView, CursorView, EntityData,
};
use voltaalert_core::service::{alerts_for, AlertService};
use voltaalert_core::types::{Alert, RawData, Timestamp};

/// Alarm configurations as bytes: a clock is its seconds and nanoseconds (little endian)
/// and a passed flag; a pattern is an operator tag (0 = Eq, 1 = Neq) and its bytes.
struct BytesCodec;

impl AlarmConfigCodec for BytesCodec {
    fn decode_clock(&self, c: &[u8]) -> Result<AlarmClockData, String> {
        if c.len() != 13 {
            return Err(format!("length {}", c.len()));
        }
        let secs = i64::from_le_bytes(c[0..8].try_into().unwrap());
        let nanos = u32::from_le_bytes(c[8..12].try_into().unwrap());
        Ok(AlarmClockData { trigger_at: Timestamp::new(secs, nanos), passed: c[12] == 1 })
    }
    fn decode_pattern(&self, c: &[u8]) -> Result<AlarmPatternData, String> {
        match c.first() {
            Some(0) => Ok(AlarmPatternData::new(Operator::Eq(c[1..].to_vec()))),
            Some(1) => Ok(AlarmPatternData::new(Operator::Neq(c[1..].to_vec()))),
            _ => Err("no operator".to_string()),
        }
    }
    fn encode_clock(&self, d: &AlarmClockData) -> Result<Vec<u8>, String> {
        let mut v = d.trigger_at.secs.to_le_bytes().to_vec();
        v.extend_from_slice(&d.trigger_at.nanos.to_le_bytes());
        v.push(d.passed as u8);
        Ok(v)
    }
    fn encode_pattern(&self, d: &AlarmPatternData) -> Result<Vec<u8>, String> {
        let mut v = Vec::new();
        match &d.operator {
            Operator::Eq(b) => {
                v.push(0);
                v.extend_from_slice(b);
            }
            Operator::Neq(b) => {
                v.push(1);
                v.extend_from_slice(b);
            }
        }
        Ok(v)
    }
    fn clock_decoding(&self, _configs: ConfigBytes) -> ClockDecoding {
        unreachable!()
    }
    fn pattern_decoding(&self, _configs: ConfigBytes) -> PatternDecoding {
        unreachable!()
    }
    fn clock_encoding(&self, _data: AlarmClockData) -> ConfigEncoding {
        unreachable!()
    }
    fn pattern_encoding(&self, _data: OperatorView) -> ConfigEncoding {
        unreachable!()
    }
}

fn clock_configs(secs: i64, passed: bool) -> Vec<u8> {
    BytesCodec
        .encode_clock(&AlarmClockData { trigger_at: Timestamp::new(secs, 0), passed })
        .unwrap()
}

fn pattern_configs(op: Operator) -> Vec<u8> {
    BytesCodec.encode_pattern(&AlarmPatternData::new(op)).unwrap()
}

#[derive(Default)]
struct AlarmStore {
    rows: Vec<(i64, AlarmDescriptor)>,
    next: i64,
    fail: bool,
    updates: Vec<(String, AlarmDescriptor)>,
}

/// An alarm repository in memory, pages of 2, shared with the test.
struct MemoryAlarmRepo(Rc<RefCell<AlarmStore>>);

impl AlarmRepository for MemoryAlarmRepo {
    fn stored_alarms(&self) -> AlarmStoreView {
        unreachable!()
    }
    fn alarm_listing(&self, _previous: CursorView) -> AlarmPageView {
        unreachable!()
    }
    fn create(&mut self, alarm: AlarmDescriptor) -> Result<AlarmData, VoltaTestError> {
        let mut s = self.0.borrow_mut();
        if s.fail {
            return Err(VoltaTestError::repository_error("store down"));
        }
        s.next += 1;
        let id = s.next;
        s.rows.push((id, alarm.clone()));
        Ok(EntityData::new(id.to_string(), alarm))
    }
    fn read(&self, id: String) -> Result<Option<AlarmData>, VoltaTestError> {
        let s = self.0.borrow();
        Ok(s.rows
            .iter()
            .find(|(i, _)| i.to_string() == id)
            .map(|(i, d)| EntityData::new(i.to_string(), d.clone())))
    }
    fn update(&mut self, id: String, alarm: AlarmDescriptor) -> Result<(), VoltaTestError> {
        let mut s = self.0.borrow_mut();
        if s.fail {
            return Err(VoltaTestError::repository_error("store down"));
        }
        s.updates.push((id.clone(), alarm.clone()));
        for row in s.rows.iter_mut() {
            if row.0.to_string() == id {
                row.1 = alarm.clone();
            }
        }
        Ok(())
    }
    fn delete(&mut self, id: String) -> Result<(), VoltaTestError> {
        let mut s = self.0.borrow_mut();
        if s.fail {
            return Err(VoltaTestError::repository_error("store down"));
        }
        s.rows.retain(|(i, _)| i.to_string() != id);
        Ok(())
    }
    fn list(&self, previous_id: Option<String>) -> Result<Vec<AlarmData>, VoltaTestError> {
        let s = self.0.borrow();
        let cursor: i64 = previous_id.map(|p| p.parse().unwrap()).unwrap_or(0);
        Ok(s.rows
            .iter()
            .filter(|(i, _)| *i > cursor)
            .take(2)
            .map(|(i, d)| EntityData::new(i.to_string(), d.clone()))
            .collect())
    }
}

#[derive(Default)]
struct AlertStore {
    rows: Vec<(i64, Alert)>,
    next: i64,
    fail: bool,
}

struct MemoryAlertRepo(Rc<RefCell<AlertStore>>);

impl AlertRepository for MemoryAlertRepo {
    fn stored_alerts(&self) -> AlertStoreView {
        unreachable!()
    }
    fn alert_listing(&self, _previous: CursorView) -> AlertPageView {
        unreachable!()
    }
    fn create(&mut self, alert: Alert) -> Result<AlertData, VoltaTestError> {
        let mut s = self.0.borrow_mut();
        if s.fail && !s.rows.is_empty() {
            return Err(VoltaTestError::repository_error("alert store full"));
        }
        s.next += 1;
        let id = s.next;
        s.rows.push((id, alert.clone()));
        Ok(EntityData::new(id.to_string(), alert))
    }
    fn read(&self, id: String) -> Result<Option<AlertData>, VoltaTestError> {
        let s = self.0.borrow();
        Ok(s.rows
            .iter()
            .find(|(i, _)| i.to_string() == id)
            .map(|(i, a)| EntityData::new(i.to_string(), a.clone())))
    }
    fn update(&mut self, _id: String, _alert: Alert) -> Result<(), VoltaTestError> {
        Ok(())
    }
    fn delete(&mut self, id: String) -> Result<(), VoltaTestError> {
        self.0.borrow_mut().rows.retain(|(i, _)| i.to_string() != id);
        Ok(())
    }
    fn list(&self, previous_id: Option<String>) -> Result<Vec<AlertData>, VoltaTestError> {
        let s = self.0.borrow();
        let cursor: i64 = previous_id.map(|p| p.parse().unwrap()).unwrap_or(0);
        Ok(s.rows
            .iter()
            .filter(|(i, _)| *i > cursor)
            .map(|(i, a)| EntityData::new(i.to_string(), a.clone()))
            .collect())
    }
}

fn store_with(rows: Vec<AlarmDescriptor>) -> Rc<RefCell<AlarmStore>> {
    let store = Rc::new(RefCell::new(AlarmStore::default()));
    {
        let mut s = store.borrow_mut();
        for d in rows {
            s.next += 1;
            let id = s.next;
            s.rows.push((id, d));
        }
    }
    store
}

fn manager_over(store: &Rc<RefCell<AlarmStore>>) -> AlarmManager {
    AlarmManager::new(Box::new(MemoryAlarmRepo(store.clone())), Box::new(BytesCodec)).unwrap()
}

fn descriptor(description: &str, kind: &str, configs: Vec<u8>) -> AlarmDescriptor {
    AlarmDescriptor::new(description.to_string(), kind.to_string(), configs)
}

fn raw(secs: i64, data: &[u8]) -> RawData {
    RawData::new(Timestamp::new(secs, 0), data.to_vec())
}

fn fired_descriptions(fired: &[AlarmData]) -> Vec<String> {
    fired.iter().map(|d| d.get_ref_value().description.clone()).collect()
}

#[test]
fn manager_loads_every_page_and_skips_undecodable_alarms() {
    let store = store_with(vec![
        descriptor("a", "always", b"null".to_vec()),
        descriptor("broken", "alarm-clock", vec![1, 2]),
        descriptor("b", "pattern", pattern_configs(Operator::Eq(vec![1]))),
        descriptor("c", "mystery", vec![]),
        descriptor("d", "always", b"null".to_vec()),
    ]);
    let mut m = manager_over(&store);
    let fired = m.evaluate_alarms(&raw(0, &[1])).unwrap();
    assert_eq!(fired_descriptions(&fired), vec!["a", "b", "d"]);
    let keys: Vec<String> = fired.iter().map(|d| d.get_key()).collect();
    assert_eq!(keys, vec!["1", "3", "5"]);
}

#[test]
fn evaluate_reports_fired_alarms_in_order() {
    let store = store_with(vec![
        descriptor("eq", "pattern", pattern_configs(Operator::Eq(b"on".to_vec()))),
        descriptor("neq", "pattern", pattern_configs(Operator::Neq(b"on".to_vec()))),
        descriptor("always", "always", b"null".to_vec()),
    ]);
    let mut m = manager_over(&store);
    let fired = m.evaluate_alarms(&raw(0, b"on")).unwrap();
    assert_eq!(fired_descriptions(&fired), vec!["eq", "always"]);
    assert_eq!(fired[0].get_ref_value().kind_id, "pattern");
    assert_eq!(fired[1].get_ref_value().kind_id, "always");
    assert_eq!(fired[1].get_ref_value().configs, b"null".to_vec());
    let fired = m.evaluate_alarms(&raw(0, b"off")).unwrap();
    assert_eq!(fired_descriptions(&fired), vec!["neq", "always"]);
    assert!(store.borrow().updates.is_empty());
}

#[test]
fn clock_in_manager_fires_once_and_is_written_back() {
    let store = store_with(vec![descriptor("wake", "alarm-clock", clock_configs(100, false))]);
    let mut m = manager_over(&store);
    assert!(m.evaluate_alarms(&raw(50, b"")).unwrap().is_empty());
    let fired = m.evaluate_alarms(&raw(100, b"")).unwrap();
    assert_eq!(fired_descriptions(&fired), vec!["wake"]);
    assert_eq!(fired[0].get_ref_value().configs, clock_configs(100, true));
    {
        let s = store.borrow();
        assert_eq!(s.updates.len(), 1);
        assert_eq!(s.updates[0].0, "1");
        assert_eq!(s.updates[0].1.configs, clock_configs(100, true));
        assert_eq!(s.rows[0].1.configs, clock_configs(100, true));
    }
    assert!(m.evaluate_alarms(&raw(200, b"")).unwrap().is_empty());
    assert!(m.evaluate_alarms(&raw(300, b"")).unwrap().is_empty());
    assert_eq!(store.borrow().updates.len(), 1);
    // A manager loaded again from the store keeps the clock as fired.
    let mut again = manager_over(&store);
    assert!(again.evaluate_alarms(&raw(400, b"")).unwrap().is_empty());
}

#[test]
fn evaluate_stops_on_a_failed_write_back() {
    let store = store_with(vec![descriptor("wake", "alarm-clock", clock_configs(0, false))]);
    let mut m = manager_over(&store);
    store.borrow_mut().fail = true;
    let e = m.evaluate_alarms(&raw(10, b"")).err().unwrap();
    assert_eq!(e.to_string(), "RepositoryError:  store down");
    store.borrow_mut().fail = false;
    // The clock took its new state in memory before the failure.
    assert!(m.evaluate_alarms(&raw(20, b"")).unwrap().is_empty());
}

#[test]
fn create_alarm_activates_it() {
    let store = store_with(vec![]);
    let mut m = manager_over(&store);
    let created = m.create_alarm(descriptor("new", "always", b"null".to_vec())).unwrap();
    assert_eq!(created.get_key(), "1");
    assert_eq!(created.get_ref_value().description, "new");
    assert_eq!(store.borrow().rows.len(), 1);
    let fired = m.evaluate_alarms(&raw(0, b"")).unwrap();
    assert_eq!(fired_descriptions(&fired), vec!["new"]);
    let read = m.read_alarm("1".to_string()).unwrap().unwrap();
    assert_eq!(read.get_ref_value().kind_id, "always");
    assert!(m.read_alarm("9".to_string()).unwrap().is_none());
    assert_eq!(m.list_alarms(None).unwrap().len(), 1);
}

#[test]
fn create_alarm_rejects_unknown_kind_before_storing() {
    let store = store_with(vec![]);
    let mut m = manager_over(&store);
    let e = m.create_alarm(descriptor("x", "weekly", vec![])).err().unwrap();
    assert_eq!(e.to_string(), "AlertingError:  unknown alarm kind: weekly");
    assert!(store.borrow().rows.is_empty());
    let e = m.create_alarm(descriptor("x", "pattern", vec![])).err().unwrap();
    assert_eq!(e.to_string(), "AlertingError:  deserialize pattern: no operator");
    assert!(m.evaluate_alarms(&raw(0, b"")).unwrap().is_empty());
}

#[test]
fn create_alarm_keeps_state_when_store_fails() {
    let store = store_with(vec![]);
    let mut m = manager_over(&store);
    store.borrow_mut().fail = true;
    assert!(m.create_alarm(descriptor("x", "always", b"null".to_vec())).is_err());
    store.borrow_mut().fail = false;
    assert!(m.evaluate_alarms(&raw(0, b"")).unwrap().is_empty());
}

#[test]
fn update_alarm_replaces_kind_and_description() {
    let store = store_with(vec![
        descriptor("first", "pattern", pattern_configs(Operator::Eq(b"a".to_vec()))),
        descriptor("second", "always", b"null".to_vec()),
    ]);
    let mut m = manager_over(&store);
    m.update_alarm("1".to_string(), descriptor("renamed", "pattern", pattern_configs(Operator::Eq(b"b".to_vec()))))
        .unwrap();
    let fired = m.evaluate_alarms(&raw(0, b"b")).unwrap();
    assert_eq!(fired_descriptions(&fired), vec!["renamed", "second"]);
    assert_eq!(store.borrow().rows[0].1.description, "renamed");
    // An unknown key changes no active alarm.
    m.update_alarm("42".to_string(), descriptor("ghost", "always", b"null".to_vec())).unwrap();
    let fired = m.evaluate_alarms(&raw(0, b"b")).unwrap();
    assert_eq!(fired_descriptions(&fired), vec!["renamed", "second"]);
}

#[test]
fn update_alarm_rejects_undecodable_description() {
    let store = store_with(vec![descriptor("keep", "always", b"null".to_vec())]);
    let mut m = manager_over(&store);
    let e = m.update_alarm("1".to_string(), descriptor("bad", "alarm-clock", vec![0])).err().unwrap();
    assert_eq!(e.to_string(), "AlertingError:  deserialize alarm-clock: length 1");
    assert_eq!(store.borrow().rows[0].1.description, "keep");
    assert_eq!(fired_descriptions(&m.evaluate_alarms(&raw(0, b"")).unwrap()), vec!["keep"]);
}

#[test]
fn delete_alarm_deactivates_it() {
    let store = store_with(vec![
        descriptor("a", "always", b"null".to_vec()),
        descriptor("b", "always", b"null".to_vec()),
    ]);
    let mut m = manager_over(&store);
    m.delete_alarm("1".to_string()).unwrap();
    assert_eq!(fired_descriptions(&m.evaluate_alarms(&raw(0, b"")).unwrap()), vec!["b"]);
    assert_eq!(store.borrow().rows.len(), 1);
    m.delete_alarm("7".to_string()).unwrap();
    assert_eq!(fired_descriptions(&m.evaluate_alarms(&raw(0, b"")).unwrap()), vec!["b"]);
}

#[test]
fn delete_undoes_create() {
    let store = store_with(vec![descriptor("a", "always", b"null".to_vec())]);
    let mut m = manager_over(&store);
    let created = m.create_alarm(descriptor("b", "always", b"null".to_vec())).unwrap();
    assert_eq!(fired_descriptions(&m.evaluate_alarms(&raw(0, b"")).unwrap()), vec!["a", "b"]);
    m.delete_alarm(created.get_key()).unwrap();
    assert_eq!(fired_descriptions(&m.evaluate_alarms(&raw(0, b"")).unwrap()), vec!["a"]);
}

#[test]
fn delete_alarm_keeps_state_when_store_fails() {
    let store = store_with(vec![descriptor("a", "always", b"null".to_vec())]);
    let mut m = manager_over(&store);
    store.borrow_mut().fail = true;
    assert!(m.delete_alarm("1".to_string()).is_err());
    store.borrow_mut().fail = false;
    assert_eq!(fired_descriptions(&m.evaluate_alarms(&raw(0, b"")).unwrap()), vec!["a"]);
}

#[test]
fn alerts_for_fired_alarms() {
    let fired = vec![
        EntityData::new("3".to_string(), descriptor("door", "always", vec![])),
        EntityData::new("8".to_string(), descriptor("window", "always", vec![])),
    ];
    let alerts = alerts_for(&fired, Timestamp::new(77, 1), &vec![5, 6]);
    assert_eq!(alerts.len(), 2);
    assert_eq!(alerts[0].get_ref_description(), &Some("door".to_string()));
    assert_eq!(alerts[1].get_ref_description(), &Some("window".to_string()));
    assert_eq!(alerts[1].get_ref_timestamp(), &Timestamp::new(77, 1));
    assert_eq!(alerts[0].get_ref_data(), &vec![5, 6]);
    assert!(alerts_for(&vec![], Timestamp::new(0, 0), &vec![]).is_empty());
}

fn service_with(alarms: Vec<AlarmDescriptor>) -> (AlertService, tokio::sync::mpsc::Receiver<AlertData>, Rc<RefCell<AlertStore>>) {
    let store = store_with(alarms);
    let manager = manager_over(&store);
    let alerts = Rc::new(RefCell::new(AlertStore::default()));
    let (service, rx) = AlertService::new(Box::new(MemoryAlertRepo(alerts.clone())), manager);
    (service, rx, alerts)
}

#[test]
fn service_stores_and_publishes_an_alert_per_fired_alarm() {
    let (mut service, mut rx, alerts) = service_with(vec![
        descriptor("hot", "pattern", pattern_configs(Operator::Eq(b"99".to_vec()))),
        descriptor("any", "always", b"null".to_vec()),
    ]);
    service.evaluate_received_data_at(b"99".to_vec(), Timestamp::new(1234, 5)).unwrap();
    {
        let s = alerts.borrow();
        assert_eq!(s.rows.len(), 2);
        assert_eq!(s.rows[0].1.get_ref_description(), &Some("hot".to_string()));
        assert_eq!(s.rows[1].1.get_ref_description(), &Some("any".to_string()));
        assert_eq!(s.rows[0].1.get_ref_timestamp(), &Timestamp::new(1234, 5));
        assert_eq!(s.rows[0].1.get_ref_data(), &b"99".to_vec());
    }
    let first = rx.try_recv().unwrap();
    assert_eq!(first.get_key(), "1");
    assert_eq!(first.get_ref_value().get_ref_description(), &Some("hot".to_string()));
    let second = rx.try_recv().unwrap();
    assert_eq!(second.get_key(), "2");
    assert!(rx.try_recv().is_err());
    service.evaluate_received_data_at(b"1".to_vec(), Timestamp::new(1235, 0)).unwrap();
    assert_eq!(alerts.borrow().rows.len(), 3);
    assert_eq!(service.list_alerts(None).unwrap().len(), 3);
    assert_eq!(service.list_alerts(Some("2".to_string())).unwrap().len(), 1);
}

#[test]
fn service_stamps_alerts_with_the_current_time() {
    let (mut service, mut rx, _alerts) = service_with(vec![descriptor("any", "always", b"null".to_vec())]);
    let before = chrono::Utc::now().timestamp();
    service.evaluate_received_data(vec![1]).unwrap();
    let after = chrono::Utc::now().timestamp();
    let published = rx.try_recv().unwrap();
    let at = published.get_ref_value().get_ref_timestamp().secs;
    assert!(before <= at && at <= after);
}

#[test]
fn service_delegates_alert_and_alarm_operations() {
    let (mut service, _rx, _alerts) = service_with(vec![]);
    let stored = service.create_alert(Alert::new(None, Timestamp::new(1, 0), vec![1])).unwrap();
    assert!(service.read_alert(stored.get_key()).unwrap().is_some());
    service.delete_alert(stored.get_key()).unwrap();
    assert!(service.read_alert(stored.get_key()).unwrap().is_none());
    let alarm = service.create_alarm(descriptor("a", "always", b"null".to_vec())).unwrap();
    assert_eq!(service.list_alarms(None).unwrap().len(), 1);
    assert!(service.read_alarm(alarm.get_key()).unwrap().is_some());
    service.delete_alarm(alarm.get_key()).unwrap();
    assert!(service.list_alarms(None).unwrap().is_empty());
    service.evaluate_received_data_at(vec![0], Timestamp::new(5, 0)).unwrap();
    assert!(service.list_alerts(None).unwrap().is_empty());
}

#[test]
fn entity_data_accessors() {
    let e = EntityData::new("12".to_string(), descriptor("d", "always", vec![3]));
    assert_eq!(e.get_key(), "12");
    assert_eq!(e.get_ref_key(), "12");
    assert_eq!(e.get_value().configs, vec![3]);
    assert_eq!(e.get_ref_value().description, "d");
    let c = e.clone();
    assert_eq!(c.get_key(), "12");
}

#[test]
fn evaluations_run_each_alarm_on_its_own() {
    let store = store_with(vec![
        descriptor("clock", "alarm-clock", clock_configs(10, false)),
        descriptor("pattern", "pattern", pattern_configs(Operator::Eq(b"go".to_vec()))),
        descriptor("always", "always", b"null".to_vec()),
    ]);
    let mut m = manager_over(&store);
    let runs = [(5, &b"go"[..]), (10, &b"no"[..]), (11, &b"go"[..]), (12, &b"go"[..])];
    let mut seen = Vec::new();
    for (secs, data) in runs {
        seen.push(fired_descriptions(&m.evaluate_alarms(&raw(secs, data)).unwrap()));
    }
    assert_eq!(seen[0], vec!["pattern", "always"]);
    assert_eq!(seen[1], vec!["clock", "always"]);
    assert_eq!(seen[2], vec!["pattern", "always"]);
    assert_eq!(seen[3], vec!["pattern", "always"]);
}

#[test]
fn service_keeps_the_alerts_stored_before_a_refusal() {
    let (mut service, mut rx, alerts) = service_with(vec![
        descriptor("first", "always", b"null".to_vec()),
        descriptor("second", "always", b"null".to_vec()),
    ]);
    alerts.borrow_mut().fail = true;
    let e = service.evaluate_received_data_at(vec![1], Timestamp::new(9, 0)).err().unwrap();
    assert_eq!(e.to_string(), "RepositoryError:  alert store full");
    assert_eq!(alerts.borrow().rows.len(), 1);
    let published = rx.try_recv().unwrap();
    assert_eq!(published.get_ref_value().get_ref_description(), &Some("first".to_string()));
    assert!(rx.try_recv().is_err());
}

#[test]
fn from_descriptor_returns_the_decoded_pattern() {
    let codec: Box<dyn AlarmConfigCodec> = Box::new(BytesCodec);
    let d = descriptor("p", "pattern", pattern_configs(Operator::Eq(vec![1, 2])));
    match AlarmKind::from_descriptor(&d, &codec).unwrap() {
        AlarmKind::Pattern(p) => match p.operator {
            Operator::Eq(v) => assert_eq!(v, vec![1u8, 2]),
            _ => panic!("not Eq"),
        },
        _ => panic!("not a pattern"),
    }
    let e = AlarmKind::from_descriptor(&descriptor("wake", "alarm-clock", b"{}".to_vec()), &codec).err().unwrap();
    assert!(e.to_string().starts_with("AlertingError:  deserialize alarm-clock: "));
}
