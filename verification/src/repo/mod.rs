use vstd::prelude::*;

use crate::alarm::{AlarmDescriptor, AlarmDescriptorView};
use crate::error::VoltaTestError;
use crate::text::{append_signed_decimal, signed_decimal_text};
use crate::types::{opt_text, Alert, AlertView};

verus! {

/// A stored entity: its key in the store and its value.
#[derive(Debug)]
pub struct EntityData<T>(String, T);

impl<T> EntityData<T> {
    /// The key of the entity in its store.
    pub closed spec fn key(&self) -> Seq<char> {
        self.0@
    }

    /// The stored value.
    pub closed spec fn value(&self) -> T {
        self.1
    }

    pub fn new(id: String, value: T) -> (e: Self)
        ensures
            e.key() == id@,
            e.value() == value,
    {
        Self(id, value)
    }

    pub fn get_key(&self) -> (k: String)
        ensures
            k@ == self.key(),
    {
        self.0.clone()
    }

    pub fn get_ref_key(&self) -> (k: &String)
        ensures
            k@ == self.key(),
    {
        &self.0
    }

    pub fn get_ref_value(&self) -> (v: &T)
        ensures
            *v == self.value(),
    {
        &self.1
    }
}

impl<T: Clone> EntityData<T> {
    pub fn get_value(&self) -> (v: T)
        ensures
            cloned(self.value(), v),
    {
        self.1.clone()
    }
}

impl<T: Clone> Clone for EntityData<T> {
    fn clone(&self) -> (e: Self)
        ensures
            e.key() == self.key(),
            cloned(self.value(), e.value()),
    {
        EntityData(self.0.clone(), self.1.clone())
    }
}

/// A stored alert
pub type AlertData = EntityData<Alert>;

/// A stored alarm description
pub type AlarmData = EntityData<AlarmDescriptor>;

/// A stored entity as plain values: its key and its value's view.
pub open spec fn entry<T: View>(e: EntityData<T>) -> (Seq<char>, T::V) {
    (e.key(), e.value()@)
}

/// Stored entities as plain values, in order.
pub open spec fn entries<T: View>(v: Seq<EntityData<T>>) -> Seq<(Seq<char>, T::V)> {
    v.map_values(|e: EntityData<T>| entry(e))
}

/// A store after replacing the value under `key`, where there is one.
pub open spec fn replaced<V>(store: Map<Seq<char>, V>, key: Seq<char>, value: V) -> Map<Seq<char>, V> {
    if store.contains_key(key) {
        store.insert(key, value)
    } else {
        store
    }
}

/// Whether a page read from a store holds only what the store holds.
pub open spec fn page_of<V>(store: Map<Seq<char>, V>, page: Seq<(Seq<char>, V)>) -> bool {
    forall|i: int| 0 <= i < page.len() ==> #[trigger] store.contains_key(page[i].0) && store[page[i].0] == page[i].1
}

/// Where a listing starts, as a mathematical value: after the entity with this key, or
/// from the start when `None`.
pub type CursorView = Option<Seq<char>>;

/// An alert store as a mathematical value: the alerts by key.
pub type AlertStoreView = Map<Seq<char>, AlertView>;

/// A page of stored alerts as a mathematical value: keys and alerts, in order.
pub type AlertPageView = Seq<(Seq<char>, AlertView)>;

/// An alarm store as a mathematical value: the descriptions by key.
pub type AlarmStoreView = Map<Seq<char>, AlarmDescriptorView>;

/// A page of stored alarm descriptions as a mathematical value: keys and descriptions, in
/// order.
pub type AlarmPageView = Seq<(Seq<char>, AlarmDescriptorView)>;

/// CRUD-based alert storage API. A store is modelled by the alerts it holds under their
/// keys, and by the page that a listing from a given cursor reads; a key names the entity
/// that the store handed out under exactly that text.
pub trait AlertRepository {
    /// The stored alerts, by key.
    spec fn stored_alerts(&self) -> AlertStoreView;

    /// The page that a listing after the key `previous` (from the start when `None`) reads.
    spec fn alert_listing(&self, previous: CursorView) -> AlertPageView;

    /// Stores the alert under a new key.
    fn create(&mut self, alert: Alert) -> (r: Result<AlertData, VoltaTestError>)
        ensures
            r matches Ok(d) ==> {
                &&& d.value()@ == alert@
                &&& !old(self).stored_alerts().contains_key(d.key())
                &&& final(self).stored_alerts() == old(self).stored_alerts().insert(d.key(), alert@)
            },
            r is Err ==> final(self).stored_alerts() == old(self).stored_alerts(),
    ;

    fn read(&self, id: String) -> (r: Result<Option<AlertData>, VoltaTestError>)
        ensures
            r matches Ok(Some(d)) ==> d.key() == id@ && self.stored_alerts().contains_key(id@)
                && self.stored_alerts()[id@] == d.value()@,
            r matches Ok(None) ==> !self.stored_alerts().contains_key(id@),
    ;

    fn update(&mut self, id: String, alert: Alert) -> (r: Result<(), VoltaTestError>)
        ensures
            r is Ok ==> final(self).stored_alerts() == replaced(old(self).stored_alerts(), id@, alert@),
            r is Err ==> final(self).stored_alerts() == old(self).stored_alerts(),
    ;

    fn delete(&mut self, id: String) -> (r: Result<(), VoltaTestError>)
        ensures
            r is Ok ==> final(self).stored_alerts() == old(self).stored_alerts().remove(id@),
            r is Err ==> final(self).stored_alerts() == old(self).stored_alerts(),
    ;

    /// The page of alerts that follows the one whose key is `previous_id` (the first page
    /// when it is `None`).
    fn list(&self, previous_id: Option<String>) -> (r: Result<Vec<AlertData>, VoltaTestError>)
        ensures
            r matches Ok(page) ==> entries(page@) == self.alert_listing(opt_text(previous_id))
                && page_of(self.stored_alerts(), entries(page@)),
    ;
}

/// CRUD-based alarm storage API. A store is modelled by the descriptions it holds under
/// their keys, and by the page that a listing from a given cursor reads; a key names the
/// entity that the store handed out under exactly that text.
pub trait AlarmRepository {
    /// The stored alarm descriptions, by key.
    spec fn stored_alarms(&self) -> AlarmStoreView;

    /// The page that a listing after the key `previous` (from the start when `None`) reads.
    spec fn alarm_listing(&self, previous: CursorView) -> AlarmPageView;

    /// Stores the description under a new key.
    fn create(&mut self, alarm: AlarmDescriptor) -> (r: Result<AlarmData, VoltaTestError>)
        ensures
            r matches Ok(d) ==> {
                &&& d.value()@ == alarm@
                &&& !old(self).stored_alarms().contains_key(d.key())
                &&& final(self).stored_alarms() == old(self).stored_alarms().insert(d.key(), alarm@)
            },
            r is Err ==> final(self).stored_alarms() == old(self).stored_alarms(),
    ;

    fn read(&self, id: String) -> (r: Result<Option<AlarmData>, VoltaTestError>)
        ensures
            r matches Ok(Some(d)) ==> d.key() == id@ && self.stored_alarms().contains_key(id@)
                && self.stored_alarms()[id@] == d.value()@,
            r matches Ok(None) ==> !self.stored_alarms().contains_key(id@),
    ;

    /// Replaces the description stored under `id`.
    fn update(&mut self, id: String, alarm: AlarmDescriptor) -> (r: Result<(), VoltaTestError>)
        ensures
            r is Ok ==> final(self).stored_alarms() == replaced(old(self).stored_alarms(), id@, alarm@),
            r is Err ==> final(self).stored_alarms() == old(self).stored_alarms(),
    ;

    fn delete(&mut self, id: String) -> (r: Result<(), VoltaTestError>)
        ensures
            r is Ok ==> final(self).stored_alarms() == old(self).stored_alarms().remove(id@),
            r is Err ==> final(self).stored_alarms() == old(self).stored_alarms(),
    ;

    /// The page of alarms that follows the one whose key is `previous_id` (the first page
    /// when it is `None`).
    fn list(&self, previous_id: Option<String>) -> (r: Result<Vec<AlarmData>, VoltaTestError>)
        ensures
            r matches Ok(page) ==> entries(page@) == self.alarm_listing(opt_text(previous_id))
                && page_of(self.stored_alarms(), entries(page@)),
    ;
}

/// The key of a stored row: the decimal notation of its row id.
pub fn row_key(row_id: i64) -> (key: String)
    ensures
        key@ == signed_decimal_text(row_id as int),
{
    let mut key = String::new();
    append_signed_decimal(&mut key, row_id);
    key
}

/// The cursor from which a listing starts: the key of the last entity already seen, or
/// `"0"` (before every row id) for the first page.
pub fn list_cursor(previous_id: Option<String>) -> (cursor: String)
    ensures
        cursor@ == match previous_id {
            Some(p) => p@,
            None => "0"@,
        },
{
    match previous_id {
        Some(p) => p,
        None => String::from_str("0"),
    }
}

} // verus!
