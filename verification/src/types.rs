use vstd::prelude::*;

use crate::alarm::{AlarmDescriptor, AlarmTrigger, AlarmTriggerResult};

verus! {

/// A point in time with the precision of a naive date and time: the whole seconds since
/// 1970-01-01 00:00:00 and the nanoseconds past that second (a leap second carries
/// nanoseconds from 1_000_000_000 on).
#[derive(Clone, Copy, Debug, PartialEq, Eq, Structural)]
pub struct Timestamp {
    pub secs: i64,
    pub nanos: u32,
}

impl Timestamp {
    /// Chronological order: earlier seconds first, then fewer nanoseconds.
    pub open spec fn at_or_before(self, other: Timestamp) -> bool {
        self.secs < other.secs || (self.secs == other.secs && self.nanos <= other.nanos)
    }

    pub fn new(secs: i64, nanos: u32) -> (t: Timestamp)
        ensures
            t == (Timestamp { secs, nanos }),
    {
        Timestamp { secs, nanos }
    }

    /// Whether `self` is the same instant as `other` or a later one.
    pub fn is_at_or_after(&self, other: &Timestamp) -> (b: bool)
        ensures
            b == other.at_or_before(*self),
    {
        other.secs < self.secs || (other.secs == self.secs && other.nanos <= self.nanos)
    }
}

/// An alert as a mathematical value.
pub struct AlertView {
    pub description: Option<Seq<char>>,
    pub timestamp: Timestamp,
    pub data: Seq<u8>,
}

/// Main Alert data structure
#[derive(Debug)]
pub struct Alert {
    /// Optional description (can be set from the user interface)
    description: Option<String>,
    /// Reception timestamp
    timestamp: Timestamp,
    /// Raw data
    data: Vec<u8>,
}

pub open spec fn opt_text(s: Option<String>) -> Option<Seq<char>> {
    match s {
        Some(t) => Some(t@),
        None => None,
    }
}

impl View for Alert {
    type V = AlertView;

    closed spec fn view(&self) -> AlertView {
        AlertView {
            description: opt_text(self.description),
            timestamp: self.timestamp,
            data: self.data@,
        }
    }
}

fn clone_opt_text(s: &Option<String>) -> (r: Option<String>)
    ensures
        opt_text(r) == opt_text(*s),
{
    match s {
        Some(t) => Some(t.clone()),
        None => None,
    }
}

impl Alert {
    pub fn new(description: Option<String>, timestamp: Timestamp, data: Vec<u8>) -> (a: Self)
        ensures
            a@ == (AlertView { description: opt_text(description), timestamp, data: data@ }),
    {
        Self { description, timestamp, data }
    }

    pub fn get_ref_description(&self) -> (d: &Option<String>)
        ensures
            opt_text(*d) == self@.description,
    {
        &self.description
    }

    pub fn get_ref_timestamp(&self) -> (t: &Timestamp)
        ensures
            *t == self@.timestamp,
    {
        &self.timestamp
    }

    pub fn get_ref_data(&self) -> (d: &Vec<u8>)
        ensures
            d@ == self@.data,
    {
        &self.data
    }
}

impl Clone for Alert {
    fn clone(&self) -> (a: Self)
        ensures
            a@ == self@,
    {
        Alert {
            description: clone_opt_text(&self.description),
            timestamp: self.timestamp,
            data: self.data.clone(),
        }
    }
}

/// Received data as a mathematical value.
pub struct RawDataView {
    pub timestamp: Timestamp,
    pub data: Seq<u8>,
}

/// Data received from the bus, with the time of its reception.
pub struct RawData {
    /// Reception timestamp
    timestamp: Timestamp,
    /// Raw data
    data: Vec<u8>,
}

impl View for RawData {
    type V = RawDataView;

    closed spec fn view(&self) -> RawDataView {
        RawDataView { timestamp: self.timestamp, data: self.data@ }
    }
}

impl RawData {
    pub fn new(timestamp: Timestamp, data: Vec<u8>) -> (r: Self)
        ensures
            r@ == (RawDataView { timestamp, data: data@ }),
    {
        Self { timestamp, data }
    }

    pub fn get_ref_timestamp(&self) -> (t: &Timestamp)
        ensures
            *t == self@.timestamp,
    {
        &self.timestamp
    }

    pub fn get_ref_data(&self) -> (d: &Vec<u8>)
        ensures
            d@ == self@.data,
    {
        &self.data
    }
}

impl Clone for RawData {
    fn clone(&self) -> (r: Self)
        ensures
            r@ == self@,
    {
        RawData { timestamp: self.timestamp, data: self.data.clone() }
    }
}

/// An alarm: a trigger together with its stored description.
pub struct Alarm {
    trigger: Box<dyn AlarmTrigger>,
    descriptor: AlarmDescriptor,
}

impl Alarm {
    /// The stored description of the alarm.
    pub closed spec fn stored_descriptor(&self) -> AlarmDescriptor {
        self.descriptor
    }

    pub fn descriptor(&self) -> (d: &AlarmDescriptor)
        ensures
            *d == self.stored_descriptor(),
    {
        &self.descriptor
    }
}

impl AlarmTrigger for Alarm {
    fn on_data(&mut self, raw: RawData) -> AlarmTriggerResult {
        self.trigger.on_data(raw)
    }
}

} // verus!
