use vstd::prelude::*;

use crate::alarm::clock::{clock_step, AlarmClockData};
use crate::alarm::pattern::{operator_holds, AlarmPatternData, OperatorView};
use crate::error::{VoltaTestError, VoltaTestErrorView};
use crate::types::{RawData, RawDataView};

pub mod clock;
/// Alarm manager (alarm logic executor)
pub mod manager;
pub mod pattern;

verus! {

/// What an alarm decides on received data: whether to fire an alert, and whether its
/// stored state must be written back.
pub struct AlarmTriggerResult(bool, bool);

impl View for AlarmTriggerResult {
    type V = (bool, bool);

    closed spec fn view(&self) -> (bool, bool) {
        (self.0, self.1)
    }
}

impl AlarmTriggerResult {
    pub fn new(trigger: bool, update_repo: bool) -> (r: Self)
        ensures
            r@ == (trigger, update_repo),
    {
        Self(trigger, update_repo)
    }

    /// Fire an alert
    pub fn trigger(&self) -> (b: bool)
        ensures
            b == self@.0,
    {
        self.0
    }

    /// Need to update alarm data store
    pub fn update_required(&self) -> (b: bool)
        ensures
            b == self@.1,
    {
        self.1
    }
}

impl From<(bool, bool)> for AlarmTriggerResult {
    fn from(value: (bool, bool)) -> (r: Self)
        ensures
            r@ == value,
    {
        Self::new(value.0, value.1)
    }
}

impl vstd::std_specs::convert::FromSpecImpl<(bool, bool)> for AlarmTriggerResult {
    open spec fn obeys_from_spec() -> bool {
        true
    }

    closed spec fn from_spec(v: (bool, bool)) -> AlarmTriggerResult {
        AlarmTriggerResult(v.0, v.1)
    }
}

/// Something that decides, on each received data, whether to fire an alert.
pub trait AlarmTrigger {
    fn on_data(&mut self, raw: RawData) -> AlarmTriggerResult;
}

/// What decoding a configuration gives: the decoded value or the text of the failure.
pub type ClockDecoding = Result<AlarmClockData, Seq<char>>;

/// What decoding a pattern configuration gives: the decoded comparison or the text of the
/// failure.
pub type PatternDecoding = Result<OperatorView, Seq<char>>;

/// What encoding a configuration gives: the bytes or the text of the failure.
pub type ConfigEncoding = Result<Seq<u8>, Seq<char>>;

/// Stored configuration bytes as a mathematical value.
pub type ConfigBytes = Seq<u8>;

/// The text of a failure, kept as plain characters.
pub open spec fn text_result<T>(r: Result<T, String>) -> Result<T, Seq<char>> {
    match r {
        Ok(v) => Ok(v),
        Err(e) => Err(e@),
    }
}

/// The encoding of alarm configurations as bytes, for their persistent storage: a fixed
/// function of the bytes or of the value. The library leaves it to its user (the
/// application encodes them as JSON); the spec functions name what each call gives.
pub trait AlarmConfigCodec {
    /// What `decode_clock` gives on these bytes.
    spec fn clock_decoding(&self, configs: ConfigBytes) -> ClockDecoding;

    /// What `decode_pattern` gives on these bytes.
    spec fn pattern_decoding(&self, configs: ConfigBytes) -> PatternDecoding;

    /// What `encode_clock` gives for this clock.
    spec fn clock_encoding(&self, data: AlarmClockData) -> ConfigEncoding;

    /// What `encode_pattern` gives for this comparison.
    spec fn pattern_encoding(&self, data: OperatorView) -> ConfigEncoding;

    fn decode_clock(&self, configs: &[u8]) -> (r: Result<AlarmClockData, String>)
        ensures
            text_result(r) == self.clock_decoding(configs@),
    ;

    fn decode_pattern(&self, configs: &[u8]) -> (r: Result<AlarmPatternData, String>)
        ensures
            match r {
                Ok(p) => self.pattern_decoding(configs@) == PatternDecoding::Ok(p@),
                Err(e) => self.pattern_decoding(configs@) == PatternDecoding::Err(e@),
            },
    ;

    fn encode_clock(&self, data: &AlarmClockData) -> (r: Result<Vec<u8>, String>)
        ensures
            match r {
                Ok(b) => self.clock_encoding(*data) == ConfigEncoding::Ok(b@),
                Err(e) => self.clock_encoding(*data) == ConfigEncoding::Err(e@),
            },
    ;

    fn encode_pattern(&self, data: &AlarmPatternData) -> (r: Result<Vec<u8>, String>)
        ensures
            match r {
                Ok(b) => self.pattern_encoding(data@) == ConfigEncoding::Ok(b@),
                Err(e) => self.pattern_encoding(data@) == ConfigEncoding::Err(e@),
            },
    ;
}

/// The JSON text `null`, as bytes.
pub open spec fn null_bytes() -> Seq<u8> {
    seq![110u8, 117u8, 108u8, 108u8]
}

/// `serde_json::to_vec` of `None::<String>`: serde_json writes a `None` as the unit value,
/// the four bytes `null`, into a vector, which cannot fail.
#[verifier::external_body]
fn json_null() -> (r: Result<Vec<u8>, serde_json::Error>)
    ensures
        r is Ok,
        r matches Ok(b) ==> b@ == null_bytes(),
{
    serde_json::to_vec::<Option<String>>(&None)
}

#[verifier::external_type_specification]
#[verifier::external_body]
pub struct ExJsonError(serde_json::Error);

/// The kind that a descriptor stores: its kind identifier selects the kind, whose
/// configuration the codec decodes; or the error reported.
pub open spec fn descriptor_kind(codec: &Box<dyn AlarmConfigCodec>, d: AlarmDescriptorView) -> Result<AlarmKindView, VoltaTestErrorView> {
    if d.kind_id == "alarm-clock"@ {
        match codec.clock_decoding(d.configs) {
            Ok(c) => Ok(AlarmKindView::AlarmClock(c)),
            Err(m) => Err(VoltaTestErrorView::AlertingError("deserialize alarm-clock: "@ + m)),
        }
    } else if d.kind_id == "pattern"@ {
        match codec.pattern_decoding(d.configs) {
            Ok(op) => Ok(AlarmKindView::Pattern(op)),
            Err(m) => Err(VoltaTestErrorView::AlertingError("deserialize pattern: "@ + m)),
        }
    } else if d.kind_id == "always"@ {
        Ok(AlarmKindView::Always)
    } else {
        Err(VoltaTestErrorView::AlertingError("unknown alarm kind: "@ + d.kind_id))
    }
}

/// The stored configuration of an alarm of the given kind, or the error reported.
pub open spec fn kind_configs(codec: &Box<dyn AlarmConfigCodec>, k: AlarmKindView) -> Result<Seq<u8>, VoltaTestErrorView> {
    match k {
        AlarmKindView::AlarmClock(c) => match codec.clock_encoding(c) {
            Ok(b) => Ok(b),
            Err(m) => Err(VoltaTestErrorView::AlertingError("serialize alarm-clock: "@ + m)),
        },
        AlarmKindView::Pattern(op) => match codec.pattern_encoding(op) {
            Ok(b) => Ok(b),
            Err(m) => Err(VoltaTestErrorView::AlertingError("serialize pattern: "@ + m)),
        },
        AlarmKindView::Always => Ok(null_bytes()),
    }
}

/// The kinds of alarms.
pub enum AlarmKind {
    AlarmClock(AlarmClockData),
    Pattern(AlarmPatternData),
    Always(),
}

pub enum AlarmKindView {
    AlarmClock(AlarmClockData),
    Pattern(OperatorView),
    Always,
}

impl View for AlarmKind {
    type V = AlarmKindView;

    open spec fn view(&self) -> AlarmKindView {
        match self {
            AlarmKind::AlarmClock(c) => AlarmKindView::AlarmClock(*c),
            AlarmKind::Pattern(p) => AlarmKindView::Pattern(p@),
            AlarmKind::Always() => AlarmKindView::Always,
        }
    }
}

/// The identifier under which each kind is stored.
pub open spec fn kind_id_of(k: AlarmKindView) -> Seq<char> {
    match k {
        AlarmKindView::AlarmClock(_) => "alarm-clock"@,
        AlarmKindView::Pattern(_) => "pattern"@,
        AlarmKindView::Always => "always"@,
    }
}

/// What an alarm of the given kind does on received data: its next state and its decision
/// (fire, write back).
pub open spec fn kind_step(k: AlarmKindView, raw: RawDataView) -> (AlarmKindView, (bool, bool)) {
    match k {
        AlarmKindView::AlarmClock(c) => (
            AlarmKindView::AlarmClock(clock_step(c, raw.timestamp).0),
            clock_step(c, raw.timestamp).1,
        ),
        AlarmKindView::Pattern(op) => (AlarmKindView::Pattern(op), (operator_holds(op, raw.data), false)),
        AlarmKindView::Always => (AlarmKindView::Always, (true, false)),
    }
}

fn alerting_error_with(prefix: &str, reason: &String) -> (e: VoltaTestError)
    ensures
        e@ == VoltaTestErrorView::AlertingError(prefix@ + reason@),
{
    let mut text = String::from_str(prefix);
    text.append(reason.as_str());
    VoltaTestError::AlertingError(text)
}

impl AlarmKind {
    pub fn kind_id(&self) -> (id: &str)
        ensures
            id@ == kind_id_of(self@),
    {
        match self {
            AlarmKind::AlarmClock(_) => "alarm-clock",
            AlarmKind::Pattern(_) => "pattern",
            AlarmKind::Always() => "always",
        }
    }

    /// Instantiate the alarm kind that a descriptor stores: its kind identifier selects the
    /// kind, whose configuration `codec` decodes.
    pub fn from_descriptor(descriptor: &AlarmDescriptor, codec: &Box<dyn AlarmConfigCodec>) -> (r: Result<Self, VoltaTestError>)
        ensures
            match r {
                Ok(k) => descriptor_kind(codec, descriptor@) == Ok::<AlarmKindView, VoltaTestErrorView>(k@),
                Err(e) => descriptor_kind(codec, descriptor@) == Err::<AlarmKindView, VoltaTestErrorView>(e@),
            },
            r matches Ok(k) ==> kind_id_of(k@) == descriptor@.kind_id,
    {
        proof {
            reveal_strlit("alarm-clock");
            reveal_strlit("pattern");
            reveal_strlit("always");
            // the three identifiers differ in length
            assert("pattern"@.len() == 7);
            assert("always"@.len() == 6);
            assert("alarm-clock"@.len() == 11);
        }
        let id = &descriptor.kind_id;
        if *id == String::from_str("alarm-clock") {
            match codec.decode_clock(descriptor.configs.as_slice()) {
                Ok(data) => Ok(AlarmKind::AlarmClock(data)),
                Err(e) => Err(alerting_error_with("deserialize alarm-clock: ", &e)),
            }
        } else if *id == String::from_str("pattern") {
            match codec.decode_pattern(descriptor.configs.as_slice()) {
                Ok(data) => Ok(AlarmKind::Pattern(data)),
                Err(e) => Err(alerting_error_with("deserialize pattern: ", &e)),
            }
        } else if *id == String::from_str("always") {
            Ok(AlarmKind::Always())
        } else {
            Err(alerting_error_with("unknown alarm kind: ", id))
        }
    }

    /// Encode the current trigger state back to bytes (for persistent storage).
    pub fn serialize_configs(&self, codec: &Box<dyn AlarmConfigCodec>) -> (r: Result<Vec<u8>, VoltaTestError>)
        ensures
            match r {
                Ok(b) => kind_configs(codec, self@) == Ok::<Seq<u8>, VoltaTestErrorView>(b@),
                Err(e) => kind_configs(codec, self@) == Err::<Seq<u8>, VoltaTestErrorView>(e@),
            },
    {
        let encoded = match self {
            AlarmKind::AlarmClock(d) => codec.encode_clock(d),
            AlarmKind::Pattern(d) => codec.encode_pattern(d),
            AlarmKind::Always() => match json_null() {
                Ok(bytes) => return Ok(bytes),
                Err(_) => return Err(alerting_error_with("serialize alarm-clock: ", &String::new())),
            },
        };
        match encoded {
            Ok(bytes) => Ok(bytes),
            Err(e) => {
                let prefix = match self {
                    AlarmKind::Pattern(_) => "serialize pattern: ",
                    _ => "serialize alarm-clock: ",
                };
                Err(alerting_error_with(prefix, &e))
            },
        }
    }
}

pub open spec fn known_kind_id(id: Seq<char>) -> bool {
    id == "alarm-clock"@ || id == "pattern"@ || id == "always"@
}

impl Clone for AlarmKind {
    fn clone(&self) -> (k: Self)
        ensures
            k@ == self@,
    {
        match self {
            AlarmKind::AlarmClock(c) => AlarmKind::AlarmClock(*c),
            AlarmKind::Pattern(p) => AlarmKind::Pattern(p.clone()),
            AlarmKind::Always() => AlarmKind::Always(),
        }
    }
}

impl AlarmTrigger for AlarmKind {
    fn on_data(&mut self, raw: RawData) -> (r: AlarmTriggerResult)
        ensures
            final(self)@ == kind_step(old(self)@, raw@).0,
            r@ == kind_step(old(self)@, raw@).1,
    {
        match self {
            AlarmKind::AlarmClock(d) => d.on_data(raw),
            AlarmKind::Pattern(d) => d.on_data(raw),
            AlarmKind::Always() => AlarmTriggerResult::new(true, false),
        }
    }
}

/// An alarm description as a mathematical value.
pub struct AlarmDescriptorView {
    pub description: Seq<char>,
    pub kind_id: Seq<char>,
    pub configs: Seq<u8>,
}

/// Alarm description for persistent storage
#[derive(Debug)]
pub struct AlarmDescriptor {
    /// Simple name
    pub description: String,
    /// AlarmKind::kind_id
    pub kind_id: String,
    /// Raw config depends on AlarmKind
    pub configs: Vec<u8>,
}

impl View for AlarmDescriptor {
    type V = AlarmDescriptorView;

    open spec fn view(&self) -> AlarmDescriptorView {
        AlarmDescriptorView {
            description: self.description@,
            kind_id: self.kind_id@,
            configs: self.configs@,
        }
    }
}

impl AlarmDescriptor {
    pub fn new(description: String, kind_id: String, configs: Vec<u8>) -> (d: Self)
        ensures
            d@ == (AlarmDescriptorView { description: description@, kind_id: kind_id@, configs: configs@ }),
    {
        Self { description, kind_id, configs }
    }

    pub fn get_ref_description(&self) -> (s: &String)
        ensures
            s@ == self@.description,
    {
        &self.description
    }

    pub fn get_ref_kind_id(&self) -> (s: &String)
        ensures
            s@ == self@.kind_id,
    {
        &self.kind_id
    }

    pub fn get_ref_configs(&self) -> (c: &Vec<u8>)
        ensures
            c@ == self@.configs,
    {
        &self.configs
    }
}

impl Clone for AlarmDescriptor {
    fn clone(&self) -> (d: Self)
        ensures
            d@ == self@,
    {
        AlarmDescriptor {
            description: self.description.clone(),
            kind_id: self.kind_id.clone(),
            configs: self.configs.clone(),
        }
    }
}

/// An alarm of the given kind run on a sequence of received data: its state after the last
/// one, and how many times it fired.
pub open spec fn kind_run(k: AlarmKindView, raws: Seq<RawDataView>) -> (AlarmKindView, nat)
    decreases raws.len(),
{
    if raws.len() == 0 {
        (k, 0)
    } else {
        let next = kind_step(k, raws[0]);
        let rest = kind_run(next.0, raws.drop_first());
        (rest.0, rest.1 + if next.1.0 { 1nat } else { 0nat })
    }
}

/// An alarm clock fires at most once, however much data it receives. One that has already
/// fired never fires again and keeps its state; one that has not fires exactly once when
/// some data arrives at or after its time.
pub proof fn lemma_alarm_clock_fires_at_most_once(c: AlarmClockData, raws: Seq<RawDataView>)
    ensures
        kind_run(AlarmKindView::AlarmClock(c), raws).1 <= 1,
        c.passed ==> kind_run(AlarmKindView::AlarmClock(c), raws) == (AlarmKindView::AlarmClock(c), 0nat),
        !c.passed && (exists|i: int| 0 <= i < raws.len() && c.trigger_at.at_or_before(#[trigger] raws[i].timestamp))
            ==> kind_run(AlarmKindView::AlarmClock(c), raws).1 == 1,
        !c.passed && (forall|i: int| 0 <= i < raws.len() ==> !c.trigger_at.at_or_before(#[trigger] raws[i].timestamp))
            ==> kind_run(AlarmKindView::AlarmClock(c), raws) == (AlarmKindView::AlarmClock(c), 0nat),
    decreases raws.len(),
{
    if raws.len() > 0 {
        let next = clock_step(c, raws[0].timestamp);
        lemma_alarm_clock_fires_at_most_once(next.0, raws.drop_first());
        if !c.passed && !c.trigger_at.at_or_before(raws[0].timestamp) {
            if exists|i: int| 0 <= i < raws.len() && c.trigger_at.at_or_before(#[trigger] raws[i].timestamp) {
                let i = choose|i: int| 0 <= i < raws.len() && c.trigger_at.at_or_before(#[trigger] raws[i].timestamp);
                assert(raws.drop_first()[i - 1] == raws[i]);
            }
            assert forall|i: int| 0 <= i < raws.drop_first().len() && (forall|j: int| 0 <= j < raws.len() ==> !c.trigger_at.at_or_before(#[trigger] raws[j].timestamp))
                implies !c.trigger_at.at_or_before(#[trigger] raws.drop_first()[i].timestamp) by {
                assert(raws.drop_first()[i] == raws[i + 1]);
            }
        }
    }
}

/// An `Always` alarm fires on every data it receives, also after having fired, and keeps
/// no state.
pub proof fn lemma_always_fires_on_every_data(raws: Seq<RawDataView>)
    ensures
        kind_run(AlarmKindView::Always, raws) == (AlarmKindView::Always, raws.len()),
    decreases raws.len(),
{
    if raws.len() > 0 {
        lemma_always_fires_on_every_data(raws.drop_first());
    }
}

/// A pattern alarm keeps its comparison, and fires exactly on the data that satisfies it.
pub proof fn lemma_pattern_fires_on_matching_data(op: OperatorView, raw: RawDataView)
    ensures
        kind_step(AlarmKindView::Pattern(op), raw).0 == AlarmKindView::Pattern(op),
        kind_step(AlarmKindView::Pattern(op), raw).1.0 == operator_holds(op, raw.data),
{
}

/// An alarm asks for its stored state to be written back exactly when its state changed.
pub proof fn lemma_write_back_iff_changed(k: AlarmKindView, raw: RawDataView)
    ensures
        kind_step(k, raw).1.1 <==> kind_step(k, raw).0 != k,
{
}

/// Whether a codec decodes back each configuration that it encodes.
pub open spec fn decodes_what_it_encodes(codec: &Box<dyn AlarmConfigCodec>) -> bool {
    &&& forall|c: AlarmClockData| #[trigger] codec.clock_encoding(c) matches Ok(b)
        ==> codec.clock_decoding(b) == Ok::<AlarmClockData, Seq<char>>(c)
    &&& forall|op: OperatorView| #[trigger] codec.pattern_encoding(op) matches Ok(b)
        ==> codec.pattern_decoding(b) == Ok::<OperatorView, Seq<char>>(op)
}

/// The description stored for an alarm of kind `k`: its description, the kind's identifier
/// and the kind's encoded configuration (empty where it does not encode).
pub open spec fn stored_descriptor(codec: &Box<dyn AlarmConfigCodec>, description: Seq<char>, k: AlarmKindView) -> AlarmDescriptorView {
    AlarmDescriptorView {
        description,
        kind_id: kind_id_of(k),
        configs: match kind_configs(codec, k) {
            Ok(b) => b,
            Err(_) => Seq::empty(),
        },
    }
}

/// An alarm that always fires has a configuration whatever the codec; and with a codec
/// that decodes what it encodes, the description stored for a kind whose configuration
/// encodes reads back as that same kind.
pub proof fn lemma_stored_kind_reads_back(codec: &Box<dyn AlarmConfigCodec>, description: Seq<char>, k: AlarmKindView)
    ensures
        kind_configs(codec, AlarmKindView::Always) == Ok::<Seq<u8>, VoltaTestErrorView>(null_bytes()),
        decodes_what_it_encodes(codec) && kind_configs(codec, k) is Ok
            ==> descriptor_kind(codec, stored_descriptor(codec, description, k)) == Ok::<AlarmKindView, VoltaTestErrorView>(k),
{
    reveal_strlit("alarm-clock");
    reveal_strlit("pattern");
    reveal_strlit("always");
    assert("pattern"@.len() == 7);
    assert("always"@.len() == 6);
    assert("alarm-clock"@.len() == 11);
    if decodes_what_it_encodes(codec) && kind_configs(codec, k) is Ok {
        match k {
            AlarmKindView::AlarmClock(c) => {
                assert(codec.clock_encoding(c) is Ok);
            },
            AlarmKindView::Pattern(op) => {
                assert(codec.pattern_encoding(op) is Ok);
            },
            AlarmKindView::Always => {},
        }
    }
}

/// Running an alarm on one more data takes one more step from where the run stopped.
pub proof fn lemma_kind_run_extends(k: AlarmKindView, raws: Seq<RawDataView>, raw: RawDataView)
    ensures
        kind_run(k, raws.push(raw)).0 == kind_step(kind_run(k, raws).0, raw).0,
    decreases raws.len(),
{
    if raws.len() == 0 {
        assert(raws.push(raw).drop_first() =~= Seq::<RawDataView>::empty());
        assert(raws.push(raw)[0] == raw);
        assert(kind_run(kind_step(k, raw).0, Seq::<RawDataView>::empty()).0 == kind_step(k, raw).0);
    } else {
        assert(raws.push(raw).drop_first() =~= raws.drop_first().push(raw));
        assert(raws.push(raw)[0] == raws[0]);
        lemma_kind_run_extends(kind_step(k, raws[0]).0, raws.drop_first(), raw);
    }
}

} // verus!
