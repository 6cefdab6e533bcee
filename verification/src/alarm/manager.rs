use vstd::prelude::*;

use crate::alarm::{
    descriptor_kind, kind_configs, kind_id_of, kind_run, kind_step, lemma_alarm_clock_fires_at_most_once,
    lemma_always_fires_on_every_data, lemma_kind_run_extends, lemma_stored_kind_reads_back, known_kind_id,
    null_bytes, stored_descriptor, decodes_what_it_encodes, AlarmConfigCodec,
    AlarmDescriptor, AlarmDescriptorView, AlarmKind, AlarmKindView, AlarmTrigger,
};
use crate::error::{VoltaTestError, VoltaTestErrorView};
use crate::repo::{entries, entry, page_of, replaced, AlarmData, AlarmRepository};
use crate::types::opt_text;
use crate::types::{RawData, RawDataView};

verus! {

/// An alarm held in memory, as a mathematical value.
pub struct ActiveAlarmView {
    pub id: Seq<char>,
    pub description: Seq<char>,
    pub kind: AlarmKindView,
}

/// In Memory alarm
struct ActiveAlarm {
    id: String,
    description: String,
    kind: AlarmKind,
}

impl View for ActiveAlarm {
    type V = ActiveAlarmView;

    closed spec fn view(&self) -> ActiveAlarmView {
        ActiveAlarmView { id: self.id@, description: self.description@, kind: self.kind@ }
    }
}

/// An active alarm after it has seen the received data.
pub open spec fn step_active(a: ActiveAlarmView, raw: RawDataView) -> ActiveAlarmView {
    ActiveAlarmView { id: a.id, description: a.description, kind: kind_step(a.kind, raw).0 }
}

/// The alarms that fire on the received data, in order, each with its state after the
/// data.
pub open spec fn fired_alarms(active: Seq<ActiveAlarmView>, raw: RawDataView) -> Seq<ActiveAlarmView>
    decreases active.len(),
{
    if active.len() == 0 {
        Seq::empty()
    } else {
        let before = fired_alarms(active.drop_last(), raw);
        let a = active.last();
        if kind_step(a.kind, raw).1.0 {
            before.push(step_active(a, raw))
        } else {
            before
        }
    }
}

/// The alarms that remain once those with the given id are removed.
pub open spec fn without_id(active: Seq<ActiveAlarmView>, id: Seq<char>) -> Seq<ActiveAlarmView>
    decreases active.len(),
{
    if active.len() == 0 {
        Seq::empty()
    } else if active[0].id == id {
        without_id(active.drop_first(), id)
    } else {
        seq![active[0]] + without_id(active.drop_first(), id)
    }
}

/// Whether `k` is the first position of an alarm with the given id.
pub open spec fn is_first_with_id(active: Seq<ActiveAlarmView>, id: Seq<char>, k: int) -> bool {
    &&& 0 <= k < active.len()
    &&& active[k].id == id
    &&& forall|j: int| 0 <= j < k ==> active[j].id != id
}

/// Whether the alarms up to position `k` took their next state and the later ones kept
/// theirs.
pub open spec fn stepped_through(before: Seq<ActiveAlarmView>, after: Seq<ActiveAlarmView>, raw: RawDataView, k: int) -> bool {
    &&& 0 <= k < before.len()
    &&& after.len() == before.len()
    &&& forall|j: int| 0 <= j <= k ==> #[trigger] after[j] == step_active(before[j], raw)
    &&& forall|j: int| k < j < before.len() ==> #[trigger] after[j] == before[j]
}

/// An evaluation interrupted after the alarm at position `k` leaves the alarms stepped
/// through `k`.
proof fn lemma_stepped_through(before: Seq<ActiveAlarmView>, active: Seq<ActiveAlarm>, raw: RawDataView, k: int)
    requires
        active.len() == before.len(),
        0 <= k < before.len(),
        forall|j: int| 0 <= j <= k ==> #[trigger] active[j]@ == step_active(before[j], raw),
        forall|j: int| k < j < before.len() ==> #[trigger] active[j]@ == before[j],
    ensures
        stepped_through(before, active.map_values(|a: ActiveAlarm| a@), raw, k),
{
    let after = active.map_values(|a: ActiveAlarm| a@);
    assert forall|j: int| 0 <= j <= k implies #[trigger] after[j] == step_active(before[j], raw) by {
        assert(after[j] == active[j]@);
    }
    assert forall|j: int| k < j < before.len() implies #[trigger] after[j] == before[j] by {
        assert(after[j] == active[j]@);
    }
}

/// The active alarms that a page of stored descriptions gives: those whose description
/// decodes, in order, each under its key with its description and decoded kind.
pub open spec fn page_alarms(page: Seq<(Seq<char>, AlarmDescriptorView)>, codec: &Box<dyn AlarmConfigCodec>) -> Seq<ActiveAlarmView>
    decreases page.len(),
{
    if page.len() == 0 {
        Seq::empty()
    } else {
        let rest = page_alarms(page.drop_last(), codec);
        let (key, d) = page.last();
        match descriptor_kind(codec, d) {
            Ok(kind) => rest.push(ActiveAlarmView { id: key, description: d.description, kind }),
            Err(_) => rest,
        }
    }
}

/// The active alarms that loading gives: the pages that the store lists from `cursor` on,
/// each after the last key of the page before, up to the first empty page and at most
/// `pages` of them.
pub open spec fn loaded(
    repo: &Box<dyn AlarmRepository>,
    codec: &Box<dyn AlarmConfigCodec>,
    cursor: Option<Seq<char>>,
    pages: nat,
) -> Seq<ActiveAlarmView>
    decreases pages,
{
    if pages == 0 {
        Seq::empty()
    } else {
        let page = repo.alarm_listing(cursor);
        if page.len() == 0 {
            Seq::empty()
        } else {
            page_alarms(page, codec) + loaded(repo, codec, Some(page.last().0), (pages - 1) as nat)
        }
    }
}

/// The description stored for an alarm in its current state, with the given encoding of its
/// configuration.
pub open spec fn stored_view(a: ActiveAlarmView, configs: Result<Seq<u8>, VoltaTestErrorView>) -> AlarmDescriptorView {
    AlarmDescriptorView {
        description: a.description,
        kind_id: kind_id_of(a.kind),
        configs: match configs {
            Ok(b) => b,
            Err(_) => Seq::empty(),
        },
    }
}

/// Manages alarm lifecycle and evaluates incoming data against all active alarms.
pub struct AlarmManager {
    repo: Box<dyn AlarmRepository>,
    codec: Box<dyn AlarmConfigCodec>,
    active: Vec<ActiveAlarm>,
    creations: Ghost<Seq<AlarmDescriptorView>>,
}

impl View for AlarmManager {
    type V = Seq<ActiveAlarmView>;

    /// The active alarms, in the order in which they are evaluated.
    closed spec fn view(&self) -> Seq<ActiveAlarmView> {
        self.active@.map_values(|a: ActiveAlarm| a@)
    }
}

impl AlarmManager {
    /// The alarm descriptions that the manager's store holds, by key.
    pub closed spec fn stored(&self) -> Map<Seq<char>, AlarmDescriptorView> {
        self.repo.stored_alarms()
    }

    /// The page that the manager's store lists after the key `previous`.
    pub closed spec fn listing(&self, previous: Option<Seq<char>>) -> Seq<(Seq<char>, AlarmDescriptorView)> {
        self.repo.alarm_listing(previous)
    }

    /// The kind that the manager makes of a stored description (its codec decoding the
    /// configuration), or the error reported.
    pub closed spec fn kind_of(&self, d: AlarmDescriptorView) -> Result<AlarmKindView, VoltaTestErrorView> {
        descriptor_kind(&self.codec, d)
    }

    /// The descriptions that the manager has asked its store to create, in order.
    pub closed spec fn creation_requests(&self) -> Seq<AlarmDescriptorView> {
        self.creations@
    }

    /// Whether the manager's codec decodes back each configuration that it encodes.
    pub closed spec fn decodes_what_it_encodes(&self) -> bool {
        decodes_what_it_encodes(&self.codec)
    }

    /// Whether two managers decode and encode configurations alike.
    pub closed spec fn same_coding(&self, other: AlarmManager) -> bool {
        &&& forall|d: AlarmDescriptorView| #[trigger] self.kind_of(d) == other.kind_of(d)
        &&& forall|k: AlarmKindView| #[trigger] self.configs_of(k) == other.configs_of(k)
    }

    /// The stored configuration that the manager makes of a kind (its codec encoding it),
    /// or the error reported.
    pub closed spec fn configs_of(&self, k: AlarmKindView) -> Result<Seq<u8>, VoltaTestErrorView> {
        kind_configs(&self.codec, k)
    }

    /// Whether a reported alarm carries the key, description, kind id and encoded
    /// configuration of the alarm that fired, in its new state.
    pub open spec fn reports(&self, d: AlarmData, a: ActiveAlarmView) -> bool {
        &&& d.key() == a.id
        &&& d.value()@ == stored_view(a, self.configs_of(a.kind))
    }

    /// Whether the new configuration of each of the alarms encodes.
    pub open spec fn all_encode(&self, before: Seq<ActiveAlarmView>, raw: RawDataView) -> bool {
        forall|i: int| 0 <= i < before.len() ==> #[trigger] self.configs_of(step_active(before[i], raw).kind) is Ok
    }

    /// The store after the write-backs of an evaluation of the alarms: for each alarm, in
    /// order, whose step asks for it, its description, new kind id and new encoded
    /// configuration replace what is stored under its key.
    pub open spec fn written_back(
        &self,
        store: Map<Seq<char>, AlarmDescriptorView>,
        before: Seq<ActiveAlarmView>,
        raw: RawDataView,
    ) -> Map<Seq<char>, AlarmDescriptorView>
        decreases before.len(),
    {
        if before.len() == 0 {
            store
        } else {
            let s = self.written_back(store, before.drop_last(), raw);
            let a = step_active(before.last(), raw);
            if kind_step(before.last().kind, raw).1.1 {
                replaced(s, a.id, stored_view(a, self.configs_of(a.kind)))
            } else {
                s
            }
        }
    }

    /// What an evaluation interrupted at the alarm at position `k`, with error `e`, leaves:
    /// the alarms stepped through `k`, the write-backs of those before `k` made, and the
    /// error either that of encoding the configuration of alarm `k` or, when that encodes,
    /// one raised by the store while writing alarm `k` back.
    pub open spec fn interrupted_at(
        &self,
        before: Seq<ActiveAlarmView>,
        after: Seq<ActiveAlarmView>,
        store: Map<Seq<char>, AlarmDescriptorView>,
        store_after: Map<Seq<char>, AlarmDescriptorView>,
        raw: RawDataView,
        k: int,
        e: VoltaTestErrorView,
    ) -> bool {
        &&& stepped_through(before, after, raw, k)
        &&& self.all_encode(before.take(k), raw)
        &&& store_after == self.written_back(store, before.take(k), raw)
        &&& match self.configs_of(step_active(before[k], raw).kind) {
            Err(m) => e == m,
            Ok(_) => kind_step(before[k].kind, raw).1.1,
        }
    }

    /// Instantiate AlarmManager: every alarm that the repository lists, and whose
    /// description `codec` decodes, becomes active.
    pub fn new(repo: Box<dyn AlarmRepository>, codec: Box<dyn AlarmConfigCodec>) -> (r: Result<Self, VoltaTestError>)
        ensures
            r matches Ok(m) ==> m@ == loaded(&repo, &codec, None, u64::MAX as nat),
            r matches Ok(m) ==> m.creation_requests() == Seq::<AlarmDescriptorView>::empty(),
    {
        let stored = match Self::load_all(&repo, &codec) {
            Ok(s) => s,
            Err(e) => return Err(e),
        };
        Ok(Self { repo, codec, active: stored, creations: Ghost(Seq::empty()) })
    }

    /// The alarms that a page of stored descriptions activates: those whose description
    /// decodes, in order, each under its key with its description and decoded kind.
    fn load_page(page: &Vec<AlarmData>, codec: &Box<dyn AlarmConfigCodec>) -> (r: Vec<ActiveAlarm>)
        ensures
            r@.map_values(|a: ActiveAlarm| a@) == page_alarms(entries(page@), codec),
    {
        let mut active: Vec<ActiveAlarm> = Vec::new();
        let mut i: usize = 0;
        while i < page.len()
            invariant
                i <= page@.len(),
                active@.map_values(|a: ActiveAlarm| a@) == page_alarms(entries(page@).take(i as int), codec),
            decreases page.len() - i,
        {
            let alarm_data = &page[i];
            let descriptor = alarm_data.get_ref_value();
            let ghost before = active@.map_values(|a: ActiveAlarm| a@);
            proof {
                assert(entries(page@).take(i + 1).drop_last() =~= entries(page@).take(i as int));
                assert(entries(page@).take(i + 1).last() == entry(page@[i as int]));
            }
            match AlarmKind::from_descriptor(descriptor, codec) {
                Ok(kind) => {
                    let a = ActiveAlarm { id: alarm_data.get_key(), description: descriptor.description.clone(), kind };
                    active.push(a);
                    assert(active@.map_values(|a: ActiveAlarm| a@) =~= before.push(a@));
                },
                Err(_) => {},
            }
            i += 1;
        }
        assert(entries(page@).take(page@.len() as int) =~= entries(page@));
        active
    }

    /// Setup active alarm on initiation: reads the repository page after page, each from
    /// the last key of the one before, until a page comes back empty; an alarm whose
    /// description cannot be decoded is skipped.
    fn load_all(repo: &Box<dyn AlarmRepository>, codec: &Box<dyn AlarmConfigCodec>) -> (r: Result<Vec<ActiveAlarm>, VoltaTestError>)
        ensures
            r matches Ok(v) ==> v@.map_values(|a: ActiveAlarm| a@) == loaded(repo, codec, None, u64::MAX as nat),
    {
        let mut active: Vec<ActiveAlarm> = Vec::new();
        let mut cursor: Option<String> = None;
        // Pages read so far; a store cannot hold more pages than this counts.
        let mut pages: u64 = 0;
        while pages < u64::MAX
            invariant_except_break
                active@.map_values(|a: ActiveAlarm| a@) + loaded(repo, codec, opt_text(cursor), (u64::MAX - pages) as nat)
                    == loaded(repo, codec, None, u64::MAX as nat),
            ensures
                active@.map_values(|a: ActiveAlarm| a@) == loaded(repo, codec, None, u64::MAX as nat),
            decreases u64::MAX - pages,
        {
            let ghost seen = active@.map_values(|a: ActiveAlarm| a@);
            let ghost fuel = (u64::MAX - pages) as nat;
            let ghost previous = opt_text(cursor);
            let page = match repo.list(cursor) {
                Ok(p) => p,
                Err(e) => return Err(e),
            };
            if page.len() == 0 {
                assert(seen + Seq::<ActiveAlarmView>::empty() =~= seen);
                break;
            }
            cursor = Some(page[page.len() - 1].get_key());
            let found = Self::load_page(&page, codec);
            let mut rest = found;
            active.append(&mut rest);
            proof {
                assert(entries(page@).last() == entry(page@[page@.len() - 1]));
                assert(loaded(repo, codec, previous, fuel) == page_alarms(entries(page@), codec)
                    + loaded(repo, codec, opt_text(cursor), (fuel - 1) as nat));
                assert(active@.map_values(|a: ActiveAlarm| a@) =~= seen + page_alarms(entries(page@), codec));
                assert(seen + (page_alarms(entries(page@), codec) + loaded(repo, codec, opt_text(cursor), (fuel - 1) as nat))
                    =~= (seen + page_alarms(entries(page@), codec)) + loaded(repo, codec, opt_text(cursor), (fuel - 1) as nat));
            }
            pages += 1;
        }
        proof {
            if pages == u64::MAX {
                let v = active@.map_values(|a: ActiveAlarm| a@);
                assert(v + Seq::<ActiveAlarmView>::empty() =~= v);
            }
        }
        Ok(active)
    }

    /// Run all active alarms on the received data, in order. Each alarm takes its next
    /// state; an alarm whose state must be written back is updated in the repository; the
    /// alarms that fire are returned with their current description.
    pub fn evaluate_alarms(&mut self, raw: &RawData) -> (r: Result<Vec<AlarmData>, VoltaTestError>)
        ensures
            final(self).same_coding(*old(self)),
            r is Ok ==> final(self)@ == old(self)@.map_values(|a: ActiveAlarmView| step_active(a, raw@)),
            r is Ok ==> old(self).all_encode(old(self)@, raw@),
            r is Ok ==> final(self).stored() == old(self).written_back(old(self).stored(), old(self)@, raw@),
            r matches Ok(fired) ==> {
                &&& fired@.len() == fired_alarms(old(self)@, raw@).len()
                &&& forall|i: int| 0 <= i < fired@.len() ==> old(self).reports(#[trigger] fired@[i], fired_alarms(old(self)@, raw@)[i])
            },
            r matches Err(e) ==> exists|k: int| #[trigger] old(self).interrupted_at(
                old(self)@, final(self)@, old(self).stored(), final(self).stored(), raw@, k, e@),
    {
        let ghost old_active = self@;
        let mut triggered: Vec<AlarmData> = Vec::new();
        let n = self.active.len();
        let mut i: usize = 0;
        while i < n
            invariant
                n == self.active.len(),
                n == old_active.len(),
                old_active == old(self)@,
                i <= n,
                forall|j: int| 0 <= j < i ==> #[trigger] self.active@[j]@ == step_active(old_active[j], raw@),
                forall|j: int| i <= j < n ==> #[trigger] self.active@[j]@ == old_active[j],
                triggered@.len() == fired_alarms(old_active.take(i as int), raw@).len(),
                forall|j: int| 0 <= j < triggered@.len() ==> old(self).reports(#[trigger] triggered@[j], fired_alarms(old_active.take(i as int), raw@)[j]),
                self.codec == old(self).codec,
                old(self).all_encode(old_active.take(i as int), raw@),
                self.stored() == old(self).written_back(old(self).stored(), old_active.take(i as int), raw@),
            decreases n - i,
        {
            let received = raw.clone();
            let ghost before = self.active@;
            let result = self.active[i].kind.on_data(received);
            proof {
                assert(self.active@[i as int]@ == step_active(before[i as int]@, raw@));
                assert forall|j: int| 0 <= j < n && j != i implies #[trigger] self.active@[j] == before[j] by {}
            }

            let id = self.active[i].id.clone();
            let description = self.active[i].description.clone();
            let configs = match self.active[i].kind.serialize_configs(&self.codec) {
                Ok(c) => c,
                Err(e) => {
                    proof {
                        lemma_stepped_through(old_active, self.active@, raw@, i as int);
                        assert(old(self).interrupted_at(old(self)@, self@, old(self).stored(), self.stored(), raw@, i as int, e@));
                    }
                    return Err(e);
                },
            };
            let kind_id = String::from_str(self.active[i].kind.kind_id());

            if result.update_required() {
                let descriptor = AlarmDescriptor::new(description.clone(), kind_id.clone(), configs.clone());
                match self.repo.update(id.clone(), descriptor) {
                    Ok(()) => {},
                    Err(e) => {
                        proof {
                            lemma_stepped_through(old_active, self.active@, raw@, i as int);
                            assert(old(self).interrupted_at(old(self)@, self@, old(self).stored(), self.stored(), raw@, i as int, e@));
                        }
                        return Err(e);
                    },
                }
            }

            proof {
                assert(old_active.take(i + 1).drop_last() =~= old_active.take(i as int));
                assert(old_active.take(i + 1).last() == old_active[i as int]);
            }
            if result.trigger() {
                triggered.push(AlarmData::new(id, AlarmDescriptor::new(description, kind_id, configs)));
            }
            i += 1;
        }
        proof {
            assert(old_active.take(n as int) =~= old_active);
            assert(self@ =~= old_active.map_values(|a: ActiveAlarmView| step_active(a, raw@))) by {
                assert forall|j: int| 0 <= j < n implies #[trigger] self@[j] == step_active(old_active[j], raw@) by {
                    assert(self@[j] == self.active@[j]@);
                }
            }
        }
        Ok(triggered)
    }

    /// Ask the store to create the description, and record the request.
    fn store_new(&mut self, descriptor: AlarmDescriptor) -> (r: Result<AlarmData, VoltaTestError>)
        ensures
            final(self).creation_requests() == old(self).creation_requests().push(descriptor@),
            final(self)@ == old(self)@,
            final(self).same_coding(*old(self)),
            final(self).codec == old(self).codec,
            r matches Ok(d) ==> {
                &&& d.value()@ == descriptor@
                &&& !old(self).stored().contains_key(d.key())
                &&& final(self).stored() == old(self).stored().insert(d.key(), descriptor@)
            },
            r is Err ==> final(self).stored() == old(self).stored(),
    {
        proof {
            self.creations@ = self.creations@.push(descriptor@);
        }
        self.repo.create(descriptor)
    }

    /// Register a new alarm: its description must decode; it is stored in the repository
    /// and becomes active under the key that the repository gave it.
    pub fn create_alarm(&mut self, descriptor: AlarmDescriptor) -> (r: Result<AlarmData, VoltaTestError>)
        ensures
            final(self).same_coding(*old(self)),
            match old(self).kind_of(descriptor@) {
                Err(e0) => {
                    &&& r matches Err(e) && e@ == e0
                    &&& final(self)@ == old(self)@
                    &&& final(self).stored() == old(self).stored()
                    &&& final(self).creation_requests() == old(self).creation_requests()
                },
                Ok(kind) => final(self).creation_requests() == old(self).creation_requests().push(descriptor@) && match r {
                    Ok(d) => {
                        &&& d.value()@ == descriptor@
                        &&& !old(self).stored().contains_key(d.key())
                        &&& final(self).stored() == old(self).stored().insert(d.key(), descriptor@)
                        &&& final(self)@ == old(self)@.push(
                            ActiveAlarmView { id: d.key(), description: descriptor@.description, kind },
                        )
                    },
                    Err(_) => final(self)@ == old(self)@ && final(self).stored() == old(self).stored(),
                },
            },
    {
        let kind = match AlarmKind::from_descriptor(&descriptor, &self.codec) {
            Ok(k) => k,
            Err(e) => return Err(e),
        };
        let description = descriptor.description.clone();
        let alarm_data = match self.store_new(descriptor) {
            Ok(d) => d,
            Err(e) => return Err(e),
        };
        let ghost kind_view = kind@;
        self.active.push(ActiveAlarm { id: alarm_data.get_key(), description, kind });
        proof {
            assert(self@ =~= old(self)@.push(
                ActiveAlarmView { id: alarm_data.key(), description: descriptor@.description, kind: kind_view },
            ));
        }
        Ok(alarm_data)
    }

    /// The stored alarm with the given key, as the repository reads it.
    pub fn read_alarm(&self, id: String) -> (r: Result<Option<AlarmData>, VoltaTestError>)
        ensures
            r matches Ok(Some(d)) ==> d.key() == id@ && self.stored().contains_key(id@) && self.stored()[id@] == d.value()@,
            r matches Ok(None) ==> !self.stored().contains_key(id@),
    {
        self.repo.read(id)
    }

    /// Replace the description of an alarm: the new description must decode; it is stored
    /// in the repository, and the first active alarm with that key takes the new
    /// description and kind.
    #[verifier::spinoff_prover]
    pub fn update_alarm(&mut self, id: String, descriptor: AlarmDescriptor) -> (r: Result<(), VoltaTestError>)
        ensures
            final(self).same_coding(*old(self)),
            r is Err ==> final(self)@ == old(self)@ && final(self).stored() == old(self).stored(),
            old(self).kind_of(descriptor@) matches Err(e0) ==> (r matches Err(e) && e@ == e0),
            r is Ok ==> final(self).stored() == replaced(old(self).stored(), id@, descriptor@),
            r is Ok && (forall|j: int| 0 <= j < old(self)@.len() ==> #[trigger] old(self)@[j].id != id@)
                ==> final(self)@ == old(self)@,
            forall|k: int| r is Ok && #[trigger] is_first_with_id(old(self)@, id@, k) ==> (old(self).kind_of(descriptor@) matches Ok(kind)
                && final(self)@ == old(self)@.update(
                    k,
                    ActiveAlarmView { id: id@, description: descriptor@.description, kind },
                )),
    {
        let kind = match AlarmKind::from_descriptor(&descriptor, &self.codec) {
            Ok(k) => k,
            Err(e) => return Err(e),
        };
        let description = descriptor.description.clone();
        match self.repo.update(id.clone(), descriptor) {
            Ok(()) => {},
            Err(e) => return Err(e),
        }
        let n = self.active.len();
        let mut i: usize = 0;
        while i < n
            invariant
                n == self.active.len(),
                self.active@ == old(self).active@,
                self.codec == old(self).codec,
                self.stored() == replaced(old(self).stored(), id@, descriptor@),
                description@ == descriptor@.description,
                kind_id_of(kind@) == descriptor@.kind_id,
                old(self).kind_of(descriptor@) == Ok::<AlarmKindView, VoltaTestErrorView>(kind@),
                i <= n,
                forall|j: int| 0 <= j < i ==> #[trigger] self.active@[j]@.id != id@,
            decreases n - i,
        {
            if self.active[i].id == id {
                let ghost kind_view = kind@;
                let ghost id_view = id@;
                let updated = ActiveAlarm { id, description, kind };
                assert(updated@ == ActiveAlarmView { id: id_view, description: descriptor@.description, kind: kind_view });
                self.active.set(i, updated);
                proof {
                    assert(old(self)@[i as int] == old(self).active@[i as int]@);
                    assert forall|j: int| 0 <= j < n implies #[trigger] self@[j] == old(self)@.update(
                        i as int,
                        ActiveAlarmView { id: id@, description: descriptor@.description, kind: kind_view },
                    )[j] by {
                        assert(self@[j] == self.active@[j]@);
                        assert(old(self)@[j] == old(self).active@[j]@);
                    }
                    assert forall|k: int| #[trigger] is_first_with_id(old(self)@, id@, k) implies k == i by {
                        if k < i {
                            assert(old(self)@[k] == old(self).active@[k]@);
                        } else if k > i {
                            assert(old(self)@[i as int] == old(self).active@[i as int]@);
                        }
                    }
                    assert(self@ =~= old(self)@.update(
                        i as int,
                        ActiveAlarmView { id: id@, description: descriptor@.description, kind: kind_view },
                    ));
                }
                return Ok(());
            }
            i += 1;
        }
        proof {
            assert forall|k: int| !#[trigger] is_first_with_id(old(self)@, id@, k) by {
                if 0 <= k < n {
                    assert(old(self)@[k] == old(self).active@[k]@);
                }
            }
            assert forall|j: int| 0 <= j < old(self)@.len() implies #[trigger] old(self)@[j].id != id@ by {
                assert(old(self)@[j] == old(self).active@[j]@);
            }
        }
        Ok(())
    }

    /// Remove an alarm: it is deleted from the repository, and every active alarm with that
    /// key is dropped.
    pub fn delete_alarm(&mut self, id: String) -> (r: Result<(), VoltaTestError>)
        ensures
            final(self).same_coding(*old(self)),
            r is Ok ==> final(self)@ == without_id(old(self)@, id@),
            r is Ok ==> final(self).stored() == old(self).stored().remove(id@),
            r is Err ==> final(self).stored() == old(self).stored(),
            r is Err ==> final(self)@ == old(self)@,
    {
        match self.repo.delete(id.clone()) {
            Ok(()) => {},
            Err(e) => return Err(e),
        }
        let ghost all = self@;
        let mut rest: Vec<ActiveAlarm> = Vec::new();
        std::mem::swap(&mut rest, &mut self.active);
        let mut kept: Vec<ActiveAlarm> = Vec::new();
        while rest.len() > 0
            invariant
                kept@.map_values(|a: ActiveAlarm| a@) + without_id(rest@.map_values(|a: ActiveAlarm| a@), id@)
                    == without_id(all, id@),
            decreases rest.len(),
        {
            let ghost rest_before = rest@.map_values(|a: ActiveAlarm| a@);
            let ghost kept_before = kept@.map_values(|a: ActiveAlarm| a@);
            let alarm = rest.remove(0);
            proof {
                assert(rest@.map_values(|a: ActiveAlarm| a@) =~= rest_before.drop_first());
                assert(rest_before[0] == alarm@);
            }
            if !(alarm.id == id) {
                kept.push(alarm);
                proof {
                    assert(kept@.map_values(|a: ActiveAlarm| a@) =~= kept_before.push(rest_before[0]));
                    assert(kept_before.push(rest_before[0]) + without_id(rest_before.drop_first(), id@)
                        =~= kept_before + (seq![rest_before[0]] + without_id(rest_before.drop_first(), id@)));
                }
            }
        }
        proof {
            assert(rest@.map_values(|a: ActiveAlarm| a@) =~= Seq::<ActiveAlarmView>::empty());
            assert(kept@.map_values(|a: ActiveAlarm| a@) + Seq::<ActiveAlarmView>::empty()
                =~= kept@.map_values(|a: ActiveAlarm| a@));
        }
        self.active = kept;
        Ok(())
    }

    /// The page of stored alarms that follows the one with key `previous_id`, as the
    /// repository lists it.
    pub fn list_alarms(&self, previous_id: Option<String>) -> (r: Result<Vec<AlarmData>, VoltaTestError>)
        ensures
            r matches Ok(page) ==> entries(page@) == self.listing(opt_text(previous_id))
                && page_of(self.stored(), entries(page@)),
    {
        self.repo.list(previous_id)
    }
}

/// The active alarms after a successful evaluation of each of the received data in turn.
pub open spec fn evaluate_all(active: Seq<ActiveAlarmView>, raws: Seq<RawDataView>) -> Seq<ActiveAlarmView>
    decreases raws.len(),
{
    if raws.len() == 0 {
        active
    } else {
        evaluate_all(active.map_values(|a: ActiveAlarmView| step_active(a, raws[0])), raws.drop_first())
    }
}

/// Evaluations treat each active alarm on its own: after any number of them, an alarm keeps
/// its place, id and description, and its state is that of its kind run alone on the same
/// data.
pub proof fn lemma_evaluations_run_each_alarm_alone(active: Seq<ActiveAlarmView>, raws: Seq<RawDataView>, j: int)
    requires
        0 <= j < active.len(),
    ensures
        evaluate_all(active, raws).len() == active.len(),
        evaluate_all(active, raws)[j] == (ActiveAlarmView {
            id: active[j].id,
            description: active[j].description,
            kind: kind_run(active[j].kind, raws).0,
        }),
    decreases raws.len(),
{
    if raws.len() > 0 {
        let next = active.map_values(|a: ActiveAlarmView| step_active(a, raws[0]));
        lemma_evaluations_run_each_alarm_alone(next, raws.drop_first(), j);
    }
}

/// The number of the evaluations, of each of the received data in turn, in which the alarm
/// at position `j` fires.
pub open spec fn firings(active: Seq<ActiveAlarmView>, raws: Seq<RawDataView>, j: int) -> nat
    decreases raws.len(),
{
    if raws.len() == 0 {
        0
    } else {
        let next = active.map_values(|a: ActiveAlarmView| step_active(a, raws[0]));
        firings(next, raws.drop_first(), j) + if kind_step(active[j].kind, raws[0]).1.0 { 1nat } else { 0nat }
    }
}

/// Across successive evaluations an alarm fires as often as its kind, run alone on the same
/// data, fires.
pub proof fn lemma_firings_are_those_of_the_kind(active: Seq<ActiveAlarmView>, raws: Seq<RawDataView>, j: int)
    requires
        0 <= j < active.len(),
    ensures
        firings(active, raws, j) == kind_run(active[j].kind, raws).1,
    decreases raws.len(),
{
    if raws.len() > 0 {
        let next = active.map_values(|a: ActiveAlarmView| step_active(a, raws[0]));
        assert(next[j] == step_active(active[j], raws[0]));
        lemma_firings_are_those_of_the_kind(next, raws.drop_first(), j);
    }
}

/// An alarm clock among the active alarms fires in at most one of any number of
/// evaluations.
pub proof fn lemma_clock_fires_in_at_most_one_evaluation(active: Seq<ActiveAlarmView>, raws: Seq<RawDataView>, j: int)
    requires
        0 <= j < active.len(),
        active[j].kind is AlarmClock,
    ensures
        firings(active, raws, j) <= 1,
{
    lemma_firings_are_those_of_the_kind(active, raws, j);
    if let AlarmKindView::AlarmClock(c) = active[j].kind {
        lemma_alarm_clock_fires_at_most_once(c, raws);
    }
}

/// An alarm that always fires fires in every evaluation.
pub proof fn lemma_always_fires_in_every_evaluation(active: Seq<ActiveAlarmView>, raws: Seq<RawDataView>, j: int)
    requires
        0 <= j < active.len(),
        active[j].kind == AlarmKindView::Always,
    ensures
        firings(active, raws, j) == raws.len(),
{
    lemma_firings_are_those_of_the_kind(active, raws, j);
    lemma_always_fires_on_every_data(raws);
}

/// The alarms that an evaluation reports are exactly those that fire, in order, each in
/// its new state.
pub proof fn lemma_fired_alarms_are_those_that_fire(active: Seq<ActiveAlarmView>, raw: RawDataView)
    ensures
        fired_alarms(active, raw) == active.filter(|a: ActiveAlarmView| kind_step(a.kind, raw).1.0).map_values(
            |a: ActiveAlarmView| step_active(a, raw),
        ),
    decreases active.len(),
{
    reveal_with_fuel(Seq::filter, 1);
    let pred = |a: ActiveAlarmView| kind_step(a.kind, raw).1.0;
    let f = |a: ActiveAlarmView| step_active(a, raw);
    if active.len() > 0 {
        lemma_fired_alarms_are_those_that_fire(active.drop_last(), raw);
        let sub = active.drop_last().filter(pred);
        if pred(active.last()) {
            assert(sub.push(active.last()).map_values(f) =~= sub.map_values(f).push(f(active.last())));
        }
    } else {
        assert(active.filter(pred).map_values(f) =~= Seq::<ActiveAlarmView>::empty());
    }
}

/// Whether evaluation `i`, of each of the received data in turn, reports the alarm at
/// position `j`: the alarms that an evaluation reports are those that fire on its data
/// (`lemma_fired_alarms_are_those_that_fire`), in the state the evaluations before left
/// them.
pub open spec fn fires_in_evaluation(active: Seq<ActiveAlarmView>, raws: Seq<RawDataView>, j: int, i: int) -> bool {
    kind_step(evaluate_all(active, raws.take(i))[j].kind, raws[i]).1.0
}

/// An alarm that always fires is reported by every evaluation.
pub proof fn lemma_always_reported_by_every_evaluation(active: Seq<ActiveAlarmView>, raws: Seq<RawDataView>, j: int)
    requires
        0 <= j < active.len(),
        active[j].kind == AlarmKindView::Always,
    ensures
        forall|i: int| 0 <= i < raws.len() ==> #[trigger] fires_in_evaluation(active, raws, j, i),
{
    assert forall|i: int| 0 <= i < raws.len() implies #[trigger] fires_in_evaluation(active, raws, j, i) by {
        lemma_evaluations_run_each_alarm_alone(active, raws.take(i), j);
        lemma_always_fires_on_every_data(raws.take(i));
    }
}

/// An alarm clock among the active alarms is reported by at most one of any number of
/// evaluations: after the one that reports it, none does.
pub proof fn lemma_clock_reported_by_at_most_one_evaluation(active: Seq<ActiveAlarmView>, raws: Seq<RawDataView>, j: int)
    requires
        0 <= j < active.len(),
        active[j].kind is AlarmClock,
    ensures
        forall|i1: int, i2: int|
            0 <= i1 < i2 < raws.len() && #[trigger] fires_in_evaluation(active, raws, j, i1)
                ==> !#[trigger] fires_in_evaluation(active, raws, j, i2),
{
    let k = active[j].kind;
    assert forall|i1: int, i2: int|
        0 <= i1 < i2 < raws.len() && #[trigger] fires_in_evaluation(active, raws, j, i1)
            implies !#[trigger] fires_in_evaluation(active, raws, j, i2) by {
        lemma_evaluations_run_each_alarm_alone(active, raws.take(i1), j);
        lemma_evaluations_run_each_alarm_alone(active, raws.take(i2), j);
        lemma_clock_run_stays_clock(k, raws.take(i1));
        lemma_kind_run_extends(k, raws.take(i1), raws[i1]);
        assert(raws.take(i1).push(raws[i1]) =~= raws.take(i1 + 1));
        lemma_passed_clock_run_stays(k, raws, i1 + 1, i2);
    }
}

/// A clock run on any data is still a clock.
proof fn lemma_clock_run_stays_clock(k: AlarmKindView, raws: Seq<RawDataView>)
    requires
        k is AlarmClock,
    ensures
        kind_run(k, raws).0 is AlarmClock,
    decreases raws.len(),
{
    if raws.len() > 0 {
        lemma_clock_run_stays_clock(kind_step(k, raws[0]).0, raws.drop_first());
    }
}

/// Once a clock run over the first `a` data has fired, the run over the first `b` data,
/// for any later `b`, is that same fired clock.
proof fn lemma_passed_clock_run_stays(k: AlarmKindView, raws: Seq<RawDataView>, a: int, b: int)
    requires
        0 <= a <= b <= raws.len(),
        kind_run(k, raws.take(a)).0 matches AlarmKindView::AlarmClock(c) && c.passed,
    ensures
        kind_run(k, raws.take(b)).0 == kind_run(k, raws.take(a)).0,
    decreases b - a,
{
    if a < b {
        lemma_passed_clock_run_stays(k, raws, a, b - 1);
        lemma_kind_run_extends(k, raws.take(b - 1), raws[b - 1]);
        assert(raws.take(b - 1).push(raws[b - 1]) =~= raws.take(b));
    }
}

/// What a manager makes of a description whatever its codec: an unknown kind identifier
/// gives the error that names it, `"always"` gives an alarm that always fires, and a kind
/// it makes carries the description's kind identifier; an alarm that always fires is
/// stored as JSON `null`.
pub proof fn lemma_kind_of_by_kind_id(m: AlarmManager, d: AlarmDescriptorView)
    ensures
        !known_kind_id(d.kind_id) ==> m.kind_of(d) == Err::<AlarmKindView, VoltaTestErrorView>(
            VoltaTestErrorView::AlertingError("unknown alarm kind: "@ + d.kind_id),
        ),
        d.kind_id == "always"@ ==> m.kind_of(d) == Ok::<AlarmKindView, VoltaTestErrorView>(AlarmKindView::Always),
        m.kind_of(d) matches Ok(k) ==> kind_id_of(k) == d.kind_id,
        m.configs_of(AlarmKindView::Always) == Ok::<Seq<u8>, VoltaTestErrorView>(null_bytes()),
{
    reveal_strlit("alarm-clock");
    reveal_strlit("pattern");
    reveal_strlit("always");
    assert("pattern"@.len() == 7);
    assert("always"@.len() == 6);
    assert("alarm-clock"@.len() == 11);
}

/// With a codec that decodes what it encodes, what a manager writes back for an alarm
/// (`stored_view`) reads back as the alarm's current kind: a clock that fired is loaded
/// again as fired.
pub proof fn lemma_written_back_alarm_reads_back(m: AlarmManager, a: ActiveAlarmView)
    requires
        m.decodes_what_it_encodes(),
        m.configs_of(a.kind) is Ok,
    ensures
        m.kind_of(stored_view(a, m.configs_of(a.kind))) == Ok::<AlarmKindView, VoltaTestErrorView>(a.kind),
{
    lemma_stored_kind_reads_back(&m.codec, a.description, a.kind);
    assert(stored_view(a, m.configs_of(a.kind)) == stored_descriptor(&m.codec, a.description, a.kind));
}

/// Whether `v` is what the alarm at position `i` writes back under `key` on the received
/// data: the alarm has that key and asks for a write-back, and `v` carries the alarm's own
/// description and the identifier of its new kind.
pub open spec fn written_by(before: Seq<ActiveAlarmView>, raw: RawDataView, i: int, key: Seq<char>, v: AlarmDescriptorView) -> bool {
    &&& 0 <= i < before.len()
    &&& before[i].id == key
    &&& kind_step(before[i].kind, raw).1.1
    &&& v.description == before[i].description
    &&& v.kind_id == kind_id_of(kind_step(before[i].kind, raw).0)
}

/// The write-backs of an evaluation keep the store's keys, and leave under each key either
/// what was stored there or what an alarm with that key wrote back: its own description
/// and the identifier of its new kind. They never add a key, and never store a
/// description that is not the alarm's.
pub proof fn lemma_written_back_keeps_descriptions(
    m: AlarmManager,
    store: Map<Seq<char>, AlarmDescriptorView>,
    before: Seq<ActiveAlarmView>,
    raw: RawDataView,
)
    ensures
        forall|key: Seq<char>| #[trigger] m.written_back(store, before, raw).contains_key(key) == store.contains_key(key),
        forall|key: Seq<char>| #[trigger] store.contains_key(key) ==> {
            ||| m.written_back(store, before, raw)[key] == store[key]
            ||| exists|i: int| #[trigger] written_by(before, raw, i, key, m.written_back(store, before, raw)[key])
        },
    decreases before.len(),
{
    if before.len() > 0 {
        let rest = before.drop_last();
        let s = m.written_back(store, rest, raw);
        lemma_written_back_keeps_descriptions(m, store, rest, raw);
        let last = before.len() - 1;
        let a = step_active(before.last(), raw);
        let w = m.written_back(store, before, raw);
        assert forall|key: Seq<char>| #[trigger] store.contains_key(key) implies {
            ||| w[key] == store[key]
            ||| exists|i: int| #[trigger] written_by(before, raw, i, key, w[key])
        } by {
            if kind_step(before.last().kind, raw).1.1 && key == a.id {
                assert(written_by(before, raw, last, key, w[key]));
            } else {
                assert(w[key] == s[key]);
                if s[key] != store[key] {
                    let i = choose|i: int| #[trigger] written_by(rest, raw, i, key, s[key]);
                    assert(rest[i] == before[i]);
                    assert(written_by(before, raw, i, key, w[key]));
                }
            }
        }
    }
}

/// No alarm with the removed id remains, and every other alarm does, in the same order.
pub proof fn lemma_without_id(active: Seq<ActiveAlarmView>, id: Seq<char>)
    ensures
        forall|i: int| 0 <= i < without_id(active, id).len() ==> #[trigger] without_id(active, id)[i].id != id,
        without_id(active, id) == active.filter(|a: ActiveAlarmView| a.id != id),
    decreases active.len(),
{
    reveal_with_fuel(Seq::filter, 1);
    if active.len() > 0 {
        let rest = active.drop_first();
        lemma_without_id(rest, id);
        let pred = |a: ActiveAlarmView| a.id != id;
        assert(active =~= seq![active[0]] + rest);
        Seq::filter_distributes_over_add(seq![active[0]], rest, pred);
        assert(seq![active[0]].filter(pred) =~= if pred(active[0]) { seq![active[0]] } else { Seq::empty() }) by {
            reveal_with_fuel(Seq::filter, 2);
            assert(seq![active[0]].drop_last() =~= Seq::<ActiveAlarmView>::empty());
        }
        if active[0].id != id {
            assert forall|i: int| 0 <= i < without_id(active, id).len() implies #[trigger] without_id(active, id)[i].id != id by {
                if i > 0 {
                    assert(without_id(active, id)[i] == without_id(rest, id)[i - 1]);
                }
            }
        }
    }
}

/// Deleting the alarm that was just created, by its key, undoes the creation.
pub proof fn lemma_delete_undoes_create(active: Seq<ActiveAlarmView>, created: ActiveAlarmView)
    ensures
        without_id(active.push(created), created.id) == without_id(active, created.id),
    decreases active.len(),
{
    if active.len() == 0 {
        assert(active.push(created)[0] == created);
        assert(active.push(created).drop_first() =~= Seq::<ActiveAlarmView>::empty());
        assert(without_id(Seq::<ActiveAlarmView>::empty(), created.id) =~= Seq::<ActiveAlarmView>::empty());
    } else {
        assert(active.push(created)[0] == active[0]);
        assert(active.push(created).drop_first() =~= active.drop_first().push(created));
        lemma_delete_undoes_create(active.drop_first(), created);
    }
}

} // verus!
