use vstd::prelude::*;

use crate::alarm::{AlarmTrigger, AlarmTriggerResult};
use crate::types::RawData;

verus! {

/// Trigger based on comparison
/// this logic can be extended to other operators (lt, gt, contains, between)
#[derive(Debug)]
pub enum Operator {
    /// data == x
    Eq(Vec<u8>),
    /// data != x
    Neq(Vec<u8>),
}

pub enum OperatorView {
    Eq(Seq<u8>),
    Neq(Seq<u8>),
}

impl View for Operator {
    type V = OperatorView;

    open spec fn view(&self) -> OperatorView {
        match self {
            Operator::Eq(v) => OperatorView::Eq(v@),
            Operator::Neq(v) => OperatorView::Neq(v@),
        }
    }
}

/// Whether two byte sequences are the same: the same length and the same byte at each
/// position.
pub open spec fn same_sequence(a: Seq<u8>, b: Seq<u8>) -> bool {
    a.len() == b.len() && forall|i: int| 0 <= i < a.len() ==> #[trigger] a[i] == b[i]
}

/// Whether the data satisfies the comparison.
pub open spec fn operator_holds(op: OperatorView, data: Seq<u8>) -> bool {
    match op {
        OperatorView::Eq(v) => data == v,
        OperatorView::Neq(v) => data != v,
    }
}

fn same_bytes(a: &[u8], b: &[u8]) -> (r: bool)
    ensures
        r == (a@ == b@),
{
    if a.len() != b.len() {
        return false;
    }
    let mut i: usize = 0;
    while i < a.len()
        invariant
            a.len() == b.len(),
            i <= a.len(),
            forall|j: int| 0 <= j < i ==> a@[j] == b@[j],
        decreases a.len() - i,
    {
        if a[i] != b[i] {
            return false;
        }
        i += 1;
    }
    assert(a@ =~= b@);
    true
}

/// Operator validation
impl Operator {
    pub fn is_valid(&self, data: &[u8]) -> (b: bool)
        ensures
            b == operator_holds(self@, data@),
            self@ matches OperatorView::Eq(v) ==> (b <==> same_sequence(data@, v)),
            self@ matches OperatorView::Neq(v) ==> (b <==> !same_sequence(data@, v)),
    {
        proof {
            match self@ {
                OperatorView::Eq(v) => lemma_operator_compares_whole_data(v, data@),
                OperatorView::Neq(v) => lemma_operator_compares_whole_data(v, data@),
            }
        }
        match self {
            Operator::Eq(v) => same_bytes(data, v.as_slice()),
            Operator::Neq(v) => !same_bytes(data, v.as_slice()),
        }
    }
}

impl Clone for Operator {
    fn clone(&self) -> (o: Self)
        ensures
            o@ == self@,
    {
        match self {
            Operator::Eq(v) => {
                let c = v.clone();
                assert(c@ =~= v@);
                Operator::Eq(c)
            },
            Operator::Neq(v) => {
                let c = v.clone();
                assert(c@ =~= v@);
                Operator::Neq(c)
            },
        }
    }
}

/// Pattern data structure
#[derive(Debug)]
pub struct AlarmPatternData {
    pub operator: Operator,
}

impl View for AlarmPatternData {
    type V = OperatorView;

    open spec fn view(&self) -> OperatorView {
        self.operator@
    }
}

impl AlarmPatternData {
    pub fn new(operator: Operator) -> (p: Self)
        ensures
            p@ == operator@,
    {
        Self { operator }
    }
}

impl Clone for AlarmPatternData {
    fn clone(&self) -> (p: Self)
        ensures
            p@ == self@,
    {
        AlarmPatternData { operator: self.operator.clone() }
    }
}

impl AlarmTrigger for AlarmPatternData {
    /// Fires exactly when the data satisfies the comparison; the pattern keeps no state.
    fn on_data(&mut self, raw: RawData) -> (r: AlarmTriggerResult)
        ensures
            final(self)@ == old(self)@,
            r@ == (operator_holds(old(self)@, raw@.data), false),
    {
        let triggered = self.operator.is_valid(raw.get_ref_data().as_slice());
        (triggered, false).into()
    }
}

/// For the same bytes, `Eq` and `Neq` decide opposite ways on every data: exactly one of
/// them holds.
pub proof fn lemma_eq_neq_complementary(v: Seq<u8>, data: Seq<u8>)
    ensures
        operator_holds(OperatorView::Eq(v), data) != operator_holds(OperatorView::Neq(v), data),
{
}

/// A comparison looks at the whole data: `Eq(v)` holds exactly on data of the length of
/// `v` with the bytes of `v` at every position, and `Neq(v)` exactly on all other data (a
/// longer data that merely ends or starts with `v` satisfies `Neq(v)`, not `Eq(v)`).
pub proof fn lemma_operator_compares_whole_data(v: Seq<u8>, data: Seq<u8>)
    ensures
        operator_holds(OperatorView::Eq(v), data) <==> same_sequence(data, v),
        operator_holds(OperatorView::Neq(v), data) <==> !same_sequence(data, v),
        data.len() != v.len() ==> !operator_holds(OperatorView::Eq(v), data) && operator_holds(OperatorView::Neq(v), data),
{
    if same_sequence(data, v) {
        assert(data =~= v);
    }
}

} // verus!
