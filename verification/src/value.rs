//! The schema-free representation of decoded XML content: a [`Value`] is
//! empty, scalar text, an ordered name-keyed multi-map, or a list of
//! repeated values.  A [`ValueMap`] preserves first-seen key order and
//! merges repeated keys into a list, so a key maps to nothing, a single
//! value, or a non-empty list of values in document order.

use vstd::prelude::*;

use crate::qname::{QName, QnModel};

verus! {

broadcast use vstd::seq_lib::group_seq_properties, vstd::std_specs::vec::group_vec_axioms;

/// Mathematical model of a [`Value`].
#[verifier::ext_equal]
pub enum ValModel {
    Empty,
    Text(Seq<u8>),
    Children(Seq<(QnModel, ValModel)>),
    List(Seq<ValModel>),
}

/// Generic structural representation of one parsed XML element's content.
#[derive(Debug, PartialEq)]
pub enum Value {
    /// Element present, no content.
    Empty,
    /// Scalar character content, as UTF-8 bytes.
    Text(Vec<u8>),
    /// Element with named child elements.
    Children(ValueMap),
    /// Repeated sibling elements collapsed into one logical multi-value;
    /// never empty.
    List(Vec<Value>),
}

/// Ordered multi-map from qualified names to values.
#[derive(Debug, PartialEq)]
pub struct ValueMap {
    pub entries: Vec<(QName, Value)>,
}

/// Model of a [`Value`].
pub open spec fn val_model(v: Value) -> ValModel
    decreases v,
{
    match v {
        Value::Empty => ValModel::Empty,
        Value::Text(t) => ValModel::Text(t@),
        Value::Children(m) => ValModel::Children(entries_model(m.entries@)),
        Value::List(l) => ValModel::List(list_model(l@)),
    }
}

/// Model of a sequence of map entries.
pub open spec fn entries_model(es: Seq<(QName, Value)>) -> Seq<(QnModel, ValModel)>
    decreases es,
{
    if es.len() == 0 {
        Seq::empty()
    } else {
        entries_model(es.drop_last()).push((es.last().0@, val_model(es.last().1)))
    }
}

/// Model of a sequence of values.
pub open spec fn list_model(l: Seq<Value>) -> Seq<ValModel>
    decreases l,
{
    if l.len() == 0 {
        Seq::empty()
    } else {
        list_model(l.drop_last()).push(val_model(l.last()))
    }
}

impl View for Value {
    type V = ValModel;

    open spec fn view(&self) -> ValModel {
        val_model(*self)
    }
}

impl View for ValueMap {
    type V = Seq<(QnModel, ValModel)>;

    open spec fn view(&self) -> Seq<(QnModel, ValModel)> {
        entries_model(self.entries@)
    }
}

pub proof fn lemma_entries_model(es: Seq<(QName, Value)>)
    ensures
        entries_model(es).len() == es.len(),
        forall|i: int|
            0 <= i < es.len() ==> entries_model(es)[i] == (es[i].0@, val_model(es[i].1)),
    decreases es,
{
    if es.len() > 0 {
        lemma_entries_model(es.drop_last());
    }
}

pub proof fn lemma_list_model(l: Seq<Value>)
    ensures
        list_model(l).len() == l.len(),
        forall|i: int| 0 <= i < l.len() ==> list_model(l)[i] == val_model(l[i]),
    decreases l,
{
    if l.len() > 0 {
        lemma_list_model(l.drop_last());
    }
}

/// First value bound to `q`, if any.
pub open spec fn sp_lookup(es: Seq<(QnModel, ValModel)>, q: QnModel) -> Option<ValModel>
    decreases es.len(),
{
    if es.len() == 0 {
        None
    } else if es[0].0 == q {
        Some(es[0].1)
    } else {
        sp_lookup(es.skip(1), q)
    }
}

/// Merging a repeated occurrence into the value already present: an
/// existing list grows at the end, anything else becomes a two-element
/// list in document order.
pub open spec fn sp_merge(old_v: ValModel, new_v: ValModel) -> ValModel {
    match old_v {
        ValModel::List(l) => ValModel::List(l.push(new_v)),
        _ => ValModel::List(seq![old_v, new_v]),
    }
}

/// Append-only insertion: a fresh key goes to the end, a repeated key
/// merges into the entry already present, keeping first-seen key order.
pub open spec fn sp_insert(es: Seq<(QnModel, ValModel)>, q: QnModel, v: ValModel) -> Seq<
    (QnModel, ValModel),
>
    decreases es.len(),
{
    if es.len() == 0 {
        seq![(q, v)]
    } else if es[0].0 == q {
        seq![(es[0].0, sp_merge(es[0].1, v))] + es.skip(1)
    } else {
        seq![es[0]] + sp_insert(es.skip(1), q, v)
    }
}

/// Well-formedness of a value: a list is never empty and never directly
/// holds another list, and map keys are distinct.
pub open spec fn wf_val(v: ValModel) -> bool
    decreases v,
{
    match v {
        ValModel::Empty => true,
        ValModel::Text(_) => true,
        ValModel::Children(es) => wf_entries(es),
        ValModel::List(l) => l.len() > 0 && wf_vlist(l),
    }
}

pub open spec fn wf_vlist(l: Seq<ValModel>) -> bool
    decreases l,
{
    if l.len() == 0 {
        true
    } else {
        wf_vlist(l.drop_last()) && wf_val(l.last()) && !(l.last() is List)
    }
}

pub open spec fn wf_entries(es: Seq<(QnModel, ValModel)>) -> bool
    decreases es,
{
    if es.len() == 0 {
        true
    } else {
        wf_entries(es.drop_last()) && wf_val(es.last().1) && sp_lookup(
            es.drop_last(),
            es.last().0,
        ) is None
    }
}

/// What a lookup yields after an insertion: the inserted key sees the
/// new value merged into whatever was there, every other key is
/// untouched.  So a key occurring once stays a single value and a
/// repeated key aggregates into a list in document order.
pub proof fn lemma_insert_lookup(
    es: Seq<(QnModel, ValModel)>,
    q: QnModel,
    v: ValModel,
    q2: QnModel,
)
    ensures
        sp_lookup(sp_insert(es, q, v), q2) == if q2 == q {
            Some(
                match sp_lookup(es, q) {
                    None => v,
                    Some(old_v) => sp_merge(old_v, v),
                },
            )
        } else {
            sp_lookup(es, q2)
        },
    decreases es.len(),
{
    if es.len() == 0 {
        assert(sp_insert(es, q, v)[0] == (q, v));
        assert(sp_insert(es, q, v).skip(1) =~= Seq::<(QnModel, ValModel)>::empty());
    } else if es[0].0 == q {
        let r = sp_insert(es, q, v);
        assert(r[0] == (es[0].0, sp_merge(es[0].1, v)));
        assert(r.skip(1) =~= es.skip(1));
    } else {
        lemma_insert_lookup(es.skip(1), q, v, q2);
        let r = sp_insert(es, q, v);
        assert(r[0] == es[0]);
        assert(r.skip(1) =~= sp_insert(es.skip(1), q, v));
    }
}

/// A lookup misses exactly when no entry carries the key.
pub proof fn lemma_lookup_none_iff(es: Seq<(QnModel, ValModel)>, q: QnModel)
    ensures
        sp_lookup(es, q) is None <==> forall|i: int| 0 <= i < es.len() ==> es[i].0 != q,
    decreases es.len(),
{
    if es.len() > 0 {
        lemma_lookup_none_iff(es.skip(1), q);
        assert(forall|i: int| 1 <= i < es.len() ==> es.skip(1)[i - 1] == es[i]);
        if es[0].0 != q && sp_lookup(es.skip(1), q) is None {
            assert forall|i: int| 0 <= i < es.len() implies es[i].0 != q by {
                if i >= 1 {
                    assert(es.skip(1)[i - 1] == es[i]);
                }
            }
        }
    }
}

proof fn lemma_wf_entries_parts(es: Seq<(QnModel, ValModel)>)
    requires
        wf_entries(es),
    ensures
        forall|i: int| 0 <= i < es.len() ==> wf_val(#[trigger] es[i].1),
        forall|i: int, j: int| 0 <= i < j < es.len() ==> es[i].0 != es[j].0,
    decreases es.len(),
{
    if es.len() > 0 {
        lemma_wf_entries_parts(es.drop_last());
        lemma_lookup_none_iff(es.drop_last(), es.last().0);
        assert(forall|i: int| 0 <= i < es.len() - 1 ==> es.drop_last()[i] == es[i]);
    }
}

/// Merging keeps values well-formed: a list stays a non-empty flat
/// list, anything else becomes a two-element flat list.
proof fn lemma_merge_wf(old_v: ValModel, new_v: ValModel)
    requires
        wf_val(old_v),
        wf_val(new_v),
        !(new_v is List),
    ensures
        wf_val(sp_merge(old_v, new_v)),
{
    if old_v is List {
        let l = old_v->List_0;
        assert(old_v == ValModel::List(l));
        assert(l.push(new_v).drop_last() =~= l);
        assert(l.push(new_v).last() == new_v);
        assert(wf_vlist(l.push(new_v)));
    } else {
        let two = seq![old_v, new_v];
        assert(sp_merge(old_v, new_v) == ValModel::List(two));
        assert(two.drop_last() =~= seq![old_v]);
        assert(seq![old_v].drop_last() =~= Seq::<ValModel>::empty());
        assert(wf_vlist(Seq::<ValModel>::empty()));
        assert(seq![old_v].last() == old_v);
        assert(wf_vlist(seq![old_v]));
        assert(two.last() == new_v);
        assert(wf_vlist(two));
    }
}

/// Append-only insertion of well-formed non-list values preserves the
/// map's well-formedness: keys stay distinct and every value stays
/// well-formed.
pub proof fn lemma_insert_preserves_wf(es: Seq<(QnModel, ValModel)>, q: QnModel, v: ValModel)
    requires
        wf_entries(es),
        wf_val(v),
        !(v is List),
    ensures
        wf_entries(sp_insert(es, q, v)),
    decreases es.len(),
{
    if es.len() == 0 {
        let r = sp_insert(es, q, v);
        assert(r.drop_last() =~= Seq::<(QnModel, ValModel)>::empty());
    } else {
        assert(wf_entries(es.drop_last()));
        if sp_lookup(es, q) is None {
            lemma_lookup_none_iff(es, q);
            lemma_insert_absent(es, q, v);
            assert(sp_insert(es, q, v).drop_last() =~= es);
        } else {
            lemma_wf_entries_parts(es);
            if es[0].0 == q {
                let r = sp_insert(es, q, v);
                assert(r =~= seq![(es[0].0, sp_merge(es[0].1, v))] + es.skip(1));
                lemma_merge_wf(es[0].1, v);
                assert(r =~= es.update(0, (q, sp_merge(es[0].1, v))));
                lemma_wf_entries_update(es, 0, sp_merge(es[0].1, v));
            } else {
                let i = lemma_lookup_witness(es, q);
                lemma_insert_found(es, q, v, i);
                lemma_merge_wf(es[i].1, v);
                lemma_wf_entries_update(es, i, sp_merge(es[i].1, v));
            }
        }
    }
}

/// The first index a successful lookup reads.
proof fn lemma_lookup_witness(es: Seq<(QnModel, ValModel)>, q: QnModel) -> (i: int)
    requires
        sp_lookup(es, q) is Some,
    ensures
        0 <= i < es.len(),
        es[i].0 == q,
        forall|j: int| 0 <= j < i ==> es[j].0 != q,
        sp_lookup(es, q) == Some(es[i].1),
    decreases es.len(),
{
    if es[0].0 == q {
        0
    } else {
        let k = lemma_lookup_witness(es.skip(1), q);
        assert(forall|j: int| 1 <= j < k + 1 ==> es[j] == es.skip(1)[j - 1]);
        k + 1
    }
}

/// Replacing one value with a well-formed one keeps the map
/// well-formed, the keys being unchanged.
proof fn lemma_wf_entries_update(es: Seq<(QnModel, ValModel)>, i: int, v: ValModel)
    requires
        wf_entries(es),
        0 <= i < es.len(),
        wf_val(v),
    ensures
        wf_entries(es.update(i, (es[i].0, v))),
    decreases es.len(),
{
    let r = es.update(i, (es[i].0, v));
    if i == es.len() - 1 {
        assert(r.drop_last() =~= es.drop_last());
        assert(r.last() == (es[i].0, v));
    } else {
        assert(r.drop_last() =~= es.drop_last().update(i, (es[i].0, v)));
        assert(es.drop_last()[i] == es[i]);
        lemma_wf_entries_update(es.drop_last(), i, v);
        assert(r.last() == es.last());
        lemma_lookup_none_iff(es.drop_last(), es.last().0);
        lemma_lookup_none_iff(r.drop_last(), r.last().0);
        assert(forall|j: int| 0 <= j < r.len() - 1 ==> r.drop_last()[j].0 == es.drop_last()[j].0);
    }
}

proof fn lemma_lookup_skip(es: Seq<(QnModel, ValModel)>, q: QnModel, i: int)
    requires
        0 <= i <= es.len(),
        forall|j: int| 0 <= j < i ==> es[j].0 != q,
    ensures
        sp_lookup(es, q) == sp_lookup(es.skip(i), q),
    decreases i,
{
    if i > 0 {
        lemma_lookup_skip(es.skip(1), q, i - 1);
        assert(es.skip(1).skip(i - 1) =~= es.skip(i));
    }
}

proof fn lemma_insert_found(es: Seq<(QnModel, ValModel)>, q: QnModel, v: ValModel, i: int)
    requires
        0 <= i < es.len(),
        es[i].0 == q,
        forall|j: int| 0 <= j < i ==> es[j].0 != q,
    ensures
        sp_insert(es, q, v) =~= es.update(i, (q, sp_merge(es[i].1, v))),
    decreases i,
{
    if i == 0 {
        assert(sp_insert(es, q, v) =~= es.update(0, (q, sp_merge(es[0].1, v))));
    } else {
        lemma_insert_found(es.skip(1), q, v, i - 1);
        assert(sp_insert(es, q, v) =~= es.update(i, (q, sp_merge(es[i].1, v))));
    }
}

pub proof fn lemma_insert_absent(es: Seq<(QnModel, ValModel)>, q: QnModel, v: ValModel)
    requires
        forall|j: int| 0 <= j < es.len() ==> es[j].0 != q,
    ensures
        sp_insert(es, q, v) =~= es.push((q, v)),
    decreases es.len(),
{
    if es.len() > 0 {
        lemma_insert_absent(es.skip(1), q, v);
        assert(sp_insert(es, q, v) =~= es.push((q, v)));
    }
}

/// Copy a byte vector.
pub fn copy_bytes(t: &Vec<u8>) -> (r: Vec<u8>)
    ensures
        r@ == t@,
{
    let mut r: Vec<u8> = Vec::new();
    let mut i: usize = 0;
    while i < t.len()
        invariant
            i <= t@.len(),
            r@ =~= t@.subrange(0, i as int),
        decreases t@.len() - i,
    {
        r.push(t[i]);
        i += 1;
    }
    assert(r@ =~= t@);
    r
}

impl Value {
    /// Structural copy.
    #[verifier::loop_isolation(false)]
    pub fn duplicate(&self) -> (r: Value)
        ensures
            r@ == self@,
        decreases *self,
    {
        match self {
            Value::Empty => Value::Empty,
            Value::Text(t) => Value::Text(copy_bytes(t)),
            Value::Children(m) => Value::Children(m.duplicate()),
            Value::List(l) => {
                let mut out: Vec<Value> = Vec::new();
                let mut i: usize = 0;
                proof {
                    lemma_list_model(l@);
                }
                while i < l.len()
                    invariant
                        i <= l@.len(),
                        list_model(out@).len() == i,
                        list_model(l@).len() == l@.len(),
                        forall|j: int| 0 <= j < i ==> list_model(out@)[j] == list_model(l@)[j],
                    decreases l@.len() - i,
                {
                    proof {
                        assert(*self == Value::List(*l));
                        assert(decreases_to!(*self => (*self)->List_0));
                        assert(decreases_to!(*l => l@[i as int]));
                        assert(decreases_to!(*self => l@[i as int]));
                    }
                    let e = l[i].duplicate();
                    let ghost prev = out@;
                    out.push(e);
                    i += 1;
                    proof {
                        lemma_list_model(out@);
                        lemma_list_model(prev);
                        lemma_list_model(l@);
                        assert(forall|j: int| 0 <= j < prev.len() ==> out@[j] == prev[j]);
                    }
                }
                proof {
                    lemma_list_model(out@);
                    lemma_list_model(l@);
                    assert(list_model(out@) =~= list_model(l@));
                }
                Value::List(out)
            },
        }
    }
}

impl ValueMap {
    /// The empty map.
    pub fn new() -> (r: ValueMap)
        ensures
            r@ == Seq::<(QnModel, ValModel)>::empty(),
    {
        let r = ValueMap { entries: Vec::new() };
        assert(r@ =~= Seq::<(QnModel, ValModel)>::empty());
        r
    }

    /// Structural copy.
    #[verifier::loop_isolation(false)]
    pub fn duplicate(&self) -> (r: ValueMap)
        ensures
            r@ == self@,
        decreases *self,
    {
        let mut out: Vec<(QName, Value)> = Vec::new();
        let mut i: usize = 0;
        proof {
            lemma_entries_model(self.entries@);
        }
        while i < self.entries.len()
            invariant
                i <= self.entries@.len(),
                entries_model(out@).len() == i,
                entries_model(self.entries@).len() == self.entries@.len(),
                forall|j: int|
                    0 <= j < i ==> entries_model(out@)[j] == entries_model(self.entries@)[j],
            decreases self.entries@.len() - i,
        {
            let e = &self.entries[i];
            let q = QName { ns: copy_bytes(&e.0.ns), local: copy_bytes(&e.0.local) };
            proof {
                assert(decreases_to!(*self => self.entries));
                assert(decreases_to!(self.entries => self.entries@[i as int]));
            }
            let v = e.1.duplicate();
            let ghost qm = q@;
            let ghost vm = val_model(v);
            let ghost prev = out@;
            out.push((q, v));
            i += 1;
            proof {
                lemma_entries_model(out@);
                lemma_entries_model(prev);
                lemma_entries_model(self.entries@);
                assert(qm == self.entries@[i - 1].0@);
                assert(vm == val_model(self.entries@[i - 1].1));
                assert(entries_model(out@)[i - 1] == (qm, vm));
                assert forall|j: int|
                    0 <= j < i implies entries_model(out@)[j] == entries_model(
                    self.entries@,
                )[j] by {
                    if j < i - 1 {
                        assert(out@[j] == prev[j]);
                        assert(entries_model(prev)[j] == (prev[j].0@, val_model(prev[j].1)));
                        assert(entries_model(out@)[j] == entries_model(prev)[j]);
                    }
                }
            }
        }
        proof {
            lemma_entries_model(out@);
            lemma_entries_model(self.entries@);
            assert(entries_model(out@) =~= entries_model(self.entries@));
        }
        ValueMap { entries: out }
    }

    /// First value bound to `q`, if any.
    pub fn get_value(&self, q: &QName) -> (r: Option<&Value>)
        ensures
            match r {
                Some(v) => sp_lookup(self@, q@) == Some(v@),
                None => sp_lookup(self@, q@) is None,
            },
    {
        proof {
            lemma_entries_model(self.entries@);
        }
        let mut i: usize = 0;
        while i < self.entries.len()
            invariant
                i <= self.entries@.len(),
                entries_model(self.entries@).len() == self.entries@.len(),
                forall|j: int|
                    0 <= j < i ==> entries_model(self.entries@)[j] == (
                    self.entries@[j].0@,
                    val_model(self.entries@[j].1),
                ),
                forall|j: int| 0 <= j < i ==> self.entries@[j].0@ != q@,
            decreases self.entries@.len() - i,
        {
            let e = &self.entries[i];
            if e.0.matches(q) {
                proof {
                    lemma_entries_model(self.entries@);
                    lemma_lookup_skip(self@, q@, i as int);
                    assert(self@.skip(i as int)[0] == (e.0@, val_model(e.1)));
                }
                return Some(&e.1);
            }
            proof {
                lemma_entries_model(self.entries@);
            }
            i += 1;
        }
        proof {
            lemma_entries_model(self.entries@);
            lemma_lookup_skip(self@, q@, self.entries@.len() as int);
            assert(self@.skip(self.entries@.len() as int) =~= Seq::<(QnModel, ValModel)>::empty());
        }
        None
    }

    /// Append-only insertion with merge-into-list on a repeated key.
    pub fn insert(&mut self, q: QName, v: Value)
        ensures
            final(self)@ == sp_insert(old(self)@, q@, val_model(v)),
    {
        proof {
            lemma_entries_model(self.entries@);
        }
        let ghost es0: Seq<(QName, Value)> = self.entries@;
        let mut i: usize = 0;
        let mut found = false;
        while i < self.entries.len() && !found
            invariant
                self.entries@ == es0,
                i <= es0.len(),
                entries_model(es0).len() == es0.len(),
                forall|j: int| 0 <= j < es0.len() ==> entries_model(es0)[j] == (
                    es0[j].0@,
                    val_model(es0[j].1),
                ),
                !found ==> forall|j: int| 0 <= j < i ==> es0[j].0@ != q@,
                found ==> i < es0.len() && es0[i as int].0@ == q@ && forall|j: int|
                    0 <= j < i ==> es0[j].0@ != q@,
            decreases es0.len() - i, (if found { 0int } else { 1int }),
        {
            let e = &self.entries[i];
            if e.0.matches(&q) {
                found = true;
            } else {
                i += 1;
            }
        }
        if found {
            let (k, old_v) = self.entries.remove(i);
            let merged = merge_value(old_v, v);
            self.entries.insert(i, (k, merged));
            proof {
                lemma_insert_found(entries_model(es0), q@, val_model(v), i as int);
                lemma_entries_model(self.entries@);
                assert(self.entries@ =~= es0.update(i as int, (k, merged)));
                assert(entries_model(self.entries@) =~= entries_model(es0).update(
                    i as int,
                    (q@, sp_merge(val_model(es0[i as int].1), val_model(v))),
                ));
            }
        } else {
            proof {
                lemma_insert_absent(entries_model(es0), q@, val_model(v));
            }
            self.entries.push((q, v));
            proof {
                lemma_entries_model(self.entries@);
                assert(self.entries@.drop_last() =~= es0);
                assert(entries_model(self.entries@) =~= entries_model(es0).push(
                    (q@, val_model(v)),
                ));
            }
        }
    }
}

/// Merge a repeated occurrence into the value already bound to a key.
fn merge_value(old_v: Value, new_v: Value) -> (r: Value)
    ensures
        val_model(r) == sp_merge(val_model(old_v), val_model(new_v)),
{
    match old_v {
        Value::List(mut l) => {
            proof {
                lemma_list_model(l@.push(new_v));
                lemma_list_model(l@);
                assert(list_model(l@.push(new_v)) =~= list_model(l@).push(val_model(new_v)));
            }
            l.push(new_v);
            Value::List(l)
        },
        other => {
            let mut l: Vec<Value> = Vec::new();
            let ghost om = val_model(other);
            l.push(other);
            l.push(new_v);
            proof {
                lemma_list_model(l@);
                assert(list_model(l@) =~= seq![om, val_model(new_v)]);
            }
            Value::List(l)
        },
    }
}

} // verus!
