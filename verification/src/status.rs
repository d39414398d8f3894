//! Printer status as Moonraker reports it: the followed objects and their
//! fields, merged from full or partial `status` blocks (a subscription
//! reply, then `notify_status_update` notifications). A field's value is
//! kept as its JSON text; reading numbers out of it is left to the caller.

use vstd::prelude::*;

use crate::text::{chars_of, eq_lit};

verus! {

/// An association list read as a map: of two pairs with the same key, the
/// later one wins.
pub open spec fn assoc<W>(s: Seq<(Seq<char>, W)>) -> Map<Seq<char>, W>
    decreases s.len(),
{
    if s.len() == 0 {
        Map::empty()
    } else {
        assoc(s.drop_last()).insert(s.last().0, s.last().1)
    }
}

/// `i` is the last position of key `k` in `s`.
pub open spec fn last_index<W>(s: Seq<(Seq<char>, W)>, k: Seq<char>, i: int) -> bool {
    &&& 0 <= i < s.len()
    &&& s[i].0 == k
    &&& forall|j: int| i < j < s.len() ==> (#[trigger] s[j]).0 != k
}

proof fn lemma_assoc_absent<W>(s: Seq<(Seq<char>, W)>, k: Seq<char>)
    requires
        forall|j: int| 0 <= j < s.len() ==> (#[trigger] s[j]).0 != k,
    ensures
        !assoc(s).dom().contains(k),
    decreases s.len(),
{
    if s.len() > 0 {
        let t = s.drop_last();
        assert forall|j: int| 0 <= j < t.len() implies (#[trigger] t[j]).0 != k by {
            assert(t[j] == s[j]);
        }
        lemma_assoc_absent(t, k);
    }
}

proof fn lemma_assoc_at<W>(s: Seq<(Seq<char>, W)>, k: Seq<char>, i: int)
    requires
        last_index(s, k, i),
    ensures
        assoc(s).dom().contains(k),
        assoc(s)[k] == s[i].1,
    decreases s.len(),
{
    if i < s.len() - 1 {
        let t = s.drop_last();
        assert forall|j: int| i < j < t.len() implies (#[trigger] t[j]).0 != k by {
            assert(t[j] == s[j]);
        }
        assert(s.last() == s[s.len() - 1]);
        lemma_assoc_at(t, k, i);
    }
}

proof fn lemma_assoc_update<W>(s: Seq<(Seq<char>, W)>, k: Seq<char>, i: int, w: W)
    requires
        last_index(s, k, i),
    ensures
        assoc(s.update(i, (k, w))) == assoc(s).insert(k, w),
    decreases s.len(),
{
    let t = s.update(i, (k, w));
    if i == s.len() - 1 {
        assert(t.drop_last() =~= s.drop_last());
        assert(assoc(t) =~= assoc(s).insert(k, w));
    } else {
        let d = s.drop_last();
        assert forall|j: int| i < j < d.len() implies (#[trigger] d[j]).0 != k by {
            assert(d[j] == s[j]);
        }
        assert(t.drop_last() =~= d.update(i, (k, w)));
        assert(s.last() == s[s.len() - 1]);
        lemma_assoc_update(d, k, i, w);
        assert(assoc(t) =~= assoc(s).insert(k, w));
    }
}

proof fn lemma_assoc_push<W>(s: Seq<(Seq<char>, W)>, k: Seq<char>, w: W)
    ensures
        assoc(s.push((k, w))) == assoc(s).insert(k, w),
{
    assert(s.push((k, w)).drop_last() =~= s);
}

/// Last position of key `k` among the pairs of `v`.
fn find_last<T>(v: &Vec<(String, T)>, k: &str) -> (r: Option<usize>)
    ensures
        match r {
            Some(i) => i < v@.len() && v@[i as int].0@ == k@ && forall|j: int|
                i < j < v@.len() ==> (#[trigger] v@[j]).0@ != k@,
            None => forall|j: int| 0 <= j < v@.len() ==> (#[trigger] v@[j]).0@ != k@,
        },
{
    let mut i: usize = v.len();
    while i > 0
        invariant
            i <= v@.len(),
            forall|j: int| i <= j < v@.len() ==> (#[trigger] v@[j]).0@ != k@,
        decreases i,
    {
        i = i - 1;
        if eq_lit(&chars_of(v[i].0.as_str()), k) {
            return Some(i);
        }
    }
    None
}

/// The value of one followed object in a `status` block: an object of
/// fields (each kept as the JSON text of its value), or any other JSON
/// value, kept as its text.
#[derive(Debug, Clone, PartialEq, Eq)]
pub enum ObjectValue {
    Fields(Vec<(String, String)>),
    Other(String),
}

/// Mathematical value of an [`ObjectValue`].
pub enum ObjectView {
    Fields(Map<Seq<char>, Seq<char>>),
    Other(Seq<char>),
}

/// Pairs of texts, viewed.
pub open spec fn pairs_view(v: Seq<(String, String)>) -> Seq<(Seq<char>, Seq<char>)> {
    Seq::new(v.len(), |i: int| (v[i].0@, v[i].1@))
}

impl ObjectValue {
    pub open spec fn view(&self) -> ObjectView {
        match self {
            ObjectValue::Fields(fs) => ObjectView::Fields(assoc(pairs_view(fs@))),
            ObjectValue::Other(t) => ObjectView::Other(t@),
        }
    }
}

/// Named object values, viewed.
pub open spec fn entries_view(v: Seq<(String, ObjectValue)>) -> Seq<(Seq<char>, ObjectView)> {
    Seq::new(v.len(), |i: int| (v[i].0@, v[i].1.view()))
}

/// Merges a patch value onto what an object held: fields onto fields, field
/// by field, the patch winning; any other combination takes the patch.
pub open spec fn merge_object(slot: Option<ObjectView>, patch: ObjectView) -> ObjectView {
    match patch {
        ObjectView::Fields(p) => match slot {
            Some(ObjectView::Fields(b)) => ObjectView::Fields(b.union_prefer_right(p)),
            _ => ObjectView::Fields(p),
        },
        ObjectView::Other(t) => ObjectView::Other(t),
    }
}

/// The objects after merging the entries of a `status` block, in order.
pub open spec fn apply_patch(
    acc: Map<Seq<char>, ObjectView>,
    patch: Seq<(Seq<char>, ObjectView)>,
) -> Map<Seq<char>, ObjectView>
    decreases patch.len(),
{
    if patch.len() == 0 {
        acc
    } else {
        let prev = apply_patch(acc, patch.drop_last());
        let name = patch.last().0;
        let slot = if prev.dom().contains(name) {
            Some(prev[name])
        } else {
            None
        };
        prev.insert(name, merge_object(slot, patch.last().1))
    }
}

/// The JSON text of field `field` of object `object`, if the object holds
/// fields and that one among them.
pub open spec fn spec_field(
    objects: Map<Seq<char>, ObjectView>,
    object: Seq<char>,
    field: Seq<char>,
) -> Option<Seq<char>> {
    if objects.dom().contains(object) {
        match objects[object] {
            ObjectView::Fields(m) => if m.dom().contains(field) {
                Some(m[field])
            } else {
                None
            },
            ObjectView::Other(_) => None,
        }
    } else {
        None
    }
}

/// Printer status merged from the `status` blocks received so far.
#[derive(Debug)]
pub struct StatusAccumulator {
    objects: Vec<(String, ObjectValue)>,
}

impl View for StatusAccumulator {
    type V = Map<Seq<char>, ObjectView>;

    closed spec fn view(&self) -> Map<Seq<char>, ObjectView> {
        assoc(entries_view(self.objects@))
    }
}

fn copy_pairs(v: &Vec<(String, String)>) -> (r: Vec<(String, String)>)
    ensures
        pairs_view(r@) == pairs_view(v@),
{
    let mut r: Vec<(String, String)> = Vec::new();
    let mut i: usize = 0;
    while i < v.len()
        invariant
            i <= v@.len(),
            r@.len() == i,
            forall|j: int| 0 <= j < i ==> (#[trigger] r@[j]).0@ == v@[j].0@ && r@[j].1@ == v@[j].1@,
        decreases v@.len() - i,
    {
        let k = v[i].0.clone();
        let x = v[i].1.clone();
        r.push((k, x));
        i = i + 1;
    }
    assert(pairs_view(r@) =~= pairs_view(v@));
    r
}

/// Merges patch fields onto `base`, field by field.
fn merge_fields(base: &mut Vec<(String, String)>, patch: &Vec<(String, String)>)
    ensures
        assoc(pairs_view(final(base)@)) == assoc(pairs_view(old(base)@)).union_prefer_right(
            assoc(pairs_view(patch@)),
        ),
{
    let ghost b0 = assoc(pairs_view(base@));
    let mut i: usize = 0;
    assert(assoc(pairs_view(patch@.take(0))) =~= Map::<Seq<char>, Seq<char>>::empty());
    assert(b0.union_prefer_right(Map::<Seq<char>, Seq<char>>::empty()) =~= b0);
    while i < patch.len()
        invariant
            i <= patch@.len(),
            assoc(pairs_view(base@)) == b0.union_prefer_right(
                assoc(pairs_view(patch@.take(i as int))),
            ),
        decreases patch@.len() - i,
    {
        let ghost before = assoc(pairs_view(base@));
        let k = patch[i].0.clone();
        let x = patch[i].1.clone();
        let ghost pv = pairs_view(patch@.take(i + 1));
        assert(pv.drop_last() =~= pairs_view(patch@.take(i as int)));
        assert(pv.last() == (k@, x@));
        match find_last(base, k.as_str()) {
            Some(j) => {
                let ghost bv = pairs_view(base@);
                assert(last_index(bv, k@, j as int));
                proof {
                    lemma_assoc_update(bv, k@, j as int, x@);
                }
                base.set(j, (k, x));
                assert(pairs_view(base@) =~= bv.update(j as int, (k@, x@)));
            },
            None => {
                let ghost bv = pairs_view(base@);
                proof {
                    lemma_assoc_push(bv, k@, x@);
                }
                base.push((k, x));
                assert(pairs_view(base@) =~= bv.push((k@, x@)));
            },
        }
        assert(assoc(pairs_view(base@)) =~= b0.union_prefer_right(assoc(pv)));
        i = i + 1;
    }
    assert(patch@.take(patch@.len() as int) =~= patch@);
}

/// Where the `status` block of a Moonraker message lies.
#[derive(Debug, Clone, Copy, PartialEq, Eq)]
pub enum StatusSource {
    /// `result.status` of a subscription or query reply.
    ResultStatus,
    /// First parameter of a `notify_status_update` notification.
    FirstParam,
}

/// Where to read a `status` block in a message: `result.status` when the
/// message has it, else the first parameter of a `notify_status_update`
/// notification; other messages carry none.
pub fn status_source(has_result_status: bool, method: Option<&str>) -> (r: Option<StatusSource>)
    ensures
        has_result_status ==> r == Some(StatusSource::ResultStatus),
        !has_result_status ==> r == (match method {
            Some(m) => if m@ == "notify_status_update"@ {
                Some(StatusSource::FirstParam)
            } else {
                None
            },
            None => None,
        }),
{
    if has_result_status {
        return Some(StatusSource::ResultStatus);
    }
    match method {
        Some(m) => if eq_lit(&chars_of(m), "notify_status_update") {
            Some(StatusSource::FirstParam)
        } else {
            None
        },
        None => None,
    }
}

impl StatusAccumulator {
    /// An accumulator that holds nothing yet.
    pub fn new() -> (r: Self)
        ensures
            r@ == Map::<Seq<char>, ObjectView>::empty(),
    {
        let r = StatusAccumulator { objects: Vec::new() };
        assert(entries_view(r.objects@) =~= Seq::<(Seq<char>, ObjectView)>::empty());
        r
    }

    /// Merges a `status` block, full or partial, onto the current state: for
    /// each object of the block, its fields overwrite those of the same name
    /// and leave the others; a value that is not an object replaces the
    /// object whole, and fields replace a value that was not.
    pub fn apply(&mut self, status: &Vec<(String, ObjectValue)>)
        ensures
            final(self)@ == apply_patch(old(self)@, entries_view(status@)),
    {
        let mut i: usize = 0;
        assert(entries_view(status@).take(0) =~= Seq::<(Seq<char>, ObjectView)>::empty());
        while i < status.len()
            invariant
                i <= status@.len(),
                self@ == apply_patch(old(self)@, entries_view(status@).take(i as int)),
            decreases status@.len() - i,
        {
            let ghost prev = self@;
            let ghost pv = entries_view(status@).take(i + 1);
            assert(pv.drop_last() =~= entries_view(status@).take(i as int));
            let name = status[i].0.clone();
            assert(pv.last() == (name@, status@[i as int].1.view()));
            let ghost ov = entries_view(self.objects@);
            let found = find_last(&self.objects, name.as_str());
            let ghost slot = if prev.dom().contains(name@) {
                Some(prev[name@])
            } else {
                None
            };
            let merged: ObjectValue = match &status[i].1 {
                ObjectValue::Other(t) => ObjectValue::Other(t.clone()),
                ObjectValue::Fields(p) => {
                    let mut base: Vec<(String, String)> = Vec::new();
                    if let Some(j) = found {
                        assert(last_index(ov, name@, j as int));
                        proof {
                            lemma_assoc_at(ov, name@, j as int);
                        }
                        if let ObjectValue::Fields(b) = &self.objects[j].1 {
                            base = copy_pairs(b);
                        }
                    } else {
                        proof {
                            lemma_assoc_absent(ov, name@);
                        }
                    }
                    let ghost b0 = base@;
                    merge_fields(&mut base, p);
                    proof {
                        match slot {
                            Some(ObjectView::Fields(_)) => {},
                            _ => {
                                assert(pairs_view(b0) =~= Seq::<(Seq<char>, Seq<char>)>::empty());
                                assert(Map::<Seq<char>, Seq<char>>::empty().union_prefer_right(
                                    assoc(pairs_view(p@)),
                                ) =~= assoc(pairs_view(p@)));
                            },
                        }
                    }
                    ObjectValue::Fields(base)
                },
            };
            assert(merged.view() == merge_object(slot, status@[i as int].1.view()));
            match found {
                Some(j) => {
                    assert(last_index(ov, name@, j as int));
                    proof {
                        lemma_assoc_update(ov, name@, j as int, merged.view());
                    }
                    self.objects.set(j, (name, merged));
                    assert(entries_view(self.objects@) =~= ov.update(
                        j as int,
                        (name@, merged.view()),
                    ));
                },
                None => {
                    proof {
                        lemma_assoc_push(ov, name@, merged.view());
                    }
                    self.objects.push((name, merged));
                    assert(entries_view(self.objects@) =~= ov.push((name@, merged.view())));
                },
            }
            i = i + 1;
        }
        assert(entries_view(status@).take(status@.len() as int) =~= entries_view(status@));
    }

    /// The JSON text of field `field` of object `object`, if the object holds
    /// fields and that one among them.
    pub fn field(&self, object: &str, field: &str) -> (r: Option<String>)
        ensures
            match spec_field(self@, object@, field@) {
                Some(t) => r is Some && r->0@ == t,
                None => r is None,
            },
    {
        let ghost ov = entries_view(self.objects@);
        match find_last(&self.objects, object) {
            Some(j) => {
                assert(last_index(ov, object@, j as int));
                proof {
                    lemma_assoc_at(ov, object@, j as int);
                }
                match &self.objects[j].1 {
                    ObjectValue::Fields(fs) => {
                        let ghost fv = pairs_view(fs@);
                        match find_last(fs, field) {
                            Some(k) => {
                                assert(last_index(fv, field@, k as int));
                                proof {
                                    lemma_assoc_at(fv, field@, k as int);
                                }
                                Some(fs[k].1.clone())
                            },
                            None => {
                                proof {
                                    lemma_assoc_absent(fv, field@);
                                }
                                None
                            },
                        }
                    },
                    ObjectValue::Other(_) => None,
                }
            },
            None => {
                proof {
                    lemma_assoc_absent(ov, object@);
                }
                None
            },
        }
    }
}

/// Merging a `status` block leaves every object that the block does not
/// name exactly as it was.
pub proof fn law_unnamed_objects_kept(
    acc: Map<Seq<char>, ObjectView>,
    patch: Seq<(Seq<char>, ObjectView)>,
    object: Seq<char>,
)
    requires
        forall|i: int| 0 <= i < patch.len() ==> (#[trigger] patch[i]).0 != object,
    ensures
        apply_patch(acc, patch).dom().contains(object) == acc.dom().contains(object),
        acc.dom().contains(object) ==> apply_patch(acc, patch)[object] == acc[object],
    decreases patch.len(),
{
    if patch.len() > 0 {
        let t = patch.drop_last();
        assert forall|i: int| 0 <= i < t.len() implies (#[trigger] t[i]).0 != object by {
            assert(t[i] == patch[i]);
        }
        assert(patch.last() == patch[patch.len() - 1]);
        law_unnamed_objects_kept(acc, t, object);
    }
}

/// A partial update of one object's fields changes only the fields it
/// carries: each of them reads as the update gives it, and every other
/// field of that object reads as before.
pub proof fn law_partial_update_keeps_other_fields(
    acc: Map<Seq<char>, ObjectView>,
    object: Seq<char>,
    fields: Map<Seq<char>, Seq<char>>,
    field: Seq<char>,
)
    requires
        acc.dom().contains(object) ==> acc[object] is Fields,
    ensures
        spec_field(apply_patch(acc, seq![(object, ObjectView::Fields(fields))]), object, field) == (
        if fields.dom().contains(field) {
            Some(fields[field])
        } else {
            spec_field(acc, object, field)
        }),
{
    let patch = seq![(object, ObjectView::Fields(fields))];
    assert(patch.drop_last() =~= Seq::<(Seq<char>, ObjectView)>::empty());
    assert(apply_patch(acc, patch.drop_last()) == acc);
}

} // verus!
