//! The models that render through a shared instanced buffer.

use vstd::prelude::*;
use crate::world_object::{ObjectView, WorldObject};

verus! {

pub open spec fn names_view(v: Seq<String>) -> Seq<Seq<char>> {
    v.map_values(|s: String| s@)
}

pub open spec fn objects_of(v: Seq<WorldObject>) -> Seq<ObjectView> {
    v.map_values(|o: WorldObject| o@)
}

/// No model is listed twice.
pub open spec fn distinct_names(s: Seq<Seq<char>>) -> bool {
    forall|i: int, j: int| 0 <= i < s.len() && 0 <= j < s.len() && i != j ==> s[i] != s[j]
}

/// Every object that renders instanced has its model's buffer in `buffers`.
pub open spec fn instancing_consistent(objects: Seq<ObjectView>, buffers: Seq<Seq<char>>) -> bool {
    forall|i: int| 0 <= i < objects.len() && (#[trigger] objects[i]).instanced ==> buffers.contains(
        objects[i].model,
    )
}

/// Whether a name is not `x`.
pub open spec fn other_than(x: Seq<char>) -> spec_fn(Seq<char>) -> bool {
    |n: Seq<char>| n != x
}

proof fn lemma_filter_absent(s: Seq<Seq<char>>, x: Seq<char>)
    requires
        !s.contains(x),
    ensures
        s.filter(other_than(x)) == s,
    decreases s.len(),
{
    reveal(Seq::filter);
    if s.len() > 0 {
        assert(!s.drop_last().contains(x)) by {
            if s.drop_last().contains(x) {
                let i = choose|i: int| 0 <= i < s.drop_last().len() && s.drop_last()[i] == x;
                assert(s[i] == x);
            }
        }
        lemma_filter_absent(s.drop_last(), x);
        assert(s.last() != x) by {
            if s.last() == x {
                assert(s[s.len() - 1] == x);
            }
        }
        assert(s.drop_last().push(s.last()) =~= s);
    } else {
        assert(s.filter(other_than(x)) =~= s);
    }
}

/// In a list of distinct names, leaving out the entry at `k` is keeping
/// every name other than its own.
proof fn lemma_filter_remove(s: Seq<Seq<char>>, x: Seq<char>, k: int)
    requires
        distinct_names(s),
        0 <= k < s.len(),
        s[k] == x,
    ensures
        s.filter(other_than(x)) == s.remove(k),
    decreases s.len(),
{
    reveal(Seq::filter);
    let d = s.drop_last();
    assert(distinct_names(d)) by {
        assert forall|i: int, j: int| 0 <= i < d.len() && 0 <= j < d.len() && i != j implies d[i] != d[j] by {
            assert(d[i] == s[i] && d[j] == s[j]);
        }
    }
    if k == s.len() - 1 {
        assert(!d.contains(x)) by {
            if d.contains(x) {
                let i = choose|i: int| 0 <= i < d.len() && d[i] == x;
                assert(s[i] == s[k]);
            }
        }
        lemma_filter_absent(d, x);
        assert(s.remove(k) =~= d);
    } else {
        assert(s.last() != x) by {
            assert(s[s.len() - 1] != s[k]);
        }
        lemma_filter_remove(d, x, k);
        assert(d.remove(k).push(s.last()) =~= s.remove(k));
    }
}

/// The instanced buffers, one per model, in the order they were added.
pub struct InstancedBuffers {
    buffers: Vec<String>,
}

impl View for InstancedBuffers {
    type V = Seq<Seq<char>>;

    closed spec fn view(&self) -> Seq<Seq<char>> {
        names_view(self.buffers@)
    }
}

fn position_of(names: &Vec<String>, reference: &String) -> (r: Option<usize>)
    ensures
        r matches Some(i) ==> i < names@.len() && names@[i as int]@ == reference@,
        r.is_some() == names_view(names@).contains(reference@),
{
    let mut i: usize = 0;
    while i < names.len()
        invariant
            i <= names@.len(),
            forall|j: int| 0 <= j < i ==> names@[j]@ != reference@,
        decreases names@.len() - i,
    {
        if names[i] == *reference {
            assert(names_view(names@)[i as int] == reference@);
            return Some(i);
        }
        i += 1;
    }
    assert(!names_view(names@).contains(reference@)) by {
        if names_view(names@).contains(reference@) {
            let j = choose|j: int| 0 <= j < names@.len() && names_view(names@)[j] == reference@;
            assert(names@[j]@ == reference@);
        }
    }
    None
}

impl InstancedBuffers {
    pub open spec fn wf(&self) -> bool {
        distinct_names(self@)
    }

    pub fn new() -> (r: InstancedBuffers)
        ensures
            r@ == Seq::<Seq<char>>::empty(),
            r.wf(),
    {
        let r = InstancedBuffers { buffers: Vec::new() };
        assert(r@ =~= Seq::<Seq<char>>::empty());
        r
    }

    /// The buffers' models, in order.
    pub fn names(&self) -> (r: &Vec<String>)
        ensures
            names_view(r@) == self@,
    {
        &self.buffers
    }

    pub fn len(&self) -> (r: usize)
        ensures
            r == self@.len(),
    {
        self.buffers.len()
    }

    pub fn contains(&self, reference: &String) -> (r: bool)
        ensures
            r == self@.contains(reference@),
    {
        position_of(&self.buffers, reference).is_some()
    }

    /// Gives `reference` a buffer, unless it has one.
    pub fn add(&mut self, reference: String)
        requires
            old(self).wf(),
        ensures
            final(self).wf(),
            final(self)@ == if old(self)@.contains(reference@) {
                old(self)@
            } else {
                old(self)@.push(reference@)
            },
    {
        if position_of(&self.buffers, &reference).is_some() {
            return;
        }
        let ghost before = self.buffers@;
        self.buffers.push(reference);
        assert(self@ =~= names_view(before).push(reference@));
        assert(distinct_names(self@)) by {
            assert forall|i: int, j: int|
                0 <= i < self@.len() && 0 <= j < self@.len() && i != j implies self@[i]
                != self@[j] by {
                if i == self@.len() - 1 {
                    assert(names_view(before)[j] == self@[j]);
                    if names_view(before)[j] == reference@ {
                        assert(names_view(before).contains(reference@));
                    }
                } else if j == self@.len() - 1 {
                    assert(names_view(before)[i] == self@[i]);
                    if names_view(before)[i] == reference@ {
                        assert(names_view(before).contains(reference@));
                    }
                }
            }
        }
    }

    /// Drops the buffer of `reference`, and every object of that model renders
    /// on its own again. The other objects, and the other buffers in order, stay.
    pub fn remove(&mut self, reference: &String, objects: &mut Vec<WorldObject>)
        requires
            old(self).wf(),
        ensures
            final(self).wf(),
            final(self)@ == old(self)@.filter(other_than(reference@)),
            !final(self)@.contains(reference@),
            forall|i: int|
                0 <= i < old(self)@.len() && old(self)@[i] != reference@ ==> final(self)@.contains(
                    #[trigger] old(self)@[i],
                ),
            forall|i: int|
                0 <= i < final(self)@.len() ==> old(self)@.contains(#[trigger] final(self)@[i]),
            final(objects)@.len() == old(objects)@.len(),
            forall|i: int|
                0 <= i < final(objects)@.len() ==> (#[trigger] final(objects)@[i])@ == (ObjectView {
                    instanced: old(objects)@[i]@.instanced && old(objects)@[i]@.model != reference@,
                    ..old(objects)@[i]@
                }),
            forall|i: int|
                0 <= i < final(objects)@.len() && (#[trigger] final(objects)@[i])@.model
                    == reference@ ==> !final(objects)@[i]@.instanced,
            forall|i: int|
                0 <= i < final(objects)@.len() ==> old(objects)@[i].wf() ==> (
                #[trigger] final(objects)@[i]).wf(),
            instancing_consistent(objects_of(old(objects)@), old(self)@) ==> instancing_consistent(
                objects_of(final(objects)@),
                final(self)@,
            ),
    {
        let ghost buffers_before = self@;
        match position_of(&self.buffers, reference) {
            Some(k) => {
                let ghost before = self@;
                self.buffers.remove(k);
                proof {
                    assert(before[k as int] == reference@);
                    assert(self@ =~= before.remove(k as int));
                    lemma_filter_remove(before, reference@, k as int);
                    assert forall|i: int| 0 <= i < self@.len() implies self@[i] != reference@ by {
                        if i < k {
                            assert(self@[i] == before[i]);
                        } else {
                            assert(self@[i] == before[i + 1]);
                        }
                    }
                    assert forall|i: int|
                        0 <= i < before.len() && before[i] != reference@ implies self@.contains(
                            #[trigger] before[i],
                        ) by {
                        if i < k {
                            assert(self@[i] == before[i]);
                        } else {
                            assert(i != k);
                            assert(self@[i - 1] == before[i]);
                        }
                    }
                    assert forall|i: int| 0 <= i < self@.len() implies before.contains(
                        #[trigger] self@[i],
                    ) by {
                        if i < k {
                            assert(self@[i] == before[i]);
                        } else {
                            assert(self@[i] == before[i + 1]);
                        }
                    }
                    assert(distinct_names(self@)) by {
                        assert forall|i: int, j: int|
                            0 <= i < self@.len() && 0 <= j < self@.len() && i != j implies self@[i]
                            != self@[j] by {
                            let bi = if i < k { i } else { i + 1 };
                            let bj = if j < k { j } else { j + 1 };
                            assert(self@[i] == before[bi]);
                            assert(self@[j] == before[bj]);
                        }
                    }
                }
            },
            None => {
                assert forall|i: int| 0 <= i < self@.len() implies self@.contains(
                    #[trigger] self@[i],
                ) by {}
                proof {
                    lemma_filter_absent(self@, reference@);
                }
            },
        }
        let ghost start = objects@;
        let mut i: usize = 0;
        while i < objects.len()
            invariant
                i <= objects@.len(),
                objects@.len() == start.len(),
                forall|j: int|
                    0 <= j < i ==> (#[trigger] objects@[j])@ == (ObjectView {
                        instanced: start[j]@.instanced && start[j]@.model != reference@,
                        ..start[j]@
                    }),
                forall|j: int| i <= j < objects@.len() ==> (#[trigger] objects@[j]) == start[j],
            decreases objects@.len() - i,
        {
            let mut o = objects.remove(i);
            o.instanced_buffer_removed(reference);
            objects.insert(i, o);
            i += 1;
        }
        assert forall|j: int| 0 <= j < objects@.len() && start[j].wf() implies (
        #[trigger] objects@[j]).wf() by {}
        proof {
            let before = objects_of(start);
            let after = objects_of(objects@);
            if instancing_consistent(before, buffers_before) {
                assert forall|i: int| 0 <= i < after.len() && (#[trigger] after[i]).instanced implies self@.contains(
                    after[i].model,
                ) by {
                    assert(after[i] == objects@[i]@);
                    assert(before[i] == start[i]@);
                    assert(before[i].instanced);
                    assert(buffers_before.contains(before[i].model));
                    let j = choose|j: int| 0 <= j < buffers_before.len() && buffers_before[j] == before[i].model;
                    assert(buffers_before[j] != reference@);
                    assert(self@.contains(buffers_before[j]));
                }
            }
        }
    }
}

} // verus!
