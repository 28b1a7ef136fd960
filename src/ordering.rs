use vstd::prelude::*;

use crate::item::{views, Todo, TodoView};

verus! {

/// The items in `s` are in ascending reference order (equal references may
/// stand side by side).
pub open spec fn ascending(s: Seq<TodoView>) -> bool {
    forall|i: int, j: int| 0 <= i < j < s.len() ==> (#[trigger] s[i]).referance <= (#[trigger] s[j]).referance
}

/// The same items, rearranged into ascending reference order.
pub fn order_by_reference(todos: Vec<Todo>) -> (r: Vec<Todo>)
    ensures
        views(r@).to_multiset() == views(todos@).to_multiset(),
        ascending(views(r@)),
{
    let mut out: Vec<Todo> = Vec::new();
    let mut i: usize = 0;
    assert(views(out@) =~= views(todos@.subrange(0, 0)));
    while i < todos.len()
        invariant
            i <= todos@.len(),
            ascending(views(out@)),
            views(out@).to_multiset() == views(todos@.subrange(0, i as int)).to_multiset(),
        decreases todos@.len() - i,
    {
        let item = todos[i].duplicate();
        let mut p: usize = 0;
        while p < out.len() && out[p].referance <= item.referance
            invariant
                p <= out@.len(),
                forall|k: int| 0 <= k < p ==> (#[trigger] out@[k]).referance <= item.referance,
            decreases out@.len() - p,
        {
            p = p + 1;
        }
        let ghost before = out@;
        proof {
            assert forall|k: int| p <= k < before.len() implies item.referance < (
            #[trigger] before[k]).referance by {
                assert(views(before)[p as int].referance <= views(before)[k].referance);
            }
        }
        out.insert(p, item);
        assert(views(out@) =~= views(before).insert(p as int, item@));
        assert(views(todos@.subrange(0, i + 1)) =~= views(todos@.subrange(0, i as int)).push(
            todos@[i as int]@,
        ));
        proof {
            vstd::seq_lib::to_multiset_insert(views(before), p as int, item@);
            vstd::seq_lib::to_multiset_build(views(todos@.subrange(0, i as int)), todos@[i as int]@);
            assert forall|a: int, b: int| 0 <= a < b < out@.len() implies (#[trigger] views(
                out@,
            )[a]).referance <= (#[trigger] views(out@)[b]).referance by {
                if b < p {
                    assert(views(before)[a].referance <= views(before)[b].referance);
                } else if b == p {
                    assert(out@[a] == before[a]);
                } else if a < p {
                    assert(out@[b] == before[b - 1]);
                    assert(out@[a] == before[a]);
                } else if a == p {
                    assert(out@[b] == before[b - 1]);
                } else {
                    assert(views(before)[a - 1].referance <= views(before)[b - 1].referance);
                }
            }
        }
        i = i + 1;
    }
    assert(todos@.subrange(0, todos@.len() as int) =~= todos@);
    out
}

} // verus!
