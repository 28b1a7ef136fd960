use vstd::prelude::*;

use crate::item::{views, CreateTodoInput, LithiumError, Todo, TodoView};
use crate::sequencer::{next_of, ReferenceCounter};

verus! {

/// The values of a sequence of strings, in the same order.
pub open spec fn string_views(s: Seq<String>) -> Seq<Seq<char>> {
    s.map_values(|x: String| x@)
}

/// An identifier that differs from every one in `ids`: its `k`-th character
/// differs from the `k`-th character of `ids[k]`, and it is as long as
/// `ids` has entries.
pub open spec fn avoiding(ids: Seq<Seq<char>>) -> Seq<char> {
    Seq::new(ids.len(), |k: int| if k < ids[k].len() && ids[k][k] == 'a' { 'b' } else { 'a' })
}

/// [`avoiding`] is none of the identifiers it was built from.
pub proof fn lemma_avoiding_is_new(ids: Seq<Seq<char>>)
    ensures
        !ids.contains(avoiding(ids)),
{
    if ids.contains(avoiding(ids)) {
        let k = choose|k: int| 0 <= k < ids.len() && ids[k] == avoiding(ids);
        assert(avoiding(ids)[k] != ids[k][k]);
    }
}

/// The mathematical value of a [`TodoStore`]: the stored items in the order
/// they are kept, the identifiers of the items deleted so far, and the
/// reference counter's record.
pub struct StoreView {
    pub todos: Seq<TodoView>,
    pub retired: Seq<Seq<char>>,
    pub counter: Option<u32>,
}

impl StoreView {
    /// The reference that the next created item receives.
    pub open spec fn next_reference(self) -> nat {
        next_of(self.counter)
    }

    /// Some stored item has identifier `id`.
    pub open spec fn has_id(self, id: Seq<char>) -> bool {
        exists|i: int| 0 <= i < self.todos.len() && (#[trigger] self.todos[i]).id == id
    }

    /// Identifier `id` belongs to a stored item or to a deleted one.
    pub open spec fn id_used(self, id: Seq<char>) -> bool {
        self.has_id(id) || self.retired.contains(id)
    }

    /// Every identifier given out so far: those of the stored items, then
    /// those of the deleted ones.
    pub open spec fn used_ids(self) -> Seq<Seq<char>> {
        self.todos.map_values(|t: TodoView| t.id) + self.retired
    }

    /// Some stored item has reference `r`.
    pub open spec fn has_reference(self, r: u32) -> bool {
        exists|i: int| 0 <= i < self.todos.len() && (#[trigger] self.todos[i]).referance == r
    }

    /// The items are in strictly ascending reference order.
    pub open spec fn sorted_by_reference(self) -> bool {
        forall|i: int, j: int|
            0 <= i < j < self.todos.len() ==> (#[trigger] self.todos[i]).referance
                < (#[trigger] self.todos[j]).referance
    }

    /// What every store satisfies: the counter has been written once an item
    /// exists, every stored reference was handed out by the counter, the
    /// items are in ascending reference order, and no two share an identifier.
    pub open spec fn well_formed(self) -> bool {
        &&& (self.counter matches Some(n) ==> n >= 2)
        &&& (self.counter is None ==> self.todos.len() == 0)
        &&& forall|i: int|
            0 <= i < self.todos.len() ==> 1 <= (#[trigger] self.todos[i]).referance
                && self.todos[i].referance < self.next_reference()
        &&& self.sorted_by_reference()
        &&& forall|i: int, j: int|
            0 <= i < self.todos.len() && 0 <= j < self.todos.len() && i != j
                ==> (#[trigger] self.todos[i]).id != (#[trigger] self.todos[j]).id
    }

    /// `r` may be given to a newly inserted item: the counter handed it out,
    /// and it is above every stored reference.
    pub open spec fn accepts_reference(self, r: u32) -> bool {
        &&& 1 <= r < self.next_reference()
        &&& forall|i: int| 0 <= i < self.todos.len() ==> (#[trigger] self.todos[i]).referance < r
    }
}

/// `post` is `pre` after creating `item` with text `text`: the item took the
/// counter's next reference and an identifier that no stored item had, it is
/// incomplete, it was appended, and the counter moved on by one.
pub open spec fn created(pre: StoreView, text: Seq<char>, post: StoreView, item: TodoView) -> bool {
    &&& item.referance == pre.next_reference()
    &&& item.text == text
    &&& !item.complete
    &&& !pre.id_used(item.id)
    &&& post.todos == pre.todos.push(item)
    &&& post.retired == pre.retired
    &&& post.counter is Some
    &&& post.next_reference() == pre.next_reference() + 1
}

/// `post` is `pre` after giving the item with identifier `id` the text
/// `text` and the completion `complete`; `item` is that item afterwards.
pub open spec fn updated(
    pre: StoreView,
    id: Seq<char>,
    text: Seq<char>,
    complete: bool,
    post: StoreView,
    item: TodoView,
) -> bool {
    exists|i: int|
        0 <= i < pre.todos.len() && (#[trigger] pre.todos[i]).id == id && item == (TodoView {
            id,
            text,
            referance: pre.todos[i].referance,
            complete,
        }) && post == (StoreView {
            todos: pre.todos.update(i, item),
            retired: pre.retired,
            counter: pre.counter,
        })
}

/// `post` is `pre` after removing the item with identifier `id`, which was
/// `item`; its identifier is kept among the retired ones.
pub open spec fn removed_id(pre: StoreView, id: Seq<char>, post: StoreView, item: TodoView) -> bool {
    exists|i: int|
        0 <= i < pre.todos.len() && (#[trigger] pre.todos[i]) == item && item.id == id && post == (
        StoreView {
            todos: pre.todos.remove(i),
            retired: pre.retired.push(id),
            counter: pre.counter,
        })
}

/// `post` is `pre` after removing the item with reference `r`; its
/// identifier is kept among the retired ones.
pub open spec fn removed_reference(pre: StoreView, r: u32, post: StoreView) -> bool {
    exists|i: int|
        0 <= i < pre.todos.len() && (#[trigger] pre.todos[i]).referance == r && post == (StoreView {
            todos: pre.todos.remove(i),
            retired: pre.retired.push(pre.todos[i].id),
            counter: pre.counter,
        })
}

/// `post` is `pre` after marking the item with reference `r` complete.
pub open spec fn completed_reference(pre: StoreView, r: u32, post: StoreView) -> bool {
    exists|i: int|
        0 <= i < pre.todos.len() && (#[trigger] pre.todos[i]).referance == r && post == (StoreView {
            todos: pre.todos.update(i, TodoView { complete: true, ..pre.todos[i] }),
            retired: pre.retired,
            counter: pre.counter,
        })
}

/// The items, the identifiers of deleted items and the reference counter,
/// kept in memory.
pub struct TodoStore {
    todos: Vec<Todo>,
    retired: Vec<String>,
    counter: ReferenceCounter,
}

impl View for TodoStore {
    type V = StoreView;

    closed spec fn view(&self) -> StoreView {
        StoreView {
            todos: views(self.todos@),
            retired: string_views(self.retired@),
            counter: self.counter@,
        }
    }
}

impl TodoStore {
    /// The store's value satisfies [`StoreView::well_formed`].
    pub open spec fn well_formed(&self) -> bool {
        self@.well_formed()
    }

    /// An empty store that has given out no identifier and whose counter
    /// has handed out nothing.
    pub fn new() -> (s: Self)
        ensures
            s.well_formed(),
            s@.todos.len() == 0,
            s@.retired.len() == 0,
            s@.counter is None,
    {
        let s = TodoStore { todos: Vec::new(), retired: Vec::new(), counter: ReferenceCounter::new() };
        assert(s@.retired =~= Seq::<Seq<char>>::empty());
        s
    }

    /// Where the item with identifier `id` stands.
    fn position_of_id(&self, id: &String) -> (r: Option<usize>)
        ensures
            match r {
                Some(i) => i < self@.todos.len() && self@.todos[i as int].id == id@,
                None => !self@.has_id(id@),
            },
    {
        let mut i: usize = 0;
        while i < self.todos.len()
            invariant
                0 <= i <= self.todos@.len(),
                self@.todos.len() == self.todos@.len(),
                forall|k: int| 0 <= k < i ==> (#[trigger] self@.todos[k]).id != id@,
            decreases self.todos@.len() - i,
        {
            assert(self@.todos[i as int] == self.todos@[i as int]@);
            if self.todos[i].id == *id {
                return Some(i);
            }
            i = i + 1;
        }
        None
    }

    /// Where the item with reference `r` stands.
    fn position_of_reference(&self, r: u32) -> (p: Option<usize>)
        ensures
            match p {
                Some(i) => i < self@.todos.len() && self@.todos[i as int].referance == r,
                None => !self@.has_reference(r),
            },
    {
        let mut i: usize = 0;
        while i < self.todos.len()
            invariant
                0 <= i <= self.todos@.len(),
                self@.todos.len() == self.todos@.len(),
                forall|k: int| 0 <= k < i ==> (#[trigger] self@.todos[k]).referance != r,
            decreases self.todos@.len() - i,
        {
            assert(self@.todos[i as int] == self.todos@[i as int]@);
            if self.todos[i].referance == r {
                return Some(i);
            }
            i = i + 1;
        }
        None
    }

    /// Takes the next reference from the counter, which then moves on by one;
    /// the items stay as they are. Fails, changing nothing, only when the
    /// counter is at `u32::MAX`.
    pub fn issue_reference(&mut self) -> (r: Result<u32, LithiumError>)
        requires
            old(self).well_formed(),
        ensures
            final(self).well_formed(),
            r is Err <==> old(self)@.counter == Some(u32::MAX),
            r is Err ==> (r matches Err(LithiumError::Db(_))) && final(self)@ == old(self)@,
            r matches Ok(n) ==> {
                &&& n == old(self)@.next_reference()
                &&& final(self)@.todos == old(self)@.todos
                &&& final(self)@.retired == old(self)@.retired
                &&& final(self)@.counter is Some
                &&& final(self)@.next_reference() == old(self)@.next_reference() + 1
            },
    {
        let r = self.counter.advance();
        assert(self@.todos == old(self)@.todos);
        assert(self@.retired == old(self)@.retired);
        assert(self@.next_reference() >= old(self)@.next_reference());
        r
    }

    /// Every stored item, in ascending reference order.
    pub fn list_all(&self) -> (r: Vec<Todo>)
        ensures
            views(r@) == self@.todos,
    {
        let mut out: Vec<Todo> = Vec::new();
        let mut i: usize = 0;
        while i < self.todos.len()
            invariant
                i <= self.todos@.len(),
                self@.todos.len() == self.todos@.len(),
                out@.len() == i,
                forall|k: int| 0 <= k < i ==> (#[trigger] out@[k])@ == self@.todos[k],
            decreases self.todos@.len() - i,
        {
            assert(self@.todos[i as int] == self.todos@[i as int]@);
            out.push(self.todos[i].duplicate());
            i = i + 1;
        }
        assert(views(out@) =~= self@.todos);
        out
    }

    /// The stored item with reference `r`, if there is one.
    pub fn find_by_reference(&self, r: u32) -> (found: Option<Todo>)
        ensures
            found is Some <==> self@.has_reference(r),
            found matches Some(t) ==> exists|i: int|
                0 <= i < self@.todos.len() && self@.todos[i] == t@ && t@.referance == r,
    {
        match self.position_of_reference(r) {
            Some(i) => {
                assert(self@.todos[i as int] == self.todos@[i as int]@);
                Some(self.todos[i].duplicate())
            },
            None => None,
        }
    }

    /// Stores the item that `input` describes under identifier `id`. An
    /// identifier that is already in use is refused as a storage failure,
    /// and the store is left as it was.
    pub fn insert_with_id(&mut self, id: String, input: CreateTodoInput) -> (r: Result<
        Todo,
        LithiumError,
    >)
        requires
            old(self).well_formed(),
            old(self)@.accepts_reference(input.referance),
        ensures
            final(self).well_formed(),
            old(self)@.has_id(id@) ==> {
                &&& r matches Err(LithiumError::Db(_))
                &&& final(self)@ == old(self)@
            },
            !old(self)@.has_id(id@) ==> {
                &&& r is Ok
                &&& r->Ok_0@ == (TodoView {
                    id: id@,
                    text: input.text@,
                    referance: input.referance,
                    complete: input.complete,
                })
                &&& final(self)@ == (StoreView {
                    todos: old(self)@.todos.push(r->Ok_0@),
                    retired: old(self)@.retired,
                    counter: old(self)@.counter,
                })
            },
    {
        if self.position_of_id(&id).is_some() {
            return Err(LithiumError::Db("record already exists".to_owned()));
        }
        let item = Todo { id, text: input.text, referance: input.referance, complete: input.complete };
        let stored = item.duplicate();
        let ghost before = self.todos@;
        self.todos.push(stored);
        assert(views(self.todos@) =~= views(before).push(item@));
        Ok(item)
    }

    /// Replaces the text and completion of the item with identifier `id`;
    /// its identifier and reference stay. Fails with `NotFound`, changing
    /// nothing, when no item has that identifier.
    pub fn update(&mut self, id: &String, text: String, complete: bool) -> (r: Result<
        Todo,
        LithiumError,
    >)
        requires
            old(self).well_formed(),
        ensures
            final(self).well_formed(),
            r is Ok <==> old(self)@.has_id(id@),
            r is Err ==> r == Err::<Todo, LithiumError>(LithiumError::NotFound) && final(self)@
                == old(self)@,
            r matches Ok(t) ==> updated(old(self)@, id@, text@, complete, final(self)@, t@),
    {
        match self.position_of_id(id) {
            None => Err(LithiumError::NotFound),
            Some(i) => {
                let ghost before = self.todos@;
                assert(self@.todos[i as int] == before[i as int]@);
                let previous = self.todos.remove(i);
                let item = Todo { id: previous.id, text, referance: previous.referance, complete };
                let stored = item.duplicate();
                self.todos.insert(i, stored);
                assert(views(self.todos@) =~= views(before).update(i as int, item@));
                Ok(item)
            },
        }
    }

    /// Removes the item with identifier `id`, keeps the identifier among the
    /// retired ones, and hands the item back. Fails with `NotFound`, changing
    /// nothing, when no item has that identifier.
    pub fn delete_by_id(&mut self, id: &String) -> (r: Result<Todo, LithiumError>)
        requires
            old(self).well_formed(),
        ensures
            final(self).well_formed(),
            r is Ok <==> old(self)@.has_id(id@),
            r is Err ==> r == Err::<Todo, LithiumError>(LithiumError::NotFound) && final(self)@
                == old(self)@,
            r matches Ok(t) ==> removed_id(old(self)@, id@, final(self)@, t@),
    {
        match self.position_of_id(id) {
            None => Err(LithiumError::NotFound),
            Some(i) => {
                let ghost before = self.todos@;
                let item = self.todos.remove(i);
                let ghost retired_before = self.retired@;
                self.retired.push(item.id.clone());
                assert(views(self.todos@) =~= views(before).remove(i as int));
                assert(string_views(self.retired@) =~= string_views(retired_before).push(id@));
                Ok(item)
            },
        }
    }

    /// A store holding `todos`, in the order given, the identifiers
    /// `retired` of deleted items, and counter record `counter`, provided
    /// that these make a well-formed store; else a storage failure.
    pub fn from_parts(todos: Vec<Todo>, retired: Vec<String>, counter: Option<u32>) -> (r: Result<
        TodoStore,
        LithiumError,
    >)
        ensures
            r is Ok <==> (StoreView {
                todos: views(todos@),
                retired: string_views(retired@),
                counter,
            }).well_formed(),
            r matches Ok(s) ==> s@ == (StoreView {
                todos: views(todos@),
                retired: string_views(retired@),
                counter,
            }),
            r is Err ==> r matches Err(LithiumError::Db(_)),
    {
        let ghost target = StoreView { todos: views(todos@), retired: string_views(retired@), counter };
        let next: u64 = match counter {
            None => {
                if todos.len() > 0 {
                    return Err(LithiumError::Db("items stored without a reference counter".to_owned()));
                }
                1
            },
            Some(n) => {
                if n < 2 {
                    return Err(LithiumError::Db("reference counter below two".to_owned()));
                }
                n as u64
            },
        };
        assert(next == target.next_reference());
        let mut i: usize = 0;
        while i < todos.len()
            invariant
                i <= todos@.len(),
                target == (StoreView { todos: views(todos@), retired: string_views(retired@), counter }),
                next == target.next_reference(),
                forall|k: int|
                    0 <= k < i ==> 1 <= (#[trigger] target.todos[k]).referance && target.todos[k].referance
                        < next,
                forall|a: int, b: int|
                    0 <= a < b < i ==> (#[trigger] target.todos[a]).referance
                        < (#[trigger] target.todos[b]).referance,
            decreases todos@.len() - i,
        {
            assert(target.todos[i as int] == todos@[i as int]@);
            let referance = todos[i].referance;
            if referance < 1 || referance as u64 >= next {
                return Err(LithiumError::Db("reference outside the counter's range".to_owned()));
            }
            if i > 0 {
                assert(target.todos[i - 1] == todos@[i - 1]@);
                if todos[i - 1].referance >= referance {
                    assert(!target.sorted_by_reference());
                    return Err(LithiumError::Db("references out of order".to_owned()));
                }
            }
            proof {
                assert forall|a: int, b: int| 0 <= a < b < i + 1 implies (#[trigger] target.todos[a]).referance
                    < (#[trigger] target.todos[b]).referance by {
                    if b == i && a < i - 1 {
                        assert(target.todos[a].referance < target.todos[i - 1].referance);
                    }
                }
            }
            i = i + 1;
        }
        let mut i: usize = 0;
        while i < todos.len()
            invariant
                i <= todos@.len(),
                target == (StoreView { todos: views(todos@), retired: string_views(retired@), counter }),
                forall|a: int, b: int|
                    0 <= a < i && 0 <= b < todos@.len() && a != b ==> (#[trigger] target.todos[a]).id
                        != (#[trigger] target.todos[b]).id,
            decreases todos@.len() - i,
        {
            let mut j: usize = i + 1;
            while j < todos.len()
                invariant
                    i < todos@.len(),
                    i < j <= todos@.len(),
                    target == (StoreView { todos: views(todos@), retired: string_views(retired@), counter }),
                    forall|a: int, b: int|
                        0 <= a < i && 0 <= b < todos@.len() && a != b ==> (#[trigger] target.todos[a]).id
                            != (#[trigger] target.todos[b]).id,
                    forall|b: int| i < b < j ==> target.todos[i as int].id != (#[trigger] target.todos[b]).id,
                decreases todos@.len() - j,
            {
                assert(target.todos[i as int] == todos@[i as int]@);
                assert(target.todos[j as int] == todos@[j as int]@);
                if todos[i].id == todos[j].id {
                    return Err(LithiumError::Db("two items share an identifier".to_owned()));
                }
                j = j + 1;
            }
            proof {
                assert forall|a: int, b: int|
                    0 <= a < i + 1 && 0 <= b < todos@.len() && a != b implies (#[trigger] target.todos[a]).id
                        != (#[trigger] target.todos[b]).id by {
                    if a == i && b < i {
                        assert(target.todos[b].id != target.todos[a].id);
                    }
                }
            }
            i = i + 1;
        }
        Ok(TodoStore { todos, retired, counter: ReferenceCounter::from_stored(counter) })
    }

    /// The identifiers of the deleted items, oldest first.
    pub fn retired_ids(&self) -> (r: Vec<String>)
        ensures
            string_views(r@) == self@.retired,
    {
        let mut out: Vec<String> = Vec::new();
        let mut i: usize = 0;
        while i < self.retired.len()
            invariant
                i <= self.retired@.len(),
                out@.len() == i,
                forall|k: int| 0 <= k < i ==> (#[trigger] out@[k])@ == self.retired@[k]@,
            decreases self.retired@.len() - i,
        {
            out.push(self.retired[i].clone());
            i = i + 1;
        }
        assert(string_views(out@) =~= self@.retired);
        out
    }

    /// `candidate` when no stored or deleted item has had it as identifier;
    /// otherwise [`avoiding`] the identifiers given out so far.
    pub fn fresh_id(&self, candidate: String) -> (r: String)
        ensures
            !self@.id_used(r@),
            r@ == if self@.id_used(candidate@) {
                avoiding(self@.used_ids())
            } else {
                candidate@
            },
    {
        let ghost ids = self@.used_ids();
        let n_todos = self.todos.len();
        let mut used = self.position_of_id(&candidate).is_some();
        let mut m: usize = 0;
        while !used && m < self.retired.len()
            invariant
                m <= self.retired@.len(),
                self@.retired.len() == self.retired@.len(),
                !used ==> !self@.has_id(candidate@),
                !used ==> forall|j: int| 0 <= j < m ==> self@.retired[j] != candidate@,
                used ==> self@.id_used(candidate@),
            decreases self.retired@.len() - m,
        {
            assert(self@.retired[m as int] == self.retired@[m as int]@);
            if self.retired[m] == candidate {
                used = true;
            }
            m = m + 1;
        }
        if !used {
            assert(!self@.retired.contains(candidate@));
            return candidate;
        }
        let mut out = String::new();
        let mut k: usize = 0;
        while k < n_todos
            invariant
                n_todos == self.todos@.len(),
                k <= n_todos,
                ids == self@.used_ids(),
                out@ == avoiding(ids).subrange(0, k as int),
            decreases n_todos - k,
        {
            assert(ids[k as int] == self.todos@[k as int].id@);
            let piece = diagonal_piece(self.todos[k].id.as_str(), k, 0);
            out.append(piece);
            assert(out@ =~= avoiding(ids).subrange(0, k + 1));
            k = k + 1;
        }
        let mut m: usize = 0;
        while m < self.retired.len()
            invariant
                n_todos == self.todos@.len(),
                m <= self.retired@.len(),
                ids == self@.used_ids(),
                out@ == avoiding(ids).subrange(0, n_todos + m),
            decreases self.retired@.len() - m,
        {
            assert(ids[n_todos + m] == self.retired@[m as int]@);
            let piece = diagonal_piece(self.retired[m].as_str(), n_todos, m);
            out.append(piece);
            assert(out@ =~= avoiding(ids).subrange(0, n_todos + m + 1));
            m = m + 1;
        }
        proof {
            assert(out@ =~= avoiding(ids));
            lemma_avoiding_is_new(ids);
            if self@.has_id(out@) {
                let i = choose|i: int| 0 <= i < self@.todos.len() && (#[trigger] self@.todos[i]).id == out@;
                assert(ids[i] == out@);
            }
            if self@.retired.contains(out@) {
                let j = choose|j: int| 0 <= j < self@.retired.len() && self@.retired[j] == out@;
                assert(ids[n_todos + j] == out@);
            }
        }
        out
    }

    /// The counter's stored record.
    pub fn counter_record(&self) -> (r: Option<u32>)
        ensures
            r == self@.counter,
    {
        self.counter.stored()
    }
}

/// The character that [`avoiding`] puts at position `base + m` for an
/// identifier `s` standing there: `"b"` where `s` has an `a` at that
/// position, else `"a"`.
fn diagonal_piece(s: &str, base: usize, m: usize) -> (p: &'static str)
    ensures
        p@ == seq![
            if base + m < s@.len() && s@[base + m] == 'a' {
                'b'
            } else {
                'a'
            },
        ],
{
    proof {
        reveal_strlit("a");
        reveal_strlit("b");
    }
    let n = s.unicode_len();
    if m < n && base < n - m {
        if s.get_char(base + m) == 'a' {
            "b"
        } else {
            "a"
        }
    } else {
        "a"
    }
}

} // verus!
