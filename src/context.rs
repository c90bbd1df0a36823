use vstd::prelude::*;

verus! {

/// How many contexts a manager made with `start` may hold.
pub const DEFAULT_CONTEXT_CAPACITY: usize = 10;

/// One tab: its id and whatever the front end keeps for it (the shared grid and
/// the sender half of its event loop's inbound channel).
pub struct Context<T> {
    pub id: usize,
    pub handle: T,
}

/// The ordered registry of open contexts, with the one in front and a hard
/// ceiling on how many may be open.
pub struct ContextManager<T> {
    contexts: Vec<Context<T>>,
    current: usize,
    capacity: usize,
    next_id: usize,
}

/// The ids of `ids` go up strictly from left to right.
pub open spec fn increasing(ids: Seq<usize>) -> bool {
    forall|i: int, j: int| 0 <= i < j < ids.len() ==> ids[i] < ids[j]
}

impl<T> ContextManager<T> {
    /// The ids of the open contexts, in order.
    pub closed spec fn ids(&self) -> Seq<usize> {
        self.contexts@.map_values(|c: Context<T>| c.id)
    }

    /// What each open context carries, in the same order.
    pub closed spec fn handles(&self) -> Seq<T> {
        self.contexts@.map_values(|c: Context<T>| c.handle)
    }

    pub closed spec fn current_spec(&self) -> usize {
        self.current
    }

    pub closed spec fn capacity_spec(&self) -> usize {
        self.capacity
    }

    /// The id the next created context gets: above every id handed out so far.
    pub closed spec fn next_id_spec(&self) -> usize {
        self.next_id
    }

    /// The id in front names an open context.
    pub open spec fn current_valid(&self) -> bool {
        self.ids().contains(self.current_spec())
    }

    /// A context can be added: there is room and ids are not exhausted.
    pub open spec fn has_room_spec(&self) -> bool {
        self.ids().len() < self.capacity_spec() && self.next_id_spec() < usize::MAX
    }

    /// The ids go up along the list and all lie below the next id, so an added
    /// context gets an id above every id handed out before.
    pub open spec fn ids_fresh(&self) -> bool {
        &&& increasing(self.ids())
        &&& forall|i: int| 0 <= i < self.ids().len() ==> self.ids()[i] < self.next_id_spec()
    }

    pub closed spec fn wf(&self) -> bool {
        &&& self.contexts@.len() >= 1
        &&& self.contexts@.len() <= self.capacity || self.contexts@.len() == 1
        &&& increasing(self.ids())
        &&& forall|i: int| 0 <= i < self.ids().len() ==> self.ids()[i] < self.next_id
    }

    fn with_first(capacity: usize, first: T) -> (r: Self)
        ensures
            r.wf(),
            r.ids() == seq![0usize],
            r.handles() == seq![first],
            r.current_spec() == 0,
            r.capacity_spec() == capacity,
            r.next_id_spec() == 1,
    {
        let initial = Context { id: 0, handle: first };
        let r = ContextManager { contexts: vec![initial], current: 0, capacity, next_id: 1 };
        assert(r.ids() =~= seq![0usize]);
        assert(r.handles() =~= seq![first]);
        r
    }

    /// A manager with room for `DEFAULT_CONTEXT_CAPACITY` contexts, holding the
    /// context `created` at id 0 in front; a failed creation is handed back.
    pub fn start<E>(created: Result<T, E>) -> (r: Result<Self, E>)
        ensures
            created is Ok <==> r is Ok,
            r is Ok ==> {
                let m = r->Ok_0;
                &&& m.wf()
                &&& m.ids() == seq![0usize]
                &&& m.handles() == seq![created->Ok_0]
                &&& m.current_spec() == 0
                &&& m.current_valid()
                &&& m.capacity_spec() == DEFAULT_CONTEXT_CAPACITY
                &&& m.next_id_spec() == 1
                &&& m.ids_fresh()
            },
            r is Err ==> r->Err_0 == created->Err_0,
    {
        Self::start_with_capacity(DEFAULT_CONTEXT_CAPACITY, created)
    }

    /// As `start`, with room for `capacity` contexts.
    pub fn start_with_capacity<E>(capacity: usize, created: Result<T, E>) -> (r: Result<Self, E>)
        ensures
            created is Ok <==> r is Ok,
            r is Ok ==> {
                let m = r->Ok_0;
                &&& m.wf()
                &&& m.ids() == seq![0usize]
                &&& m.handles() == seq![created->Ok_0]
                &&& m.current_spec() == 0
                &&& m.current_valid()
                &&& m.capacity_spec() == capacity
                &&& m.next_id_spec() == 1
                &&& m.ids_fresh()
            },
            r is Err ==> r->Err_0 == created->Err_0,
    {
        match created {
            Ok(first) => {
                let m = Self::with_first(capacity, first);
                assert(m.ids()[0] == 0);
                Ok(m)
            },
            Err(e) => Err(e),
        }
    }

    pub fn len(&self) -> (r: usize)
        ensures
            r == self.ids().len(),
    {
        self.contexts.len()
    }

    pub fn contexts(&self) -> (r: &Vec<Context<T>>)
        ensures
            r@.map_values(|c: Context<T>| c.id) == self.ids(),
            r@.map_values(|c: Context<T>| c.handle) == self.handles(),
    {
        &self.contexts
    }

    pub fn capacity(&self) -> (r: usize)
        ensures
            r == self.capacity_spec(),
    {
        self.capacity
    }

    pub fn increase_capacity(&mut self, inc_val: usize)
        requires
            old(self).wf(),
            old(self).capacity_spec() + inc_val <= usize::MAX,
        ensures
            final(self).wf(),
            final(self).capacity_spec() == old(self).capacity_spec() + inc_val,
            final(self).ids() == old(self).ids(),
            final(self).handles() == old(self).handles(),
            final(self).current_spec() == old(self).current_spec(),
            final(self).next_id_spec() == old(self).next_id_spec(),
    {
        self.capacity = self.capacity + inc_val;
    }

    /// Where the context `context_id` stands in the list.
    fn position(&self, context_id: usize) -> (r: Option<usize>)
        requires
            self.wf(),
        ensures
            r is None <==> !self.ids().contains(context_id),
            r is Some ==> r->Some_0 < self.ids().len() && self.ids()[r->Some_0 as int]
                == context_id,
    {
        let mut i: usize = 0;
        while i < self.contexts.len()
            invariant
                i <= self.contexts@.len(),
                self.wf(),
                forall|k: int| 0 <= k < i ==> self.ids()[k] != context_id,
            decreases self.contexts@.len() - i,
        {
            if self.contexts[i].id == context_id {
                assert(self.ids()[i as int] == context_id);
                return Some(i);
            }
            i = i + 1;
        }
        None
    }

    pub fn contains(&self, context_id: usize) -> (r: bool)
        requires
            self.wf(),
        ensures
            r == self.ids().contains(context_id),
    {
        self.position(context_id).is_some()
    }

    /// Brings the context `context_id` to front; an id that is not open
    /// changes nothing.
    pub fn set_current(&mut self, context_id: usize)
        requires
            old(self).wf(),
        ensures
            final(self).wf(),
            final(self).ids() == old(self).ids(),
            final(self).handles() == old(self).handles(),
            final(self).capacity_spec() == old(self).capacity_spec(),
            final(self).next_id_spec() == old(self).next_id_spec(),
            final(self).current_spec() == if old(self).ids().contains(context_id) {
                context_id
            } else {
                old(self).current_spec()
            },
            old(self).current_valid() ==> final(self).current_valid(),
    {
        if self.contains(context_id) {
            self.current = context_id;
        }
    }

    pub fn current_id(&self) -> (r: usize)
        ensures
            r == self.current_spec(),
    {
        self.current
    }

    /// The context in front, found by its place in the list.
    pub fn current(&self) -> (r: &Context<T>)
        requires
            self.wf(),
            self.current_valid(),
        ensures
            r.id == self.current_spec(),
            exists|i: int|
                0 <= i < self.ids().len() && self.ids()[i] == r.id && self.handles()[i]
                    == r.handle,
    {
        let p = self.position(self.current).unwrap();
        assert(self.handles()[p as int] == self.contexts@[p as int].handle);
        &self.contexts[p]
    }

    /// What the context in front carries, to be changed in place.
    pub fn current_mut(&mut self) -> (r: &mut T)
        requires
            old(self).wf(),
            old(self).current_valid(),
        ensures
            final(self).wf(),
            final(self).ids() == old(self).ids(),
            final(self).current_spec() == old(self).current_spec(),
            final(self).capacity_spec() == old(self).capacity_spec(),
            final(self).next_id_spec() == old(self).next_id_spec(),
            exists|i: int|
                0 <= i < old(self).ids().len() && old(self).ids()[i] == old(self).current_spec()
                    && *r == old(self).handles()[i] && final(self).handles() == old(self).handles().update(i, *final(r)),
    {
        let p = self.position(self.current).unwrap();
        let ghost before = self.contexts@;
        let c = &mut self.contexts[p];
        let h = &mut c.handle;
        assert(after_borrow(*c).id == before[p as int].id);
        assert(after_borrow(self.contexts)@.map_values(|c: Context<T>| c.id) =~= before.map_values(
            |c: Context<T>| c.id,
        ));
        h
    }

    /// Brings the context after the one in front to front, or the first one
    /// when the one in front is the last; nothing changes when the id in front
    /// is not open.
    pub fn switch_to_next(&mut self)
        requires
            old(self).wf(),
        ensures
            final(self).wf(),
            final(self).ids() == old(self).ids(),
            final(self).handles() == old(self).handles(),
            final(self).capacity_spec() == old(self).capacity_spec(),
            final(self).next_id_spec() == old(self).next_id_spec(),
            !old(self).current_valid() ==> final(self).current_spec() == old(self).current_spec(),
            forall|i: int|
                0 <= i < old(self).ids().len() && #[trigger] old(self).ids()[i]
                    == old(self).current_spec() ==> final(self).current_spec() == if i + 1 < old(self).ids().len() {
                    old(self).ids()[i + 1]
                } else {
                    old(self).ids()[0]
                },
            old(self).current_valid() ==> final(self).current_valid(),
    {
        if let Some(p) = self.position(self.current) {
            proof {
                assert forall|i: int|
                    0 <= i < self.ids().len() && self.ids()[i] == self.current implies i
                    == p by {
                    if i < p {
                        assert(self.ids()[i] < self.ids()[p as int]);
                    } else if i > p {
                        assert(self.ids()[p as int] < self.ids()[i]);
                    }
                }
            }
            if p + 1 < self.contexts.len() {
                self.current = self.contexts[p + 1].id;
                assert(self.ids()[p + 1] == self.current);
            } else {
                self.current = self.contexts[0].id;
                assert(self.ids()[0] == self.current);
            }
        }
    }

    /// Whether `add_context` would add a context now.
    pub fn has_room(&self) -> (r: bool)
        ensures
            r == self.has_room_spec(),
    {
        self.contexts.len() < self.capacity && self.next_id < usize::MAX
    }

    /// The id that the next added context gets.
    pub fn next_id(&self) -> (r: usize)
        ensures
            r == self.next_id_spec(),
    {
        self.next_id
    }

    /// Appends the context `created` under a fresh id, bringing it to front when
    /// `redirect` holds. Without room, or when the creation failed, nothing
    /// changes.
    pub fn add_context<E>(&mut self, redirect: bool, created: Result<T, E>)
        requires
            old(self).wf(),
        ensures
            final(self).wf(),
            final(self).ids_fresh(),
            final(self).capacity_spec() == old(self).capacity_spec(),
            if old(self).has_room_spec() && created is Ok {
                &&& final(self).ids() == old(self).ids().push(old(self).next_id_spec())
                &&& final(self).handles() == old(self).handles().push(created->Ok_0)
                &&& final(self).next_id_spec() == old(self).next_id_spec() + 1
                &&& final(self).current_spec() == if redirect {
                    old(self).next_id_spec()
                } else {
                    old(self).current_spec()
                }
            } else {
                &&& final(self).ids() == old(self).ids()
                &&& final(self).handles() == old(self).handles()
                &&& final(self).next_id_spec() == old(self).next_id_spec()
                &&& final(self).current_spec() == old(self).current_spec()
            },
            old(self).current_valid() ==> final(self).current_valid(),
    {
        if self.has_room() {
            match created {
                Ok(handle) => {
                    let id = self.next_id;
                    let ghost old_ids = self.ids();
                    let ghost old_handles = self.handles();
                    self.contexts.push(Context { id, handle });
                    self.next_id = id + 1;
                    if redirect {
                        self.current = id;
                    }
                    assert(self.ids() =~= old_ids.push(id));
                    assert(self.handles() =~= old_handles.push(handle));
                    assert(self.ids()[self.ids().len() - 1] == id);
                    assert forall|i: int|
                        0 <= i < old_ids.len() implies self.ids()[i] == old_ids[i] by {}
                },
                Err(_) => {},
            }
        }
    }

    /// Closes the context `context_id` and brings the last remaining one to
    /// front. The last open context is never closed: then only the id in front
    /// is reset to 0. An id that is not open changes nothing.
    pub fn close_context(&mut self, context_id: usize)
        requires
            old(self).wf(),
        ensures
            final(self).wf(),
            final(self).ids_fresh(),
            final(self).capacity_spec() == old(self).capacity_spec(),
            final(self).next_id_spec() == old(self).next_id_spec(),
            old(self).ids().len() <= 1 ==> {
                &&& final(self).ids() == old(self).ids()
                &&& final(self).handles() == old(self).handles()
                &&& final(self).current_spec() == 0
            },
            old(self).ids().len() > 1 && !old(self).ids().contains(context_id) ==> {
                &&& final(self).ids() == old(self).ids()
                &&& final(self).handles() == old(self).handles()
                &&& final(self).current_spec() == old(self).current_spec()
            },
            old(self).ids().len() > 1 && old(self).ids().contains(context_id) ==> {
                &&& exists|i: int|
                    0 <= i < old(self).ids().len() && old(self).ids()[i] == context_id
                        && final(self).ids() == old(self).ids().remove(i)
                        && final(self).handles() == old(self).handles().remove(i)
                &&& final(self).current_spec() == final(self).ids().last()
            },
            !final(self).ids().contains(context_id) || old(self).ids().len() <= 1,
            old(self).ids().len() > 1 && old(self).current_valid() ==> final(self).current_valid(),
            old(self).ids().len() > 1 && old(self).ids().contains(context_id) ==> final(self).current_valid(),
    {
        if self.contexts.len() <= 1 {
            self.current = 0;
            return;
        }
        if let Some(idx) = self.position(context_id) {
            let ghost old_ids = self.ids();
            let ghost old_handles = self.handles();
            self.contexts.remove(idx);
            assert(self.ids() =~= old_ids.remove(idx as int));
            assert(self.handles() =~= old_handles.remove(idx as int));
            let n = self.contexts.len();
            self.current = self.contexts[n - 1].id;
            assert(self.ids()[n - 1] == self.current);
            assert(!self.ids().contains(context_id)) by {
                assert forall|i: int| 0 <= i < self.ids().len() implies self.ids()[i]
                    != context_id by {
                    if i < idx {
                        assert(old_ids[i] < old_ids[idx as int]);
                    } else {
                        assert(old_ids[idx as int] < old_ids[i + 1]);
                    }
                }
            }
        }
    }
}

/// A well-formed manager's ids go up along the list and lie below the next id.
pub proof fn lemma_ids_fresh<T>(m: &ContextManager<T>)
    requires
        m.wf(),
    ensures
        m.ids_fresh(),
{
}

/// The number of open contexts never passes the capacity (a manager made with
/// a capacity of 0 still holds its first context).
pub proof fn lemma_within_capacity<T>(m: &ContextManager<T>)
    requires
        m.wf(),
        m.capacity_spec() >= 1,
    ensures
        m.ids().len() <= m.capacity_spec(),
{
}

} // verus!
