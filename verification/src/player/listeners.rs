//! The listeners of one kind of player event: which are called when an
//! event is emitted, and which are dropped after being called once. The
//! callbacks themselves belong to the page; here each is known by an id.

use vstd::prelude::*;

use crate::player::events::EventType;

verus! {

/// A registered listener: its callback's id, whether it is called only
/// once, and whether that one call has happened.
#[derive(Debug, Clone, Copy, PartialEq, Eq, Structural)]
pub struct Listener {
    pub id: u64,
    pub once: bool,
    pub used: bool,
}

/// The listeners of one event kind, in the order they were added.
pub struct ListenerList {
    listeners: Vec<Listener>,
}

/// The listeners that stay after cleaning: all but the one-shot listeners
/// that have been called.
pub open spec fn live_listeners(s: Seq<Listener>) -> Seq<Listener>
    decreases s.len(),
{
    if s.len() == 0 {
        s
    } else {
        live_listeners(s.drop_last()) + if s.last().once && s.last().used {
            Seq::empty()
        } else {
            seq![s.last()]
        }
    }
}

/// The listeners left after removing those with callback `id`.
pub open spec fn without_id(s: Seq<Listener>, id: u64) -> Seq<Listener>
    decreases s.len(),
{
    if s.len() == 0 {
        s
    } else {
        without_id(s.drop_last(), id) + if s.last().id == id {
            Seq::empty()
        } else {
            seq![s.last()]
        }
    }
}

/// The callbacks an emitted event reaches, in order: those of listeners not
/// yet used up.
pub open spec fn called_ids(s: Seq<Listener>) -> Seq<u64>
    decreases s.len(),
{
    if s.len() == 0 {
        Seq::empty()
    } else {
        called_ids(s.drop_last()) + if s.last().used {
            Seq::empty()
        } else {
            seq![s.last().id]
        }
    }
}

/// The listeners after an event has been emitted: the one-shot ones are used up.
pub open spec fn after_emit(s: Seq<Listener>) -> Seq<Listener> {
    s.map_values(|l: Listener| if l.once { Listener { used: true, ..l } } else { l })
}

impl View for ListenerList {
    type V = Seq<Listener>;

    closed spec fn view(&self) -> Seq<Listener> {
        self.listeners@
    }
}

impl ListenerList {
    /// No listeners.
    pub fn new() -> (r: Self)
        ensures
            r@ == Seq::<Listener>::empty(),
    {
        ListenerList { listeners: Vec::new() }
    }

    /// The listeners, in the order they were added.
    pub fn listeners(&self) -> (r: &Vec<Listener>)
        ensures
            r@ == self@,
    {
        &self.listeners
    }

    /// Drops the one-shot listeners that have been called.
    pub fn clean(&mut self)
        ensures
            final(self)@ == live_listeners(old(self)@),
    {
        let mut kept: Vec<Listener> = Vec::new();
        let mut i: usize = 0;
        while i < self.listeners.len()
            invariant
                i <= self@.len(),
                self@ == old(self)@,
                kept@ == live_listeners(self@.take(i as int)),
            decreases self.listeners.len() - i,
        {
            let l = self.listeners[i];
            if !(l.once && l.used) {
                kept.push(l);
            }
            assert(self@.take(i + 1).drop_last() == self@.take(i as int));
            assert(kept@ =~= live_listeners(self@.take(i + 1)));
            i = i + 1;
        }
        assert(self@.take(i as int) == self@);
        self.listeners = kept;
    }

    /// Adds a listener for callback `id`, after dropping used-up ones.
    pub fn add(&mut self, id: u64, once: bool)
        ensures
            final(self)@ == live_listeners(old(self)@).push(Listener { id, once, used: false }),
    {
        self.clean();
        self.listeners.push(Listener { id, once, used: false });
    }

    /// Removes every listener with callback `id`, after dropping used-up ones.
    pub fn remove(&mut self, id: u64)
        ensures
            final(self)@ == without_id(live_listeners(old(self)@), id),
    {
        self.clean();
        let mut kept: Vec<Listener> = Vec::new();
        let mut i: usize = 0;
        while i < self.listeners.len()
            invariant
                i <= self@.len(),
                self@ == live_listeners(old(self)@),
                kept@ == without_id(self@.take(i as int), id),
            decreases self.listeners.len() - i,
        {
            let l = self.listeners[i];
            if l.id != id {
                kept.push(l);
            }
            assert(self@.take(i + 1).drop_last() == self@.take(i as int));
            assert(kept@ =~= without_id(self@.take(i + 1), id));
            i = i + 1;
        }
        assert(self@.take(i as int) == self@);
        self.listeners = kept;
    }

    /// Emits an event: gives the callbacks to call, in order, and uses up
    /// the one-shot listeners among them. Used-up listeners are dropped first.
    pub fn emit(&mut self) -> (r: Vec<u64>)
        ensures
            r@ == called_ids(live_listeners(old(self)@)),
            final(self)@ == after_emit(live_listeners(old(self)@)),
    {
        self.clean();
        let ghost cleaned = self@;
        let mut ids: Vec<u64> = Vec::new();
        let mut next: Vec<Listener> = Vec::new();
        let mut i: usize = 0;
        while i < self.listeners.len()
            invariant
                i <= self@.len(),
                self@ == cleaned,
                ids@ == called_ids(self@.take(i as int)),
                next@ == after_emit(self@.take(i as int)),
            decreases self.listeners.len() - i,
        {
            let l = self.listeners[i];
            if !l.used {
                ids.push(l.id);
            }
            if l.once {
                next.push(Listener { id: l.id, once: l.once, used: true });
            } else {
                next.push(l);
            }
            assert(self@.take(i + 1).drop_last() == self@.take(i as int));
            assert(ids@ =~= called_ids(self@.take(i + 1)));
            assert(next@ =~= after_emit(self@.take(i + 1)));
            i = i + 1;
        }
        assert(self@.take(i as int) == self@);
        self.listeners = next;
        ids
    }
}

/// The number of event kinds.
pub const EVENT_KINDS: usize = 13;

/// The slot of an event kind among the listener lists.
pub open spec fn kind_slot(t: EventType) -> int {
    match t {
        EventType::Error => 0,
        EventType::LoadStart => 1,
        EventType::ManifestLoaded => 2,
        EventType::Variant => 3,
        EventType::LowLatency => 4,
        EventType::Abr => 5,
        EventType::Dvr => 6,
        EventType::Realtime => 7,
        EventType::Destroyed => 8,
        EventType::Stopped => 9,
        EventType::Started => 10,
        EventType::Finished => 11,
        EventType::Visibility => 12,
    }
}

/// The slot of an event kind among the listener lists.
fn slot_of(t: EventType) -> (r: usize)
    ensures
        r == kind_slot(t),
        r < EVENT_KINDS,
{
    match t {
        EventType::Error => 0,
        EventType::LoadStart => 1,
        EventType::ManifestLoaded => 2,
        EventType::Variant => 3,
        EventType::LowLatency => 4,
        EventType::Abr => 5,
        EventType::Dvr => 6,
        EventType::Realtime => 7,
        EventType::Destroyed => 8,
        EventType::Stopped => 9,
        EventType::Started => 10,
        EventType::Finished => 11,
        EventType::Visibility => 12,
    }
}

/// The listeners of every event kind, one list per kind.
pub struct EventListeners {
    lists: Vec<ListenerList>,
}

impl View for EventListeners {
    type V = Seq<Seq<Listener>>;

    closed spec fn view(&self) -> Seq<Seq<Listener>> {
        self.lists@.map_values(|l: ListenerList| l@)
    }
}

/// Every list with its used-up one-shot listeners dropped.
pub open spec fn all_live(v: Seq<Seq<Listener>>) -> Seq<Seq<Listener>> {
    v.map_values(|l: Seq<Listener>| live_listeners(l))
}

/// The lists after adding a listener for callback `id` to kind `t`.
pub open spec fn lists_after_add(v: Seq<Seq<Listener>>, t: EventType, id: u64, once: bool) -> Seq<
    Seq<Listener>,
> {
    all_live(v).update(kind_slot(t), live_listeners(v[kind_slot(t)]).push(Listener { id, once, used: false }))
}

/// The lists after removing the listeners of kind `t` with callback `id`.
pub open spec fn lists_after_remove(v: Seq<Seq<Listener>>, t: EventType, id: u64) -> Seq<Seq<Listener>> {
    all_live(v).update(kind_slot(t), without_id(live_listeners(v[kind_slot(t)]), id))
}

/// The callbacks an event of kind `t` reaches.
pub open spec fn emitted_calls(v: Seq<Seq<Listener>>, t: EventType) -> Seq<u64> {
    called_ids(live_listeners(v[kind_slot(t)]))
}

/// The lists after an event of kind `t` has been emitted.
pub open spec fn lists_after_emit(v: Seq<Seq<Listener>>, t: EventType) -> Seq<Seq<Listener>> {
    all_live(v).update(kind_slot(t), after_emit(live_listeners(v[kind_slot(t)])))
}

impl EventListeners {
    /// Whether there is one list per event kind.
    pub open spec fn wf(&self) -> bool {
        self@.len() == EVENT_KINDS
    }

    /// No listeners of any kind.
    pub fn new() -> (r: Self)
        ensures
            r.wf(),
            forall|k: int| 0 <= k < EVENT_KINDS ==> (#[trigger] r@[k]) == Seq::<Listener>::empty(),
    {
        let mut lists: Vec<ListenerList> = Vec::new();
        let mut i: usize = 0;
        while i < EVENT_KINDS
            invariant
                i <= EVENT_KINDS,
                lists@.len() == i,
                forall|k: int| 0 <= k < i ==> (#[trigger] lists@[k])@ == Seq::<Listener>::empty(),
            decreases EVENT_KINDS - i,
        {
            lists.push(ListenerList::new());
            i = i + 1;
        }
        let r = EventListeners { lists };
        assert forall|k: int| 0 <= k < EVENT_KINDS implies (#[trigger] r@[k]) == Seq::<Listener>::empty() by {
            assert(r@[k] == lists@[k]@);
        }
        r
    }

    /// The listeners of kind `t`, in the order they were added.
    pub fn listeners_of(&self, t: EventType) -> (r: &Vec<Listener>)
        requires
            self.wf(),
        ensures
            r@ == self@[kind_slot(t)],
    {
        let k = slot_of(t);
        self.lists[k].listeners()
    }

    /// Adds a listener of kind `t` for callback `id`, after dropping the
    /// used-up one-shot listeners of every kind.
    pub fn add(&mut self, t: EventType, id: u64, once: bool)
        requires
            old(self).wf(),
        ensures
            final(self).wf(),
            final(self)@ == lists_after_add(old(self)@, t, id, once),
    {
        let ghost start = self@;
        self.clean_all();
        let ghost cleaned = self@;
        let ghost before_lists = self.lists@;
        let k = slot_of(t);
        let mut l = self.lists.remove(k);
        assert(l@ == cleaned[k as int]);
        assert(cleaned[k as int] == live_listeners(start[k as int]));
        l.add(id, once);
        self.lists.insert(k, l);
        proof {
            lemma_live_idempotent(start[k as int]);
            assert forall|j: int| 0 <= j < EVENT_KINDS && j != k implies (#[trigger] self@[j]) == cleaned[j] by {
                assert(self.lists@[j] == before_lists[j]);
                assert(self@[j] == self.lists@[j]@);
                assert(cleaned[j] == before_lists[j]@);
            }
            assert(self@[k as int] == self.lists@[k as int]@);
        }
        assert(self@ =~= lists_after_add(start, t, id, once));
    }

    /// Removes the listeners of kind `t` with callback `id`, after dropping
    /// the used-up one-shot listeners of every kind.
    pub fn remove(&mut self, t: EventType, id: u64)
        requires
            old(self).wf(),
        ensures
            final(self).wf(),
            final(self)@ == lists_after_remove(old(self)@, t, id),
    {
        let ghost start = self@;
        self.clean_all();
        let ghost cleaned = self@;
        let ghost before_lists = self.lists@;
        let k = slot_of(t);
        let mut l = self.lists.remove(k);
        assert(l@ == cleaned[k as int]);
        assert(cleaned[k as int] == live_listeners(start[k as int]));
        l.remove(id);
        self.lists.insert(k, l);
        proof {
            lemma_live_idempotent(start[k as int]);
            assert forall|j: int| 0 <= j < EVENT_KINDS && j != k implies (#[trigger] self@[j]) == cleaned[j] by {
                assert(self.lists@[j] == before_lists[j]);
                assert(self@[j] == self.lists@[j]@);
                assert(cleaned[j] == before_lists[j]@);
            }
            assert(self@[k as int] == self.lists@[k as int]@);
        }
        assert(self@ =~= lists_after_remove(start, t, id));
    }

    /// Emits an event of kind `t`: gives the callbacks to call, in order, and
    /// uses up the one-shot listeners among them. Used-up listeners of every
    /// kind are dropped first; listeners of other kinds are not called.
    pub fn emit(&mut self, t: EventType) -> (r: Vec<u64>)
        requires
            old(self).wf(),
        ensures
            final(self).wf(),
            r@ == emitted_calls(old(self)@, t),
            final(self)@ == lists_after_emit(old(self)@, t),
    {
        let ghost start = self@;
        self.clean_all();
        let ghost cleaned = self@;
        let ghost before_lists = self.lists@;
        let k = slot_of(t);
        let mut l = self.lists.remove(k);
        assert(l@ == cleaned[k as int]);
        assert(cleaned[k as int] == live_listeners(start[k as int]));
        let ids = l.emit();
        self.lists.insert(k, l);
        proof {
            lemma_live_idempotent(start[k as int]);
            assert forall|j: int| 0 <= j < EVENT_KINDS && j != k implies (#[trigger] self@[j]) == cleaned[j] by {
                assert(self.lists@[j] == before_lists[j]);
                assert(self@[j] == self.lists@[j]@);
                assert(cleaned[j] == before_lists[j]@);
            }
            assert(self@[k as int] == self.lists@[k as int]@);
        }
        assert(self@ =~= lists_after_emit(start, t));
        ids
    }

    /// Drops the used-up one-shot listeners of every kind.
    fn clean_all(&mut self)
        requires
            old(self).wf(),
        ensures
            final(self).wf(),
            final(self)@ == all_live(old(self)@),
    {
        let ghost start = self@;
        let mut i: usize = 0;
        while i < self.lists.len()
            invariant
                self.lists@.len() == EVENT_KINDS,
                start.len() == EVENT_KINDS,
                i <= EVENT_KINDS,
                forall|k: int| 0 <= k < i ==> (#[trigger] self@[k]) == live_listeners(start[k]),
                forall|k: int| i <= k < EVENT_KINDS ==> (#[trigger] self@[k]) == start[k],
            decreases EVENT_KINDS - i,
        {
            let ghost before = self@;
            let mut l = self.lists.remove(i);
            l.clean();
            self.lists.insert(i, l);
            assert forall|k: int| 0 <= k < EVENT_KINDS implies (#[trigger] self@[k]) == (if k == i {
                live_listeners(before[k])
            } else {
                before[k]
            }) by {
                assert(self@[k] == self.lists@[k]@);
            }
            i = i + 1;
        }
        assert(self@ =~= all_live(start));
    }
}

/// Cleaning twice is cleaning once.
proof fn lemma_live_idempotent(s: Seq<Listener>)
    ensures
        live_listeners(live_listeners(s)) == live_listeners(s),
{
    lemma_live_listeners_fresh(s);
    lemma_live_listeners_keeps_fresh_all(live_listeners(s));
}

/// The listeners that stay after cleaning are none of the used-up one-shot ones.
proof fn lemma_live_listeners_fresh(s: Seq<Listener>)
    ensures
        forall|i: int| 0 <= i < live_listeners(s).len() ==> !((#[trigger] live_listeners(s)[i]).once
            && live_listeners(s)[i].used),
        forall|i: int|
            0 <= i < s.len() && !s[i].once ==> live_listeners(s).contains(#[trigger] s[i]),
    decreases s.len(),
{
    if s.len() > 0 {
        lemma_live_listeners_fresh(s.drop_last());
        let front = live_listeners(s.drop_last());
        assert forall|i: int| 0 <= i < live_listeners(s).len() implies !((
        #[trigger] live_listeners(s)[i]).once && live_listeners(s)[i].used) by {
            if i < front.len() {
                assert(live_listeners(s)[i] == front[i]);
            }
        }
        assert forall|i: int| 0 <= i < s.len() && !s[i].once implies live_listeners(s).contains(
            #[trigger] s[i],
        ) by {
            if i < s.len() - 1 {
                assert(s.drop_last()[i] == s[i]);
                let j = choose|j: int| 0 <= j < front.len() && front[j] == s[i];
                assert(live_listeners(s)[j] == s[i]);
            } else {
                assert(live_listeners(s)[front.len() as int] == s[i]);
            }
        }
    }
}

/// A listener added with `once` (under an id no other listener has) is
/// called by the next emitted event and not by the one after it.
pub proof fn law_once_listener_called_once(s: Seq<Listener>, id: u64)
    requires
        forall|i: int| 0 <= i < s.len() ==> (#[trigger] s[i]).id != id,
    ensures
        ({
            let added = live_listeners(s).push(Listener { id, once: true, used: false });
            let first = after_emit(live_listeners(added));
            &&& called_ids(live_listeners(added)).contains(id)
            &&& !called_ids(live_listeners(first)).contains(id)
        }),
{
    let l = Listener { id, once: true, used: false };
    let live = live_listeners(s);
    let added = live.push(l);
    lemma_live_listeners_fresh(s);
    lemma_live_listeners_keeps_fresh_all(live);
    assert(added.drop_last() == live);
    assert(live_listeners(added) == live_listeners(live) + seq![l]);
    assert(live_listeners(added) == added);
    lemma_called_contains(added, id);
    lemma_ids_of_live(s, id);
    assert forall|i: int| 0 <= i < added.len() - 1 implies (#[trigger] added[i]).id != id by {
        assert(added[i] == live[i]);
    }
    lemma_not_called_after_emit(added, id);
}

/// Cleaning a list with no used-up one-shot listener changes nothing.
proof fn lemma_live_listeners_keeps_fresh_all(s: Seq<Listener>)
    requires
        forall|i: int| 0 <= i < s.len() ==> !((#[trigger] s[i]).once && s[i].used),
    ensures
        live_listeners(s) == s,
    decreases s.len(),
{
    if s.len() > 0 {
        let d = s.drop_last();
        assert forall|i: int| 0 <= i < d.len() implies !((#[trigger] d[i]).once && d[i].used) by {
            assert(d[i] == s[i]);
        }
        lemma_live_listeners_keeps_fresh_all(d);
        assert(live_listeners(s) =~= d + seq![s.last()]);
    }
}

/// An unused last listener is among the callbacks called.
proof fn lemma_called_contains(s: Seq<Listener>, id: u64)
    requires
        s.len() > 0,
        s.last().id == id,
        !s.last().used,
    ensures
        called_ids(s).contains(id),
{
    let c = called_ids(s);
    assert(c == called_ids(s.drop_last()) + seq![id]);
    assert(c[c.len() - 1] == id);
}

/// The live listeners of a list are among its listeners.
proof fn lemma_ids_of_live(s: Seq<Listener>, id: u64)
    requires
        forall|i: int| 0 <= i < s.len() ==> (#[trigger] s[i]).id != id,
    ensures
        forall|i: int| 0 <= i < live_listeners(s).len() ==> (#[trigger] live_listeners(s)[i]).id != id,
    decreases s.len(),
{
    if s.len() > 0 {
        let d = s.drop_last();
        assert forall|i: int| 0 <= i < d.len() implies (#[trigger] d[i]).id != id by {
            assert(d[i] == s[i]);
        }
        lemma_ids_of_live(d, id);
        assert forall|i: int| 0 <= i < live_listeners(s).len() implies (
        #[trigger] live_listeners(s)[i]).id != id by {
            if i < live_listeners(d).len() {
                assert(live_listeners(s)[i] == live_listeners(d)[i]);
            }
        }
    }
}

/// After an event, a one-shot listener whose id no other listener has is
/// not called again.
proof fn lemma_not_called_after_emit(s: Seq<Listener>, id: u64)
    requires
        s.len() > 0,
        s.last().id == id,
        s.last().once,
        forall|i: int| 0 <= i < s.len() - 1 ==> (#[trigger] s[i]).id != id,
    ensures
        !called_ids(live_listeners(after_emit(s))).contains(id),
{
    let e = after_emit(s);
    assert forall|i: int| 0 <= i < e.len() implies (#[trigger] e[i]).id != id || e[i].used by {
        if i < s.len() - 1 {
            assert(s[i].id != id);
        }
    }
    lemma_live_keeps_unreached(e, id);
    lemma_called_without(live_listeners(e), id);
}

/// Cleaning keeps every listener either without callback `id` or used.
proof fn lemma_live_keeps_unreached(s: Seq<Listener>, id: u64)
    requires
        forall|i: int| 0 <= i < s.len() ==> (#[trigger] s[i]).id != id || s[i].used,
    ensures
        forall|i: int|
            0 <= i < live_listeners(s).len() ==> (#[trigger] live_listeners(s)[i]).id != id
                || live_listeners(s)[i].used,
    decreases s.len(),
{
    if s.len() > 0 {
        let d = s.drop_last();
        assert forall|i: int| 0 <= i < d.len() implies (#[trigger] d[i]).id != id || d[i].used by {
            assert(d[i] == s[i]);
        }
        lemma_live_keeps_unreached(d, id);
        assert forall|i: int| 0 <= i < live_listeners(s).len() implies (
        #[trigger] live_listeners(s)[i]).id != id || live_listeners(s)[i].used by {
            if i < live_listeners(d).len() {
                assert(live_listeners(s)[i] == live_listeners(d)[i]);
            }
        }
    }
}

/// No callback with `id` is called from a list holding no unused listener with `id`.
proof fn lemma_called_without(s: Seq<Listener>, id: u64)
    requires
        forall|i: int| 0 <= i < s.len() ==> (#[trigger] s[i]).id != id || s[i].used,
    ensures
        !called_ids(s).contains(id),
    decreases s.len(),
{
    if s.len() > 0 {
        let d = s.drop_last();
        assert forall|i: int| 0 <= i < d.len() implies (#[trigger] d[i]).id != id || d[i].used by {
            assert(d[i] == s[i]);
        }
        lemma_called_without(d, id);
        let c = called_ids(s);
        assert forall|j: int| 0 <= j < c.len() implies c[j] != id by {
            if j < called_ids(d).len() {
                assert(c[j] == called_ids(d)[j]);
            }
        }
    }
}


/// Cleaning a list with a fresh listener appended keeps that listener last.
proof fn lemma_live_push_fresh(x: Seq<Listener>, l: Listener)
    requires
        !l.used,
    ensures
        live_listeners(live_listeners(x).push(l)) == live_listeners(x).push(l),
{
    lemma_live_idempotent(x);
    let y = live_listeners(x).push(l);
    assert(y.drop_last() == live_listeners(x));
    assert(live_listeners(y) =~= live_listeners(live_listeners(x)) + seq![l]);
}

/// Cleaning a list with one more listener cleans the list and keeps the
/// listener unless it is a used-up one-shot listener.
proof fn lemma_live_push(x: Seq<Listener>, l: Listener)
    ensures
        live_listeners(x.push(l)) == live_listeners(x) + if l.once && l.used {
            Seq::<Listener>::empty()
        } else {
            seq![l]
        },
{
    assert(x.push(l).drop_last() == x);
}

/// The callbacks of a list with one more listener.
proof fn lemma_called_push(x: Seq<Listener>, l: Listener)
    ensures
        called_ids(x.push(l)) == called_ids(x) + if l.used {
            Seq::<u64>::empty()
        } else {
            seq![l.id]
        },
{
    assert(x.push(l).drop_last() == x);
}

/// Emitting over a list with one more listener.
proof fn lemma_after_emit_push(x: Seq<Listener>, l: Listener)
    ensures
        after_emit(x.push(l)) == after_emit(x).push(
            if l.once {
                Listener { used: true, ..l }
            } else {
                l
            },
        ),
{
    assert(after_emit(x.push(l)) =~= after_emit(x).push(
        if l.once {
            Listener { used: true, ..l }
        } else {
            l
        },
    ));
}

/// Listeners of one kind are reached only by events of that kind, in the
/// order they were added, and a one-shot listener only once: after a
/// one-shot listener `f1` and a lasting listener `f2` of kind `t`, then a
/// lasting listener `g` of another kind `u` are added, the next event of
/// kind `t` calls what it called before and then `f1` and `f2`; the event
/// of kind `t` after it calls what remains of the earlier listeners and
/// then `f2` alone; `g` is never called by these events, and events of kind
/// `u` keep calling it.
pub proof fn law_listeners_by_kind(
    v: Seq<Seq<Listener>>,
    t: EventType,
    u: EventType,
    f1: u64,
    f2: u64,
    g: u64,
)
    requires
        v.len() == EVENT_KINDS,
        kind_slot(t) != kind_slot(u),
        f1 != f2 && f1 != g && f2 != g,
        forall|j: int| 0 <= j < v[kind_slot(t)].len() ==> (#[trigger] v[kind_slot(t)][j]).id != f1
            && v[kind_slot(t)][j].id != f2 && v[kind_slot(t)][j].id != g,
    ensures
        ({
            let st = kind_slot(t);
            let a1 = lists_after_add(v, t, f1, true);
            let a2 = lists_after_add(a1, t, f2, false);
            let b = lists_after_add(a2, u, g, false);
            let c = lists_after_emit(b, t);
            let before = called_ids(live_listeners(v[st]));
            let remaining = called_ids(live_listeners(after_emit(live_listeners(v[st]))));
            &&& emitted_calls(b, t) == before + seq![f1, f2]
            &&& emitted_calls(c, t) == remaining + seq![f2]
            &&& !before.contains(f1) && !before.contains(f2) && !before.contains(g)
            &&& !remaining.contains(f1) && !remaining.contains(f2) && !remaining.contains(g)
            &&& emitted_calls(b, u).contains(g)
            &&& emitted_calls(c, u).contains(g)
        }),
{
    let st = kind_slot(t);
    let su = kind_slot(u);
    let l1 = Listener { id: f1, once: true, used: false };
    let l2 = Listener { id: f2, once: false, used: false };
    let lg = Listener { id: g, once: false, used: false };
    let a1 = lists_after_add(v, t, f1, true);
    let a2 = lists_after_add(a1, t, f2, false);
    let b = lists_after_add(a2, u, g, false);
    let c = lists_after_emit(b, t);
    let lv = live_listeners(v[st]);
    // The list of kind `t` before the first event.
    assert(a1[st] == lv.push(l1));
    lemma_live_push_fresh(v[st], l1);
    assert(a2[st] == live_listeners(a1[st]).push(l2));
    let big = lv.push(l1).push(l2);
    assert(a2[st] == big);
    lemma_live_push_fresh(a1[st], l2);
    assert(live_listeners(big) == big);
    assert(b[st] == live_listeners(a2[st]));
    assert(live_listeners(b[st]) == big);
    lemma_called_push(lv.push(l1), l2);
    lemma_called_push(lv, l1);
    lemma_live_idempotent(v[st]);
    assert(called_ids(big) =~= called_ids(lv) + seq![f1, f2]);
    // The list of kind `t` before the second event.
    let l1u = Listener { used: true, ..l1 };
    lemma_after_emit_push(lv.push(l1), l2);
    lemma_after_emit_push(lv, l1);
    let e = after_emit(lv);
    assert(after_emit(big) == e.push(l1u).push(l2));
    assert(c[st] == after_emit(big));
    lemma_live_push(e.push(l1u), l2);
    lemma_live_push(e, l1u);
    assert(live_listeners(c[st]) =~= live_listeners(e).push(l2));
    lemma_called_push(live_listeners(e), l2);
    assert(emitted_calls(c, t) =~= called_ids(live_listeners(e)) + seq![f2]);
    // None of the new ids among the earlier listeners.
    assert forall|i: int| 0 <= i < v[st].len() implies (#[trigger] v[st][i]).id != f1 || v[st][i].used by {}
    lemma_live_keeps_unreached(v[st], f1);
    lemma_called_without(lv, f1);
    assert forall|i: int| 0 <= i < v[st].len() implies (#[trigger] v[st][i]).id != f2 || v[st][i].used by {}
    lemma_live_keeps_unreached(v[st], f2);
    lemma_called_without(lv, f2);
    assert forall|i: int| 0 <= i < v[st].len() implies (#[trigger] v[st][i]).id != g || v[st][i].used by {}
    lemma_live_keeps_unreached(v[st], g);
    lemma_called_without(lv, g);
    lemma_ids_of_live(v[st], f1);
    lemma_ids_of_live(v[st], f2);
    lemma_ids_of_live(v[st], g);
    assert forall|i: int| 0 <= i < e.len() implies (#[trigger] e[i]).id != f1 && e[i].id != f2
        && e[i].id != g by {
        assert(e[i].id == lv[i].id);
    }
    assert forall|i: int| 0 <= i < e.len() implies (#[trigger] e[i]).id != f1 || e[i].used by {}
    lemma_live_keeps_unreached(e, f1);
    lemma_called_without(live_listeners(e), f1);
    assert forall|i: int| 0 <= i < e.len() implies (#[trigger] e[i]).id != f2 || e[i].used by {}
    lemma_live_keeps_unreached(e, f2);
    lemma_called_without(live_listeners(e), f2);
    assert forall|i: int| 0 <= i < e.len() implies (#[trigger] e[i]).id != g || e[i].used by {}
    lemma_live_keeps_unreached(e, g);
    lemma_called_without(live_listeners(e), g);
    // The list of kind `u`.
    let big_g = live_listeners(a2[su]).push(lg);
    assert(b[su] == big_g);
    lemma_live_push_fresh(a2[su], lg);
    lemma_called_contains(big_g, g);
    assert(c[su] == live_listeners(b[su]));
    lemma_live_idempotent(b[su]);
    assert(live_listeners(c[su]) == big_g);
}

} // verus!
