//! Bookkeeping of the handlers that subscriptions attach: which handler runs for
//! an event or an end-of-stored-events (EOSE) notice, and which subscriptions
//! close themselves.
//!
//! Handlers themselves are user code; the registry refers to each one by the
//! number that the caller gave it when it was attached.
use vstd::prelude::*;

verus! {

/// Most handlers of each kind that the registry holds at once.
pub const HANDLER_CAPACITY: usize = 128;

/// An attached handler: the subscription handle, the handler's number, and
/// whether the subscription closes at EOSE.
pub type HandlerEntry = (i32, u32, bool);

/// Fixed-capacity storage for the handlers of one kind.
pub type HandlerList = heapless::Vec<HandlerEntry, 128>;

#[verifier::external_type_specification]
#[verifier::external_body]
#[verifier::reject_recursive_types(T)]
pub struct ExHeaplessVec<T, const N: usize>(heapless::Vec<T, N>);

/// The entries that a handler list holds, in order.
pub uninterp spec fn entries(v: heapless::Vec<(i32, u32, bool), 128>) -> Seq<(i32, u32, bool)>;

/// `heapless::Vec::new`: an empty vector.
#[verifier::external_body]
fn list_new() -> (v: HandlerList)
    ensures
        entries(v) == Seq::<HandlerEntry>::empty(),
{
    heapless::Vec::new()
}

/// `heapless::Vec::as_slice`: the items in order; a vector never holds more than
/// its capacity.
#[verifier::external_body]
fn list_as_slice(v: &HandlerList) -> (s: &[HandlerEntry])
    ensures
        s@ == entries(*v) && s@.len() <= HANDLER_CAPACITY,
{
    v.as_slice()
}

/// `heapless::Vec::push`: appends the item when the vector is not full, and
/// otherwise leaves the vector as it was; the result says which.
#[verifier::external_body]
fn list_push(v: &mut HandlerList, e: HandlerEntry) -> (pushed: bool)
    ensures
        pushed <==> entries(*old(v)).len() < HANDLER_CAPACITY,
        pushed ==> entries(*final(v)) == entries(*old(v)).push(e),
        !pushed ==> entries(*final(v)) == entries(*old(v)),
{
    v.push(e).is_ok()
}

/// `heapless::Vec::swap_remove`: removes the item at `i`, moving the last item
/// into its place.
#[verifier::external_body]
fn list_swap_remove(v: &mut HandlerList, i: usize) -> (r: HandlerEntry)
    requires
        i < entries(*old(v)).len(),
    ensures
        r == entries(*old(v))[i as int],
        entries(*final(v)) == entries(*old(v)).update(
            i as int,
            entries(*old(v)).last(),
        ).drop_last(),
{
    v.swap_remove(i)
}

/// `heapless::Vec::retain`, keeping the entries of every subscription but
/// `handle`, in their order.
#[verifier::external_body]
fn list_retain_others(v: &mut HandlerList, handle: i32)
    ensures
        entries(*final(v)) == without_key(entries(*old(v)), entry_key(), handle),
{
    v.retain(|e| entry_kept(e, handle))
}

/// Whether an entry belongs to a subscription other than `handle`.
fn entry_kept(e: &HandlerEntry, handle: i32) -> (r: bool)
    ensures
        r == (e.0 != handle),
{
    e.0 != handle
}

// ---------------------------------------------------------------------------
// Specification helpers over sequences keyed by a subscription handle.
// ---------------------------------------------------------------------------

/// No two entries share a subscription handle.
pub open spec fn unique_keys<A>(s: Seq<A>, key: spec_fn(A) -> i32) -> bool {
    forall|i: int, j: int| 0 <= i < j < s.len() ==> key(s[i]) != key(s[j])
}

/// Some entry carries subscription handle `h`.
pub open spec fn has_key<A>(s: Seq<A>, key: spec_fn(A) -> i32, h: i32) -> bool {
    exists|i: int| 0 <= i < s.len() && key(s[i]) == h
}

/// `i` is the first position whose entry carries `h`.
pub open spec fn first_key_at<A>(s: Seq<A>, key: spec_fn(A) -> i32, h: i32, i: int) -> bool {
    &&& 0 <= i < s.len()
    &&& key(s[i]) == h
    &&& forall|j: int| 0 <= j < i ==> key(s[j]) != h
}

/// The entries whose handle is not `h`, in their order.
pub open spec fn without_key<A>(s: Seq<A>, key: spec_fn(A) -> i32, h: i32) -> Seq<A> {
    s.filter(other_key(key, h))
}

/// Holds of the entries whose handle is not `h`.
pub open spec fn other_key<A>(key: spec_fn(A) -> i32, h: i32) -> spec_fn(A) -> bool {
    |e: A| key(e) != h
}

/// The subscription handle of an entry.
pub open spec fn entry_key() -> spec_fn(HandlerEntry) -> i32 {
    |e: HandlerEntry| e.0
}

/// Dropping the entries of `h` from a sequence without repeated handles removes
/// exactly the one at its position, or nothing when there is none.
proof fn lemma_filter_unique<A>(s: Seq<A>, key: spec_fn(A) -> i32, h: i32)
    requires
        unique_keys(s, key),
    ensures
        !has_key(s, key, h) ==> without_key(s, key, h) == s,
        forall|i: int| first_key_at(s, key, h, i) ==> without_key(s, key, h) == s.remove(i),
    decreases s.len(),
{
    let pred = other_key(key, h);
    if s.len() == 0 {
        reveal(Seq::filter);
    } else {
        let d = s.drop_last();
        assert(unique_keys(d, key));
        lemma_filter_unique(d, key, h);
        assert(d.push(s.last()) =~= s);
        d.lemma_filter_push(s.last(), pred);
        if !has_key(s, key, h) {
            assert(!has_key(d, key, h)) by {
                if has_key(d, key, h) {
                    let k = choose|k: int| 0 <= k < d.len() && key(d[k]) == h;
                    assert(key(s[k]) == h);
                }
            }
            assert(key(s.last()) != h);
        }
        assert forall|i: int| first_key_at(s, key, h, i) implies without_key(s, key, h) == s.remove(i) by {
            if i == s.len() - 1 {
                assert(!has_key(d, key, h)) by {
                    if has_key(d, key, h) {
                        let k = choose|k: int| 0 <= k < d.len() && key(d[k]) == h;
                        assert(key(s[k]) == h);
                    }
                }
                assert(s.remove(i) =~= d);
            } else {
                assert(first_key_at(d, key, h, i));
                assert(key(s.last()) != h) by {
                    assert(key(s[i]) != key(s[s.len() - 1]));
                }
                assert(d.remove(i).push(s.last()) =~= s.remove(i));
            }
        }
    }
}

/// Removing one entry keeps the handles distinct.
proof fn lemma_remove_unique<A>(s: Seq<A>, key: spec_fn(A) -> i32, i: int)
    requires
        unique_keys(s, key),
        0 <= i < s.len(),
    ensures
        unique_keys(s.remove(i), key),
{
    let r = s.remove(i);
    assert forall|a: int, b: int| 0 <= a < b < r.len() implies key(r[a]) != key(r[b]) by {
        let a2 = if a < i { a } else { a + 1 };
        let b2 = if b < i { b } else { b + 1 };
        assert(r[a] == s[a2]);
        assert(r[b] == s[b2]);
    }
}

/// Swap-removing one entry keeps the handles distinct.
proof fn lemma_swap_remove_unique<A>(s: Seq<A>, key: spec_fn(A) -> i32, i: int)
    requires
        unique_keys(s, key),
        0 <= i < s.len(),
    ensures
        unique_keys(s.update(i, s.last()).drop_last(), key),
        !has_key(s.update(i, s.last()).drop_last(), key, key(s[i])),
        forall|h: i32| h != key(s[i]) ==> (#[trigger] has_key(s.update(i, s.last()).drop_last(), key, h) <==> has_key(s, key, h)),
{
    let r = s.update(i, s.last()).drop_last();
    let n = s.len() - 1;
    assert forall|a: int, b: int| 0 <= a < b < r.len() implies key(r[a]) != key(r[b]) by {
        let a2 = if a == i { n } else { a };
        let b2 = if b == i { n } else { b };
        assert(r[a] == s[a2]);
        assert(r[b] == s[b2]);
    }
    assert(!has_key(r, key, key(s[i]))) by {
        if has_key(r, key, key(s[i])) {
            let k = choose|k: int| 0 <= k < r.len() && key(r[k]) == key(s[i]);
            let k2 = if k == i { n } else { k };
            assert(r[k] == s[k2]);
        }
    }
    assert forall|h: i32| h != key(s[i]) implies (has_key(r, key, h) <==> has_key(s, key, h)) by {
        if has_key(r, key, h) {
            let k = choose|k: int| 0 <= k < r.len() && key(r[k]) == h;
            let k2 = if k == i { n } else { k };
            assert(r[k] == s[k2]);
        }
        if has_key(s, key, h) {
            let k = choose|k: int| 0 <= k < s.len() && key(s[k]) == h;
            if k == n {
                if i == n {
                    assert(false);
                } else {
                    assert(r[i] == s[k]);
                }
            } else {
                assert(k != i);
                assert(r[k] == s[k]);
            }
        }
    }
}

/// Appending a fresh handle keeps the handles distinct.
proof fn lemma_push_unique<A>(s: Seq<A>, key: spec_fn(A) -> i32, e: A)
    requires
        unique_keys(s, key),
        !has_key(s, key, key(e)),
    ensures
        unique_keys(s.push(e), key),
{
    let r = s.push(e);
    assert forall|a: int, b: int| 0 <= a < b < r.len() implies key(r[a]) != key(r[b]) by {
        assert(r[a] == s[a]);
        if b == s.len() {
            assert(key(s[a]) != key(e));
        } else {
            assert(r[b] == s[b]);
        }
    }
}


/// Under distinct handles, the chosen position of `h` is the one that holds it.
proof fn lemma_key_index_is<A>(s: Seq<A>, key: spec_fn(A) -> i32, h: i32, i: int)
    requires
        unique_keys(s, key),
        0 <= i < s.len(),
        key(s[i]) == h,
    ensures
        has_key(s, key, h),
        key_index(s, key, h) == i,
{
    assert(0 <= i < s.len() && key(s[i]) == h);
    let k = key_index(s, key, h);
    if k < i {
        assert(key(s[k]) != key(s[i]));
    } else if i < k {
        assert(key(s[i]) != key(s[k]));
    }
}

/// When every entry of `g` in `r` also stands in `s`, both find the same entry
/// for `g`.
proof fn lemma_lookup_agree<A>(s: Seq<A>, r: Seq<A>, key: spec_fn(A) -> i32, g: i32)
    requires
        unique_keys(s, key),
        unique_keys(r, key),
        has_key(r, key, g),
        forall|k: int| 0 <= k < r.len() && key(r[k]) == g ==> s.contains(r[k]),
    ensures
        has_key(s, key, g),
        r[key_index(r, key, g)] == s[key_index(s, key, g)],
{
    let k = key_index(r, key, g);
    assert(s.contains(r[k]));
    let j = choose|j: int| 0 <= j < s.len() && s[j] == r[k];
    lemma_key_index_is(s, key, g, j);
}

/// What removing the entry at `i` does to the lookups.
proof fn lemma_remove_lookup<A>(s: Seq<A>, key: spec_fn(A) -> i32, i: int)
    requires
        unique_keys(s, key),
        0 <= i < s.len(),
    ensures
        unique_keys(s.remove(i), key),
        !has_key(s.remove(i), key, key(s[i])),
        forall|g: i32|
            g != key(s[i]) ==> (#[trigger] has_key(s.remove(i), key, g) == has_key(s, key, g)) && (
            has_key(s.remove(i), key, g) ==> s.remove(i)[key_index(s.remove(i), key, g)]
                == s[key_index(s, key, g)]),
{
    let r = s.remove(i);
    lemma_remove_unique(s, key, i);
    assert(!has_key(r, key, key(s[i]))) by {
        if has_key(r, key, key(s[i])) {
            let k = choose|k: int| 0 <= k < r.len() && key(r[k]) == key(s[i]);
            let k2 = if k < i { k } else { k + 1 };
            assert(r[k] == s[k2]);
        }
    }
    assert forall|g: i32| g != key(s[i]) implies (#[trigger] has_key(r, key, g) == has_key(s, key, g)) && (
    has_key(r, key, g) ==> r[key_index(r, key, g)] == s[key_index(s, key, g)]) by {
        if has_key(s, key, g) {
            let k = choose|k: int| 0 <= k < s.len() && key(s[k]) == g;
            assert(k != i);
            let k2 = if k < i { k } else { k - 1 };
            assert(r[k2] == s[k]);
        }
        if has_key(r, key, g) {
            assert forall|k: int| 0 <= k < r.len() && key(r[k]) == g implies s.contains(r[k]) by {
                let k2 = if k < i { k } else { k + 1 };
                assert(r[k] == s[k2]);
            }
            lemma_lookup_agree(s, r, key, g);
        }
    }
}

/// What swap-removing the entry at `i` does to the lookups.
proof fn lemma_swap_remove_lookup<A>(s: Seq<A>, key: spec_fn(A) -> i32, i: int)
    requires
        unique_keys(s, key),
        0 <= i < s.len(),
    ensures
        unique_keys(s.update(i, s.last()).drop_last(), key),
        !has_key(s.update(i, s.last()).drop_last(), key, key(s[i])),
        forall|g: i32|
            g != key(s[i]) ==> (#[trigger] has_key(s.update(i, s.last()).drop_last(), key, g)
                == has_key(s, key, g)) && (has_key(s.update(i, s.last()).drop_last(), key, g)
                ==> s.update(i, s.last()).drop_last()[key_index(
                s.update(i, s.last()).drop_last(),
                key,
                g,
            )] == s[key_index(s, key, g)]),
{
    let r = s.update(i, s.last()).drop_last();
    let n = s.len() - 1;
    lemma_swap_remove_unique(s, key, i);
    assert forall|g: i32| g != key(s[i]) implies (#[trigger] has_key(r, key, g) == has_key(s, key, g)) && (
    has_key(r, key, g) ==> r[key_index(r, key, g)] == s[key_index(s, key, g)]) by {
        if has_key(r, key, g) {
            assert forall|k: int| 0 <= k < r.len() && key(r[k]) == g implies s.contains(r[k]) by {
                let k2 = if k == i { n } else { k };
                assert(r[k] == s[k2]);
            }
            lemma_lookup_agree(s, r, key, g);
        }
    }
}

/// What appending an entry for a handle not yet present does to the lookups.
proof fn lemma_push_lookup<A>(s: Seq<A>, key: spec_fn(A) -> i32, e: A)
    requires
        unique_keys(s, key),
        !has_key(s, key, key(e)),
    ensures
        unique_keys(s.push(e), key),
        has_key(s.push(e), key, key(e)),
        s.push(e)[key_index(s.push(e), key, key(e))] == e,
        forall|g: i32|
            g != key(e) ==> (#[trigger] has_key(s.push(e), key, g) == has_key(s, key, g)) && (
            has_key(s.push(e), key, g) ==> s.push(e)[key_index(s.push(e), key, g)]
                == s[key_index(s, key, g)]),
{
    let r = s.push(e);
    lemma_push_unique(s, key, e);
    lemma_key_index_is(r, key, key(e), s.len() as int);
    assert forall|g: i32| g != key(e) implies (#[trigger] has_key(r, key, g) == has_key(s, key, g)) && (
    has_key(r, key, g) ==> r[key_index(r, key, g)] == s[key_index(s, key, g)]) by {
        if has_key(s, key, g) {
            let k = choose|k: int| 0 <= k < s.len() && key(s[k]) == g;
            assert(r[k] == s[k]);
        }
        if has_key(r, key, g) {
            assert forall|k: int| 0 <= k < r.len() && key(r[k]) == g implies s.contains(r[k]) by {
                assert(k < s.len());
                assert(r[k] == s[k]);
            }
            lemma_lookup_agree(s, r, key, g);
        }
    }
}

/// What dropping every entry of `h` does to the lookups.
proof fn lemma_filter_lookup<A>(s: Seq<A>, key: spec_fn(A) -> i32, h: i32)
    requires
        unique_keys(s, key),
    ensures
        unique_keys(without_key(s, key, h), key),
        !has_key(without_key(s, key, h), key, h),
        without_key(s, key, h).len() == if has_key(s, key, h) { s.len() - 1 } else { s.len() as int },
        forall|g: i32|
            g != h ==> (#[trigger] has_key(without_key(s, key, h), key, g) == has_key(s, key, g))
                && (has_key(without_key(s, key, h), key, g) ==> without_key(s, key, h)[key_index(
                without_key(s, key, h),
                key,
                g,
            )] == s[key_index(s, key, g)]),
{
    lemma_filter_unique(s, key, h);
    if has_key(s, key, h) {
        let k = choose|k: int| 0 <= k < s.len() && key(s[k]) == h;
        lemma_key_index_is(s, key, h, k);
        assert(first_key_at(s, key, h, k)) by {
            assert forall|j: int| 0 <= j < k implies key(s[j]) != h by {
                assert(key(s[j]) != key(s[k]));
            }
        }
        lemma_remove_lookup(s, key, k);
    }
}

// ---------------------------------------------------------------------------
// The registry.
// ---------------------------------------------------------------------------

/// The handlers attached to subscriptions.
///
/// Each subscription has at most one event handler and at most one EOSE
/// handler; attaching another replaces the one before.
pub struct Registry {
    on_event: HandlerList,
    on_eose: HandlerList,
}

/// The position of some entry of `h`, if any.
pub open spec fn key_index<A>(s: Seq<A>, key: spec_fn(A) -> i32, h: i32) -> int {
    choose|i: int| 0 <= i < s.len() && key(s[i]) == h
}


impl Registry {
    /// The attached event handlers, in storage order.
    pub closed spec fn events(&self) -> Seq<HandlerEntry> {
        entries(self.on_event)
    }

    /// The attached EOSE handlers, in storage order.
    pub closed spec fn eoses(&self) -> Seq<HandlerEntry> {
        entries(self.on_eose)
    }

    /// Each list fits its capacity and names each subscription at most once.
    pub open spec fn wf(&self) -> bool {
        &&& self.events().len() <= HANDLER_CAPACITY
        &&& self.eoses().len() <= HANDLER_CAPACITY
        &&& unique_keys(self.events(), entry_key())
        &&& unique_keys(self.eoses(), entry_key())
    }

    /// The event handler of subscription `h` and its close-at-EOSE flag.
    pub open spec fn event_handler(&self, h: i32) -> Option<(u32, bool)> {
        entry_of(self.events(), h)
    }

    /// The EOSE handler of subscription `h` and its close-at-EOSE flag.
    pub open spec fn eose_handler(&self, h: i32) -> Option<(u32, bool)> {
        entry_of(self.eoses(), h)
    }

    /// Whether subscription `h` is set to close at EOSE, as either of its
    /// handlers records it (false when it has none).
    pub open spec fn closes_on_eose(&self, h: i32) -> bool {
        flag_of(self.event_handler(h)) || flag_of(self.eose_handler(h))
    }

    /// The event list once the event handler of `h` is swap-removed.
    pub open spec fn events_without(&self, h: i32) -> Seq<HandlerEntry> {
        swap_removed(self.events(), h)
    }

    /// The EOSE list once the EOSE handler of `h` is swap-removed.
    pub open spec fn eoses_without(&self, h: i32) -> Seq<HandlerEntry> {
        swap_removed(self.eoses(), h)
    }

    /// An event handler for `h` can be attached without exceeding the capacity.
    pub open spec fn event_room_for(&self, h: i32) -> bool {
        self.events().len() < HANDLER_CAPACITY || has_key(self.events(), entry_key(), h)
    }

    /// An EOSE handler for `h` can be attached without exceeding the capacity.
    pub open spec fn eose_room_for(&self, h: i32) -> bool {
        self.eoses().len() < HANDLER_CAPACITY || has_key(self.eoses(), entry_key(), h)
    }

    /// An empty registry.
    pub fn new() -> (r: Registry)
        ensures
            r.wf(),
            r.events() == Seq::<HandlerEntry>::empty(),
            r.eoses() == Seq::<HandlerEntry>::empty(),
    {
        Registry { on_event: list_new(), on_eose: list_new() }
    }

    /// Position of the event handler of subscription `handle`.
    pub fn on_event_position(&self, handle: i32) -> (r: Option<usize>)
        ensures
            match r {
                Some(i) => first_key_at(self.events(), entry_key(), handle, i as int),
                None => !has_key(self.events(), entry_key(), handle),
            },
    {
        position_in(&self.on_event, handle)
    }

    /// Position of the EOSE handler of subscription `handle`.
    pub fn on_eose_position(&self, handle: i32) -> (r: Option<usize>)
        ensures
            match r {
                Some(i) => first_key_at(self.eoses(), entry_key(), handle, i as int),
                None => !has_key(self.eoses(), entry_key(), handle),
            },
    {
        position_in(&self.on_eose, handle)
    }

    /// The event handler attached to subscription `handle`, by its number.
    pub fn find_on_event_callback(&self, handle: i32) -> (r: Option<u32>)
        requires
            self.wf(),
        ensures
            r == number_of(self.event_handler(handle)),
    {
        match entry_in(&self.on_event, handle) {
            Some(e) => Some(e.0),
            None => None,
        }
    }

    /// The EOSE handler attached to subscription `handle`, by its number.
    pub fn find_on_eose_callback(&self, handle: i32) -> (r: Option<u32>)
        requires
            self.wf(),
        ensures
            r == number_of(self.eose_handler(handle)),
    {
        match entry_in(&self.on_eose, handle) {
            Some(e) => Some(e.0),
            None => None,
        }
    }

    /// Whether subscription `handle` is set to close at EOSE; false when it has
    /// no handler.
    pub fn is_close_on_eose(&self, handle: i32) -> (r: bool)
        requires
            self.wf(),
        ensures
            r == self.closes_on_eose(handle),
    {
        let by_event = match entry_in(&self.on_event, handle) {
            Some(e) => e.1,
            None => false,
        };
        let by_eose = match entry_in(&self.on_eose, handle) {
            Some(e) => e.1,
            None => false,
        };
        by_event || by_eose
    }

    /// Detaches the event handler of `handle`, leaving its EOSE handler.
    pub fn remove_on_event_subscription(&mut self, handle: i32)
        requires
            old(self).wf(),
        ensures
            final(self).wf(),
            final(self).events() == old(self).events_without(handle),
            final(self).eoses() == old(self).eoses(),
            final(self).event_handler(handle) is None,
            forall|g: i32| g != handle ==> #[trigger] final(self).event_handler(g) == old(self).event_handler(g),
    {
        remove_from(&mut self.on_event, handle);
    }

    /// Detaches the EOSE handler of `handle`, leaving its event handler.
    pub fn remove_on_eose_subscription(&mut self, handle: i32)
        requires
            old(self).wf(),
        ensures
            final(self).wf(),
            final(self).eoses() == old(self).eoses_without(handle),
            final(self).events() == old(self).events(),
            final(self).eose_handler(handle) is None,
            forall|g: i32| g != handle ==> #[trigger] final(self).eose_handler(g) == old(self).eose_handler(g),
    {
        remove_from(&mut self.on_eose, handle);
    }

    /// Detaches both handlers of `handle`.
    pub fn remove_subscription(&mut self, handle: i32)
        requires
            old(self).wf(),
        ensures
            final(self).wf(),
            final(self).events() == old(self).events_without(handle),
            final(self).eoses() == old(self).eoses_without(handle),
            final(self).event_handler(handle) is None,
            final(self).eose_handler(handle) is None,
            forall|g: i32| g != handle ==> #[trigger] final(self).event_handler(g) == old(self).event_handler(g),
            forall|g: i32| g != handle ==> #[trigger] final(self).eose_handler(g) == old(self).eose_handler(g),
    {
        self.remove_on_event_subscription(handle);
        let ghost mid = *self;
        self.remove_on_eose_subscription(handle);
        assert forall|g: i32| g != handle implies #[trigger] self.event_handler(g) == old(self).event_handler(g) by {
            assert(self.event_handler(g) == mid.event_handler(g));
        }
    }

    /// Whether an event handler for `handle` can be attached: the list has room,
    /// or `handle` already has one, which it would replace.
    pub fn has_room_for_event_handler(&self, handle: i32) -> (r: bool)
        ensures
            r == self.event_room_for(handle),
    {
        let items = list_as_slice(&self.on_event);
        items.len() < HANDLER_CAPACITY || self.on_event_position(handle).is_some()
    }

    /// Whether an EOSE handler for `handle` can be attached: the list has room,
    /// or `handle` already has one, which it would replace.
    pub fn has_room_for_eose_handler(&self, handle: i32) -> (r: bool)
        ensures
            r == self.eose_room_for(handle),
    {
        let items = list_as_slice(&self.on_eose);
        items.len() < HANDLER_CAPACITY || self.on_eose_position(handle).is_some()
    }

    /// Attaches event handler number `handler` to subscription `handle`,
    /// replacing the one it had; `close_on_eose` is kept beside it.
    pub fn attach_event_handler(&mut self, handle: i32, handler: u32, close_on_eose: bool)
        requires
            old(self).wf(),
            old(self).event_room_for(handle),
        ensures
            final(self).wf(),
            final(self).events() == without_key(old(self).events(), entry_key(), handle).push(
                (handle, handler, close_on_eose),
            ),
            final(self).eoses() == old(self).eoses(),
            final(self).event_handler(handle) == Some((handler, close_on_eose)),
            forall|g: i32| g != handle ==> #[trigger] final(self).event_handler(g) == old(self).event_handler(g),
    {
        attach_to(&mut self.on_event, (handle, handler, close_on_eose));
    }

    /// Attaches EOSE handler number `handler` to subscription `handle`,
    /// replacing the one it had; `close_on_eose` is kept beside it.
    pub fn attach_eose_handler(&mut self, handle: i32, handler: u32, close_on_eose: bool)
        requires
            old(self).wf(),
            old(self).eose_room_for(handle),
        ensures
            final(self).wf(),
            final(self).eoses() == without_key(old(self).eoses(), entry_key(), handle).push(
                (handle, handler, close_on_eose),
            ),
            final(self).events() == old(self).events(),
            final(self).eose_handler(handle) == Some((handler, close_on_eose)),
            forall|g: i32| g != handle ==> #[trigger] final(self).eose_handler(g) == old(self).eose_handler(g),
    {
        attach_to(&mut self.on_eose, (handle, handler, close_on_eose));
    }

    /// Detaches every handler of `handle` from both lists.
    pub fn cancel(&mut self, handle: i32)
        requires
            old(self).wf(),
        ensures
            final(self).wf(),
            final(self).events() == without_key(old(self).events(), entry_key(), handle),
            final(self).eoses() == without_key(old(self).eoses(), entry_key(), handle),
            final(self).event_handler(handle) is None,
            final(self).eose_handler(handle) is None,
            forall|g: i32| g != handle ==> #[trigger] final(self).event_handler(g) == old(self).event_handler(g),
            forall|g: i32| g != handle ==> #[trigger] final(self).eose_handler(g) == old(self).eose_handler(g),
    {
        proof {
            lemma_filter_lookup(self.events(), entry_key(), handle);
            lemma_filter_lookup(self.eoses(), entry_key(), handle);
        }
        list_retain_others(&mut self.on_event, handle);
        list_retain_others(&mut self.on_eose, handle);
    }

    /// Bookkeeping after subscription `handle` delivered an event whose handler
    /// returned `close`: a handler that asks to close is detached, and the
    /// result says whether the host subscription is to be dropped.
    pub fn after_event(&mut self, handle: i32, close: bool) -> (drop_subscription: bool)
        requires
            old(self).wf(),
        ensures
            final(self).wf(),
            drop_subscription == close,
            final(self).eoses() == old(self).eoses(),
            close ==> final(self).events() == old(self).events_without(handle),
            close ==> final(self).event_handler(handle) is None,
            close ==> forall|g: i32| g != handle ==> #[trigger] final(self).event_handler(g) == old(self).event_handler(g),
            !close ==> final(self).events() == old(self).events(),
    {
        if close {
            self.remove_on_event_subscription(handle);
        }
        close
    }

    /// Bookkeeping after subscription `handle` received EOSE.
    ///
    /// `eose_result` is what its EOSE handler returned, or `None` when it has
    /// none. A subscription that is set to close at EOSE closes whatever its
    /// handler answers, and one whose handler asks to close closes too: with an
    /// EOSE handler it is cancelled (both handlers detached), without one it
    /// loses its event handler. The result says whether the host subscription
    /// is to be dropped.
    pub fn after_eose(&mut self, handle: i32, eose_result: Option<bool>) -> (drop_subscription: bool)
        requires
            old(self).wf(),
        ensures
            final(self).wf(),
            drop_subscription == match eose_result {
                Some(close) => close || old(self).closes_on_eose(handle),
                None => old(self).closes_on_eose(handle),
            },
            drop_subscription && eose_result is Some ==> {
                &&& final(self).events() == without_key(old(self).events(), entry_key(), handle)
                &&& final(self).eoses() == without_key(old(self).eoses(), entry_key(), handle)
                &&& final(self).eose_handler(handle) is None
            },
            drop_subscription && eose_result is None ==> {
                &&& final(self).events() == old(self).events_without(handle)
                &&& final(self).eoses() == old(self).eoses()
            },
            drop_subscription ==> final(self).event_handler(handle) is None,
            drop_subscription ==> forall|g: i32| g != handle ==> #[trigger] final(self).event_handler(g) == old(self).event_handler(g),
            drop_subscription ==> forall|g: i32| g != handle ==> #[trigger] final(self).eose_handler(g) == old(self).eose_handler(g),
            !drop_subscription ==> final(self).events() == old(self).events() && final(self).eoses() == old(self).eoses(),
    {
        let closes = self.is_close_on_eose(handle);
        match eose_result {
            Some(close) => {
                if close || closes {
                    self.cancel(handle);
                    true
                } else {
                    false
                }
            },
            None => {
                if closes {
                    self.remove_on_event_subscription(handle);
                    true
                } else {
                    false
                }
            },
        }
    }
}

/// The handler number and flag of the entry of `h` in `s`, if any.
pub open spec fn entry_of(s: Seq<HandlerEntry>, h: i32) -> Option<(u32, bool)> {
    if has_key(s, entry_key(), h) {
        let e = s[key_index(s, entry_key(), h)];
        Some((e.1, e.2))
    } else {
        None
    }
}

/// The close-at-EOSE flag of an entry, false when there is none.
pub open spec fn flag_of(e: Option<(u32, bool)>) -> bool {
    match e {
        Some(entry) => entry.1,
        None => false,
    }
}

/// The handler number of an entry, if any.
pub open spec fn number_of(e: Option<(u32, bool)>) -> Option<u32> {
    match e {
        Some(entry) => Some(entry.0),
        None => None,
    }
}

/// `s` with the entry of `h` swap-removed: the last entry takes its place.
/// `s` itself when `h` has no entry.
pub open spec fn swap_removed(s: Seq<HandlerEntry>, h: i32) -> Seq<HandlerEntry> {
    if has_key(s, entry_key(), h) {
        s.update(key_index(s, entry_key(), h), s.last()).drop_last()
    } else {
        s
    }
}

/// In a list without repeated handles, the entry that a lookup of `h` reports
/// is the one entry of the list that carries `h`, and a lookup reports none
/// exactly when no entry carries `h`.
pub proof fn lemma_entry_of_is_member(s: Seq<HandlerEntry>, h: i32, n: u32, f: bool)
    requires
        unique_keys(s, entry_key()),
    ensures
        entry_of(s, h) == Some((n, f)) <==> s.contains((h, n, f)),
        entry_of(s, h) is None <==> forall|i: int| 0 <= i < s.len() ==> (#[trigger] s[i]).0 != h,
{
    if has_key(s, entry_key(), h) {
        let k = key_index(s, entry_key(), h);
        assert(s[k].0 == h);
        if s.contains((h, n, f)) {
            let i = choose|i: int| 0 <= i < s.len() && s[i] == (h, n, f);
            assert(i == k);
        }
        if entry_of(s, h) == Some((n, f)) {
            assert(s[k] == (h, n, f));
        }
    } else {
        if s.contains((h, n, f)) {
            let i = choose|i: int| 0 <= i < s.len() && s[i] == (h, n, f);
            assert(entry_key()(s[i]) == h);
        }
        assert forall|i: int| 0 <= i < s.len() implies (#[trigger] s[i]).0 != h by {
            if s[i].0 == h {
                assert(entry_key()(s[i]) == h);
            }
        }
    }
}

/// Removing the entry of `h` from a list without repeated handles keeps every
/// other entry and no entry of `h`; the list is one shorter when it held `h`,
/// and unchanged otherwise.
pub proof fn lemma_swap_removed_members(s: Seq<HandlerEntry>, h: i32)
    requires
        unique_keys(s, entry_key()),
    ensures
        has_key(s, entry_key(), h) ==> swap_removed(s, h).len() == s.len() - 1,
        !has_key(s, entry_key(), h) ==> swap_removed(s, h) == s,
        forall|x: HandlerEntry|
            #[trigger] swap_removed(s, h).contains(x) <==> (s.contains(x) && x.0 != h),
{
    if has_key(s, entry_key(), h) {
        let k = key_index(s, entry_key(), h);
        let r = swap_removed(s, h);
        let last = s.len() - 1;
        assert(s[k].0 == h);
        assert forall|x: HandlerEntry| #[trigger] r.contains(x) <==> (s.contains(x) && x.0 != h) by {
            if r.contains(x) {
                let i = choose|i: int| 0 <= i < r.len() && r[i] == x;
                if i == k {
                    assert(r[i] == s[last]);
                    assert(entry_key()(s[last]) != entry_key()(s[k]));
                    assert(s[last] == x);
                } else {
                    assert(r[i] == s[i]);
                    assert(entry_key()(s[i]) != entry_key()(s[k]));
                }
            }
            if s.contains(x) && x.0 != h {
                let i = choose|i: int| 0 <= i < s.len() && s[i] == x;
                assert(i != k);
                if i < last {
                    assert(r[i] == s[i]);
                } else {
                    assert(r[k] == x);
                }
            }
        }
    } else {
        assert forall|x: HandlerEntry| #[trigger] swap_removed(s, h).contains(x) <==> (s.contains(x)
            && x.0 != h) by {
            if s.contains(x) {
                let i = choose|i: int| 0 <= i < s.len() && s[i] == x;
                if x.0 == h {
                    assert(entry_key()(s[i]) == h);
                }
            }
        }
    }
}

/// Dropping the entries of `h` keeps exactly the entries of other
/// subscriptions, in their order.
pub proof fn lemma_without_key_members(s: Seq<HandlerEntry>, h: i32)
    ensures
        forall|x: HandlerEntry|
            #[trigger] without_key(s, entry_key(), h).contains(x) <==> (s.contains(x) && x.0 != h),
        without_key(s, entry_key(), h).len() <= s.len(),
        !has_key(s, entry_key(), h) ==> without_key(s, entry_key(), h) == s,
{
    broadcast use vstd::seq_lib::group_filter_ensures;
    let r = without_key(s, entry_key(), h);
    assert forall|x: HandlerEntry| #[trigger] r.contains(x) <==> (s.contains(x) && x.0 != h) by {
        if r.contains(x) {
            let i = choose|i: int| 0 <= i < r.len() && r[i] == x;
            assert(other_key(entry_key(), h)(r[i]));
            lemma_filter_subset(s, h, x);
        }
        if s.contains(x) && x.0 != h {
            let i = choose|i: int| 0 <= i < s.len() && s[i] == x;
            assert(other_key(entry_key(), h)(s[i]));
        }
    }
    if !has_key(s, entry_key(), h) {
        lemma_filter_unique_none(s, h);
    }
}

/// Every entry kept when those of `h` are dropped was in the list.
proof fn lemma_filter_subset(s: Seq<HandlerEntry>, h: i32, x: HandlerEntry)
    requires
        without_key(s, entry_key(), h).contains(x),
    ensures
        s.contains(x),
    decreases s.len(),
{
    reveal(Seq::filter);
    if s.len() > 0 {
        let p = s.drop_last();
        let fp = without_key(p, entry_key(), h);
        if x == s.last() {
            assert(s[s.len() - 1] == x);
        } else {
            if other_key(entry_key(), h)(s.last()) {
                assert(without_key(s, entry_key(), h) == fp.push(s.last()));
                let i = choose|i: int| 0 <= i < fp.push(s.last()).len() && fp.push(s.last())[i] == x;
                assert(fp[i] == x);
            } else {
                assert(without_key(s, entry_key(), h) == fp);
            }
            lemma_filter_subset(p, h, x);
            let j = choose|j: int| 0 <= j < p.len() && p[j] == x;
            assert(s[j] == x);
        }
    }
}

/// A list holding no entry of `h` keeps all its entries when those of `h` are
/// dropped.
proof fn lemma_filter_unique_none(s: Seq<HandlerEntry>, h: i32)
    requires
        !has_key(s, entry_key(), h),
    ensures
        without_key(s, entry_key(), h) == s,
    decreases s.len(),
{
    reveal(Seq::filter);
    if s.len() > 0 {
        let p = s.drop_last();
        assert(!has_key(p, entry_key(), h)) by {
            if has_key(p, entry_key(), h) {
                let i = choose|i: int| 0 <= i < p.len() && entry_key()(p[i]) == h;
                assert(s[i] == p[i]);
            }
        }
        lemma_filter_unique_none(p, h);
        assert(entry_key()(s.last()) != h);
        assert(s =~= p.push(s.last()));
    }
}

/// Position of the first entry of `handle`.
fn position_in(list: &HandlerList, handle: i32) -> (r: Option<usize>)
    ensures
        match r {
            Some(i) => first_key_at(entries(*list), entry_key(), handle, i as int),
            None => !has_key(entries(*list), entry_key(), handle),
        },
{
    let items = list_as_slice(list);
    let mut i: usize = 0;
    while i < items.len()
        invariant
            items@ == entries(*list),
            0 <= i <= items@.len(),
            forall|j: int| 0 <= j < i ==> items@[j].0 != handle,
        decreases items@.len() - i,
    {
        if items[i].0 == handle {
            return Some(i);
        }
        i = i + 1;
    }
    None
}

/// The handler number and flag of the entry of `handle`.
fn entry_in(list: &HandlerList, handle: i32) -> (r: Option<(u32, bool)>)
    requires
        unique_keys(entries(*list), entry_key()),
    ensures
        r == entry_of(entries(*list), handle),
{
    match position_in(list, handle) {
        Some(i) => {
            let items = list_as_slice(list);
            proof {
                lemma_key_index_is(entries(*list), entry_key(), handle, i as int);
            }
            Some((items[i].1, items[i].2))
        },
        None => None,
    }
}

/// Swap-removes the entry of `handle`, if there is one.
fn remove_from(list: &mut HandlerList, handle: i32)
    requires
        unique_keys(entries(*old(list)), entry_key()),
    ensures
        unique_keys(entries(*final(list)), entry_key()),
        entries(*final(list)).len() <= entries(*old(list)).len(),
        entries(*final(list)) == swap_removed(entries(*old(list)), handle),
        entry_of(entries(*final(list)), handle) is None,
        forall|g: i32| g != handle ==> #[trigger] entry_of(entries(*final(list)), g) == entry_of(entries(*old(list)), g),
{
    let ghost s = entries(*list);
    match position_in(list, handle) {
        Some(i) => {
            proof {
                lemma_key_index_is(s, entry_key(), handle, i as int);
                lemma_swap_remove_lookup(s, entry_key(), i as int);
            }
            list_swap_remove(list, i);
        },
        None => {},
    }
}

/// Replaces the entry of `e.0` by `e`, which comes last.
fn attach_to(list: &mut HandlerList, e: HandlerEntry)
    requires
        unique_keys(entries(*old(list)), entry_key()),
        entries(*old(list)).len() <= HANDLER_CAPACITY,
        entries(*old(list)).len() < HANDLER_CAPACITY || has_key(entries(*old(list)), entry_key(), e.0),
    ensures
        unique_keys(entries(*final(list)), entry_key()),
        entries(*final(list)).len() <= HANDLER_CAPACITY,
        entries(*final(list)) == without_key(entries(*old(list)), entry_key(), e.0).push(e),
        entry_of(entries(*final(list)), e.0) == Some((e.1, e.2)),
        forall|g: i32| g != e.0 ==> #[trigger] entry_of(entries(*final(list)), g) == entry_of(entries(*old(list)), g),
{
    let ghost s = entries(*list);
    let handle = e.0;
    proof {
        lemma_filter_lookup(s, entry_key(), handle);
    }
    list_retain_others(list, handle);
    let ghost f = entries(*list);
    let pushed = list_push(list, e);
    assert(pushed);
    proof {
        lemma_push_lookup(f, entry_key(), e);
        assert forall|g: i32| g != handle implies #[trigger] entry_of(entries(*list), g) == entry_of(s, g) by {
            assert(has_key(entries(*list), entry_key(), g) == has_key(f, entry_key(), g));
            assert(has_key(f, entry_key(), g) == has_key(s, entry_key(), g));
        }
    }
}

} // verus!
