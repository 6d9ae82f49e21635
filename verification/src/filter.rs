//! Building subscription filters.
//!
//! A [`Filter`] records, in order, the calls that build its request on the
//! host. Subscribing hands them over as a [`Request`], which the caller sends
//! to the host; the host answers with the subscription's handle.
use vstd::prelude::*;
use vstd::string::StringSliceAdditionalSpecFns;
use crate::keys::{EventId, PublicKey};
use crate::static_cell::StaticCell;
use crate::subscription::Subscription;

verus! {

/// One step in building a host request, with the arguments the host takes.
pub enum FilterOp {
    /// Add a pubkey to the `authors` filter.
    Author(PublicKey),
    /// Add a 64-character hex pubkey to the `authors` filter.
    AuthorHex(String),
    /// Add an id to the `ids` filter.
    Id(EventId),
    /// Add a 64-character hex id to the `ids` filter.
    IdHex(String),
    /// Add a kind to the `kinds` filter.
    Kind(i32),
    /// Add a value to the filter of the single-letter tag with this ASCII code.
    Tag(i32, String),
    /// Add a 32-byte value, which the host writes as hex, to a tag filter.
    TagBytes(i32, [u8; 32]),
    /// Set `limit`.
    Limit(u32),
    /// Set `since`.
    Since(u32),
    /// Set `until`.
    Until(u32),
    /// Set `search`.
    Search(String),
    /// Target a relay.
    Relay(String),
    /// Close the subscription after EOSE.
    CloseOnEose,
}

/// A filter step, as mathematical values.
pub enum FilterOpView {
    Author(Seq<u8>),
    AuthorHex(Seq<char>),
    Id(Seq<u8>),
    IdHex(Seq<char>),
    Kind(i32),
    Tag(i32, Seq<char>),
    TagBytes(i32, Seq<u8>),
    Limit(u32),
    Since(u32),
    Until(u32),
    Search(Seq<char>),
    Relay(Seq<char>),
    CloseOnEose,
}

impl View for FilterOp {
    type V = FilterOpView;

    open spec fn view(&self) -> FilterOpView {
        match self {
            FilterOp::Author(k) => FilterOpView::Author(k@),
            FilterOp::AuthorHex(s) => FilterOpView::AuthorHex(s@),
            FilterOp::Id(i) => FilterOpView::Id(i@),
            FilterOp::IdHex(s) => FilterOpView::IdHex(s@),
            FilterOp::Kind(k) => FilterOpView::Kind(*k),
            FilterOp::Tag(t, v) => FilterOpView::Tag(*t, v@),
            FilterOp::TagBytes(t, b) => FilterOpView::TagBytes(*t, b@),
            FilterOp::Limit(n) => FilterOpView::Limit(*n),
            FilterOp::Since(n) => FilterOpView::Since(*n),
            FilterOp::Until(n) => FilterOpView::Until(*n),
            FilterOp::Search(s) => FilterOpView::Search(s@),
            FilterOp::Relay(s) => FilterOpView::Relay(s@),
            FilterOp::CloseOnEose => FilterOpView::CloseOnEose,
        }
    }
}

/// A filter, as mathematical values: its steps in order, and whether it closes
/// at EOSE.
pub struct FilterView {
    pub ops: Seq<FilterOpView>,
    pub close_on_eose: bool,
}

/// The filter with no steps.
pub open spec fn empty_filter() -> FilterView {
    FilterView { ops: Seq::empty(), close_on_eose: false }
}

/// The filter with one more step.
pub open spec fn with_op(f: FilterView, op: FilterOpView) -> FilterView {
    FilterView { ops: f.ops.push(op), close_on_eose: f.close_on_eose }
}

/// The filter set to close at EOSE.
pub open spec fn closing_at_eose(f: FilterView) -> FilterView {
    FilterView { ops: f.ops.push(FilterOpView::CloseOnEose), close_on_eose: true }
}

/// An ASCII letter.
pub open spec fn is_ascii_letter(c: char) -> bool {
    ('a' <= c && c <= 'z') || ('A' <= c && c <= 'Z')
}

/// Number of characters in a hex-encoded key or id.
pub const HEX_LEN: usize = 64;

/// Number of bytes in a key, id or binary tag value.
pub const BYTES_LEN: usize = 32;

/// Whether the character is an ASCII letter.
pub fn is_ascii_alphabetic(c: char) -> (r: bool)
    ensures
        r == is_ascii_letter(c),
{
    ('a' <= c && c <= 'z') || ('A' <= c && c <= 'Z')
}

/// An owned copy of the text.
pub(crate) fn owned(s: &str) -> (r: String)
    ensures
        r@ == s@,
{
    s.to_owned()
}

/// Nostr scrolls filter
pub struct Filter {
    ops: Vec<FilterOp>,
    close_on_eose: bool,
}

impl View for Filter {
    type V = FilterView;

    closed spec fn view(&self) -> FilterView {
        FilterView { ops: self.ops@.map_values(|o: FilterOp| o@), close_on_eose: self.close_on_eose }
    }
}

impl Filter {
    /// Appends one step.
    fn push(self, op: FilterOp) -> (r: Self)
        ensures
            r@ == with_op(self@, op@),
    {
        let mut f = self;
        let ghost before = f.ops@;
        f.ops.push(op);
        assert(f.ops@.map_values(|o: FilterOp| o@) =~= before.map_values(|o: FilterOp| o@).push(op@));
        f
    }

    /// Create a new empty filter.
    pub fn new() -> (r: Self)
        ensures
            r@ == empty_filter(),
    {
        let f = Filter { ops: Vec::new(), close_on_eose: false };
        assert(f@.ops =~= Seq::<FilterOpView>::empty());
        f
    }

    /// Add an author by public key.
    pub fn author(self, pkey: &PublicKey) -> (r: Self)
        ensures
            r@ == with_op(self@, FilterOpView::Author(pkey@)),
    {
        self.push(FilterOp::Author(*pkey))
    }

    /// Require events to be authored by the 64-character hex public key.
    pub fn author_hex(self, pkey: &str) -> (r: Self)
        requires
            pkey.spec_bytes().len() == HEX_LEN,
        ensures
            r@ == with_op(self@, FilterOpView::AuthorHex(pkey@)),
    {
        self.push(FilterOp::AuthorHex(owned(pkey)))
    }

    /// Add an event ID to match against.
    pub fn id(self, event_id: &EventId) -> (r: Self)
        ensures
            r@ == with_op(self@, FilterOpView::Id(event_id@)),
    {
        self.push(FilterOp::Id(*event_id))
    }

    /// Add an event ID by 64-character hexadecimal string.
    pub fn id_hex(self, event_id: &str) -> (r: Self)
        requires
            event_id.spec_bytes().len() == HEX_LEN,
        ensures
            r@ == with_op(self@, FilterOpView::IdHex(event_id@)),
    {
        self.push(FilterOp::IdHex(owned(event_id)))
    }

    /// Include events of a specific kind in the filter.
    pub fn kind(self, kind: u16) -> (r: Self)
        ensures
            r@ == with_op(self@, FilterOpView::Kind(kind as i32)),
    {
        self.push(FilterOp::Kind(kind as i32))
    }

    /// Include events matching a single-letter tag with a string value.
    ///
    /// The tag must be an ASCII letter.
    pub fn tag(self, tag: char, value: &str) -> (r: Self)
        requires
            is_ascii_letter(tag),
        ensures
            r@ == with_op(self@, FilterOpView::Tag(tag as i32, value@)),
    {
        self.push(FilterOp::Tag(tag as i32, owned(value)))
    }

    /// Include events matching a single-letter tag with a 32-byte binary value.
    ///
    /// The tag must be an ASCII letter and `bytes` exactly 32 bytes.
    pub fn tag_bytes(self, tag: char, bytes: &[u8]) -> (r: Self)
        requires
            is_ascii_letter(tag),
            bytes@.len() == BYTES_LEN,
        ensures
            r@ == with_op(self@, FilterOpView::TagBytes(tag as i32, bytes@)),
    {
        let mut value = [0u8; 32];
        let mut i: usize = 0;
        while i < 32
            invariant
                0 <= i <= 32,
                bytes@.len() == 32,
                value@.len() == 32,
                forall|j: int| 0 <= j < i ==> value@[j] == bytes@[j],
            decreases 32 - i,
        {
            value[i] = bytes[i];
            i = i + 1;
        }
        assert(value@ =~= bytes@);
        self.push(FilterOp::TagBytes(tag as i32, value))
    }

    /// Limits the number of events returned by the filter. The host takes a
    /// 32-bit value.
    pub fn limit(self, limit: usize) -> (r: Self)
        ensures
            r@ == with_op(self@, FilterOpView::Limit(limit as u32)),
    {
        self.push(FilterOp::Limit(#[verifier::truncate] (limit as u32)))
    }

    /// Only return events created after this timestamp. The host takes a
    /// 32-bit value.
    pub fn since(self, since: usize) -> (r: Self)
        ensures
            r@ == with_op(self@, FilterOpView::Since(since as u32)),
    {
        self.push(FilterOp::Since(#[verifier::truncate] (since as u32)))
    }

    /// Only return events created before this timestamp. The host takes a
    /// 32-bit value.
    pub fn until(self, until: usize) -> (r: Self)
        ensures
            r@ == with_op(self@, FilterOpView::Until(until as u32)),
    {
        self.push(FilterOp::Until(#[verifier::truncate] (until as u32)))
    }

    /// Filters events by content substring match.
    pub fn search(self, search: &str) -> (r: Self)
        ensures
            r@ == with_op(self@, FilterOpView::Search(search@)),
    {
        self.push(FilterOp::Search(owned(search)))
    }

    /// Adds a relay target for this subscription, can be called multiple times.
    pub fn send_to(self, relay: &str) -> (r: Self)
        ensures
            r@ == with_op(self@, FilterOpView::Relay(relay@)),
    {
        self.push(FilterOp::Relay(owned(relay)))
    }

    /// Closes the subscription automatically when the relay finishes sending
    /// stored events.
    pub fn close_on_eose(self) -> (r: Self)
        ensures
            r@ == closing_at_eose(self@),
    {
        let mut f = self.push(FilterOp::CloseOnEose);
        f.close_on_eose = true;
        f
    }

    /// Consumes the filter and hands over the request that subscribes with it.
    pub fn subscribe(self) -> (r: Request)
        ensures
            r@ == self@,
    {
        Request { ops: self.ops, close_on_eose: self.close_on_eose }
    }
}

impl Default for Filter {
    fn default() -> (r: Self)
        ensures
            r@ == empty_filter(),
    {
        Filter::new()
    }
}

/// A request to subscribe: the steps that build it on the host, in order,
/// and whether the subscription closes at EOSE.
pub struct Request {
    /// The steps, in the order the host is to receive them.
    pub ops: Vec<FilterOp>,
    /// Whether the subscription closes at EOSE.
    pub close_on_eose: bool,
}

impl View for Request {
    type V = FilterView;

    open spec fn view(&self) -> FilterView {
        FilterView { ops: self.ops@.map_values(|o: FilterOp| o@), close_on_eose: self.close_on_eose }
    }
}

impl Request {
    /// The subscription that the host opened for this request under `handle`.
    pub fn subscription(&self, handle: i32) -> (s: Subscription)
        ensures
            s.id() == handle,
            s.closes_on_eose() == self.close_on_eose,
    {
        Subscription::new(handle, self.close_on_eose)
    }
}

/// A filter that can be used as a static variable.
///
/// Calling any function after consuming the filter in
/// [`StaticFilter::subscribe`] starts a new filter.
pub struct StaticFilter(StaticCell<Option<Filter>>);

/// The filter that the next step builds on: the pending one, or a new one.
pub open spec fn taken(pending: Option<FilterView>) -> FilterView {
    match pending {
        Some(f) => f,
        None => empty_filter(),
    }
}

impl StaticFilter {
    /// The filter being built, if any.
    pub closed spec fn pending(&self) -> Option<FilterView> {
        match self.0.value() {
            Some(f) => Some(f@),
            None => None,
        }
    }

    /// Create a new static filter.
    pub fn new() -> (r: Self)
        ensures
            r.pending() is None,
    {
        StaticFilter(StaticCell::new(None))
    }

    /// Take the current filter or start a new one.
    fn take_filter(&mut self) -> (f: Filter)
        ensures
            f@ == taken(old(self).pending()),
            final(self).pending() is None,
    {
        let slot = self.0.get_mut();
        match slot.take() {
            Some(f) => f,
            None => Filter::new(),
        }
    }

    /// Replace the current filter with a new one.
    fn set_filter(&mut self, filter: Filter)
        ensures
            final(self).pending() == Some(filter@),
    {
        *self.0.get_mut() = Some(filter);
    }

    /// A static wrapper around [`Filter::author`].
    pub fn author(&mut self, pkey: &PublicKey)
        ensures
            final(self).pending() == Some(with_op(taken(old(self).pending()), FilterOpView::Author(pkey@))),
    {
        let f = self.take_filter();
        self.set_filter(f.author(pkey))
    }

    /// A static wrapper around [`Filter::author_hex`].
    pub fn author_hex(&mut self, pkey: &str)
        requires
            pkey.spec_bytes().len() == HEX_LEN,
        ensures
            final(self).pending() == Some(with_op(taken(old(self).pending()), FilterOpView::AuthorHex(pkey@))),
    {
        let f = self.take_filter();
        self.set_filter(f.author_hex(pkey))
    }

    /// A static wrapper around [`Filter::id`].
    pub fn id(&mut self, event_id: &EventId)
        ensures
            final(self).pending() == Some(with_op(taken(old(self).pending()), FilterOpView::Id(event_id@))),
    {
        let f = self.take_filter();
        self.set_filter(f.id(event_id))
    }

    /// A static wrapper around [`Filter::id_hex`].
    pub fn id_hex(&mut self, event_id: &str)
        requires
            event_id.spec_bytes().len() == HEX_LEN,
        ensures
            final(self).pending() == Some(with_op(taken(old(self).pending()), FilterOpView::IdHex(event_id@))),
    {
        let f = self.take_filter();
        self.set_filter(f.id_hex(event_id))
    }

    /// A static wrapper around [`Filter::kind`].
    pub fn kind(&mut self, kind: u16)
        ensures
            final(self).pending() == Some(with_op(taken(old(self).pending()), FilterOpView::Kind(kind as i32))),
    {
        let f = self.take_filter();
        self.set_filter(f.kind(kind))
    }

    /// A static wrapper around [`Filter::tag`].
    pub fn tag(&mut self, tag: char, value: &str)
        requires
            is_ascii_letter(tag),
        ensures
            final(self).pending() == Some(with_op(taken(old(self).pending()), FilterOpView::Tag(tag as i32, value@))),
    {
        let f = self.take_filter();
        self.set_filter(f.tag(tag, value))
    }

    /// A static wrapper around [`Filter::tag_bytes`].
    pub fn tag_bytes(&mut self, tag: char, bytes: &[u8])
        requires
            is_ascii_letter(tag),
            bytes@.len() == BYTES_LEN,
        ensures
            final(self).pending() == Some(with_op(taken(old(self).pending()), FilterOpView::TagBytes(tag as i32, bytes@))),
    {
        let f = self.take_filter();
        self.set_filter(f.tag_bytes(tag, bytes))
    }

    /// A static wrapper around [`Filter::limit`].
    pub fn limit(&mut self, limit: usize)
        ensures
            final(self).pending() == Some(with_op(taken(old(self).pending()), FilterOpView::Limit(limit as u32))),
    {
        let f = self.take_filter();
        self.set_filter(f.limit(limit))
    }

    /// A static wrapper around [`Filter::since`].
    pub fn since(&mut self, since: usize)
        ensures
            final(self).pending() == Some(with_op(taken(old(self).pending()), FilterOpView::Since(since as u32))),
    {
        let f = self.take_filter();
        self.set_filter(f.since(since))
    }

    /// A static wrapper around [`Filter::until`].
    pub fn until(&mut self, until: usize)
        ensures
            final(self).pending() == Some(with_op(taken(old(self).pending()), FilterOpView::Until(until as u32))),
    {
        let f = self.take_filter();
        self.set_filter(f.until(until))
    }

    /// A static wrapper around [`Filter::search`].
    pub fn search(&mut self, search: &str)
        ensures
            final(self).pending() == Some(with_op(taken(old(self).pending()), FilterOpView::Search(search@))),
    {
        let f = self.take_filter();
        self.set_filter(f.search(search))
    }

    /// A static wrapper around [`Filter::send_to`].
    pub fn send_to(&mut self, relay: &str)
        ensures
            final(self).pending() == Some(with_op(taken(old(self).pending()), FilterOpView::Relay(relay@))),
    {
        let f = self.take_filter();
        self.set_filter(f.send_to(relay))
    }

    /// A static wrapper around [`Filter::close_on_eose`].
    pub fn close_on_eose(&mut self)
        ensures
            final(self).pending() == Some(closing_at_eose(taken(old(self).pending()))),
    {
        let f = self.take_filter();
        self.set_filter(f.close_on_eose())
    }

    /// A static wrapper around [`Filter::subscribe`].
    ///
    /// This consumes the filter; any later call starts a new one.
    pub fn subscribe(&mut self) -> (r: Request)
        ensures
            r@ == taken(old(self).pending()),
            final(self).pending() is None,
    {
        self.take_filter().subscribe()
    }
}

/// Once a static filter is subscribed, the next step starts a new filter:
/// it builds on the empty filter, not on what was subscribed.
pub proof fn lemma_static_filter_restarts(op: FilterOpView)
    ensures
        with_op(taken(None), op) == with_op(empty_filter(), op),
        closing_at_eose(taken(None)) == closing_at_eose(empty_filter()),
{
}

/// A new filter has no steps and does not close at EOSE. Each builder step
/// keeps the steps before it, in order, and adds its own last; only
/// `close_on_eose` sets the filter to close at EOSE, and it stays set. A tag
/// letter is an ASCII letter, `a`..`z` or `A`..`Z`.
pub proof fn lemma_filter_steps(f: FilterView, op: FilterOpView, c: char)
    ensures
        empty_filter().ops.len() == 0,
        !empty_filter().close_on_eose,
        with_op(f, op).ops.len() == f.ops.len() + 1,
        with_op(f, op).ops.last() == op,
        with_op(f, op).ops.subrange(0, f.ops.len() as int) =~= f.ops,
        with_op(f, op).close_on_eose == f.close_on_eose,
        closing_at_eose(f).ops.len() == f.ops.len() + 1,
        closing_at_eose(f).ops.last() == FilterOpView::CloseOnEose,
        closing_at_eose(f).ops.subrange(0, f.ops.len() as int) =~= f.ops,
        closing_at_eose(f).close_on_eose,
        is_ascii_letter(c) <==> (97 <= c as u32 <= 122 || 65 <= c as u32 <= 90),
{
}

impl Default for StaticFilter {
    fn default() -> (r: Self)
        ensures
            r.pending() is None,
    {
        StaticFilter::new()
    }
}

} // verus!
