//! Relay lists (NIP-65).
use vstd::prelude::*;
use crate::event::Event;
use crate::filter::owned;

verus! {

/// Relay marker.
pub enum Relay<'a> {
    /// Write relay
    Write(&'a str),
    /// Read relay
    Read(&'a str),
    /// Relay for write and read
    Both(&'a str),
}

/// How a relay list entry is marked.
pub enum RelayUse {
    Write,
    Read,
    Both,
}

/// Kind of the relay list event.
pub const RELAY_LIST_KIND: u16 = 10002;

impl<'a> Relay<'a> {
    /// The relay's marker and URL.
    pub open spec fn spec_entry(&self) -> (RelayUse, Seq<char>) {
        match self {
            Relay::Write(u) => (RelayUse::Write, u@),
            Relay::Read(u) => (RelayUse::Read, u@),
            Relay::Both(u) => (RelayUse::Both, u@),
        }
    }

    /// Returns the relay url.
    pub fn url(&self) -> (r: &str)
        ensures
            r@ == self.spec_entry().1,
    {
        match self {
            Relay::Write(relay) => relay,
            Relay::Read(relay) => relay,
            Relay::Both(relay) => relay,
        }
    }

    /// Check if the relay is a WRITE relay.
    pub fn is_write(&self) -> (r: bool)
        ensures
            r == (self is Write || self is Both),
    {
        match self {
            Relay::Write(_) | Relay::Both(_) => true,
            Relay::Read(_) => false,
        }
    }

    /// Check if the relay is a READ relay.
    pub fn is_read(&self) -> (r: bool)
        ensures
            r == (self is Read || self is Both),
    {
        match self {
            Relay::Read(_) | Relay::Both(_) => true,
            Relay::Write(_) => false,
        }
    }
}

/// The marker text of a write relay.
pub open spec fn write_owned() -> Seq<char> {
    seq!['w', 'r', 'i', 't', 'e']
}

/// The marker text of a read relay.
pub open spec fn read_owned() -> Seq<char> {
    seq!['r', 'e', 'a', 'd']
}

/// The relay that one tag names: item 1 is the URL and item 2, when present,
/// the marker. Tags with fewer than two items and unknown markers name none.
pub open spec fn relay_of_tag(tag: Seq<Seq<char>>) -> Option<(RelayUse, Seq<char>)> {
    if tag.len() < 2 {
        None
    } else if tag.len() < 3 || tag[2].len() == 0 {
        Some((RelayUse::Both, tag[1]))
    } else if tag[2] == write_owned() {
        Some((RelayUse::Write, tag[1]))
    } else if tag[2] == read_owned() {
        Some((RelayUse::Read, tag[1]))
    } else {
        None
    }
}

/// The relays that the first `n` tags name, in tag order.
pub open spec fn relays_of(tags: Seq<Seq<Seq<char>>>, n: int) -> Seq<(RelayUse, Seq<char>)>
    decreases n,
{
    if n <= 0 {
        Seq::empty()
    } else {
        let before = relays_of(tags, n - 1);
        match relay_of_tag(tags[n - 1]) {
            Some(r) => before.push(r),
            None => before,
        }
    }
}

/// The smaller of two integers.
pub open spec fn min_int(a: int, b: int) -> int {
    if a <= b {
        a
    } else {
        b
    }
}

/// The relay that tag `tag_idx` of the event names, if any.
fn relay_of_tag_at<'a>(event: &'a Event, tag_idx: usize, write: &String, read: &String) -> (r: Option<Relay<'a>>)
    requires
        tag_idx < event@.tags.len(),
        write@ == write_owned(),
        read@ == read_owned(),
    ensures
        match r {
            Some(x) => relay_of_tag(event@.tags[tag_idx as int]) == Some(x.spec_entry()),
            None => relay_of_tag(event@.tags[tag_idx as int]) is None,
        },
{
    let items = match event.tag_items_count(tag_idx) {
        Some(n) => n,
        None => 0,
    };
    assert(items == event@.tags[tag_idx as int].len());
    if items < 2 {
        return None;
    }
    let relay = match event.tag_item(tag_idx, 1) {
        Some(relay) => relay,
        None => {
            return None;
        },
    };
    match event.tag_item(tag_idx, 2) {
        None => Some(Relay::Both(relay)),
        Some(m) => {
            if m.is_empty() {
                return Some(Relay::Both(relay));
            }
            let m = owned(m);
            if m == *write {
                Some(Relay::Write(relay))
            } else if m == *read {
                Some(Relay::Read(relay))
            } else {
                None
            }
        },
    }
}

/// Read the relays from a relay list event (kind `10002`, NIP-65), looking at
/// its first `limit` tags.
///
/// Events of any other kind give no relays.
pub fn read_relays<'a>(event: &'a Event, limit: usize) -> (relays: Vec<Relay<'a>>)
    ensures
        event@.kind != RELAY_LIST_KIND ==> relays@.len() == 0,
        event@.kind == RELAY_LIST_KIND ==> relays@.map_values(|r: Relay<'a>| r.spec_entry())
            == relays_of(event@.tags, min_int(event@.tags.len() as int, limit as int)),
{
    let mut relays: Vec<Relay<'a>> = Vec::new();
    if event.kind() != RELAY_LIST_KIND {
        return relays;
    }
    let write = owned("write");
    let read = owned("read");
    proof {
        reveal_strlit("write");
        reveal_strlit("read");
        assert(write@ =~= write_owned());
        assert(read@ =~= read_owned());
    }
    let count = event.tag_count();
    let end = if count < limit { count } else { limit };
    let mut tag_idx: usize = 0;
    while tag_idx < end
        invariant
            0 <= tag_idx <= end,
            end == min_int(event@.tags.len() as int, limit as int),
            write@ == write_owned(),
            read@ == read_owned(),
            relays@.map_values(|r: Relay<'a>| r.spec_entry()) == relays_of(event@.tags, tag_idx as int),
        decreases end - tag_idx,
    {
        let ghost tag = event@.tags[tag_idx as int];
        let ghost before = relays@;
        let found = relay_of_tag_at(event, tag_idx, &write, &read);
        match found {
            Some(r) => {
                relays.push(r);
                proof {
                    assert(relays@.map_values(|r: Relay<'a>| r.spec_entry()) =~= before.map_values(
                        |r: Relay<'a>| r.spec_entry(),
                    ).push(r.spec_entry()));
                }
            },
            None => {},
        }
        tag_idx = tag_idx + 1;
    }
    relays
}

/// The relays of the first `n` tags depend on those tags alone, in their order:
/// the relays of the first `n + 1` tags are those of the first `n`, followed by
/// the relay that tag `n` names, if it names one.
pub proof fn lemma_relays_in_tag_order(tags: Seq<Seq<Seq<char>>>, n: int)
    requires
        0 <= n < tags.len(),
    ensures
        relays_of(tags, n) == relays_of(tags.subrange(0, n), n),
        relays_of(tags, n + 1) == match relay_of_tag(tags[n]) {
            Some(r) => relays_of(tags, n).push(r),
            None => relays_of(tags, n),
        },
{
    lemma_relays_prefix(tags, tags.subrange(0, n), n);
}

/// Two tag lists that agree on their first `n` tags name the same relays there.
proof fn lemma_relays_prefix(a: Seq<Seq<Seq<char>>>, b: Seq<Seq<Seq<char>>>, n: int)
    requires
        0 <= n <= a.len(),
        n <= b.len(),
        forall|i: int| 0 <= i < n ==> a[i] == b[i],
    ensures
        relays_of(a, n) == relays_of(b, n),
    decreases n,
{
    if n > 0 {
        lemma_relays_prefix(a, b, n - 1);
        assert(a[n - 1] == b[n - 1]);
    }
}

/// What one tag of a relay list names: item 1 is the URL; with no item 2, or
/// an empty one, the relay is for both reading and writing; `write` and `read`
/// mark write and read relays; any other marker, or a tag of fewer than two
/// items, names no relay.
pub proof fn lemma_relay_of_tag_markers(tag: Seq<Seq<char>>)
    ensures
        tag.len() < 2 ==> relay_of_tag(tag) is None,
        tag.len() == 2 ==> relay_of_tag(tag) == Some((RelayUse::Both, tag[1])),
        tag.len() > 2 && tag[2].len() == 0 ==> relay_of_tag(tag) == Some((RelayUse::Both, tag[1])),
        tag.len() > 2 && tag[2] =~= seq!['w', 'r', 'i', 't', 'e'] ==> relay_of_tag(tag) == Some(
            (RelayUse::Write, tag[1]),
        ),
        tag.len() > 2 && tag[2] =~= seq!['r', 'e', 'a', 'd'] ==> relay_of_tag(tag) == Some(
            (RelayUse::Read, tag[1]),
        ),
        tag.len() > 2 && tag[2].len() > 0 && !(tag[2] =~= seq!['w', 'r', 'i', 't', 'e']) && !(tag[2]
            =~= seq!['r', 'e', 'a', 'd']) ==> relay_of_tag(tag) is None,
        RELAY_LIST_KIND == 10002,
{
}

} // verus!
