//! Nostr events, as the host reports them.
//!
//! An [`Event`] holds what the host reported of one event: its handle, id,
//! author, kind, creation time, content and tags. The queries below answer
//! from that data the way the host answers them from its own copy.
use vstd::prelude::*;
use vstd::utf8::encode_utf8;
use vstd::string::StringSliceAdditionalSpecFns;
use crate::hex::{decode_hex32, encode_hex_lower, hex32_from_bytes, hex_lower};
use crate::keys::{EventId, PublicKey};
use crate::traits::IntoHandle;

verus! {

/// What an event holds, as mathematical values.
pub struct EventView {
    pub handle: i32,
    pub id: Seq<u8>,
    pub pubkey: Seq<u8>,
    pub kind: u16,
    pub created_at: usize,
    pub content: Seq<char>,
    pub tags: Seq<Seq<Seq<char>>>,
}

/// A Nostr event.
pub struct Event {
    handle: i32,
    id: EventId,
    id_hex: String,
    pubkey: PublicKey,
    pubkey_hex: String,
    kind: u16,
    created_at: usize,
    content: String,
    tags: Vec<Vec<String>>,
}

impl View for Event {
    type V = EventView;

    closed spec fn view(&self) -> EventView {
        EventView {
            handle: self.handle,
            id: self.id@,
            pubkey: self.pubkey@,
            kind: self.kind,
            created_at: self.created_at,
            content: self.content@,
            tags: self.tags.deep_view(),
        }
    }
}

/// The index `t`, `i` names an item of the tags.
pub open spec fn has_item(tags: Seq<Seq<Seq<char>>>, t: int, i: int) -> bool {
    0 <= t < tags.len() && 0 <= i < tags[t].len()
}

/// Tag `k` is named `name`: its first item is `name`.
pub open spec fn tag_named(tags: Seq<Seq<Seq<char>>>, k: int, name: Seq<char>) -> bool {
    0 <= k < tags.len() && tags[k].len() > 0 && tags[k][0] == name
}

/// Tag `k` is the first tag named `name`.
pub open spec fn first_tag_named(tags: Seq<Seq<Seq<char>>>, k: int, name: Seq<char>) -> bool {
    tag_named(tags, k, name) && forall|j: int| 0 <= j < k ==> !tag_named(tags, j, name)
}

/// No tag is named `name`.
pub open spec fn no_tag_named(tags: Seq<Seq<Seq<char>>>, name: Seq<char>) -> bool {
    forall|j: int| 0 <= j < tags.len() ==> !tag_named(tags, j, name)
}

impl Event {
    #[verifier::type_invariant]
    closed spec fn inv(self) -> bool {
        &&& self.id_hex@ == hex_lower(self.id@)
        &&& self.pubkey_hex@ == hex_lower(self.pubkey@)
        &&& self.id@.len() == 32
        &&& self.pubkey@.len() == 32
    }

    /// An event with the data that the host reports for `handle`.
    pub fn new(
        handle: i32,
        id: [u8; 32],
        pubkey: [u8; 32],
        kind: u16,
        created_at: usize,
        content: String,
        tags: Vec<Vec<String>>,
    ) -> (e: Event)
        ensures
            e@ == (EventView {
                handle,
                id: id@,
                pubkey: pubkey@,
                kind,
                created_at,
                content: content@,
                tags: tags.deep_view(),
            }),
    {
        let id_hex = encode_hex_lower(&id);
        let pubkey_hex = encode_hex_lower(&pubkey);
        Event {
            handle,
            id: EventId::from(id),
            id_hex,
            pubkey: PublicKey::from(pubkey),
            pubkey_hex,
            kind,
            created_at,
            content,
            tags,
        }
    }

    /// Returns the event ID.
    pub fn id(&self) -> (r: EventId)
        ensures
            r@ == self@.id,
    {
        self.id
    }

    /// Returns the event ID as a lowercase hexadecimal string.
    pub fn id_hex(&self) -> (r: &str)
        ensures
            r@ == hex_lower(self@.id),
    {
        proof {
            use_type_invariant(self);
        }
        self.id_hex.as_str()
    }

    /// Returns the public key of the event's author.
    pub fn pubkey(&self) -> (r: PublicKey)
        ensures
            r@ == self@.pubkey,
    {
        self.pubkey
    }

    /// Returns the author's public key as a lowercase hexadecimal string.
    pub fn pubkey_hex(&self) -> (r: &str)
        ensures
            r@ == hex_lower(self@.pubkey),
    {
        proof {
            use_type_invariant(self);
        }
        self.pubkey_hex.as_str()
    }

    /// Returns the event kind.
    pub fn kind(&self) -> (r: u16)
        ensures
            r == self@.kind,
    {
        self.kind
    }

    /// Returns the Unix timestamp when this event was created.
    pub fn created_at(&self) -> (r: usize)
        ensures
            r == self@.created_at,
    {
        self.created_at
    }

    /// Returns the event's content.
    pub fn content(&self) -> (r: &str)
        ensures
            r@ == self@.content,
    {
        self.content.as_str()
    }

    /// Total number of tags present in this event.
    pub fn tag_count(&self) -> (r: usize)
        ensures
            r == self@.tags.len(),
    {
        self.tags.len()
    }

    /// Number of items in a specific tag by index.
    ///
    /// Returns `None` when the tag index is out of bounds (or the tag is
    /// empty).
    pub fn tag_items_count(&self, tag_index: usize) -> (r: Option<usize>)
        ensures
            r is Some <==> tag_index < self@.tags.len() && self@.tags[tag_index as int].len() > 0,
            r matches Some(n) ==> n == self@.tags[tag_index as int].len(),
    {
        if tag_index < self.tags.len() {
            let n = self.tags[tag_index].len();
            if n == 0 {
                None
            } else {
                Some(n)
            }
        } else {
            None
        }
    }

    /// String value of a specific tag item by index.
    ///
    /// Returns `None` when either index is out of bounds.
    pub fn tag_item(&self, tag_index: usize, item_index: usize) -> (r: Option<&str>)
        ensures
            r is Some <==> has_item(self@.tags, tag_index as int, item_index as int),
            r matches Some(s) ==> s@ == self@.tags[tag_index as int][item_index as int],
    {
        if tag_index < self.tags.len() && item_index < self.tags[tag_index].len() {
            Some(self.tags[tag_index][item_index].as_str())
        } else {
            None
        }
    }

    /// Decoded bytes of a 64-character hex tag item by index.
    ///
    /// Returns `None` when either index is out of bounds, or if the value is
    /// not 64 hexadecimal digits.
    pub fn tag_item_bytes(&self, tag_index: usize, item_index: usize) -> (r: Option<[u8; 32]>)
        ensures
            match r {
                Some(b) => has_item(self@.tags, tag_index as int, item_index as int)
                    && decode_hex32(encode_utf8(self@.tags[tag_index as int][item_index as int]))
                    == Some(b@),
                None => !has_item(self@.tags, tag_index as int, item_index as int)
                    || decode_hex32(encode_utf8(self@.tags[tag_index as int][item_index as int])) is None,
            },
    {
        match self.tag_item(tag_index, item_index) {
            Some(item) => hex32_from_bytes(item.as_bytes()),
            None => None,
        }
    }

    /// Position of the first tag named `name`, if any.
    fn first_tag_index(&self, name: &str) -> (r: Option<usize>)
        ensures
            match r {
                Some(k) => first_tag_named(self@.tags, k as int, name@),
                None => no_tag_named(self@.tags, name@),
            },
    {
        let wanted = name.to_owned();
        let mut k: usize = 0;
        while k < self.tags.len()
            invariant
                0 <= k <= self.tags@.len(),
                wanted@ == name@,
                forall|j: int| 0 <= j < k ==> !tag_named(self@.tags, j, name@),
            decreases self.tags@.len() - k,
        {
            if self.tags[k].len() > 0 && self.tags[k][0] == wanted {
                return Some(k);
            }
            k = k + 1;
        }
        None
    }

    /// String value of a tag item by tag name: item `item_index` of the first
    /// tag whose first item is `name`.
    ///
    /// Returns `None` if no tag with this name exists or the item index is out
    /// of bounds.
    pub fn tag_item_by_name(&self, name: &str, item_index: usize) -> (r: Option<&str>)
        ensures
            match r {
                Some(s) => exists|k: int|
                    first_tag_named(self@.tags, k, name@) && item_index < self@.tags[k].len()
                        && s@ == #[trigger] self@.tags[k][item_index as int],
                None => forall|k: int|
                    first_tag_named(self@.tags, k, name@) ==> item_index >= #[trigger] self@.tags[k].len(),
            },
    {
        match self.first_tag_index(name) {
            Some(k) => {
                let r = self.tag_item(k, item_index);
                proof {
                    assert forall|k2: int| first_tag_named(self@.tags, k2, name@) implies k2 == k by {
                        if k2 < k {
                            assert(!tag_named(self@.tags, k2, name@));
                        } else if k < k2 {
                            assert(!tag_named(self@.tags, k as int, name@));
                        }
                    }
                }
                r
            },
            None => None,
        }
    }

    /// Decoded bytes of a 64-character hex tag item by tag name.
    ///
    /// Returns `None` if no tag with this name exists, the item index is out of
    /// bounds, or the value is not 64 hexadecimal digits.
    pub fn tag_item_by_name_bytes(&self, name: &str, item_index: usize) -> (r: Option<[u8; 32]>)
        ensures
            match r {
                Some(b) => exists|k: int|
                    first_tag_named(self@.tags, k, name@) && item_index < self@.tags[k].len()
                        && decode_hex32(encode_utf8(#[trigger] self@.tags[k][item_index as int]))
                        == Some(b@),
                None => forall|k: int|
                    first_tag_named(self@.tags, k, name@) ==> (item_index >= #[trigger] self@.tags[k].len()
                        || decode_hex32(encode_utf8(self@.tags[k][item_index as int])) is None),
            },
    {
        match self.first_tag_index(name) {
            Some(k) => {
                let r = self.tag_item_bytes(k, item_index);
                proof {
                    assert forall|k2: int| first_tag_named(self@.tags, k2, name@) implies k2 == k by {
                        if k2 < k {
                            assert(!tag_named(self@.tags, k2, name@));
                        } else if k < k2 {
                            assert(!tag_named(self@.tags, k as int, name@));
                        }
                    }
                }
                r
            },
            None => None,
        }
    }
}

/// A by-name query reads the first tag whose first item is the name, character
/// for character: a tag is chosen exactly when its first item equals the name
/// and no earlier tag's first item does, and at most one tag is chosen.
pub proof fn lemma_first_tag_named_exact(tags: Seq<Seq<Seq<char>>>, name: Seq<char>)
    ensures
        forall|k: int|
            #[trigger] first_tag_named(tags, k, name) <==> {
                &&& 0 <= k < tags.len()
                &&& tags[k].len() > 0
                &&& tags[k][0] == name
                &&& forall|j: int| 0 <= j < k ==> !(tags[j].len() > 0 && tags[j][0] == name)
            },
        forall|k1: int, k2: int|
            #[trigger] first_tag_named(tags, k1, name) && #[trigger] first_tag_named(tags, k2, name)
                ==> k1 == k2,
        no_tag_named(tags, name) <==> forall|j: int|
            0 <= j < tags.len() ==> !(#[trigger] tags[j].len() > 0 && tags[j][0] == name),
{
    assert forall|k: int|
        #[trigger] first_tag_named(tags, k, name) <==> {
            &&& 0 <= k < tags.len()
            &&& tags[k].len() > 0
            &&& tags[k][0] == name
            &&& forall|j: int| 0 <= j < k ==> !(tags[j].len() > 0 && tags[j][0] == name)
        } by {
        if first_tag_named(tags, k, name) {
            assert forall|j: int| 0 <= j < k implies !(#[trigger] tags[j].len() > 0 && tags[j][0] == name) by {
                assert(!tag_named(tags, j, name));
            }
        }
        if 0 <= k < tags.len() && tags[k].len() > 0 && tags[k][0] == name && (forall|j: int|
            0 <= j < k ==> !(#[trigger] tags[j].len() > 0 && tags[j][0] == name)) {
            assert forall|j: int| 0 <= j < k implies !#[trigger] tag_named(tags, j, name) by {
                assert(!(tags[j].len() > 0 && tags[j][0] == name));
            }
        }
    }
    if no_tag_named(tags, name) {
        assert forall|j: int| 0 <= j < tags.len() implies !(#[trigger] tags[j].len() > 0 && tags[j][0] == name) by {
            assert(!tag_named(tags, j, name));
        }
    }
    if forall|j: int| 0 <= j < tags.len() ==> !(#[trigger] tags[j].len() > 0 && tags[j][0] == name) {
        assert forall|j: int| 0 <= j < tags.len() implies !#[trigger] tag_named(tags, j, name) by {
            assert(!(tags[j].len() > 0 && tags[j][0] == name));
        }
    }
    assert forall|k1: int, k2: int|
        #[trigger] first_tag_named(tags, k1, name) && #[trigger] first_tag_named(tags, k2, name)
            implies k1 == k2 by {
        if k1 < k2 {
            assert(tag_named(tags, k1, name));
        } else if k2 < k1 {
            assert(tag_named(tags, k2, name));
        }
    }
}


impl IntoHandle for Event {
    open spec fn handle_spec(&self) -> i32 {
        self@.handle
    }

    fn handle(&self) -> (h: i32) {
        self.handle
    }
}

} // verus!
