//! Public keys and event ids, and their short forms for indexing.
use vstd::prelude::*;
use crate::params::{ReadParam, present_with, read_presence_flag};

verus! {

/// The first four and the last four of 32 bytes.
pub open spec fn short_bytes(b: Seq<u8>) -> Seq<u8> {
    b.subrange(0, 4) + b.subrange(28, 32)
}

/// The first four and the last four bytes of `b`.
fn short_of(b: &[u8; 32]) -> (r: [u8; 8])
    ensures
        r@ == short_bytes(b@),
{
    let mut buf = [0u8; 8];
    let mut i: usize = 0;
    while i < 4
        invariant
            0 <= i <= 4,
            buf@.len() == 8,
            forall|j: int| 0 <= j < i ==> buf@[j] == b@[j],
            forall|j: int| 4 <= j < 4 + i ==> buf@[j] == b@[j + 24],
        decreases 4 - i,
    {
        buf[i] = b[i];
        buf[4 + i] = b[28 + i];
        i = i + 1;
    }
    assert(buf@ =~= short_bytes(b@));
    buf
}

/// Whether `s` is the short form of `b`.
fn matches_short_of(b: &[u8; 32], s: &[u8; 8]) -> (r: bool)
    ensures
        r == (short_bytes(b@) == s@),
{
    let mut i: usize = 0;
    while i < 4
        invariant
            0 <= i <= 4,
            b@.len() == 32,
            s@.len() == 8,
            forall|j: int| 0 <= j < i ==> b@[j] == s@[j],
            forall|j: int| 4 <= j < 4 + i ==> s@[j] == b@[j + 24],
        decreases 4 - i,
    {
        if b[i] != s[i] || b[28 + i] != s[4 + i] {
            proof {
                assert(short_bytes(b@)[i as int] == b@[i as int]);
                assert(short_bytes(b@)[4 + i] == b@[28 + i]);
            }
            return false;
        }
        i = i + 1;
    }
    assert(short_bytes(b@) =~= s@);
    true
}

/// Whether two byte arrays of the same length hold the same bytes.
fn same_bytes<const N: usize>(a: &[u8; N], b: &[u8; N]) -> (r: bool)
    ensures
        r == (a@ == b@),
{
    let mut i: usize = 0;
    while i < N
        invariant
            0 <= i <= N,
            a@.len() == N,
            b@.len() == N,
            forall|j: int| 0 <= j < i ==> a@[j] == b@[j],
        decreases N - i,
    {
        if a[i] != b[i] {
            return false;
        }
        i = i + 1;
    }
    assert(a@ =~= b@);
    true
}

/// Short public key for indexing: the first and the last four bytes.
#[derive(Clone, Copy)]
pub struct ShortPubKey(pub(crate) [u8; 8]);

/// A Nostr public key.
#[derive(Clone, Copy)]
pub struct PublicKey(pub(crate) [u8; 32]);

/// Short event id for indexing: the first and the last four bytes.
#[derive(Clone, Copy)]
pub struct ShortEventId(pub(crate) [u8; 8]);

/// A Nostr event id.
#[derive(Clone, Copy)]
pub struct EventId(pub(crate) [u8; 32]);

impl View for ShortPubKey {
    type V = Seq<u8>;

    closed spec fn view(&self) -> Seq<u8> {
        self.0@
    }
}

impl View for PublicKey {
    type V = Seq<u8>;

    closed spec fn view(&self) -> Seq<u8> {
        self.0@
    }
}

impl View for ShortEventId {
    type V = Seq<u8>;

    closed spec fn view(&self) -> Seq<u8> {
        self.0@
    }
}

impl View for EventId {
    type V = Seq<u8>;

    closed spec fn view(&self) -> Seq<u8> {
        self.0@
    }
}

impl PublicKey {
    /// The key's 32 bytes.
    pub fn as_bytes(&self) -> (r: &[u8; 32])
        ensures
            r@ == self@,
            r@.len() == 32,
    {
        &self.0
    }

    /// Derives a compact identifier for the public key.
    pub fn short(&self) -> (r: ShortPubKey)
        ensures
            r@ == short_bytes(self@),
    {
        ShortPubKey(short_of(&self.0))
    }

    /// Check if the public key matches the short one.
    pub fn matches_short(&self, short: &ShortPubKey) -> (r: bool)
        ensures
            r == (short_bytes(self@) == short@),
    {
        matches_short_of(&self.0, &short.0)
    }
}

impl EventId {
    /// The id's 32 bytes.
    pub fn as_bytes(&self) -> (r: &[u8; 32])
        ensures
            r@ == self@,
            r@.len() == 32,
    {
        &self.0
    }

    /// Derives a compact identifier for the event id.
    pub fn short(&self) -> (r: ShortEventId)
        ensures
            r@ == short_bytes(self@),
    {
        ShortEventId(short_of(&self.0))
    }

    /// Check if the event id matches the short one.
    pub fn matches_short(&self, short: &ShortEventId) -> (r: bool)
        ensures
            r == (short_bytes(self@) == short@),
    {
        matches_short_of(&self.0, &short.0)
    }
}

impl From<[u8; 32]> for PublicKey {
    fn from(bytes: [u8; 32]) -> (r: PublicKey)
        ensures
            r@ == bytes@,
    {
        PublicKey(bytes)
    }
}

impl vstd::std_specs::convert::FromSpecImpl<[u8; 32]> for PublicKey {
    open spec fn obeys_from_spec() -> bool {
        true
    }

    closed spec fn from_spec(bytes: [u8; 32]) -> PublicKey {
        PublicKey(bytes)
    }
}

impl From<[u8; 32]> for EventId {
    fn from(bytes: [u8; 32]) -> (r: EventId)
        ensures
            r@ == bytes@,
    {
        EventId(bytes)
    }
}

impl vstd::std_specs::convert::FromSpecImpl<[u8; 32]> for EventId {
    open spec fn obeys_from_spec() -> bool {
        true
    }

    closed spec fn from_spec(bytes: [u8; 32]) -> EventId {
        EventId(bytes)
    }
}

impl PartialEq for PublicKey {
    fn eq(&self, other: &Self) -> (r: bool) {
        same_bytes(&self.0, &other.0)
    }
}

impl vstd::std_specs::cmp::PartialEqSpecImpl for PublicKey {
    open spec fn obeys_eq_spec() -> bool {
        true
    }

    open spec fn eq_spec(&self, other: &Self) -> bool {
        self@ == other@
    }
}

impl Eq for PublicKey {}

impl PartialEq for EventId {
    fn eq(&self, other: &Self) -> (r: bool) {
        same_bytes(&self.0, &other.0)
    }
}

impl vstd::std_specs::cmp::PartialEqSpecImpl for EventId {
    open spec fn obeys_eq_spec() -> bool {
        true
    }

    open spec fn eq_spec(&self, other: &Self) -> bool {
        self@ == other@
    }
}

impl Eq for EventId {}

impl PartialEq for ShortPubKey {
    fn eq(&self, other: &Self) -> (r: bool) {
        same_bytes(&self.0, &other.0)
    }
}

impl vstd::std_specs::cmp::PartialEqSpecImpl for ShortPubKey {
    open spec fn obeys_eq_spec() -> bool {
        true
    }

    open spec fn eq_spec(&self, other: &Self) -> bool {
        self@ == other@
    }
}

impl Eq for ShortPubKey {}

impl PartialEq for ShortEventId {
    fn eq(&self, other: &Self) -> (r: bool) {
        same_bytes(&self.0, &other.0)
    }
}

impl vstd::std_specs::cmp::PartialEqSpecImpl for ShortEventId {
    open spec fn obeys_eq_spec() -> bool {
        true
    }

    open spec fn eq_spec(&self, other: &Self) -> bool {
        self@ == other@
    }
}

impl Eq for ShortEventId {}

/// A key matches a short form exactly when its first four bytes are the short
/// form's first four and its last four bytes the short form's last four.
pub proof fn lemma_matches_short_bytes(key: Seq<u8>, short: Seq<u8>)
    requires
        key.len() == 32,
        short.len() == 8,
    ensures
        (short_bytes(key) == short) <==> (key.subrange(0, 4) == short.subrange(0, 4)
            && key.subrange(28, 32) == short.subrange(4, 8)),
{
    let sb = short_bytes(key);
    assert(sb.subrange(0, 4) =~= key.subrange(0, 4));
    assert(sb.subrange(4, 8) =~= key.subrange(28, 32));
    if key.subrange(0, 4) == short.subrange(0, 4) && key.subrange(28, 32) == short.subrange(4, 8) {
        assert(sb =~= short.subrange(0, 4) + short.subrange(4, 8));
        assert(short =~= short.subrange(0, 4) + short.subrange(4, 8));
    }
}

impl<'a> ReadParam<'a> for PublicKey {
    /// A present flag followed by the key's 32 bytes.
    open spec fn param_ok(buf: Seq<u8>, offset: int) -> bool {
        present_with(buf, offset, 32)
    }

    open spec fn param_end(buf: Seq<u8>, offset: int) -> int {
        offset + 33
    }

    open spec fn param_is(buf: Seq<u8>, offset: int, v: PublicKey) -> bool {
        v@ == buf.subrange(offset + 1, offset + 33)
    }

    fn check_param(buf: &[u8], offset: usize) -> (ok: bool) {
        offset < buf.len() && buf[offset] == 1 && buf.len() - offset - 1 >= 32
    }

    fn read_param(buf: &'a [u8], offset: &mut usize) -> (v: PublicKey) {
        // Reading the length brings its usize bound into the proof of the offsets below.
        let _total = buf.len();
        read_presence_flag(buf, offset);
        let start = *offset;
        let mut key = [0u8; 32];
        let mut i: usize = 0;
        while i < 32
            invariant
                0 <= i <= 32,
                start + 32 <= buf@.len(),
                key@.len() == 32,
                forall|j: int| 0 <= j < i ==> key@[j] == buf@[start + j],
            decreases 32 - i,
        {
            key[i] = buf[start + i];
            i = i + 1;
        }
        *offset = start + 32;
        assert(key@ =~= buf@.subrange(start as int, start + 32));
        PublicKey(key)
    }
}

/// A public key parameter is the present flag and the key's 32 bytes, which
/// are the key read.
pub proof fn lemma_public_key_param_layout(buf: Seq<u8>, offset: int, v: PublicKey)
    requires
        <PublicKey as ReadParam<'static>>::param_ok(buf, offset),
    ensures
        buf[offset] == 1,
        offset + 33 <= buf.len(),
        <PublicKey as ReadParam<'static>>::param_end(buf, offset) == offset + 33,
        <PublicKey as ReadParam<'static>>::param_is(buf, offset, v) <==> (v@.len() == 32 && forall|i: int|
            0 <= i < 32 ==> #[trigger] v@[i] == buf[offset + 1 + i]),
{
    if v@.len() == 32 && forall|i: int| 0 <= i < 32 ==> #[trigger] v@[i] == buf[offset + 1 + i] {
        assert(v@ =~= buf.subrange(offset + 1, offset + 33));
    }
}

} // verus!
