//! How the game's data is laid out in words for the host's store, and how it
//! is read back. Reading undoes writing; words that no writing gives are
//! refused.

use vstd::prelude::*;
use vstd::string::StringSliceAdditionalSpecFns;
use crate::elf::{Elf, StandElf, spec_elf_name};
use crate::events::Event;
use crate::player::{ElfPlayer, PlayerData, PlayerDataView, PlayerView, ranch_views};
use crate::prop::{Prop, UserProp};
use crate::queue::EventQueue;
use crate::random::RandomCommitment;
use crate::ranch::{Ranch, RanchView};

verus! {

/// The words of an event: owner, kind, ranch, elf and countdown.
pub open spec fn spec_event_words(e: Event) -> Seq<u64> {
    seq![e.owner[0], e.owner[1], e.event_type, e.ranch_id, e.elf_id, e.delta as u64]
}

/// The event that starts at `at`, and where the next record starts.
pub open spec fn spec_read_event(data: Seq<u64>, at: int) -> Option<(Event, int)> {
    if 0 <= at && at + 6 <= data.len() && data[at + 5] <= usize::MAX {
        Some(
            (
                Event {
                    owner: [data[at], data[at + 1]],
                    event_type: data[at + 2],
                    ranch_id: data[at + 3],
                    elf_id: data[at + 4],
                    delta: data[at + 5] as usize,
                },
                at + 6,
            ),
        )
    } else {
        None
    }
}

/// The words of a catalog prop.
pub open spec fn spec_prop_words(p: Prop) -> Seq<u64> {
    seq![p.id, p.price, p.price_type, p.prop_type]
}

/// The catalog prop that starts at `at`, and where the next record starts.
pub open spec fn spec_read_prop(data: Seq<u64>, at: int) -> Option<(Prop, int)> {
    if 0 <= at && at + 4 <= data.len() {
        Some(
            (
                Prop { id: data[at], price: data[at + 1], price_type: data[at + 2], prop_type: data[at + 3] },
                at + 4,
            ),
        )
    } else {
        None
    }
}

/// The words of a prop entry of a ranch.
pub open spec fn spec_user_prop_words(p: UserProp) -> Seq<u64> {
    seq![p.prop_type, p.count]
}

/// The prop entry that starts at `at`, and where the next record starts.
pub open spec fn spec_read_user_prop(data: Seq<u64>, at: int) -> Option<(UserProp, int)> {
    if 0 <= at && at + 2 <= data.len() {
        Some((UserProp { prop_type: data[at], count: data[at + 1] }, at + 2))
    } else {
        None
    }
}

/// Byte `i` of the bytes, and zero behind their end.
pub open spec fn spec_byte_or_zero(bytes: Seq<u8>, i: int) -> u8 {
    if 0 <= i < bytes.len() {
        bytes[i]
    } else {
        0
    }
}

/// Word `k` of a text: its bytes from `8 * k` on, the first in the lowest
/// place, filled up with zeros.
pub open spec fn spec_packed_word(bytes: Seq<u8>, k: int) -> u64 {
    (spec_byte_or_zero(bytes, 8 * k) as u64) | (spec_byte_or_zero(bytes, 8 * k + 1) as u64) << 8 | (
    spec_byte_or_zero(bytes, 8 * k + 2) as u64) << 16 | (spec_byte_or_zero(bytes, 8 * k + 3) as u64) << 24
        | (spec_byte_or_zero(bytes, 8 * k + 4) as u64) << 32 | (spec_byte_or_zero(bytes, 8 * k + 5) as u64)
        << 40 | (spec_byte_or_zero(bytes, 8 * k + 6) as u64) << 48 | (spec_byte_or_zero(
        bytes,
        8 * k + 7,
    ) as u64) << 56
}

/// Number of words that a text of `len` bytes takes.
pub open spec fn spec_chunks(len: int) -> int {
    len / 8 + if len % 8 != 0 {
        1int
    } else {
        0int
    }
}

/// The words of a text.
pub open spec fn spec_text_words(bytes: Seq<u8>) -> Seq<u64> {
    Seq::new(spec_chunks(bytes.len() as int) as nat, |k: int| spec_packed_word(bytes, k))
}

/// The words of an elf: its id, the length of its name and the name, then its
/// attributes.
pub open spec fn spec_elf_words(e: Elf) -> Seq<u64> {
    seq![e.id, e.name.spec_bytes().len() as u64] + spec_text_words(e.name.spec_bytes()) + seq![
        e.health,
        e.satiety,
        e.exp,
        e.growth_time,
        e.grade,
        e.max_gold_store,
        e.current_gold_store,
        e.current_gold_produce_base,
        e.elf_type,
    ]
}

/// The elf that starts at `at`, and where the next record starts. The name of
/// an elf is that of its type: words that spell another name are no elf.
pub open spec fn spec_read_elf(data: Seq<u64>, at: int) -> Option<(Elf, int)> {
    if 0 <= at && at + 2 <= data.len() {
        let fields = at + 2 + spec_chunks(data[at + 1] as int);
        if fields + 9 <= data.len() {
            let name = spec_elf_name(data[fields + 8]);
            if name.spec_bytes().len() == data[at + 1] && data.subrange(at + 2, fields) == spec_text_words(
                name.spec_bytes(),
            ) {
                Some(
                    (
                        Elf {
                            id: data[at],
                            name,
                            health: data[fields],
                            satiety: data[fields + 1],
                            exp: data[fields + 2],
                            growth_time: data[fields + 3],
                            grade: data[fields + 4],
                            max_gold_store: data[fields + 5],
                            current_gold_store: data[fields + 6],
                            current_gold_produce_base: data[fields + 7],
                            elf_type: data[fields + 8],
                        },
                        fields + 9,
                    ),
                )
            } else {
                None
            }
        } else {
            None
        }
    } else {
        None
    }
}

/// Byte `i` of the bytes, and zero behind their end.
fn byte_or_zero(bytes: &[u8], i: usize, j: usize) -> (byte: u64)
    requires
        i <= bytes@.len(),
        j < 8,
    ensures
        byte == spec_byte_or_zero(bytes@, i + j) as u64,
{
    if j < bytes.len() - i {
        bytes[i + j] as u64
    } else {
        0
    }
}

/// Word `k` of a text.
pub fn packed_word(bytes: &[u8], k: usize) -> (word: u64)
    requires
        8 * k <= bytes@.len(),
    ensures
        word == spec_packed_word(bytes@, k as int),
{
    let len: usize = bytes.len();
    let i: usize = 8 * k;
    byte_or_zero(bytes, i, 0) | byte_or_zero(bytes, i, 1) << 8 | byte_or_zero(bytes, i, 2) << 16
        | byte_or_zero(bytes, i, 3) << 24 | byte_or_zero(bytes, i, 4) << 32 | byte_or_zero(bytes, i, 5)
        << 40 | byte_or_zero(bytes, i, 6) << 48 | byte_or_zero(bytes, i, 7) << 56
}

/// Number of words that a text of `len` bytes takes.
pub fn chunks_of(len: u64) -> (chunks: u64)
    ensures
        chunks == spec_chunks(len as int),
        8 * (chunks - 1) < len || len == 0,
{
    len / 8 + if len % 8 != 0 {
        1
    } else {
        0
    }
}

/// The name of the elves of a type.
pub fn elf_name(elf_type: u64) -> (name: &'static str)
    ensures
        name == spec_elf_name(elf_type),
{
    match StandElf::get_elf_by_type(elf_type, 1) {
        Some(entry) => entry.name,
        None => "Doge",
    }
}

impl Event {
    /// Appends the words of the event.
    pub fn to_data(&self, buf: &mut Vec<u64>)
        ensures
            final(buf)@ == old(buf)@ + spec_event_words(*self),
    {
        buf.push(self.owner[0]);
        buf.push(self.owner[1]);
        buf.push(self.event_type);
        buf.push(self.ranch_id);
        buf.push(self.elf_id);
        buf.push(self.delta as u64);
        proof {
            assert(buf@ =~= old(buf)@ + spec_event_words(*self));
        }
    }

    /// Reads the event that starts at `at`.
    pub fn from_data(data: &[u64], at: usize) -> (read: Option<(Event, usize)>)
        ensures
            match read {
                Some((event, next)) => spec_read_event(data@, at as int) == Some((event, next as int)),
                None => spec_read_event(data@, at as int) is None,
            },
    {
        if at > data.len() || data.len() - at < 6 || data[at + 5] > usize::MAX as u64 {
            return None;
        }
        let owner: [u64; 2] = [data[at], data[at + 1]];
        proof {
            let want: [u64; 2] = [data@[at as int], data@[at + 1]];
            assert(owner =~= want);
        }
        Some(
            (
                Event {
                    owner,
                    event_type: data[at + 2],
                    ranch_id: data[at + 3],
                    elf_id: data[at + 4],
                    delta: data[at + 5] as usize,
                },
                at + 6,
            ),
        )
    }
}

impl Prop {
    /// Appends the words of the prop.
    pub fn to_data(&self, data: &mut Vec<u64>)
        ensures
            final(data)@ == old(data)@ + spec_prop_words(*self),
    {
        data.push(self.id);
        data.push(self.price);
        data.push(self.price_type);
        data.push(self.prop_type);
        proof {
            assert(data@ =~= old(data)@ + spec_prop_words(*self));
        }
    }

    /// Reads the prop that starts at `at`.
    pub fn from_data(data: &[u64], at: usize) -> (read: Option<(Prop, usize)>)
        ensures
            match read {
                Some((prop, next)) => spec_read_prop(data@, at as int) == Some((prop, next as int)),
                None => spec_read_prop(data@, at as int) is None,
            },
    {
        if at > data.len() || data.len() - at < 4 {
            return None;
        }
        Some(
            (
                Prop { id: data[at], price: data[at + 1], price_type: data[at + 2], prop_type: data[at + 3] },
                at + 4,
            ),
        )
    }
}

impl UserProp {
    /// Appends the words of the prop entry.
    pub fn to_data(&self, data: &mut Vec<u64>)
        ensures
            final(data)@ == old(data)@ + spec_user_prop_words(*self),
    {
        data.push(self.prop_type);
        data.push(self.count);
        proof {
            assert(data@ =~= old(data)@ + spec_user_prop_words(*self));
        }
    }

    /// Reads the prop entry that starts at `at`.
    pub fn from_data(data: &[u64], at: usize) -> (read: Option<(UserProp, usize)>)
        ensures
            match read {
                Some((prop, next)) => spec_read_user_prop(data@, at as int) == Some((prop, next as int)),
                None => spec_read_user_prop(data@, at as int) is None,
            },
    {
        if at > data.len() || data.len() - at < 2 {
            return None;
        }
        Some((UserProp { prop_type: data[at], count: data[at + 1] }, at + 2))
    }
}

impl Elf {
    /// Appends the words of the elf.
    pub fn to_data(&self, data: &mut Vec<u64>)
        ensures
            final(data)@ == old(data)@ + spec_elf_words(*self),
    {
        data.push(self.id);
        let name_bytes: &[u8] = self.name.as_bytes();
        let name_length: usize = name_bytes.len();
        data.push(name_length as u64);
        let chunks: u64 = chunks_of(name_length as u64);
        let ghost head = data@;
        let mut k: usize = 0;
        while (k as u64) < chunks
            invariant
                k <= chunks,
                chunks == spec_chunks(name_bytes@.len() as int),
                name_bytes@.len() <= usize::MAX,
                data@ == head + spec_text_words(name_bytes@).take(k as int),
            decreases chunks - k,
        {
            data.push(packed_word(name_bytes, k));
            proof {
                assert(spec_text_words(name_bytes@).take(k + 1) =~= spec_text_words(name_bytes@).take(
                    k as int,
                ).push(spec_text_words(name_bytes@)[k as int]));
            }
            k += 1;
        }
        proof {
            assert(spec_text_words(name_bytes@).take(k as int) =~= spec_text_words(name_bytes@));
        }
        data.push(self.health);
        data.push(self.satiety);
        data.push(self.exp);
        data.push(self.growth_time);
        data.push(self.grade);
        data.push(self.max_gold_store);
        data.push(self.current_gold_store);
        data.push(self.current_gold_produce_base);
        data.push(self.elf_type);
        proof {
            assert(data@ =~= old(data)@ + spec_elf_words(*self));
        }
    }

    /// Reads the elf that starts at `at`.
    pub fn from_data(data: &[u64], at: usize) -> (read: Option<(Elf, usize)>)
        ensures
            match read {
                Some((elf, next)) => spec_read_elf(data@, at as int) == Some((elf, next as int)),
                None => spec_read_elf(data@, at as int) is None,
            },
    {
        if at > data.len() || data.len() - at < 2 {
            return None;
        }
        let id: u64 = data[at];
        let name_length: u64 = data[at + 1];
        let chunks: u64 = chunks_of(name_length);
        let left: usize = data.len() - at - 2;
        if chunks > left as u64 || left - (chunks as usize) < 9 {
            return None;
        }
        let fields: usize = at + 2 + chunks as usize;
        let elf_type: u64 = data[fields + 8];
        let name: &'static str = elf_name(elf_type);
        let name_bytes: &[u8] = name.as_bytes();
        if name_bytes.len() as u64 != name_length {
            return None;
        }
        let mut k: usize = 0;
        while k < chunks as usize
            invariant
                k <= chunks,
                chunks == spec_chunks(name_bytes@.len() as int),
                name_bytes@.len() <= usize::MAX,
                name_bytes@ == name.spec_bytes(),
                name == spec_elf_name(data@[fields + 8]),
                name_bytes@.len() == data@[at + 1],
                at + 2 <= data@.len(),
                fields == at + 2 + chunks,
                fields + 9 <= data@.len(),
                forall|m: int|
                    0 <= m < k ==> data@[at + 2 + m] == #[trigger] spec_text_words(name_bytes@)[m],
            decreases chunks - k,
        {
            if data[at + 2 + k] != packed_word(name_bytes, k) {
                proof {
                    assert(data@.subrange(at + 2, fields as int)[k as int] != spec_text_words(
                        name_bytes@,
                    )[k as int]);
                }
                return None;
            }
            k += 1;
        }
        proof {
            assert(data@.subrange(at + 2, fields as int) =~= spec_text_words(name_bytes@));
        }
        Some(
            (
                Elf {
                    id,
                    name,
                    health: data[fields],
                    satiety: data[fields + 1],
                    exp: data[fields + 2],
                    growth_time: data[fields + 3],
                    grade: data[fields + 4],
                    max_gold_store: data[fields + 5],
                    current_gold_store: data[fields + 6],
                    current_gold_produce_base: data[fields + 7],
                    elf_type,
                },
                fields + 9,
            ),
        )
    }
}

/// Whether an elf can be written and read back: its name is that of its type
/// and has a length that a word holds.
pub open spec fn storable_elf(e: Elf) -> bool {
    e.name == spec_elf_name(e.elf_type) && e.name.spec_bytes().len() <= u64::MAX
}

/// The names of the catalog are short.
pub proof fn lemma_catalog_names_are_short(elf_type: u64)
    ensures
        spec_elf_name(elf_type).spec_bytes().len() <= 6,
{
    reveal_strlit("Hippo");
    reveal_strlit("Slerf");
    reveal_strlit("Goat");
    reveal_strlit("Pnut");
    reveal_strlit("Popcat");
    reveal_strlit("Brett");
    reveal_strlit("Wif");
    reveal_strlit("Bonk");
    reveal_strlit("Pepe");
    reveal_strlit("Doge");
    let name = spec_elf_name(elf_type);
    assert(vstd::string::is_ascii(name));
    vstd::string::is_ascii_spec_bytes(name);
}

/// A well-formed elf can be written and read back.
pub proof fn lemma_wf_elf_is_storable(e: Elf)
    requires
        e.wf(),
    ensures
        storable_elf(e),
{
    lemma_catalog_names_are_short(e.elf_type);
}

/// Every prop entry can be written and read back.
pub open spec fn storable_user_prop(p: UserProp) -> bool {
    true
}

/// Whether a ranch can be written and read back: its elves can, and its lists
/// have lengths that a word holds.
pub open spec fn storable_ranch(r: RanchView) -> bool {
    &&& r.elfs.len() <= u64::MAX
    &&& r.props.len() <= u64::MAX
    &&& forall|i: int| 0 <= i < r.elfs.len() ==> storable_elf(#[trigger] r.elfs[i])
}

/// Whether a player's data can be written and read back: its ranches can, and
/// there are no more of them than a word holds.
pub open spec fn storable_data(d: PlayerDataView) -> bool {
    &&& d.ranchs.len() <= u64::MAX
    &&& forall|i: int| 0 <= i < d.ranchs.len() ==> storable_ranch(#[trigger] d.ranchs[i])
}

/// Reading undoes writing: an event that was written is read back as it was,
/// whatever stands before and behind its words.
pub proof fn lemma_read_event_roundtrip(pre: Seq<u64>, e: Event, post: Seq<u64>)
    ensures
        spec_read_event(pre + spec_event_words(e) + post, pre.len() as int) == Some((e, (pre.len() + 6) as int)),
{
    let data = pre + spec_event_words(e) + post;
    let at = pre.len() as int;
    let owner: [u64; 2] = [data[at], data[at + 1]];
    assert(owner =~= e.owner);
}

/// Reading undoes writing: a catalog prop that was written is read back as it
/// was.
pub proof fn lemma_read_prop_roundtrip(pre: Seq<u64>, p: Prop, post: Seq<u64>)
    ensures
        spec_read_prop(pre + spec_prop_words(p) + post, pre.len() as int) == Some((p, (pre.len() + 4) as int)),
{
}

/// Reading undoes writing: a prop entry that was written is read back as it
/// was.
pub proof fn lemma_read_user_prop_roundtrip(pre: Seq<u64>, p: UserProp, post: Seq<u64>)
    ensures
        spec_read_user_prop(pre + spec_user_prop_words(p) + post, pre.len() as int) == Some(
            (p, (pre.len() + spec_user_prop_words(p).len()) as int),
        ),
{
}

/// Reading undoes writing: an elf that was written is read back as it was.
pub proof fn lemma_read_elf_roundtrip(pre: Seq<u64>, e: Elf, post: Seq<u64>)
    requires
        storable_elf(e),
    ensures
        spec_read_elf(pre + spec_elf_words(e) + post, pre.len() as int) == Some(
            (e, (pre.len() + spec_elf_words(e).len()) as int),
        ),
{
    let data = pre + spec_elf_words(e) + post;
    let at = pre.len() as int;
    let bytes = e.name.spec_bytes();
    let text = spec_text_words(bytes);
    let fields = at + 2 + spec_chunks(data[at + 1] as int);
    assert(data[at] == e.id);
    assert(data[at + 1] == bytes.len());
    assert(fields == at + 2 + text.len());
    assert(data[fields + 8] == e.elf_type);
    assert(data.subrange(at + 2, fields) =~= text);
    assert(data[fields] == e.health);
    assert(data[fields + 1] == e.satiety);
    assert(data[fields + 2] == e.exp);
    assert(data[fields + 3] == e.growth_time);
    assert(data[fields + 4] == e.grade);
    assert(data[fields + 5] == e.max_gold_store);
    assert(data[fields + 6] == e.current_gold_store);
    assert(data[fields + 7] == e.current_gold_produce_base);
}

/// The words of elves, one after another.
pub open spec fn spec_elfs_words(items: Seq<Elf>) -> Seq<u64>
    decreases items.len(),
{
    if items.len() == 0 {
        Seq::empty()
    } else {
        spec_elfs_words(items.drop_last()) + spec_elf_words(items.last())
    }
}

/// The first `n` of elves that start at `at`, and where the next record
/// starts.
pub open spec fn spec_read_elfs(data: Seq<u64>, at: int, n: nat) -> Option<(Seq<Elf>, int)>
    decreases n,
{
    if n == 0 {
        Some((Seq::empty(), at))
    } else {
        match spec_read_elfs(data, at, (n - 1) as nat) {
            Some((items, next)) => match spec_read_elf(data, next) {
                Some((item, end)) => Some((items.push(item), end)),
                None => None,
            },
            None => None,
        }
    }
}

/// Where fewer of elves cannot be read, more cannot be read either.
pub proof fn lemma_read_elfs_fails_on(data: Seq<u64>, at: int, k: nat, n: nat)
    requires
        k <= n,
        spec_read_elfs(data, at, k) is None,
    ensures
        spec_read_elfs(data, at, n) is None,
    decreases n,
{
    if k < n {
        lemma_read_elfs_fails_on(data, at, k, (n - 1) as nat);
    }
}

/// Reading undoes writing: elves that were written are read back as they
/// were, whatever stands before and behind their words.
pub proof fn lemma_read_elfs_roundtrip(pre: Seq<u64>, items: Seq<Elf>, post: Seq<u64>)
    requires
        forall|i: int| 0 <= i < items.len() ==> storable_elf(#[trigger] items[i]),
    ensures
        spec_read_elfs(pre + spec_elfs_words(items) + post, pre.len() as int, items.len()) == Some(
            (items, (pre.len() + spec_elfs_words(items).len()) as int),
        ),
    decreases items.len(),
{
    let data = pre + spec_elfs_words(items) + post;
    if items.len() > 0 {
        let front = items.drop_last();
        let last = items.last();
        let behind = spec_elf_words(last) + post;
        assert(data =~= pre + spec_elfs_words(front) + behind);
        assert forall|i: int| 0 <= i < front.len() implies storable_elf(#[trigger] front[i]) by {
            assert(front[i] == items[i]);
        }
        lemma_read_elfs_roundtrip(pre, front, behind);
        let before = pre + spec_elfs_words(front);
        assert(data =~= before + spec_elf_words(last) + post);
        lemma_read_elf_roundtrip(before, last, post);
        assert(front.push(last) =~= items);
    }
}

/// The words of prop entries, one after another.
pub open spec fn spec_user_props_words(items: Seq<UserProp>) -> Seq<u64>
    decreases items.len(),
{
    if items.len() == 0 {
        Seq::empty()
    } else {
        spec_user_props_words(items.drop_last()) + spec_user_prop_words(items.last())
    }
}

/// The first `n` of prop entries that start at `at`, and where the next record
/// starts.
pub open spec fn spec_read_user_props(data: Seq<u64>, at: int, n: nat) -> Option<(Seq<UserProp>, int)>
    decreases n,
{
    if n == 0 {
        Some((Seq::empty(), at))
    } else {
        match spec_read_user_props(data, at, (n - 1) as nat) {
            Some((items, next)) => match spec_read_user_prop(data, next) {
                Some((item, end)) => Some((items.push(item), end)),
                None => None,
            },
            None => None,
        }
    }
}

/// Where fewer of prop entries cannot be read, more cannot be read either.
pub proof fn lemma_read_user_props_fails_on(data: Seq<u64>, at: int, k: nat, n: nat)
    requires
        k <= n,
        spec_read_user_props(data, at, k) is None,
    ensures
        spec_read_user_props(data, at, n) is None,
    decreases n,
{
    if k < n {
        lemma_read_user_props_fails_on(data, at, k, (n - 1) as nat);
    }
}

/// Reading undoes writing: prop entries that were written are read back as they
/// were, whatever stands before and behind their words.
pub proof fn lemma_read_user_props_roundtrip(pre: Seq<u64>, items: Seq<UserProp>, post: Seq<u64>)
    requires
        forall|i: int| 0 <= i < items.len() ==> storable_user_prop(#[trigger] items[i]),
    ensures
        spec_read_user_props(pre + spec_user_props_words(items) + post, pre.len() as int, items.len()) == Some(
            (items, (pre.len() + spec_user_props_words(items).len()) as int),
        ),
    decreases items.len(),
{
    let data = pre + spec_user_props_words(items) + post;
    if items.len() > 0 {
        let front = items.drop_last();
        let last = items.last();
        let behind = spec_user_prop_words(last) + post;
        assert(data =~= pre + spec_user_props_words(front) + behind);
        assert forall|i: int| 0 <= i < front.len() implies storable_user_prop(#[trigger] front[i]) by {
            assert(front[i] == items[i]);
        }
        lemma_read_user_props_roundtrip(pre, front, behind);
        let before = pre + spec_user_props_words(front);
        assert(data =~= before + spec_user_prop_words(last) + post);
        lemma_read_user_prop_roundtrip(before, last, post);
        assert(front.push(last) =~= items);
    }
}

/// The words of a ranch: id, fouling level, slots, the number of its elves and
/// the elves, the number of its prop entries and the entries.
#[verifier::opaque]
pub open spec fn spec_ranch_words(r: RanchView) -> Seq<u64> {
    seq![r.id, r.ranch_clean, r.elf_slot, r.elfs.len() as u64] + spec_elfs_words(r.elfs) + seq![
        r.props.len() as u64,
    ] + spec_user_props_words(r.props)
}

/// The ranch that starts at `at`, and where the next record starts.
#[verifier::opaque]
pub open spec fn spec_read_ranch(data: Seq<u64>, at: int) -> Option<(RanchView, int)> {
    if 0 <= at && at + 4 <= data.len() {
        match spec_read_elfs(data, at + 4, data[at + 3] as nat) {
            Some((elfs, props_at)) => {
                if 0 <= props_at < data.len() {
                    match spec_read_user_props(data, props_at + 1, data[props_at] as nat) {
                        Some((props, next)) => Some(
                            (
                                RanchView {
                                    id: data[at],
                                    ranch_clean: data[at + 1],
                                    elf_slot: data[at + 2],
                                    elfs,
                                    props,
                                },
                                next,
                            ),
                        ),
                        None => None,
                    }
                } else {
                    None
                }
            },
            None => None,
        }
    } else {
        None
    }
}

/// Reading undoes writing: a ranch that was written is read back as it was.
pub proof fn lemma_read_ranch_roundtrip(pre: Seq<u64>, r: RanchView, post: Seq<u64>)
    requires
        storable_ranch(r),
    ensures
        spec_read_ranch(pre + spec_ranch_words(r) + post, pre.len() as int) == Some(
            (r, (pre.len() + spec_ranch_words(r).len()) as int),
        ),
{
    reveal(spec_ranch_words);
    reveal(spec_read_ranch);
    let data = pre + spec_ranch_words(r) + post;
    let at = pre.len() as int;
    let head = seq![r.id, r.ranch_clean, r.elf_slot, r.elfs.len() as u64];
    let middle = seq![r.props.len() as u64];
    assert(data[at] == r.id);
    assert(data[at + 1] == r.ranch_clean);
    assert(data[at + 2] == r.elf_slot);
    assert(data[at + 3] == r.elfs.len());
    let behind_elfs = middle + spec_user_props_words(r.props) + post;
    assert(data =~= (pre + head) + spec_elfs_words(r.elfs) + behind_elfs);
    lemma_read_elfs_roundtrip(pre + head, r.elfs, behind_elfs);
    let props_at = at + 4 + spec_elfs_words(r.elfs).len();
    assert(data[props_at] == r.props.len());
    let before_props = pre + head + spec_elfs_words(r.elfs) + middle;
    assert(data =~= before_props + spec_user_props_words(r.props) + post);
    lemma_read_user_props_roundtrip(before_props, r.props, post);
}

/// The words of ranches, one after another.
pub open spec fn spec_ranchs_words(items: Seq<RanchView>) -> Seq<u64>
    decreases items.len(),
{
    if items.len() == 0 {
        Seq::empty()
    } else {
        spec_ranchs_words(items.drop_last()) + spec_ranch_words(items.last())
    }
}

/// The first `n` of ranches that start at `at`, and where the next record
/// starts.
pub open spec fn spec_read_ranchs(data: Seq<u64>, at: int, n: nat) -> Option<(Seq<RanchView>, int)>
    decreases n,
{
    if n == 0 {
        Some((Seq::empty(), at))
    } else {
        match spec_read_ranchs(data, at, (n - 1) as nat) {
            Some((items, next)) => match spec_read_ranch(data, next) {
                Some((item, end)) => Some((items.push(item), end)),
                None => None,
            },
            None => None,
        }
    }
}

/// Where fewer of ranches cannot be read, more cannot be read either.
pub proof fn lemma_read_ranchs_fails_on(data: Seq<u64>, at: int, k: nat, n: nat)
    requires
        k <= n,
        spec_read_ranchs(data, at, k) is None,
    ensures
        spec_read_ranchs(data, at, n) is None,
    decreases n,
{
    if k < n {
        lemma_read_ranchs_fails_on(data, at, k, (n - 1) as nat);
    }
}

/// Reading undoes writing: ranches that were written are read back as they
/// were, whatever stands before and behind their words.
pub proof fn lemma_read_ranchs_roundtrip(pre: Seq<u64>, items: Seq<RanchView>, post: Seq<u64>)
    requires
        forall|i: int| 0 <= i < items.len() ==> storable_ranch(#[trigger] items[i]),
    ensures
        spec_read_ranchs(pre + spec_ranchs_words(items) + post, pre.len() as int, items.len()) == Some(
            (items, (pre.len() + spec_ranchs_words(items).len()) as int),
        ),
    decreases items.len(),
{
    let data = pre + spec_ranchs_words(items) + post;
    if items.len() > 0 {
        let front = items.drop_last();
        let last = items.last();
        let behind = spec_ranch_words(last) + post;
        assert(data =~= pre + spec_ranchs_words(front) + behind);
        assert forall|i: int| 0 <= i < front.len() implies storable_ranch(#[trigger] front[i]) by {
            assert(front[i] == items[i]);
        }
        lemma_read_ranchs_roundtrip(pre, front, behind);
        let before = pre + spec_ranchs_words(front);
        assert(data =~= before + spec_ranch_words(last) + post);
        lemma_read_ranch_roundtrip(before, last, post);
        assert(front.push(last) =~= items);
    }
}

/// The words of a player's data: the four counters, the balance, the number
/// of ranches and the ranches.
pub open spec fn spec_data_words(d: PlayerDataView) -> Seq<u64> {
    seq![d.gold_count, d.clean_count, d.feed_count, d.health_count, d.gold_balance, d.ranchs.len() as u64]
        + spec_ranchs_words(d.ranchs)
}

/// The player's data that starts at `at`, and where the next record starts.
pub open spec fn spec_read_data(data: Seq<u64>, at: int) -> Option<(PlayerDataView, int)> {
    if 0 <= at && at + 6 <= data.len() {
        match spec_read_ranchs(data, at + 6, data[at + 5] as nat) {
            Some((ranchs, next)) => Some(
                (
                    PlayerDataView {
                        gold_count: data[at],
                        clean_count: data[at + 1],
                        feed_count: data[at + 2],
                        health_count: data[at + 3],
                        gold_balance: data[at + 4],
                        ranchs,
                    },
                    next,
                ),
            ),
            None => None,
        }
    } else {
        None
    }
}

/// Reading undoes writing: a player's data that was written is read back as
/// it was.
pub proof fn lemma_read_data_roundtrip(pre: Seq<u64>, d: PlayerDataView, post: Seq<u64>)
    requires
        storable_data(d),
    ensures
        spec_read_data(pre + spec_data_words(d) + post, pre.len() as int) == Some(
            (d, (pre.len() + spec_data_words(d).len()) as int),
        ),
{
    let data = pre + spec_data_words(d) + post;
    let at = pre.len() as int;
    let head = seq![
        d.gold_count,
        d.clean_count,
        d.feed_count,
        d.health_count,
        d.gold_balance,
        d.ranchs.len() as u64,
    ];
    assert(data[at] == d.gold_count);
    assert(data[at + 1] == d.clean_count);
    assert(data[at + 2] == d.feed_count);
    assert(data[at + 3] == d.health_count);
    assert(data[at + 4] == d.gold_balance);
    assert(data[at + 5] == d.ranchs.len());
    assert(data =~= (pre + head) + spec_ranchs_words(d.ranchs) + post);
    lemma_read_ranchs_roundtrip(pre + head, d.ranchs, post);
}

impl Ranch {
    /// Appends the words of the ranch.
    pub fn to_data(&self, data: &mut Vec<u64>)
        ensures
            final(data)@ == old(data)@ + spec_ranch_words(self@),
    {
        proof {
            reveal(spec_ranch_words);
        }
        data.push(self.id);
        data.push(self.ranch_clean);
        data.push(self.elf_slot);
        data.push(self.elfs.len() as u64);
        let ghost head = data@;
        let mut i: usize = 0;
        proof {
            assert(self.elfs@.take(0) =~= Seq::empty());
        }
        while i < self.elfs.len()
            invariant
                i <= self.elfs.len(),
                data@ == head + spec_elfs_words(self.elfs@.take(i as int)),
            decreases self.elfs.len() - i,
        {
            proof {
                assert(self.elfs@.take(i + 1).drop_last() =~= self.elfs@.take(i as int));
            }
            self.elfs[i].to_data(data);
            i += 1;
        }
        proof {
            assert(self.elfs@.take(i as int) =~= self.elfs@);
        }
        data.push(self.props.len() as u64);
        let ghost middle = data@;
        let mut k: usize = 0;
        proof {
            assert(self.props@.take(0) =~= Seq::empty());
        }
        while k < self.props.len()
            invariant
                k <= self.props.len(),
                data@ == middle + spec_user_props_words(self.props@.take(k as int)),
            decreases self.props.len() - k,
        {
            proof {
                assert(self.props@.take(k + 1).drop_last() =~= self.props@.take(k as int));
            }
            self.props[k].to_data(data);
            k += 1;
        }
        proof {
            assert(self.props@.take(k as int) =~= self.props@);
            assert(data@ =~= old(data)@ + spec_ranch_words(self@));
        }
    }

    /// Reads the ranch that starts at `at`.
    pub fn from_data(data: &[u64], at: usize) -> (read: Option<(Ranch, usize)>)
        ensures
            match read {
                Some((ranch, next)) => spec_read_ranch(data@, at as int) == Some((ranch@, next as int)),
                None => spec_read_ranch(data@, at as int) is None,
            },
    {
        proof {
            reveal(spec_read_ranch);
        }
        if at > data.len() || data.len() - at < 4 {
            return None;
        }
        let id: u64 = data[at];
        let ranch_clean: u64 = data[at + 1];
        let elf_slot: u64 = data[at + 2];
        let elfs_count: u64 = data[at + 3];
        let mut elfs: Vec<Elf> = Vec::new();
        let mut pos: usize = at + 4;
        let mut i: u64 = 0;
        while i < elfs_count
            invariant
                i <= elfs_count,
                at + 4 <= data@.len(),
                elfs_count == data@[at + 3],
                spec_read_elfs(data@, at + 4, i as nat) == Some((elfs@, pos as int)),
            decreases elfs_count - i,
        {
            match Elf::from_data(data, pos) {
                Some((elf, next)) => {
                    elfs.push(elf);
                    pos = next;
                },
                None => {
                    proof {
                        reveal(spec_read_ranch);
                        lemma_read_elfs_fails_on(data@, at + 4, (i + 1) as nat, elfs_count as nat);
                    }
                    return None;
                },
            }
            i += 1;
        }
        if pos >= data.len() {
            return None;
        }
        let props_count: u64 = data[pos];
        let props_at: usize = pos + 1;
        let mut props: Vec<UserProp> = Vec::new();
        let mut next_at: usize = props_at;
        let mut k: u64 = 0;
        while k < props_count
            invariant
                k <= props_count,
                at + 4 <= data@.len(),
                spec_read_elfs(data@, at + 4, data@[at + 3] as nat) == Some((elfs@, pos as int)),
                pos < data@.len(),
                props_at == pos + 1,
                props_count == data@[pos as int],
                spec_read_user_props(data@, props_at as int, k as nat) == Some((props@, next_at as int)),
            decreases props_count - k,
        {
            match UserProp::from_data(data, next_at) {
                Some((prop, next)) => {
                    props.push(prop);
                    next_at = next;
                },
                None => {
                    proof {
                        reveal(spec_read_ranch);
                        lemma_read_user_props_fails_on(
                            data@,
                            props_at as int,
                            (k + 1) as nat,
                            props_count as nat,
                        );
                    }
                    return None;
                },
            }
            k += 1;
        }
        Some((Ranch { id, ranch_clean, elf_slot, elfs, props }, next_at))
    }
}

impl PlayerData {
    /// Appends the words of the player's data.
    pub fn to_data(&self, data: &mut Vec<u64>)
        ensures
            final(data)@ == old(data)@ + spec_data_words(self@),
    {
        data.push(self.gold_count);
        data.push(self.clean_count);
        data.push(self.feed_count);
        data.push(self.health_count);
        data.push(self.gold_balance);
        data.push(self.ranchs.len() as u64);
        let ghost head = data@;
        let mut i: usize = 0;
        proof {
            assert(self@.ranchs.take(0) =~= Seq::empty());
        }
        while i < self.ranchs.len()
            invariant
                i <= self.ranchs.len(),
                data@ == head + spec_ranchs_words(self@.ranchs.take(i as int)),
            decreases self.ranchs.len() - i,
        {
            proof {
                assert(self@.ranchs.take(i + 1).drop_last() =~= self@.ranchs.take(i as int));
            }
            self.ranchs[i].to_data(data);
            i += 1;
        }
        proof {
            assert(self@.ranchs.take(i as int) =~= self@.ranchs);
            assert(data@ =~= old(data)@ + spec_data_words(self@));
        }
    }

    /// Reads the player's data that starts at `at`.
    pub fn from_data(data: &[u64], at: usize) -> (read: Option<(PlayerData, usize)>)
        ensures
            match read {
                Some((player, next)) => spec_read_data(data@, at as int) == Some((player@, next as int)),
                None => spec_read_data(data@, at as int) is None,
            },
    {
        if at > data.len() || data.len() - at < 6 {
            return None;
        }
        let ranchs_count: u64 = data[at + 5];
        let mut ranchs: Vec<Ranch> = Vec::new();
        let mut pos: usize = at + 6;
        let mut i: u64 = 0;
        proof {
            assert(ranch_views(ranchs@) =~= Seq::empty());
        }
        while i < ranchs_count
            invariant
                i <= ranchs_count,
                at + 6 <= data@.len(),
                ranchs_count == data@[at + 5],
                spec_read_ranchs(data@, at + 6, i as nat) == Some((ranch_views(ranchs@), pos as int)),
            decreases ranchs_count - i,
        {
            let ghost before = ranch_views(ranchs@);
            match Ranch::from_data(data, pos) {
                Some((ranch, next)) => {
                    let ghost added = ranch@;
                    ranchs.push(ranch);
                    pos = next;
                    proof {
                        assert(ranch_views(ranchs@) =~= before.push(added));
                    }
                },
                None => {
                    proof {
                        lemma_read_ranchs_fails_on(data@, at + 6, (i + 1) as nat, ranchs_count as nat);
                    }
                    return None;
                },
            }
            i += 1;
        }
        let player = PlayerData {
            gold_count: data[at],
            clean_count: data[at + 1],
            feed_count: data[at + 2],
            health_count: data[at + 3],
            gold_balance: data[at + 4],
            ranchs,
        };
        Some((player, pos))
    }
}

/// A well-formed account can be written and read back: what is read from its
/// words, wherever they stand, is the account.
pub proof fn lemma_wf_data_roundtrip(pre: Seq<u64>, player: PlayerData, post: Seq<u64>)
    requires
        player.wf(),
    ensures
        storable_data(player@),
        spec_read_data(pre + spec_data_words(player@) + post, pre.len() as int) == Some(
            (player@, (pre.len() + spec_data_words(player@).len()) as int),
        ),
{
    let d = player@;
    assert(player.ranchs.len() == d.ranchs.len());
    assert forall|i: int| 0 <= i < d.ranchs.len() implies storable_ranch(#[trigger] d.ranchs[i]) by {
        let r = d.ranchs[i];
        assert(r == player.ranchs@[i]@);
        assert(r.wf());
        assert(player.ranchs@[i].props.len() == r.props.len());
        assert(player.ranchs@[i].elfs.len() == r.elfs.len());
        assert forall|j: int| 0 <= j < r.elfs.len() implies storable_elf(#[trigger] r.elfs[j]) by {
            assert(r.elfs[j].wf());
            lemma_wf_elf_is_storable(r.elfs[j]);
        }
    }
    lemma_read_data_roundtrip(pre, d, post);
}

/// The words of the entries of a delta list, one after another.
pub open spec fn spec_events_words(items: Seq<Event>) -> Seq<u64>
    decreases items.len(),
{
    if items.len() == 0 {
        Seq::empty()
    } else {
        spec_events_words(items.drop_last()) + spec_event_words(items.last())
    }
}

/// The first `n` events that start at `at`, and where the next record starts.
pub open spec fn spec_read_events(data: Seq<u64>, at: int, n: nat) -> Option<(Seq<Event>, int)>
    decreases n,
{
    if n == 0 {
        Some((Seq::empty(), at))
    } else {
        match spec_read_events(data, at, (n - 1) as nat) {
            Some((items, next)) => match spec_read_event(data, next) {
                Some((item, end)) => Some((items.push(item), end)),
                None => None,
            },
            None => None,
        }
    }
}

/// Where fewer events cannot be read, more cannot be read either.
pub proof fn lemma_read_events_fails_on(data: Seq<u64>, at: int, k: nat, n: nat)
    requires
        k <= n,
        spec_read_events(data, at, k) is None,
    ensures
        spec_read_events(data, at, n) is None,
    decreases n,
{
    if k < n {
        lemma_read_events_fails_on(data, at, k, (n - 1) as nat);
    }
}

/// Reading undoes writing: events that were written are read back as they
/// were, whatever stands before and behind their words.
pub proof fn lemma_read_events_roundtrip(pre: Seq<u64>, items: Seq<Event>, post: Seq<u64>)
    ensures
        spec_read_events(pre + spec_events_words(items) + post, pre.len() as int, items.len()) == Some(
            (items, (pre.len() + spec_events_words(items).len()) as int),
        ),
        spec_events_words(items).len() == 6 * items.len(),
    decreases items.len(),
{
    let data = pre + spec_events_words(items) + post;
    if items.len() > 0 {
        let front = items.drop_last();
        let last = items.last();
        let behind = spec_event_words(last) + post;
        assert(data =~= pre + spec_events_words(front) + behind);
        lemma_read_events_roundtrip(pre, front, behind);
        let before = pre + spec_events_words(front);
        assert(data =~= before + spec_event_words(last) + post);
        lemma_read_event_roundtrip(before, last, post);
        assert(front.push(last) =~= items);
    }
}

/// The words of a queue: the count of ticks, the number of its entries, and
/// the entries of its delta list.
pub open spec fn spec_queue_words(counter: u64, list: Seq<Event>) -> Seq<u64> {
    seq![counter, list.len() as u64] + spec_events_words(list)
}

/// The count of ticks and the delta list of the queue that starts at `at`,
/// and where the next record starts.
pub open spec fn spec_read_queue(data: Seq<u64>, at: int) -> Option<((u64, Seq<Event>), int)> {
    if 0 <= at && at + 2 <= data.len() {
        match spec_read_events(data, at + 2, data[at + 1] as nat) {
            Some((list, next)) => Some(((data[at], list), next)),
            None => None,
        }
    } else {
        None
    }
}

/// Reading undoes writing: a queue that was written is read back as it was.
pub proof fn lemma_read_queue_roundtrip(pre: Seq<u64>, counter: u64, list: Seq<Event>, post: Seq<u64>)
    requires
        list.len() <= u64::MAX,
    ensures
        spec_read_queue(pre + spec_queue_words(counter, list) + post, pre.len() as int) == Some(
            ((counter, list), (pre.len() + spec_queue_words(counter, list).len()) as int),
        ),
{
    let data = pre + spec_queue_words(counter, list) + post;
    let at = pre.len() as int;
    let head = seq![counter, list.len() as u64];
    assert(data[at] == counter);
    assert(data[at + 1] == list.len());
    assert(data =~= (pre + head) + spec_events_words(list) + post);
    lemma_read_events_roundtrip(pre + head, list, post);
}

impl EventQueue {
    /// Appends the words of the queue.
    pub fn to_data(&self, data: &mut Vec<u64>)
        ensures
            final(data)@ == old(data)@ + spec_queue_words(self.counter, self.list@),
    {
        data.push(self.counter);
        data.push(self.list.len() as u64);
        let ghost head = data@;
        let mut i: usize = 0;
        proof {
            assert(self.list@.take(0) =~= Seq::empty());
        }
        while i < self.list.len()
            invariant
                i <= self.list.len(),
                data@ == head + spec_events_words(self.list@.take(i as int)),
            decreases self.list.len() - i,
        {
            proof {
                assert(self.list@.take(i + 1).drop_last() =~= self.list@.take(i as int));
            }
            self.list[i].to_data(data);
            i += 1;
        }
        proof {
            assert(self.list@.take(i as int) =~= self.list@);
            assert(data@ =~= old(data)@ + spec_queue_words(self.counter, self.list@));
        }
    }

    /// Reads the queue that starts at `at`.
    pub fn from_data(data: &[u64], at: usize) -> (read: Option<(EventQueue, usize)>)
        ensures
            match read {
                Some((queue, next)) => spec_read_queue(data@, at as int) == Some(
                    ((queue.counter, queue.list@), next as int),
                ),
                None => spec_read_queue(data@, at as int) is None,
            },
    {
        if at > data.len() || data.len() - at < 2 {
            return None;
        }
        let counter: u64 = data[at];
        let count: u64 = data[at + 1];
        let mut list: Vec<Event> = Vec::new();
        let mut pos: usize = at + 2;
        let mut i: u64 = 0;
        while i < count
            invariant
                i <= count,
                at + 2 <= data@.len(),
                count == data@[at + 1],
                spec_read_events(data@, at + 2, i as nat) == Some((list@, pos as int)),
            decreases count - i,
        {
            match Event::from_data(data, pos) {
                Some((event, next)) => {
                    list.push(event);
                    pos = next;
                },
                None => {
                    proof {
                        lemma_read_events_fails_on(data@, at + 2, (i + 1) as nat, count as nat);
                    }
                    return None;
                },
            }
            i += 1;
        }
        Some((EventQueue { counter, list }, pos))
    }
}

/// The words of a player: id, nonce and data.
pub open spec fn spec_player_words(p: PlayerView) -> Seq<u64> {
    seq![p.player_id[0], p.player_id[1], p.nonce] + spec_data_words(p.data)
}

/// The player that starts at `at`, and where the next record starts.
pub open spec fn spec_read_player(data: Seq<u64>, at: int) -> Option<(PlayerView, int)> {
    if 0 <= at && at + 3 <= data.len() {
        match spec_read_data(data, at + 3) {
            Some((account, next)) => Some(
                (PlayerView { player_id: [data[at], data[at + 1]], nonce: data[at + 2], data: account }, next),
            ),
            None => None,
        }
    } else {
        None
    }
}

/// Reading undoes writing: a player that was written is read back as it was.
pub proof fn lemma_read_player_roundtrip(pre: Seq<u64>, p: PlayerView, post: Seq<u64>)
    requires
        storable_data(p.data),
    ensures
        spec_read_player(pre + spec_player_words(p) + post, pre.len() as int) == Some(
            (p, (pre.len() + spec_player_words(p).len()) as int),
        ),
{
    let data = pre + spec_player_words(p) + post;
    let at = pre.len() as int;
    let head = seq![p.player_id[0], p.player_id[1], p.nonce];
    assert(data[at] == p.player_id[0]);
    assert(data[at + 1] == p.player_id[1]);
    assert(data[at + 2] == p.nonce);
    let id: [u64; 2] = [data[at], data[at + 1]];
    assert(id =~= p.player_id);
    assert(data =~= (pre + head) + spec_data_words(p.data) + post);
    lemma_read_data_roundtrip(pre + head, p.data, post);
}

/// The words of the random source: a mark, and the commitment or zeros.
pub open spec fn spec_commitment_words(c: RandomCommitment) -> Seq<u64> {
    match c {
        RandomCommitment::NoCommitment => seq![0, 0, 0, 0, 0],
        RandomCommitment::AwaitingReveal(d) => seq![1, d[0], d[1], d[2], d[3]],
    }
}

/// The random source that starts at `at`, and where the next record starts.
pub open spec fn spec_read_commitment(data: Seq<u64>, at: int) -> Option<(RandomCommitment, int)> {
    if 0 <= at && at + 5 <= data.len() {
        if data[at] == 1 {
            Some(
                (
                    RandomCommitment::AwaitingReveal(
                        [data[at + 1], data[at + 2], data[at + 3], data[at + 4]],
                    ),
                    at + 5,
                ),
            )
        } else if data[at] == 0 && data[at + 1] == 0 && data[at + 2] == 0 && data[at + 3] == 0 && data[at
            + 4] == 0 {
            Some((RandomCommitment::NoCommitment, at + 5))
        } else {
            None
        }
    } else {
        None
    }
}

/// Reading undoes writing: a random source that was written is read back as
/// it was.
pub proof fn lemma_read_commitment_roundtrip(pre: Seq<u64>, c: RandomCommitment, post: Seq<u64>)
    ensures
        spec_read_commitment(pre + spec_commitment_words(c) + post, pre.len() as int) == Some(
            (c, (pre.len() + 5) as int),
        ),
{
    let data = pre + spec_commitment_words(c) + post;
    let at = pre.len() as int;
    match c {
        RandomCommitment::NoCommitment => {
            assert(data[at] == 0 && data[at + 1] == 0 && data[at + 2] == 0 && data[at + 3] == 0 && data[at
                + 4] == 0);
        },
        RandomCommitment::AwaitingReveal(d) => {
            assert(data[at] == 1);
            let read: [u64; 4] = [data[at + 1], data[at + 2], data[at + 3], data[at + 4]];
            assert(read =~= d);
        },
    }
}

impl ElfPlayer {
    /// Appends the words of the player.
    pub fn to_data(&self, data: &mut Vec<u64>)
        ensures
            final(data)@ == old(data)@ + spec_player_words(self@),
    {
        data.push(self.player_id[0]);
        data.push(self.player_id[1]);
        data.push(self.nonce);
        self.data.to_data(data);
        proof {
            assert(data@ =~= old(data)@ + spec_player_words(self@));
        }
    }

    /// Reads the player that starts at `at`.
    pub fn from_data(data: &[u64], at: usize) -> (read: Option<(ElfPlayer, usize)>)
        ensures
            match read {
                Some((player, next)) => spec_read_player(data@, at as int) == Some((player@, next as int)),
                None => spec_read_player(data@, at as int) is None,
            },
    {
        if at > data.len() || data.len() - at < 3 {
            return None;
        }
        let player_id: [u64; 2] = [data[at], data[at + 1]];
        proof {
            let want: [u64; 2] = [data@[at as int], data@[at + 1]];
            assert(player_id =~= want);
        }
        match PlayerData::from_data(data, at + 3) {
            Some((account, next)) => Some((ElfPlayer { player_id, nonce: data[at + 2], data: account }, next)),
            None => None,
        }
    }
}

impl RandomCommitment {
    /// Appends the words of the random source.
    pub fn to_data(&self, data: &mut Vec<u64>)
        ensures
            final(data)@ == old(data)@ + spec_commitment_words(*self),
    {
        match self {
            RandomCommitment::NoCommitment => {
                data.push(0);
                data.push(0);
                data.push(0);
                data.push(0);
                data.push(0);
            },
            RandomCommitment::AwaitingReveal(d) => {
                data.push(1);
                data.push(d[0]);
                data.push(d[1]);
                data.push(d[2]);
                data.push(d[3]);
            },
        }
        proof {
            assert(data@ =~= old(data)@ + spec_commitment_words(*self));
        }
    }

    /// Reads the random source that starts at `at`.
    pub fn from_data(data: &[u64], at: usize) -> (read: Option<(RandomCommitment, usize)>)
        ensures
            match read {
                Some((source, next)) => spec_read_commitment(data@, at as int) == Some((source, next as int)),
                None => spec_read_commitment(data@, at as int) is None,
            },
    {
        if at > data.len() || data.len() - at < 5 {
            return None;
        }
        if data[at] == 1 {
            let d: [u64; 4] = [data[at + 1], data[at + 2], data[at + 3], data[at + 4]];
            proof {
                let want: [u64; 4] = [data@[at + 1], data@[at + 2], data@[at + 3], data@[at + 4]];
                assert(d =~= want);
            }
            Some((RandomCommitment::AwaitingReveal(d), at + 5))
        } else if data[at] == 0 && data[at + 1] == 0 && data[at + 2] == 0 && data[at + 3] == 0 && data[at
            + 4] == 0 {
            Some((RandomCommitment::NoCommitment, at + 5))
        } else {
            None
        }
    }
}

} // verus!
