//! The long-connection protocol: frames and their headers, reassembly of
//! event payloads sent in chunks, the inbound text-message event, control
//! frames, and the frames the bot sends back.
use vstd::prelude::*;
use vstd::string::*;

use crate::client::{check_api_code, spec_code_label, FeishuCall};
use crate::model::FeishuBot;
use crate::text::{
    i32_to_decimal, opt_string_view, parse_i32, parse_usize, spec_decimal, spec_parse_i32,
    spec_parse_unsigned, spec_signed_decimal, spec_trim, str_eq, trim_str, u64_to_decimal,
};

verus! {

/// One key/value header of a frame.
#[derive(Debug, Clone)]
pub struct FrameHeader {
    pub key: String,
    pub value: String,
}

/// A long-connection frame.
#[derive(Debug, Clone)]
pub struct Frame {
    pub seq_id: u64,
    pub log_id: u64,
    pub service: i32,
    pub method: i32,
    pub headers: Vec<FrameHeader>,
    pub payload_encoding: String,
    pub payload_type: String,
    pub payload: Vec<u8>,
    pub log_id_new: String,
}

/// Frame method of control frames (ping and pong).
pub const FRAME_METHOD_CONTROL: i32 = 0;

/// Frame method of data frames (events).
pub const FRAME_METHOD_DATA: i32 = 1;

/// How long an incomplete chunked payload is kept, in milliseconds.
pub const CHUNK_CACHE_TTL_MS: u64 = 10_000;

/// The value of the first header named `key`, if any.
pub open spec fn spec_header_value(headers: Seq<FrameHeader>, key: Seq<char>) -> Option<Seq<char>>
    decreases headers.len(),
{
    if headers.len() == 0 {
        None
    } else if headers[0].key@ == key {
        Some(headers[0].value@)
    } else {
        spec_header_value(headers.drop_first(), key)
    }
}

/// The value of the frame's first header named `key`.
pub fn frame_header_value<'a>(frame: &'a Frame, key: &str) -> (r: Option<&'a str>)
    ensures
        match r {
            Some(v) => spec_header_value(frame.headers@, key@) == Some(v@),
            None => spec_header_value(frame.headers@, key@) is None,
        },
{
    let mut i: usize = 0;
    assert(frame.headers@.skip(0) =~= frame.headers@);
    while i < frame.headers.len()
        invariant
            i <= frame.headers@.len(),
            spec_header_value(frame.headers@, key@) == spec_header_value(frame.headers@.skip(i as int), key@),
        decreases frame.headers@.len() - i,
    {
        assert(frame.headers@.skip(i as int).drop_first() =~= frame.headers@.skip(i + 1));
        if str_eq(frame.headers[i].key.as_str(), key) {
            return Some(frame.headers[i].value.as_str());
        }
        i = i + 1;
    }
    None
}

fn copy_bytes(v: &Vec<u8>) -> (r: Vec<u8>)
    ensures
        r@ == v@,
{
    let mut r: Vec<u8> = Vec::new();
    let mut i: usize = 0;
    while i < v.len()
        invariant
            i <= v@.len(),
            r@ == v@.take(i as int),
        decreases v@.len() - i,
    {
        r.push(v[i]);
        i = i + 1;
        assert(r@ =~= v@.take(i as int));
    }
    assert(v@.take(i as int) =~= v@);
    r
}

/// The chunks received so far for one chunked payload.
pub struct CachedChunks {
    pub message_id: String,
    pub created_at_ms: u64,
    pub parts: Vec<Option<Vec<u8>>>,
}

/// The view of a list of chunk slots.
pub open spec fn parts_view(parts: Seq<Option<Vec<u8>>>) -> Seq<Option<Seq<u8>>> {
    parts.map_values(|o: Option<Vec<u8>>| match o {
        Some(v) => Some(v@),
        None => None,
    })
}

/// A cached entry: message id, arrival time of its first chunk, chunk slots.
pub type CacheEntryView = (Seq<char>, u64, Seq<Option<Seq<u8>>>);

pub open spec fn entry_view(e: CachedChunks) -> CacheEntryView {
    (e.message_id@, e.created_at_ms, parts_view(e.parts@))
}

/// An entry is kept while at most the time to live has passed since its first chunk.
pub open spec fn spec_fresh(created_at_ms: u64, now_ms: u64) -> bool {
    now_ms < created_at_ms || now_ms - created_at_ms <= CHUNK_CACHE_TTL_MS
}

/// The entries still fresh at `now_ms`, in order.
pub open spec fn spec_prune(entries: Seq<CacheEntryView>, now_ms: u64) -> Seq<CacheEntryView>
    decreases entries.len(),
{
    if entries.len() == 0 {
        entries
    } else {
        let rest = spec_prune(entries.drop_last(), now_ms);
        if spec_fresh(entries.last().1, now_ms) {
            rest.push(entries.last())
        } else {
            rest
        }
    }
}

/// All slots are filled.
pub open spec fn spec_complete(parts: Seq<Option<Seq<u8>>>) -> bool {
    forall|i: int| 0 <= i < parts.len() ==> (#[trigger] parts[i]) is Some
}

/// The filled slots, concatenated in order.
pub open spec fn spec_concat(parts: Seq<Option<Seq<u8>>>) -> Seq<u8>
    decreases parts.len(),
{
    if parts.len() == 0 {
        Seq::empty()
    } else {
        spec_concat(parts.drop_last()) + match parts.last() {
            Some(p) => p,
            None => Seq::empty(),
        }
    }
}

/// `n` empty slots.
pub open spec fn spec_empty_slots(n: nat) -> Seq<Option<Seq<u8>>> {
    Seq::new(n, |i: int| None)
}

/// The position of the entry for `id`, if any.
pub open spec fn spec_find(entries: Seq<CacheEntryView>, id: Seq<char>) -> Option<int> {
    if exists|i: int| 0 <= i < entries.len() && entries[i].0 == id {
        Some(choose|i: int| 0 <= i < entries.len() && entries[i].0 == id)
    } else {
        None
    }
}

pub open spec fn unique_ids(entries: Seq<CacheEntryView>) -> bool {
    forall|i: int, j: int| 0 <= i < j < entries.len() ==> (#[trigger] entries[i]).0 != (#[trigger] entries[j]).0
}

/// What merging a frame into the cache gives.
pub enum MergeOutcome {
    /// The whole payload: a frame that was not chunked, or the last missing chunk.
    Complete(Vec<u8>),
    /// More chunks are awaited.
    Pending,
}

/// The chunk count a frame announces (`sum`), 1 when absent or unreadable.
pub open spec fn spec_sum(headers: Seq<FrameHeader>) -> nat {
    match spec_header_value(headers, "sum"@) {
        Some(v) => match spec_parse_unsigned(v, usize::MAX as nat) {
            Some(n) => n,
            None => 1,
        },
        None => 1,
    }
}

/// The chunk index a frame carries (`seq`), 0 when absent or unreadable.
pub open spec fn spec_seq(headers: Seq<FrameHeader>) -> nat {
    match spec_header_value(headers, "seq"@) {
        Some(v) => match spec_parse_unsigned(v, usize::MAX as nat) {
            Some(n) => n,
            None => 0,
        },
        None => 0,
    }
}

/// The slots of a chunked payload after this frame: the cached slots (fresh
/// ones when there were none or their count differs from `sum`) with the
/// frame's chunk stored at its index when the index is in range.
pub open spec fn spec_slots_after(cached: Option<Seq<Option<Seq<u8>>>>, sum: nat, seq: nat, payload: Seq<u8>) -> Seq<Option<Seq<u8>>> {
    let base = match cached {
        Some(p) => if p.len() == sum {
            p
        } else {
            spec_empty_slots(sum)
        },
        None => spec_empty_slots(sum),
    };
    if seq < sum {
        base.update(seq as int, Some(payload))
    } else {
        base
    }
}

impl MergeOutcome {
    /// The payload handed back, if any.
    pub open spec fn bytes(self) -> Option<Seq<u8>> {
        match self {
            MergeOutcome::Complete(v) => Some(v@),
            MergeOutcome::Pending => None,
        }
    }
}

/// The cache entries and the completed payload after a frame with these
/// headers and payload arrives at `now_ms`.
pub open spec fn spec_merge(entries: Seq<CacheEntryView>, headers: Seq<FrameHeader>, payload: Seq<u8>, now_ms: u64) -> (Seq<CacheEntryView>, Option<Seq<u8>>) {
    let pruned = spec_prune(entries, now_ms);
    match spec_header_value(headers, "message_id"@) {
        None => (pruned, Some(payload)),
        Some(id) => {
            let sum = spec_sum(headers);
            if sum <= 1 {
                (pruned, Some(payload))
            } else {
                let found = spec_find(pruned, id);
                let cached = match found {
                    Some(k) => Some(pruned[k].2),
                    None => None,
                };
                let slots = spec_slots_after(cached, sum, spec_seq(headers), payload);
                if spec_complete(slots) {
                    let rest = match found {
                        Some(k) => pruned.remove(k),
                        None => pruned,
                    };
                    (rest, Some(spec_concat(slots)))
                } else {
                    let kept = match found {
                        Some(k) => pruned.update(k, (id, pruned[k].1, slots)),
                        None => pruned.push((id, now_ms, slots)),
                    };
                    (kept, None)
                }
            }
        }
    }
}

fn empty_slots(n: usize) -> (r: Vec<Option<Vec<u8>>>)
    ensures
        parts_view(r@) == spec_empty_slots(n as nat),
{
    let mut r: Vec<Option<Vec<u8>>> = Vec::new();
    let mut i: usize = 0;
    while i < n
        invariant
            i <= n,
            r@.len() == i,
            parts_view(r@) == spec_empty_slots(i as nat),
        decreases n - i,
    {
        let ghost prev = r@;
        r.push(None);
        i = i + 1;
        assert forall|k: int| 0 <= k < i implies #[trigger] parts_view(r@)[k] == spec_empty_slots(i as nat)[k] by {
            if k < i - 1 {
                assert(r@[k] == prev[k]);
                assert(parts_view(prev)[k] == spec_empty_slots((i - 1) as nat)[k]);
            }
        }
        assert(parts_view(r@) =~= spec_empty_slots(i as nat));
    }
    r
}

fn all_filled(parts: &Vec<Option<Vec<u8>>>) -> (r: bool)
    ensures
        r == spec_complete(parts_view(parts@)),
{
    let mut i: usize = 0;
    while i < parts.len()
        invariant
            i <= parts@.len(),
            forall|k: int| 0 <= k < i ==> (#[trigger] parts_view(parts@)[k]) is Some,
        decreases parts@.len() - i,
    {
        if parts[i].is_none() {
            assert(parts_view(parts@)[i as int] is None);
            return false;
        }
        i = i + 1;
    }
    true
}

fn concat_parts(parts: &Vec<Option<Vec<u8>>>) -> (r: Vec<u8>)
    ensures
        r@ == spec_concat(parts_view(parts@)),
{
    let mut r: Vec<u8> = Vec::new();
    let mut i: usize = 0;
    while i < parts.len()
        invariant
            i <= parts@.len(),
            r@ == spec_concat(parts_view(parts@).take(i as int)),
        decreases parts@.len() - i,
    {
        assert(parts_view(parts@).take(i + 1).drop_last() =~= parts_view(parts@).take(i as int));
        match &parts[i] {
            Some(p) => {
                let mut j: usize = 0;
                let ghost start = r@;
                while j < p.len()
                    invariant
                        j <= p@.len(),
                        r@ == start + p@.take(j as int),
                    decreases p@.len() - j,
                {
                    r.push(p[j]);
                    j = j + 1;
                    assert(r@ =~= start + p@.take(j as int));
                }
                assert(p@.take(j as int) =~= p@);
            },
            None => {
                assert(r@ =~= r@ + Seq::<u8>::empty());
            },
        }
        i = i + 1;
    }
    assert(parts_view(parts@).take(i as int) =~= parts_view(parts@));
    r
}

/// Reassembles chunked event payloads. Stale entries are dropped first; a
/// frame without a message id or announcing at most one chunk is complete
/// by itself; otherwise its chunk is stored and the payload is complete once
/// every chunk of its message has arrived.
pub struct MessageChunkCache {
    chunks: Vec<CachedChunks>,
}

impl MessageChunkCache {
    pub closed spec fn view(&self) -> Seq<CacheEntryView> {
        self.chunks@.map_values(|e: CachedChunks| entry_view(e))
    }

    pub closed spec fn wf(&self) -> bool {
        unique_ids(self.view())
    }

    pub fn new() -> (r: Self)
        ensures
            r.wf(),
            r.view() == Seq::<CacheEntryView>::empty(),
    {
        let r = MessageChunkCache { chunks: Vec::new() };
        assert(r.view() =~= Seq::<CacheEntryView>::empty());
        r
    }

    fn find_entry(&self, id: &str) -> (r: Option<usize>)
        requires
            self.wf(),
        ensures
            match r {
                Some(k) => k < self.view().len() && spec_find(self.view(), id@) == Some(k as int),
                None => spec_find(self.view(), id@) is None,
            },
    {
        let mut k: usize = 0;
        while k < self.chunks.len()
            invariant
                k <= self.chunks@.len(),
                self.wf(),
                forall|i: int| 0 <= i < k ==> (#[trigger] self.view()[i]).0 != id@,
            decreases self.chunks@.len() - k,
        {
            if str_eq(self.chunks[k].message_id.as_str(), id) {
                proof {
                    assert(self.view()[k as int].0 == id@);
                    let c = choose|i: int| 0 <= i < self.view().len() && self.view()[i].0 == id@;
                    if c != k {
                        if c < k {
                            assert(self.view()[c].0 != self.view()[k as int].0);
                        } else {
                            assert(self.view()[k as int].0 != self.view()[c].0);
                        }
                    }
                }
                return Some(k);
            }
            k = k + 1;
        }
        None
    }

    /// Takes in one data frame that arrived at `now_ms`: drops stale entries,
    /// then either hands back a complete payload or keeps the chunk.
    pub fn merge(&mut self, frame: &Frame, now_ms: u64) -> (r: MergeOutcome)
        requires
            old(self).wf(),
        ensures
            final(self).wf(),
            (final(self).view(), r.bytes()) == spec_merge(old(self).view(), frame.headers@, frame.payload@, now_ms),
    {
        self.prune(now_ms);
        let ghost pruned = self.view();
        let message_id = match frame_header_value(frame, "message_id") {
            Some(id) => id,
            None => {
                return MergeOutcome::Complete(copy_bytes(&frame.payload));
            },
        };
        let sum: usize = match frame_header_value(frame, "sum") {
            Some(v) => match parse_usize(v) {
                Some(n) => n,
                None => 1,
            },
            None => 1,
        };
        let seq: usize = match frame_header_value(frame, "seq") {
            Some(v) => match parse_usize(v) {
                Some(n) => n,
                None => 0,
            },
            None => 0,
        };
        if sum <= 1 {
            return MergeOutcome::Complete(copy_bytes(&frame.payload));
        }
        let found = self.find_entry(message_id);
        let mut entry = match found {
            Some(k) => self.chunks.remove(k),
            None => CachedChunks { message_id: message_id.to_string(), created_at_ms: now_ms, parts: empty_slots(sum) },
        };
        let ghost cached: Option<Seq<Option<Seq<u8>>>> = match found {
            Some(k) => Some(pruned[k as int].2),
            None => None,
        };
        proof {
            if let Some(k) = found {
                assert(entry_view(entry) == pruned[k as int]);
                assert(self.view() =~= pruned.remove(k as int));
            }
        }
        if entry.parts.len() != sum {
            entry.parts = empty_slots(sum);
        }
        if seq < entry.parts.len() {
            let ghost before = parts_view(entry.parts@);
            entry.parts[seq] = Some(copy_bytes(&frame.payload));
            assert(parts_view(entry.parts@) =~= before.update(seq as int, Some(frame.payload@)));
        }
        let ghost slots = spec_slots_after(cached, sum as nat, seq as nat, frame.payload@);
        assert(parts_view(entry.parts@) == slots);
        if all_filled(&entry.parts) {
            let merged = concat_parts(&entry.parts);
            proof {
                lemma_unique_remove_keeps(pruned, found);
            }
            MergeOutcome::Complete(merged)
        } else {
            let ghost created = entry.created_at_ms;
            match found {
                Some(k) => {
                    self.chunks.insert(k, entry);
                    proof {
                        assert(self.view() =~= pruned.update(k as int, (message_id@, created, slots)));
                        lemma_unique_update_keeps(pruned, k as int, message_id@, created, slots);
                    }
                },
                None => {
                    self.chunks.push(entry);
                    proof {
                        assert(self.view() =~= pruned.push((message_id@, now_ms, slots)));
                        lemma_unique_push_keeps(pruned, message_id@, now_ms, slots);
                    }
                },
            }
            MergeOutcome::Pending
        }
    }

    fn prune(&mut self, now_ms: u64)
        requires
            old(self).wf(),
        ensures
            final(self).wf(),
            final(self).view() == spec_prune(old(self).view(), now_ms),
    {
        let ghost orig = self.view();
        let mut i: usize = 0;
        let ghost mut j: int = 0;
        assert(self.view().take(0) =~= spec_prune(orig.take(0), now_ms));
        assert(self.view().skip(0) =~= orig.skip(0));
        while i < self.chunks.len()
            invariant
                0 <= i <= j <= orig.len(),
                self.view().len() == i + (orig.len() - j),
                self.view().take(i as int) == spec_prune(orig.take(j), now_ms),
                self.view().skip(i as int) == orig.skip(j),
            decreases orig.len() - j,
        {
            assert(self.view()[i as int] == orig[j]) by {
                assert(self.view().skip(i as int)[0] == orig.skip(j)[0]);
            }
            assert(orig.take(j + 1).drop_last() =~= orig.take(j));
            let created = self.chunks[i].created_at_ms;
            let fresh = now_ms < created || now_ms - created <= CHUNK_CACHE_TTL_MS;
            if fresh {
                let ghost before = self.view();
                i = i + 1;
                proof {
                    assert(self.view().skip(i as int) =~= before.skip(i - 1).drop_first());
                    assert(orig.skip(j + 1) =~= orig.skip(j).drop_first());
                    j = j + 1;
                    assert(self.view().take(i as int) =~= before.take(i - 1).push(orig[j - 1]));
                }
            } else {
                let ghost before = self.view();
                self.chunks.remove(i);
                proof {
                    assert(self.view() =~= before.remove(i as int));
                    assert(self.view().take(i as int) =~= before.take(i as int));
                    assert(self.view().skip(i as int) =~= before.skip(i as int).drop_first());
                    assert(orig.skip(j + 1) =~= orig.skip(j).drop_first());
                    j = j + 1;
                }
            }
        }
        proof {
            assert(self.view().take(i as int) =~= self.view());
            assert(orig.take(j) =~= orig);
            lemma_prune_unique(orig, now_ms);
        }
    }
}

/// Dropping an entry keeps message ids unique.
proof fn lemma_unique_remove_keeps(entries: Seq<CacheEntryView>, found: Option<usize>)
    requires
        unique_ids(entries),
        found matches Some(k) ==> k < entries.len(),
    ensures
        unique_ids(match found {
            Some(k) => entries.remove(k as int),
            None => entries,
        }),
{
    if let Some(k) = found {
        let r = entries.remove(k as int);
        assert forall|a: int, b: int| 0 <= a < b < r.len() implies (#[trigger] r[a]).0 != (#[trigger] r[b]).0 by {
            let x = if a < k { a } else { a + 1 };
            let y = if b < k { b } else { b + 1 };
            assert(r[a] == entries[x] && r[b] == entries[y]);
        }
    }
}

/// Replacing an entry by one with the same id keeps message ids unique.
proof fn lemma_unique_update_keeps(entries: Seq<CacheEntryView>, k: int, id: Seq<char>, created: u64, slots: Seq<Option<Seq<u8>>>)
    requires
        unique_ids(entries),
        0 <= k < entries.len(),
        entries[k].0 == id,
    ensures
        unique_ids(entries.update(k, (id, created, slots))),
{
    let r = entries.update(k, (id, created, slots));
    assert forall|a: int, b: int| 0 <= a < b < r.len() implies (#[trigger] r[a]).0 != (#[trigger] r[b]).0 by {
        assert(r[a].0 == entries[a].0 && r[b].0 == entries[b].0);
    }
}

/// Adding an entry whose id is not present keeps message ids unique.
proof fn lemma_unique_push_keeps(entries: Seq<CacheEntryView>, id: Seq<char>, created: u64, slots: Seq<Option<Seq<u8>>>)
    requires
        unique_ids(entries),
        spec_find(entries, id) is None,
    ensures
        unique_ids(entries.push((id, created, slots))),
{
    let r = entries.push((id, created, slots));
    assert forall|a: int, b: int| 0 <= a < b < r.len() implies (#[trigger] r[a]).0 != (#[trigger] r[b]).0 by {
        if b == entries.len() {
            assert(r[a] == entries[a]);
            if entries[a].0 == id {
                assert(exists|i: int| 0 <= i < entries.len() && entries[i].0 == id);
            }
        } else {
            assert(r[a] == entries[a] && r[b] == entries[b]);
        }
    }
}

/// Every pruned entry is an entry of the input, and pruning keeps the order.
proof fn lemma_prune_from(entries: Seq<CacheEntryView>, now_ms: u64)
    ensures
        spec_prune(entries, now_ms).len() <= entries.len(),
        forall|k: int| 0 <= k < spec_prune(entries, now_ms).len() ==> exists|i: int|
            0 <= i < entries.len() && #[trigger] spec_prune(entries, now_ms)[k] == entries[i],
    decreases entries.len(),
{
    if entries.len() > 0 {
        let rest = entries.drop_last();
        lemma_prune_from(rest, now_ms);
        assert forall|k: int| 0 <= k < spec_prune(entries, now_ms).len() implies exists|i: int|
            0 <= i < entries.len() && #[trigger] spec_prune(entries, now_ms)[k] == entries[i] by {
            if k < spec_prune(rest, now_ms).len() {
                let i = choose|i: int| 0 <= i < rest.len() && spec_prune(rest, now_ms)[k] == rest[i];
                assert(spec_prune(entries, now_ms)[k] == entries[i]);
            } else {
                assert(spec_prune(entries, now_ms)[k] == entries[entries.len() - 1]);
            }
        }
    }
}

/// Pruning keeps message ids unique.
proof fn lemma_prune_unique(entries: Seq<CacheEntryView>, now_ms: u64)
    requires
        unique_ids(entries),
    ensures
        unique_ids(spec_prune(entries, now_ms)),
    decreases entries.len(),
{
    if entries.len() > 0 {
        let rest = entries.drop_last();
        assert(unique_ids(rest));
        lemma_prune_unique(rest, now_ms);
        lemma_prune_from(rest, now_ms);
        let p = spec_prune(entries, now_ms);
        let pr = spec_prune(rest, now_ms);
        if spec_fresh(entries.last().1, now_ms) {
            assert forall|a: int, b: int| 0 <= a < b < p.len() implies (#[trigger] p[a]).0 != (#[trigger] p[b]).0 by {
                if b == p.len() - 1 {
                    let i = choose|i: int| 0 <= i < rest.len() && pr[a] == rest[i];
                    assert(p[a] == entries[i]);
                    assert(p[b] == entries[entries.len() - 1]);
                } else {
                    assert(p[a] == pr[a] && p[b] == pr[b]);
                }
            }
        }
    }
}


/// An entry added after the entries of `pruned`, whose id none of them has,
/// is the one `spec_find` locates once the entries are pruned again while it
/// is still fresh.
proof fn lemma_find_added(pruned: Seq<CacheEntryView>, added: CacheEntryView, now_ms: u64)
    requires
        unique_ids(pruned),
        spec_find(pruned, added.0) is None,
        spec_fresh(added.1, now_ms),
    ensures
        spec_prune(pruned.push(added), now_ms) == spec_prune(pruned, now_ms).push(added),
        spec_find(spec_prune(pruned.push(added), now_ms), added.0) == Some(spec_prune(pruned, now_ms).len() as int),
        unique_ids(spec_prune(pruned.push(added), now_ms)),
{
    let all = pruned.push(added);
    assert(all.drop_last() =~= pruned);
    let kept = spec_prune(pruned, now_ms);
    let p = kept.push(added);
    lemma_prune_from(pruned, now_ms);
    assert forall|i: int| 0 <= i < kept.len() implies (#[trigger] kept[i]).0 != added.0 by {
        let j = choose|j: int| 0 <= j < pruned.len() && kept[i] == pruned[j];
        assert(!(0 <= j < pruned.len() && pruned[j].0 == added.0));
    }
    assert(p[kept.len() as int].0 == added.0);
    let c = choose|i: int| 0 <= i < p.len() && p[i].0 == added.0;
    assert(c == kept.len()) by {
        if c < kept.len() {
            assert(p[c] == kept[c]);
        }
    }
    lemma_prune_unique(pruned, now_ms);
    assert(unique_ids(p)) by {
        assert forall|a: int, b: int| 0 <= a < b < p.len() implies (#[trigger] p[a]).0 != (#[trigger] p[b]).0 by {
            if b < kept.len() {
                assert(p[a] == kept[a] && p[b] == kept[b]);
            } else {
                assert(p[a] == kept[a]);
            }
        }
    }
}

/// The filled chunk slots of a two-chunk payload, concatenated.
proof fn lemma_concat_two(a: Seq<u8>, b: Seq<u8>)
    ensures
        spec_concat(seq![Some(a), Some(b)]) == a + b,
{
    let s = seq![Some(a), Some(b)];
    let one = seq![Some(a)];
    assert(s.drop_last() =~= one);
    assert(one.drop_last() =~= Seq::<Option<Seq<u8>>>::empty());
    assert(spec_concat(Seq::<Option<Seq<u8>>>::empty()) == Seq::<u8>::empty());
    assert(spec_concat(one) == spec_concat(one.drop_last()) + a);
    assert(Seq::<u8>::empty() + a =~= a);
    assert(spec_concat(s) == spec_concat(s.drop_last()) + b);
}

/// A payload sent in two chunks is handed back whole, chunk 0 followed by
/// chunk 1, when its second chunk arrives within the time to live of the
/// first, whichever chunk comes first; the first chunk alone completes
/// nothing, and once complete nothing is kept for the message.
pub proof fn law_two_chunks_reassemble(
    entries: Seq<CacheEntryView>,
    first: Seq<FrameHeader>,
    first_payload: Seq<u8>,
    first_at_ms: u64,
    second: Seq<FrameHeader>,
    second_payload: Seq<u8>,
    second_at_ms: u64,
)
    requires
        unique_ids(entries),
        spec_header_value(first, "message_id"@) is Some,
        spec_header_value(second, "message_id"@) == spec_header_value(first, "message_id"@),
        spec_find(spec_prune(entries, first_at_ms), spec_header_value(first, "message_id"@).unwrap()) is None,
        spec_sum(first) == 2,
        spec_sum(second) == 2,
        (spec_seq(first) == 0 && spec_seq(second) == 1) || (spec_seq(first) == 1 && spec_seq(second) == 0),
        first_at_ms <= second_at_ms,
        second_at_ms - first_at_ms <= CHUNK_CACHE_TTL_MS,
    ensures
        ({
            let id = spec_header_value(first, "message_id"@).unwrap();
            let (after_first, r1) = spec_merge(entries, first, first_payload, first_at_ms);
            let (after_second, r2) = spec_merge(after_first, second, second_payload, second_at_ms);
            let whole = if spec_seq(first) == 0 { first_payload + second_payload } else { second_payload + first_payload };
            &&& r1 is None
            &&& r2 == Some(whole)
            &&& spec_find(after_second, id) is None
        }),
{
    let id = spec_header_value(first, "message_id"@).unwrap();
    let pruned = spec_prune(entries, first_at_ms);
    lemma_prune_unique(entries, first_at_ms);
    let i0 = spec_seq(first);
    let slots1 = spec_empty_slots(2).update(i0 as int, Some(first_payload));
    assert(!spec_complete(slots1)) by {
        if i0 == 0 {
            assert(slots1[1] is None);
        } else {
            assert(slots1[0] is None);
        }
    }
    let added = (id, first_at_ms, slots1);
    let (after_first, r1) = spec_merge(entries, first, first_payload, first_at_ms);
    assert(after_first == pruned.push(added));
    lemma_find_added(pruned, added, second_at_ms);
    let kept = spec_prune(pruned, second_at_ms);
    let pruned2 = spec_prune(after_first, second_at_ms);
    let k = kept.len() as int;
    assert(pruned2[k] == added);
    let slots2 = slots1.update(spec_seq(second) as int, Some(second_payload));
    if i0 == 0 {
        assert(slots2 =~= seq![Some(first_payload), Some(second_payload)]);
        lemma_concat_two(first_payload, second_payload);
    } else {
        assert(slots2 =~= seq![Some(second_payload), Some(first_payload)]);
        lemma_concat_two(second_payload, first_payload);
    }
    assert(spec_complete(slots2));
    let (after_second, r2) = spec_merge(after_first, second, second_payload, second_at_ms);
    assert(after_second == pruned2.remove(k));
    assert(pruned2.remove(k) =~= kept);
    lemma_prune_from(pruned, second_at_ms);
    assert forall|i: int| 0 <= i < kept.len() implies (#[trigger] kept[i]).0 != id by {
        let j = choose|j: int| 0 <= j < pruned.len() && kept[i] == pruned[j];
        assert(!(0 <= j < pruned.len() && pruned[j].0 == id));
    }
}

/// With unique ids, the entry at `q` is the one `spec_find` locates for its id.
proof fn lemma_find_at(entries: Seq<CacheEntryView>, q: int)
    requires
        unique_ids(entries),
        0 <= q < entries.len(),
    ensures
        spec_find(entries, entries[q].0) == Some(q),
{
    let id = entries[q].0;
    assert(exists|i: int| 0 <= i < entries.len() && entries[i].0 == id);
    let c = choose|i: int| 0 <= i < entries.len() && entries[i].0 == id;
    if c < q {
        assert(entries[c].0 != entries[q].0);
    } else if c > q {
        assert(entries[q].0 != entries[c].0);
    }
}

/// Pruning keeps an entry that is still fresh.
proof fn lemma_prune_keeps(entries: Seq<CacheEntryView>, p: int, now_ms: u64)
    requires
        0 <= p < entries.len(),
        spec_fresh(entries[p].1, now_ms),
    ensures
        spec_prune(entries, now_ms).contains(entries[p]),
    decreases entries.len(),
{
    let init = entries.drop_last();
    let kept = spec_prune(init, now_ms);
    if p == entries.len() - 1 {
        assert(spec_prune(entries, now_ms) == kept.push(entries.last()));
        assert(spec_prune(entries, now_ms)[kept.len() as int] == entries[p]);
    } else {
        assert(init[p] == entries[p]);
        lemma_prune_keeps(init, p, now_ms);
        let q = choose|q: int| 0 <= q < kept.len() && kept[q] == entries[p];
        if spec_fresh(entries.last().1, now_ms) {
            assert(spec_prune(entries, now_ms)[q] == entries[p]);
        } else {
            assert(spec_prune(entries, now_ms)[q] == entries[p]);
        }
    }
}

/// The merges of a run of frames (headers, payload, arrival time), one
/// after the other: the entries afterwards and what each merge handed back.
pub open spec fn spec_merge_all(entries: Seq<CacheEntryView>, frames: Seq<(Seq<FrameHeader>, Seq<u8>, u64)>) -> (Seq<CacheEntryView>, Seq<Option<Seq<u8>>>)
    decreases frames.len(),
{
    if frames.len() == 0 {
        (entries, Seq::empty())
    } else {
        let (before, outputs) = spec_merge_all(entries, frames.drop_last());
        let f = frames.last();
        let (after, output) = spec_merge(before, f.0, f.1, f.2);
        (after, outputs.push(output))
    }
}

/// The chunk slots once the chunks of the first `j` frames arrived.
pub open spec fn spec_slots_so_far(parts: Seq<Seq<u8>>, seqs: Seq<nat>, j: int) -> Seq<Option<Seq<u8>>> {
    Seq::new(parts.len(), |i: int| if exists|m: int| 0 <= m < j && seqs[m] == i { Some(parts[i]) } else { None })
}

/// The chunks of one message arriving as frames in the order `seqs`: each
/// frame names the message, announces `parts.len()` chunks and carries the
/// chunk `seqs[j]`; `seqs` is a permutation of the chunk indices and every
/// frame arrives within the time to live of the first.
pub open spec fn spec_chunk_run(
    id: Seq<char>,
    parts: Seq<Seq<u8>>,
    seqs: Seq<nat>,
    frames: Seq<(Seq<FrameHeader>, Seq<u8>, u64)>,
) -> bool {
    &&& parts.len() >= 2
    &&& frames.len() == parts.len() && seqs.len() == parts.len()
    &&& forall|j: int| 0 <= j < seqs.len() ==> #[trigger] seqs[j] < parts.len()
    &&& forall|j1: int, j2: int| 0 <= j1 < j2 < seqs.len() ==> seqs[j1] != seqs[j2]
    &&& forall|i: nat| i < parts.len() ==> #[trigger] seqs.contains(i)
    &&& forall|j: int| 0 <= j < frames.len() ==> {
        let f = #[trigger] frames[j];
        &&& spec_header_value(f.0, "message_id"@) == Some(id)
        &&& spec_sum(f.0) == parts.len()
        &&& spec_seq(f.0) == seqs[j]
        &&& f.1 == parts[seqs[j] as int]
        &&& f.2 <= frames[0].2 + CHUNK_CACHE_TTL_MS
    }
}

/// After the first `j` frames of a run (0 < j < k), nothing was handed back
/// and the cache holds the message's entry with the chunks seen so far.
proof fn lemma_chunk_run_prefix(
    entries: Seq<CacheEntryView>,
    id: Seq<char>,
    parts: Seq<Seq<u8>>,
    seqs: Seq<nat>,
    frames: Seq<(Seq<FrameHeader>, Seq<u8>, u64)>,
    j: int,
)
    requires
        unique_ids(entries),
        spec_chunk_run(id, parts, seqs, frames),
        spec_find(spec_prune(entries, frames[0].2), id) is None,
        1 <= j < parts.len(),
    ensures
        ({
            let (after, outputs) = spec_merge_all(entries, frames.take(j));
            &&& unique_ids(after)
            &&& outputs.len() == j
            &&& forall|m: int| 0 <= m < j ==> (#[trigger] outputs[m]) is None
            &&& spec_find(after, id) matches Some(p) && 0 <= p < after.len()
                && after[p] == (id, frames[0].2, spec_slots_so_far(parts, seqs, j))
        }),
    decreases j,
{
    let k = parts.len();
    let f = frames[j - 1];
    assert(frames.take(j).drop_last() =~= frames.take(j - 1));
    assert(frames.take(j).last() == f);
    let slots = spec_slots_so_far(parts, seqs, j);
    let prev_slots = spec_slots_so_far(parts, seqs, j - 1);
    assert(slots =~= prev_slots.update(seqs[j - 1] as int, Some(parts[seqs[j - 1] as int]))) by {
        assert forall|i: int| 0 <= i < k implies slots[i] == prev_slots.update(seqs[j - 1] as int, Some(parts[seqs[j - 1] as int]))[i] by {
            if i == seqs[j - 1] {
                assert(exists|m: int| 0 <= m < j && seqs[m] == i);
            } else if exists|m: int| 0 <= m < j && seqs[m] == i {
                let m = choose|m: int| 0 <= m < j && seqs[m] == i;
                assert(m < j - 1);
            }
        }
    }
    // the last chunk of the run is still missing, so the message is not complete
    let last = seqs[k - 1] as int;
    assert(slots[last] is None) by {
        if exists|m: int| 0 <= m < j && seqs[m] == last {
            let m = choose|m: int| 0 <= m < j && seqs[m] == last;
            assert(seqs[m] != seqs[k - 1]);
        }
    }
    assert(!spec_complete(slots));
    if j == 1 {
        assert(frames.take(0) =~= Seq::<(Seq<FrameHeader>, Seq<u8>, u64)>::empty());
        let pruned = spec_prune(entries, f.2);
        lemma_prune_unique(entries, f.2);
        assert(prev_slots =~= spec_empty_slots(k));
        lemma_unique_push_keeps(pruned, id, f.2, slots);
        let after = pruned.push((id, f.2, slots));
        lemma_find_at(after, pruned.len() as int);
    } else {
        lemma_chunk_run_prefix(entries, id, parts, seqs, frames, j - 1);
        let (before, outputs) = spec_merge_all(entries, frames.take(j - 1));
        let p = spec_find(before, id).unwrap();
        let pruned = spec_prune(before, f.2);
        lemma_prune_unique(before, f.2);
        lemma_prune_keeps(before, p, f.2);
        let q = choose|q: int| 0 <= q < pruned.len() && pruned[q] == before[p];
        lemma_find_at(pruned, q);
        let after = pruned.update(q, (id, frames[0].2, slots));
        lemma_unique_update_keeps(pruned, q, id, frames[0].2, slots);
        lemma_find_at(after, q);
    }
}

/// A payload sent in any number of chunks is handed back whole, its chunks
/// joined in index order whatever order they arrived in, by the frame that
/// brings its last missing chunk, as long as every chunk arrives within the
/// time to live of the first; the frames before hand back nothing, and once
/// complete nothing is kept for the message.
pub proof fn law_chunks_reassemble_in_any_order(
    entries: Seq<CacheEntryView>,
    id: Seq<char>,
    parts: Seq<Seq<u8>>,
    seqs: Seq<nat>,
    frames: Seq<(Seq<FrameHeader>, Seq<u8>, u64)>,
)
    requires
        unique_ids(entries),
        spec_chunk_run(id, parts, seqs, frames),
        spec_find(spec_prune(entries, frames[0].2), id) is None,
    ensures
        ({
            let (after, outputs) = spec_merge_all(entries, frames);
            &&& outputs.len() == parts.len()
            &&& forall|m: int| 0 <= m < parts.len() - 1 ==> (#[trigger] outputs[m]) is None
            &&& outputs[parts.len() - 1] == Some(spec_concat(Seq::new(parts.len(), |i: int| Some(parts[i]))))
            &&& spec_find(after, id) is None
        }),
{
    let k = parts.len() as int;
    lemma_chunk_run_prefix(entries, id, parts, seqs, frames, k - 1);
    assert(frames.take(k) =~= frames);
    assert(frames.drop_last() =~= frames.take(k - 1));
    let (before, outputs) = spec_merge_all(entries, frames.take(k - 1));
    let f = frames.last();
    assert(f == frames[k - 1]);
    let p = spec_find(before, id).unwrap();
    let pruned = spec_prune(before, f.2);
    lemma_prune_unique(before, f.2);
    lemma_prune_keeps(before, p, f.2);
    let q = choose|q: int| 0 <= q < pruned.len() && pruned[q] == before[p];
    lemma_find_at(pruned, q);
    let prev_slots = spec_slots_so_far(parts, seqs, k - 1);
    let whole = Seq::new(parts.len(), |i: int| Some(parts[i]));
    let slots = prev_slots.update(seqs[k - 1] as int, Some(parts[seqs[k - 1] as int]));
    assert(slots =~= whole) by {
        assert forall|i: int| 0 <= i < k implies slots[i] == whole[i] by {
            if i != seqs[k - 1] {
                assert(seqs.contains(i as nat));
                let m = choose|m: int| 0 <= m < seqs.len() && seqs[m] == i;
                assert(m != k - 1);
                assert(exists|m: int| 0 <= m < k - 1 && seqs[m] == i);
            }
        }
    }
    assert(spec_complete(whole));
    let rest = pruned.remove(q);
    assert forall|i: int| 0 <= i < rest.len() implies (#[trigger] rest[i]).0 != id by {
        if i < q {
            assert(rest[i] == pruned[i]);
            assert(pruned[i].0 != pruned[q].0);
        } else {
            assert(rest[i] == pruned[i + 1]);
            assert(pruned[q].0 != pruned[i + 1].0);
        }
    }
}

// ---------------------------------------------------------------------------
// Inbound text-message events
// ---------------------------------------------------------------------------

/// The `message` object of an event: its string members (`None` when a
/// member is absent or not a string).
#[derive(Debug, Clone)]
pub struct EventMessage {
    pub message_id: Option<String>,
    pub chat_id: Option<String>,
    pub message_type: Option<String>,
    pub content: Option<String>,
}

/// An object that carries an event's body: its `type` string, the
/// `sender.sender_type` string and its `message` object.
#[derive(Debug, Clone)]
pub struct EventBody {
    pub event_type: Option<String>,
    pub sender_type: Option<String>,
    pub message: Option<EventMessage>,
}

/// What the bot reads of an event payload: `header.event_type`,
/// `header.event_id`, the top-level `event_type` and `event_id`, the `event`
/// object when present, and the same body members read from the top level
/// (used when there is no `event` member).
#[derive(Debug, Clone)]
pub struct InboundEventPayload {
    pub header_event_type: Option<String>,
    pub header_event_id: Option<String>,
    pub event_type: Option<String>,
    pub event_id: Option<String>,
    pub event: Option<EventBody>,
    pub top_level: EventBody,
}

/// A text message a user sent to the bot.
#[derive(Debug, Clone, PartialEq, Eq)]
pub struct IncomingTextMessage {
    pub event_id: String,
    pub message_id: String,
    pub chat_id: String,
    pub text: String,
}

/// The view of an extracted message: event id, message id, chat id, text.
pub type IncomingTextMessageView = (Seq<char>, Seq<char>, Seq<char>, Seq<char>);

pub open spec fn incoming_view(m: Option<IncomingTextMessage>) -> Option<IncomingTextMessageView> {
    match m {
        Some(m) => Some((m.event_id@, m.message_id@, m.chat_id@, m.text@)),
        None => None,
    }
}

/// The first of two optional texts that is present.
pub open spec fn spec_or(a: Option<Seq<char>>, b: Option<Seq<char>>) -> Option<Seq<char>> {
    match a {
        Some(x) => Some(x),
        None => b,
    }
}

/// The event type: `header.event_type`, else `event.type`, else the
/// top-level `event_type`.
pub open spec fn spec_event_type(p: InboundEventPayload) -> Option<Seq<char>> {
    spec_or(
        opt_string_view(p.header_event_type),
        spec_or(
            match p.event {
                Some(e) => opt_string_view(e.event_type),
                None => None,
            },
            opt_string_view(p.event_type),
        ),
    )
}

/// The body the message is read from: the `event` object, else the payload itself.
pub open spec fn spec_event_body(p: InboundEventPayload) -> EventBody {
    match p.event {
        Some(e) => e,
        None => p.top_level,
    }
}

/// The content of a user's text message event, before it is decoded: the
/// event type is `im.message.receive_v1`, the sender, when given, is a
/// `user`, and the message is of type `text` with a string content.
pub open spec fn spec_text_content(p: InboundEventPayload) -> Option<Seq<char>> {
    let body = spec_event_body(p);
    if spec_event_type(p) != Some("im.message.receive_v1"@) {
        None
    } else if body.sender_type matches Some(t) && t@ != "user"@ {
        None
    } else {
        match body.message {
            Some(m) => if opt_string_view(m.message_type) == Some("text"@) {
                opt_string_view(m.content)
            } else {
                None
            },
            None => None,
        }
    }
}

/// The message once the `text` member of its content is known: the trimmed
/// text must not be empty, and the event id (`header.event_id`, else the
/// top-level `event_id`, else the message id), the message id and the chat
/// id must all be present.
pub open spec fn spec_message_from_text(p: InboundEventPayload, text: Option<Seq<char>>) -> Option<IncomingTextMessageView> {
    match (text, spec_event_body(p).message) {
        (Some(t), Some(m)) => {
            let event_id = spec_or(opt_string_view(p.header_event_id), spec_or(opt_string_view(p.event_id), opt_string_view(m.message_id)));
            if spec_trim(t).len() == 0 {
                None
            } else {
                match (event_id, opt_string_view(m.message_id), opt_string_view(m.chat_id)) {
                    (Some(e), Some(mid), Some(c)) => Some((e, mid, c, spec_trim(t))),
                    _ => None,
                }
            }
        },
        _ => None,
    }
}

/// `serde_json::Error`, the error of a JSON decoding.
#[verifier::external_type_specification]
#[verifier::external_body]
pub struct ExJsonError(serde_json::Error);

/// What `serde_json::from_str` followed by reading the `text` member as a
/// string gives for a message content: `None` when the content is not JSON,
/// `Some(None)` when it has no string `text` member.
pub uninterp spec fn spec_json_text_member(content: Seq<char>) -> Option<Option<Seq<char>>>;

/// `serde_json::from_str::<Value>` on a message content, then the `text`
/// member read with `Value::get` and `Value::as_str`. The result is named:
/// nothing more is claimed of JSON decoding than that it depends on the
/// content alone.
#[verifier::external_body]
fn json_text_member(content: &str) -> (r: Result<Option<String>, serde_json::Error>)
    ensures
        match r {
            Ok(t) => spec_json_text_member(content@) == Some(opt_string_view(t)),
            Err(_) => spec_json_text_member(content@) is None,
        },
{
    let value: serde_json::Value = serde_json::from_str(content)?;
    Ok(value.get("text").and_then(serde_json::Value::as_str).map(|t| t.to_string()))
}

/// The `text` member of a content, when the content is JSON and has one.
pub open spec fn spec_content_text(content: Seq<char>) -> Option<Seq<char>> {
    match spec_json_text_member(content) {
        Some(t) => t,
        None => None,
    }
}

fn opt_or(a: &Option<String>, b: &Option<String>) -> (r: Option<String>)
    ensures
        opt_string_view(r) == spec_or(opt_string_view(*a), opt_string_view(*b)),
{
    match a {
        Some(x) => Some(x.clone()),
        None => match b {
            Some(y) => Some(y.clone()),
            None => None,
        },
    }
}

fn opt_is(o: &Option<String>, expected: &str) -> (r: bool)
    ensures
        r == (opt_string_view(*o) == Some(expected@)),
{
    match o {
        Some(s) => str_eq(s.as_str(), expected),
        None => false,
    }
}

/// The content of the payload's text message, when the payload is a user's
/// text message event.
pub fn text_message_content(payload: &InboundEventPayload) -> (r: Option<String>)
    ensures
        opt_string_view(r) == spec_text_content(*payload),
{
    let nested = match &payload.event {
        Some(e) => opt_or(&e.event_type, &payload.event_type),
        None => opt_or(&None, &payload.event_type),
    };
    let event_type = opt_or(&payload.header_event_type, &nested);
    if !opt_is(&event_type, "im.message.receive_v1") {
        return None;
    }
    let body = match &payload.event {
        Some(e) => e,
        None => &payload.top_level,
    };
    if let Some(t) = &body.sender_type {
        if !str_eq(t.as_str(), "user") {
            return None;
        }
    }
    match &body.message {
        Some(m) => if opt_is(&m.message_type, "text") {
            match &m.content {
                Some(c) => Some(c.clone()),
                None => None,
            }
        } else {
            None
        },
        None => None,
    }
}

/// The message of a payload once the `text` member of its content is known.
pub fn message_from_text(payload: &InboundEventPayload, text: Option<&str>) -> (r: Option<IncomingTextMessage>)
    ensures
        incoming_view(r) == spec_message_from_text(*payload, crate::text::opt_str_view(text)),
{
    let body = match &payload.event {
        Some(e) => e,
        None => &payload.top_level,
    };
    let (t, m) = match (text, &body.message) {
        (Some(t), Some(m)) => (t, m),
        _ => return None,
    };
    let trimmed = trim_str(t);
    if trimmed.is_empty() {
        return None;
    }
    let fallback = opt_or(&payload.event_id, &m.message_id);
    let event_id = opt_or(&payload.header_event_id, &fallback);
    match (event_id, &m.message_id, &m.chat_id) {
        (Some(e), Some(mid), Some(c)) => Some(IncomingTextMessage {
            event_id: e,
            message_id: mid.clone(),
            chat_id: c.clone(),
            text: trimmed.to_string(),
        }),
        _ => None,
    }
}

/// The user's text message carried by an event payload, if it carries one.
pub fn extract_message_event(payload: &InboundEventPayload) -> (r: Option<IncomingTextMessage>)
    ensures
        incoming_view(r) == match spec_text_content(*payload) {
            Some(c) => spec_message_from_text(*payload, spec_content_text(c)),
            None => None,
        },
{
    let content = match text_message_content(payload) {
        Some(c) => c,
        None => return None,
    };
    match json_text_member(content.as_str()) {
        Ok(Some(t)) => message_from_text(payload, Some(t.as_str())),
        Ok(None) => message_from_text(payload, None),
        Err(_) => message_from_text(payload, None),
    }
}


// ---------------------------------------------------------------------------
// Frames: classification, control frames, replies
// ---------------------------------------------------------------------------

/// How a received frame is handled.
#[derive(Debug, Clone, Copy, PartialEq, Eq, Structural)]
pub enum FrameKind {
    /// A control frame (ping or pong).
    Control,
    /// A data frame that carries (a chunk of) an event.
    Event,
    /// A data frame of another type: nothing is done.
    Ignored,
    /// A frame of a method the protocol does not define.
    Unsupported(i32),
}

pub open spec fn spec_frame_kind(method: i32, headers: Seq<FrameHeader>) -> FrameKind {
    if method == FRAME_METHOD_CONTROL {
        FrameKind::Control
    } else if method == FRAME_METHOD_DATA {
        if spec_header_value(headers, "type"@) == Some("event"@) {
            FrameKind::Event
        } else {
            FrameKind::Ignored
        }
    } else {
        FrameKind::Unsupported(method)
    }
}

/// Classifies a received frame by its method and, for data frames, its `type` header.
pub fn classify_frame(frame: &Frame) -> (r: FrameKind)
    ensures
        r == spec_frame_kind(frame.method, frame.headers@),
{
    if frame.method == FRAME_METHOD_CONTROL {
        FrameKind::Control
    } else if frame.method == FRAME_METHOD_DATA {
        match frame_header_value(frame, "type") {
            Some(t) => if str_eq(t, "event") {
                FrameKind::Event
            } else {
                FrameKind::Ignored
            },
            None => FrameKind::Ignored,
        }
    } else {
        FrameKind::Unsupported(frame.method)
    }
}

/// The error for a frame of an undefined method.
pub fn unsupported_method_message(method: i32) -> (r: String)
    ensures
        r@ == "Unsupported Feishu websocket frame method: "@ + spec_signed_decimal(method as int),
{
    let mut m = String::new();
    m.append("Unsupported Feishu websocket frame method: ");
    let d = i32_to_decimal(method);
    m.append(d.as_str());
    m
}

/// The interval in seconds a pong announces: its `PingInterval`, 120 when
/// absent, and at least 1.
pub open spec fn spec_ping_interval_secs(announced: Option<u64>) -> u64 {
    let v = match announced {
        Some(v) => v,
        None => 120,
    };
    if v < 1 {
        1
    } else {
        v
    }
}

/// The ping interval from the decoded `PingInterval` member of a pong.
pub fn ping_interval_secs(announced: Option<u64>) -> (r: u64)
    ensures
        r == spec_ping_interval_secs(announced),
{
    let v = match announced {
        Some(v) => v,
        None => 120,
    };
    if v < 1 {
        1
    } else {
        v
    }
}

/// What `serde_json::from_slice` followed by reading the `PingInterval`
/// member as an unsigned integer gives for a pong payload: `None` when the
/// payload is not JSON, `Some(None)` when the member is absent or not an
/// unsigned integer.
pub uninterp spec fn spec_json_ping_interval(payload: Seq<u8>) -> Option<Option<u64>>;

/// `serde_json::from_slice::<Value>` on a pong payload, then the
/// `PingInterval` member read with `Value::get` and `Value::as_u64`. The
/// result is named: nothing more is claimed of JSON decoding than that it
/// depends on the payload alone.
#[verifier::external_body]
fn json_ping_interval(payload: &[u8]) -> (r: Result<Option<u64>, serde_json::Error>)
    ensures
        match r {
            Ok(a) => spec_json_ping_interval(payload@) == Some(a),
            Err(_) => spec_json_ping_interval(payload@) is None,
        },
{
    let value: serde_json::Value = serde_json::from_slice(payload)?;
    Ok(value.get("PingInterval").and_then(serde_json::Value::as_u64))
}

/// A pong with a payload carries a new interval; other control frames
/// (pings, frames without a `type`) change nothing.
pub open spec fn spec_pong_with_payload(frame: Frame) -> bool {
    spec_header_value(frame.headers@, "type"@) == Some("pong"@) && frame.payload@.len() > 0
}

/// The new ping interval from a decoded pong payload: the payload must be JSON.
pub fn pong_ping_interval(decoded: Option<Option<u64>>) -> (r: Result<u64, String>)
    ensures
        match decoded {
            Some(a) => r matches Ok(v) && v == spec_ping_interval_secs(a),
            None => r matches Err(m) && m@ == "Invalid Feishu pong payload"@,
        },
{
    match decoded {
        Some(a) => Ok(ping_interval_secs(a)),
        None => Err("Invalid Feishu pong payload".to_string()),
    }
}

/// Handles a control frame: a pong with a payload gives the new ping
/// interval in seconds, anything else gives none.
pub fn handle_control_frame(frame: &Frame) -> (r: Result<Option<u64>, String>)
    ensures
        !spec_pong_with_payload(*frame) ==> r == Ok::<Option<u64>, String>(None),
        spec_pong_with_payload(*frame) ==> match spec_json_ping_interval(frame.payload@) {
            Some(a) => r matches Ok(Some(v)) && v == spec_ping_interval_secs(a),
            None => r matches Err(m) && m@ == "Invalid Feishu pong payload"@,
        },
{
    let message_type = match frame_header_value(frame, "type") {
        Some(t) => t,
        None => return Ok(None),
    };
    if str_eq(message_type, "ping") {
        proof {
            reveal_strlit("ping");
            reveal_strlit("pong");
            assert("ping"@[1] != "pong"@[1]);
        }
        return Ok(None);
    }
    if !str_eq(message_type, "pong") || frame.payload.len() == 0 {
        return Ok(None);
    }
    let decoded = match json_ping_interval(frame.payload.as_slice()) {
        Ok(a) => Some(a),
        Err(_) => None,
    };
    match pong_ping_interval(decoded) {
        Ok(v) => Ok(Some(v)),
        Err(m) => Err(m),
    }
}

/// The view of a list of headers: key and value of each.
pub open spec fn headers_view(headers: Seq<FrameHeader>) -> Seq<(Seq<char>, Seq<char>)> {
    headers.map_values(|h: FrameHeader| (h.key@, h.value@))
}

fn copy_headers(headers: &Vec<FrameHeader>) -> (r: Vec<FrameHeader>)
    ensures
        headers_view(r@) == headers_view(headers@),
{
    let mut r: Vec<FrameHeader> = Vec::new();
    let mut i: usize = 0;
    while i < headers.len()
        invariant
            i <= headers@.len(),
            r@.len() == i,
            headers_view(r@) == headers_view(headers@.take(i as int)),
        decreases headers@.len() - i,
    {
        let ghost prev = r@;
        r.push(FrameHeader { key: headers[i].key.clone(), value: headers[i].value.clone() });
        i = i + 1;
        assert forall|k: int| 0 <= k < i implies #[trigger] headers_view(r@)[k] == headers_view(headers@.take(i as int))[k] by {
            if k < i - 1 {
                assert(r@[k] == prev[k]);
                assert(headers_view(prev)[k] == headers_view(headers@.take(i - 1))[k]);
            }
        }
        assert(headers_view(r@) =~= headers_view(headers@.take(i as int)));
    }
    assert(headers@.take(i as int) =~= headers@);
    r
}

/// The JSON body of the reply to an event frame: `{"code":200}` when the
/// event was handled, `{"code":500}` when handling it failed.
pub open spec fn spec_response_payload(handled: bool) -> Seq<u8> {
    if handled {
        seq![123u8, 34, 99, 111, 100, 101, 34, 58, 50, 48, 48, 125]
    } else {
        seq![123u8, 34, 99, 111, 100, 101, 34, 58, 53, 48, 48, 125]
    }
}

pub fn response_payload(handled: bool) -> (r: Vec<u8>)
    ensures
        r@ == spec_response_payload(handled),
{
    let r: Vec<u8> = if handled {
        vec![123u8, 34, 99, 111, 100, 101, 34, 58, 50, 48, 48, 125]
    } else {
        vec![123u8, 34, 99, 111, 100, 101, 34, 58, 53, 48, 48, 125]
    };
    assert(r@ =~= spec_response_payload(handled));
    r
}

/// The reply to an event frame: the frame's ids, service, method, encoding,
/// type and log id, its headers followed by `biz_rt` (the handling time in
/// milliseconds), and the response code as payload.
pub fn response_frame(frame: &Frame, elapsed_ms: u64, handled: bool) -> (r: Frame)
    ensures
        r.seq_id == frame.seq_id,
        r.log_id == frame.log_id,
        r.service == frame.service,
        r.method == frame.method,
        headers_view(r.headers@) == headers_view(frame.headers@).push(("biz_rt"@, spec_decimal(elapsed_ms as nat))),
        r.payload_encoding@ == frame.payload_encoding@,
        r.payload_type@ == frame.payload_type@,
        r.payload@ == spec_response_payload(handled),
        r.log_id_new@ == frame.log_id_new@,
{
    let mut headers = copy_headers(&frame.headers);
    let ghost prev = headers@;
    headers.push(FrameHeader { key: "biz_rt".to_string(), value: u64_to_decimal(elapsed_ms) });
    assert(headers_view(headers@) =~= headers_view(prev).push(("biz_rt"@, spec_decimal(elapsed_ms as nat))));
    Frame {
        seq_id: frame.seq_id,
        log_id: frame.log_id,
        service: frame.service,
        method: frame.method,
        headers,
        payload_encoding: frame.payload_encoding.clone(),
        payload_type: frame.payload_type.clone(),
        payload: response_payload(handled),
        log_id_new: frame.log_id_new.clone(),
    }
}

/// The ping the bot sends on its ping interval.
pub fn ping_frame(service_id: i32) -> (r: Frame)
    ensures
        r.seq_id == 0,
        r.log_id == 0,
        r.service == service_id,
        r.method == FRAME_METHOD_CONTROL,
        headers_view(r.headers@) == seq![("type"@, "ping"@)],
        r.payload_encoding@.len() == 0,
        r.payload_type@.len() == 0,
        r.payload@.len() == 0,
        r.log_id_new@.len() == 0,
{
    let mut headers: Vec<FrameHeader> = Vec::new();
    headers.push(FrameHeader { key: "type".to_string(), value: "ping".to_string() });
    assert(headers_view(headers@) =~= seq![("type"@, "ping"@)]);
    Frame {
        seq_id: 0,
        log_id: 0,
        service: service_id,
        method: FRAME_METHOD_CONTROL,
        headers,
        payload_encoding: String::new(),
        payload_type: String::new(),
        payload: Vec::new(),
        log_id_new: String::new(),
    }
}


// ---------------------------------------------------------------------------
// Connecting
// ---------------------------------------------------------------------------

/// `url::ParseError`, the error of a URL parse.
#[verifier::external_type_specification]
#[verifier::external_body]
pub struct ExUrlParseError(url::ParseError);

/// The view of a list of key/value pairs.
pub open spec fn pairs_view(pairs: Seq<(String, String)>) -> Seq<(Seq<char>, Seq<char>)> {
    pairs.map_values(|p: (String, String)| (p.0@, p.1@))
}

/// What `url::Url::parse` followed by `Url::query_pairs` gives for a URL:
/// `None` when the URL does not parse, else its decoded query pairs in order.
pub uninterp spec fn spec_url_query_pairs(url: Seq<char>) -> Option<Seq<(Seq<char>, Seq<char>)>>;

/// `url::Url::parse`, then the decoded pairs of `Url::query_pairs`, each
/// turned into owned strings. The result is named: nothing more is claimed
/// of URL parsing than that it depends on the URL alone.
#[verifier::external_body]
fn url_query_pairs(url: &str) -> (r: Result<Vec<(String, String)>, url::ParseError>)
    ensures
        match r {
            Ok(pairs) => spec_url_query_pairs(url@) == Some(pairs_view(pairs@)),
            Err(_) => spec_url_query_pairs(url@) is None,
        },
{
    let parsed = url::Url::parse(url)?;
    Ok(parsed.query_pairs().map(|(k, v)| (k.into_owned(), v.into_owned())).collect())
}

/// The value of the first pair whose key is `key`.
pub open spec fn spec_pair_value(pairs: Seq<(Seq<char>, Seq<char>)>, key: Seq<char>) -> Option<Seq<char>>
    decreases pairs.len(),
{
    if pairs.len() == 0 {
        None
    } else if pairs[0].0 == key {
        Some(pairs[0].1)
    } else {
        spec_pair_value(pairs.drop_first(), key)
    }
}

/// The service id read from the query of the websocket URL, or why it cannot be.
pub open spec fn spec_service_id(pairs: Option<Seq<(Seq<char>, Seq<char>)>>) -> Result<int, Seq<char>> {
    match pairs {
        None => Err("Invalid Feishu websocket URL"@),
        Some(p) => match spec_pair_value(p, "service_id"@) {
            None => Err("Feishu websocket URL missing service_id"@),
            Some(v) => match spec_parse_i32(v) {
                Some(n) => Ok(n),
                None => Err("Invalid Feishu websocket service_id"@),
            },
        },
    }
}

pub open spec fn result_i32_view(r: Result<i32, String>) -> Result<int, Seq<char>> {
    match r {
        Ok(v) => Ok(v as int),
        Err(m) => Err(m@),
    }
}

/// The service id from the decoded query pairs of the websocket URL
/// (`None` when the URL did not parse).
pub fn service_id_from_query(pairs: Option<&Vec<(String, String)>>) -> (r: Result<i32, String>)
    ensures
        result_i32_view(r) == spec_service_id(match pairs {
            Some(p) => Some(pairs_view(p@)),
            None => None,
        }),
{
    let p = match pairs {
        Some(p) => p,
        None => return Err("Invalid Feishu websocket URL".to_string()),
    };
    let ghost pv = pairs_view(p@);
    let mut i: usize = 0;
    assert(pv.skip(0) =~= pv);
    while i < p.len()
        invariant
            i <= p@.len(),
            pairs == Some(p),
            pv == pairs_view(p@),
            spec_pair_value(pv, "service_id"@) == spec_pair_value(pv.skip(i as int), "service_id"@),
        decreases p@.len() - i,
    {
        assert(pv.skip(i as int).drop_first() =~= pv.skip(i + 1));
        assert(pv.skip(i as int)[0] == (p@[i as int].0@, p@[i as int].1@));
        if str_eq(p[i].0.as_str(), "service_id") {
            let value = p[i].1.as_str();
            assert(spec_pair_value(pv, "service_id"@) == Some(value@));
            let parsed = parse_i32(value);
            match parsed {
                Some(n) => {
                    return Ok(n);
                },
                None => {
                    return Err("Invalid Feishu websocket service_id".to_string());
                },
            }
        }
        i = i + 1;
    }
    Err("Feishu websocket URL missing service_id".to_string())
}

/// The service id carried by the `service_id` query parameter of the websocket URL.
pub fn extract_service_id(url: &str) -> (r: Result<i32, String>)
    ensures
        result_i32_view(r) == spec_service_id(spec_url_query_pairs(url@)),
{
    match url_query_pairs(url) {
        Ok(pairs) => service_id_from_query(Some(&pairs)),
        Err(_) => service_id_from_query(None),
    }
}

/// The `ClientConfig` of a long-connection config reply.
#[derive(Debug, Clone)]
pub struct ConnectClientConfig {
    pub ping_interval: u64,
}

/// The `data` of a long-connection config reply.
#[derive(Debug, Clone)]
pub struct ConnectConfigData {
    pub url: String,
    pub client_config: ConnectClientConfig,
}

/// A decoded long-connection config reply.
#[derive(Debug, Clone)]
pub struct ConnectConfigResponse {
    pub code: i32,
    pub msg: String,
    pub data: Option<ConnectConfigData>,
}

/// Where and how to hold the long connection.
#[derive(Debug, Clone)]
pub struct ConnectInfo {
    pub url: String,
    pub service_id: i32,
    pub ping_interval_secs: u64,
}

/// The connection the config reply describes: the reply's `code` must be 0,
/// its `data` present and its URL must carry a service id; the ping
/// interval is at least one second.
pub fn connect_info_from_response(response: ConnectConfigResponse) -> (r: Result<ConnectInfo, String>)
    ensures
        response.code != 0 ==> (r matches Err(m) && m@ == spec_code_label(FeishuCall::LongConnectionConfig) + " failed: "@ + response.msg@),
        response.code == 0 && response.data is None ==> (r matches Err(m) && m@ == "Feishu long connection config response missing data"@),
        response.code == 0 ==> (response.data matches Some(d) ==> match spec_service_id(spec_url_query_pairs(d.url@)) {
            Ok(id) => r matches Ok(info) && info.url@ == d.url@ && info.service_id == id
                && info.ping_interval_secs == (if d.client_config.ping_interval < 1 { 1 } else { d.client_config.ping_interval }),
            Err(m) => r matches Err(e) && e@ == m,
        }),
{
    match check_api_code(FeishuCall::LongConnectionConfig, response.code, response.msg.as_str()) {
        Ok(()) => {},
        Err(m) => return Err(m),
    }
    let data = match response.data {
        Some(d) => d,
        None => return Err("Feishu long connection config response missing data".to_string()),
    };
    let service_id = match extract_service_id(data.url.as_str()) {
        Ok(id) => id,
        Err(m) => return Err(m),
    };
    let ping = if data.client_config.ping_interval < 1 { 1 } else { data.client_config.ping_interval };
    Ok(ConnectInfo { url: data.url, service_id, ping_interval_secs: ping })
}


// ---------------------------------------------------------------------------
// The connection loop
// ---------------------------------------------------------------------------

/// What happens on an open long connection.
pub enum ConnectionEvent {
    /// The ping interval elapsed.
    PingDue,
    /// A binary message that decoded into a frame.
    Frame(Frame),
    /// A binary message that is not a frame.
    UndecodableFrame,
    /// A websocket ping with its payload.
    WebSocketPing(Vec<u8>),
    /// A websocket pong, a text message or a raw frame: nothing to do.
    Other,
    /// The server closed the connection; the close frame, described.
    Closed(String),
    /// Receiving failed.
    ReceiveFailed,
    /// The stream ended.
    StreamEnded,
}

/// What the connection loop does next.
pub enum ConnectionStep {
    /// Nothing.
    Nothing,
    /// Send this frame.
    SendFrame(Frame),
    /// Answer a websocket ping with a pong carrying its payload.
    SendPong(Vec<u8>),
    /// Ping at this interval, in seconds, from now on.
    SetPingInterval(u64),
    /// Handle this event payload, then answer `frame` with
    /// [`response_frame`]; a handling error ends the connection after the answer.
    HandleEvent { frame: Frame, payload: Vec<u8> },
    /// End the connection with this error.
    Fail(String),
}

/// The state of an open long connection: the service id frames carry and
/// the chunks of payloads not yet complete.
pub struct LongConnectionSession {
    service_id: i32,
    cache: MessageChunkCache,
}

impl LongConnectionSession {
    pub closed spec fn service_id(&self) -> i32 {
        self.service_id
    }

    pub closed spec fn cache_view(&self) -> Seq<CacheEntryView> {
        self.cache.view()
    }

    pub closed spec fn wf(&self) -> bool {
        self.cache.wf()
    }

    pub fn new(service_id: i32) -> (r: Self)
        ensures
            r.wf(),
            r.service_id() == service_id,
            r.cache_view() == Seq::<CacheEntryView>::empty(),
    {
        LongConnectionSession { service_id, cache: MessageChunkCache::new() }
    }

    /// Decides what an event on the connection leads to. Only data frames
    /// that carry events change the state (their chunks are cached until
    /// complete); every other event leaves it as it was.
    pub fn on_event(&mut self, event: ConnectionEvent, now_ms: u64) -> (r: ConnectionStep)
        requires
            old(self).wf(),
        ensures
            final(self).wf(),
            final(self).service_id() == old(self).service_id(),
            !(event matches ConnectionEvent::Frame(f) && spec_frame_kind(f.method, f.headers@) == FrameKind::Event)
                ==> final(self).cache_view() == old(self).cache_view(),
            match event {
                ConnectionEvent::PingDue => r matches ConnectionStep::SendFrame(p) && p.service == old(self).service_id()
                    && p.method == FRAME_METHOD_CONTROL && headers_view(p.headers@) == seq![("type"@, "ping"@)]
                    && p.seq_id == 0 && p.log_id == 0 && p.payload@.len() == 0,
                ConnectionEvent::Frame(f) => match spec_frame_kind(f.method, f.headers@) {
                    FrameKind::Control => if !spec_pong_with_payload(f) {
                        r is Nothing
                    } else {
                        match spec_json_ping_interval(f.payload@) {
                            Some(a) => r == ConnectionStep::SetPingInterval(spec_ping_interval_secs(a)),
                            None => r matches ConnectionStep::Fail(m) && m@ == "Invalid Feishu pong payload"@,
                        }
                    },
                    FrameKind::Ignored => r is Nothing,
                    FrameKind::Unsupported(m) => r matches ConnectionStep::Fail(e)
                        && e@ == "Unsupported Feishu websocket frame method: "@ + spec_signed_decimal(m as int),
                    FrameKind::Event => {
                        let (entries, done) = spec_merge(old(self).cache_view(), f.headers@, f.payload@, now_ms);
                        &&& final(self).cache_view() == entries
                        &&& match done {
                            Some(p) => r matches ConnectionStep::HandleEvent { frame, payload } && frame == f && payload@ == p,
                            None => r is Nothing,
                        }
                    },
                },
                ConnectionEvent::UndecodableFrame => r matches ConnectionStep::Fail(m) && m@ == "Failed to decode Feishu websocket frame"@,
                ConnectionEvent::WebSocketPing(p) => r matches ConnectionStep::SendPong(q) && q == p,
                ConnectionEvent::Other => r is Nothing,
                ConnectionEvent::Closed(d) => r matches ConnectionStep::Fail(m) && m@ == "Feishu long connection closed: "@ + d@,
                ConnectionEvent::ReceiveFailed => r matches ConnectionStep::Fail(m) && m@ == "Feishu long connection websocket receive failed"@,
                ConnectionEvent::StreamEnded => r matches ConnectionStep::Fail(m) && m@ == "Feishu long connection stream ended unexpectedly"@,
            },
    {
        match event {
            ConnectionEvent::PingDue => ConnectionStep::SendFrame(ping_frame(self.service_id)),
            ConnectionEvent::Frame(frame) => match classify_frame(&frame) {
                FrameKind::Control => match handle_control_frame(&frame) {
                    Ok(Some(secs)) => ConnectionStep::SetPingInterval(secs),
                    Ok(None) => ConnectionStep::Nothing,
                    Err(m) => ConnectionStep::Fail(m),
                },
                FrameKind::Ignored => ConnectionStep::Nothing,
                FrameKind::Unsupported(method) => ConnectionStep::Fail(unsupported_method_message(method)),
                FrameKind::Event => match self.cache.merge(&frame, now_ms) {
                    MergeOutcome::Complete(payload) => ConnectionStep::HandleEvent { frame, payload },
                    MergeOutcome::Pending => ConnectionStep::Nothing,
                },
            },
            ConnectionEvent::UndecodableFrame => ConnectionStep::Fail("Failed to decode Feishu websocket frame".to_string()),
            ConnectionEvent::WebSocketPing(p) => ConnectionStep::SendPong(p),
            ConnectionEvent::Other => ConnectionStep::Nothing,
            ConnectionEvent::Closed(description) => {
                let mut m = String::new();
                m.append("Feishu long connection closed: ");
                m.append(description.as_str());
                ConnectionStep::Fail(m)
            },
            ConnectionEvent::ReceiveFailed => ConnectionStep::Fail("Feishu long connection websocket receive failed".to_string()),
            ConnectionEvent::StreamEnded => ConnectionStep::Fail("Feishu long connection stream ended unexpectedly".to_string()),
        }
    }
}


/// Whether a long connection is opened for a bot.
#[derive(Debug, Clone, Copy, PartialEq, Eq, Structural)]
pub enum LongConnectionStart {
    /// Resolve the bot's secrets and connect.
    Connect,
    /// The bot is disabled: this cycle ends without connecting.
    Skip,
}

/// A cycle of the long connection needs the bot (`None` when it does not
/// exist) and connects only while it is enabled.
pub fn long_connection_start(bot: Option<&FeishuBot>) -> (r: Result<LongConnectionStart, String>)
    ensures
        bot is None ==> (r matches Err(m) && m@ == "Feishu bot not found for long connection"@),
        bot matches Some(b) ==> r == Ok::<LongConnectionStart, String>(
            if b.enabled { LongConnectionStart::Connect } else { LongConnectionStart::Skip },
        ),
{
    match bot {
        None => Err("Feishu bot not found for long connection".to_string()),
        Some(b) => if b.enabled {
            Ok(LongConnectionStart::Connect)
        } else {
            Ok(LongConnectionStart::Skip)
        },
    }
}

} // verus!
