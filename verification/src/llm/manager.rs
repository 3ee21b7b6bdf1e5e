//! The translation engine: the priority queue, the deduplication table,
//! the result cache, and the admission-gated dispatch step, together with
//! the lifecycle events each step emits.
//!
//! The engine is a verified state machine. The surrounding runtime pulls
//! the next request with `get_next_request`, performs the network call,
//! and settles the outcome through `complete_request`, `fail_request` or
//! `requeue_rate_limited`; every one of those steps has an exact contract.
//! Events accumulate in an internal log that the runtime drains with
//! `take_events` and forwards to its consumers.

use vstd::prelude::*;

use crate::chars::str_eq;
use crate::chars::str_to_chars;
use crate::clock::now_millis;
use crate::config::spec_preset_for;
use crate::config::PromptSettings;
use crate::digits::spec_decimal;
use crate::digits::u64_to_string;
use crate::hash::hash_chars;
use crate::hash::spec_hash_chars;
use crate::llm::api_types::ChatMessage;
use crate::llm::text_splitter::chunks_match;
use crate::llm::text_splitter::split_cuts;
use crate::llm::text_splitter::spec_merge;
use crate::llm::text_splitter::translated_views;
use crate::llm::text_splitter::TextSplitter;
use crate::llm::text_splitter::TranslatedChunk;
use crate::llm::text_splitter::TranslationChunk;
use crate::validation::limits::admit_transition;
use crate::validation::limits::RateLimitError;
use crate::validation::limits::RateLimiter;

verus! {

/// How urgently a request should be served; `High` is served first.
#[derive(Debug, Clone, Copy, PartialEq, Eq, Structural)]
pub enum RequestPriority {
    Low,
    Normal,
    High,
}

/// The ordering key of a priority.
pub open spec fn spec_rank(p: RequestPriority) -> int {
    match p {
        RequestPriority::Low => 0,
        RequestPriority::Normal => 1,
        RequestPriority::High => 2,
    }
}

impl RequestPriority {
    /// The ordering key of this priority: `Low < Normal < High`.
    pub fn rank(&self) -> (r: u8)
        ensures
            r == spec_rank(*self),
    {
        match self {
            RequestPriority::Low => 0,
            RequestPriority::Normal => 1,
            RequestPriority::High => 2,
        }
    }
}

impl Default for RequestPriority {
    /// Requests are `Normal` unless the caller says otherwise.
    fn default() -> (r: RequestPriority)
        ensures
            r == RequestPriority::Normal,
    {
        RequestPriority::Normal
    }
}

/// One translation request, owned by the engine from submission until its
/// terminal event. The cancellation handle of a dispatched request lives
/// with the runtime that performs the call.
pub struct TranslationRequest {
    pub id: String,
    pub text: String,
    pub prompt_preset: String,
    pub priority: RequestPriority,
    pub created_at_ms: u64,
}

/// A finished translation.
pub struct TranslationResult {
    pub request_id: String,
    pub original_text: String,
    pub translated_text: String,
    pub tokens_used: u32,
    pub duration_ms: u64,
}

/// The lifecycle events the engine emits.
pub enum TranslationEvent {
    Completed(TranslationResult),
    Failed { request_id: String, error: String },
    Cancelled { request_id: String },
    RateLimited { request_id: String, wait_time_ms: u64 },
}

/// A point-in-time snapshot of the engine.
#[derive(Debug, Clone, Copy)]
pub struct QueueStats {
    pub queued: usize,
    pub active: usize,
    pub cached: usize,
    pub rate_limit_remaining_minute: usize,
    pub rate_limit_remaining_day: usize,
}

/// One cached translation: the cache key, the translated text, and when it
/// was written.
pub struct CacheEntry {
    pub key: String,
    pub text: String,
    pub created_ms: u64,
}

/// The requests awaiting one outbound call: the content hash and every
/// request id attached to it, the originator first.
pub struct PendingGroup {
    pub text_hash: u64,
    pub request_ids: Vec<String>,
}

/// The queue is ordered by priority, highest first; ties keep insertion
/// order.
pub open spec fn queue_sorted(q: Seq<TranslationRequest>) -> bool {
    forall|i: int, j: int|
        0 <= i < j < q.len() ==> spec_rank(q[i].priority) >= spec_rank(q[j].priority)
}

/// Where a newly submitted request goes: after every request of its own or
/// a higher priority band.
pub open spec fn spec_insert_pos(q: Seq<TranslationRequest>, rank: int) -> int
    decreases q.len(),
{
    if q.len() == 0 {
        0
    } else if spec_rank(q[0].priority) < rank {
        0
    } else {
        1 + spec_insert_pos(q.drop_first(), rank)
    }
}

/// Where a requeued request goes: the front of its own priority band.
pub open spec fn spec_front_pos(q: Seq<TranslationRequest>, rank: int) -> int
    decreases q.len(),
{
    if q.len() == 0 {
        0
    } else if spec_rank(q[0].priority) <= rank {
        0
    } else {
        1 + spec_front_pos(q.drop_first(), rank)
    }
}

/// The queue after a submission.
pub open spec fn spec_enqueue(q: Seq<TranslationRequest>, r: TranslationRequest) -> Seq<
    TranslationRequest,
> {
    q.insert(spec_insert_pos(q, spec_rank(r.priority)), r)
}

/// The first queue position holding the given request id.
pub open spec fn queue_index_of(q: Seq<TranslationRequest>, id: Seq<char>) -> Option<int>
    decreases q.len(),
{
    if q.len() == 0 {
        None
    } else if q[0].id@ == id {
        Some(0int)
    } else {
        match queue_index_of(q.drop_first(), id) {
            Some(k) => Some(1 + k),
            None => None,
        }
    }
}

/// The first position of an id in a list of ids.
pub open spec fn ids_index_of(ids: Seq<String>, id: Seq<char>) -> Option<int>
    decreases ids.len(),
{
    if ids.len() == 0 {
        None
    } else if ids[0]@ == id {
        Some(0int)
    } else {
        match ids_index_of(ids.drop_first(), id) {
            Some(k) => Some(1 + k),
            None => None,
        }
    }
}

/// The first pending group recorded for a content hash.
pub open spec fn pending_index_of(groups: Seq<PendingGroup>, h: u64) -> Option<int>
    decreases groups.len(),
{
    if groups.len() == 0 {
        None
    } else if groups[0].text_hash == h {
        Some(0int)
    } else {
        match pending_index_of(groups.drop_first(), h) {
            Some(k) => Some(1 + k),
            None => None,
        }
    }
}

/// The first cache entry stored under a key.
pub open spec fn cache_index_of(cache: Seq<CacheEntry>, key: Seq<char>) -> Option<int>
    decreases cache.len(),
{
    if cache.len() == 0 {
        None
    } else if cache[0].key@ == key {
        Some(0int)
    } else {
        match cache_index_of(cache.drop_first(), key) {
            Some(k) => Some(1 + k),
            None => None,
        }
    }
}

/// A cache entry written at `created_ms` is fresh at `now_ms` while less
/// than the TTL has elapsed.
pub open spec fn spec_cache_fresh(e: CacheEntry, now_ms: u64, ttl_ms: u64) -> bool {
    e.created_ms > now_ms || now_ms - e.created_ms < ttl_ms
}

/// The cached translation a key resolves to at `now_ms`, if its entry is
/// still fresh.
pub open spec fn spec_cached_text(
    cache: Seq<CacheEntry>,
    key: Seq<char>,
    now_ms: u64,
    ttl_ms: u64,
) -> Option<Seq<char>> {
    match cache_index_of(cache, key) {
        Some(i) => if spec_cache_fresh(cache[i], now_ms, ttl_ms) {
            Some(cache[i].text@)
        } else {
            None
        },
        None => None,
    }
}

/// The cache entries still fresh at `now_ms`, in order.
pub open spec fn fresh_filter(cache: Seq<CacheEntry>, now_ms: u64, ttl_ms: u64) -> Seq<CacheEntry>
    decreases cache.len(),
{
    if cache.len() == 0 {
        Seq::empty()
    } else if spec_cache_fresh(cache[0], now_ms, ttl_ms) {
        seq![cache[0]] + fresh_filter(cache.drop_first(), now_ms, ttl_ms)
    } else {
        fresh_filter(cache.drop_first(), now_ms, ttl_ms)
    }
}

/// The content hash of a text.
pub open spec fn spec_hash_text(text: Seq<char>) -> u64 {
    spec_hash_chars(text)
}

/// The cache key of a `(preset, text)` pair: the preset id, a colon, and
/// the decimal content hash of the text.
pub open spec fn spec_cache_key(text: Seq<char>, preset: Seq<char>) -> Seq<char> {
    preset + ":"@ + spec_decimal(spec_hash_text(text) as nat)
}

/// The completion events fanned out to follower requests: one `Completed`
/// per attached id other than the originator's, carrying the same result.
pub open spec fn spec_fan_out_completions(ids: Seq<String>, res: TranslationResult) -> Seq<
    TranslationEvent,
>
    decreases ids.len(),
{
    if ids.len() == 0 {
        Seq::empty()
    } else {
        let rest = spec_fan_out_completions(ids.drop_first(), res);
        if ids[0]@ == res.request_id@ {
            rest
        } else {
            seq![
                TranslationEvent::Completed(
                    TranslationResult {
                        request_id: ids[0],
                        original_text: res.original_text,
                        translated_text: res.translated_text,
                        tokens_used: res.tokens_used,
                        duration_ms: res.duration_ms,
                    },
                ),
            ] + rest
    }
    }
}

/// The failure events fanned out to follower requests: one `Failed` per
/// attached id other than the originator's, carrying the same error text.
pub open spec fn spec_fan_out_failures(
    ids: Seq<String>,
    self_id: Seq<char>,
    error: String,
) -> Seq<TranslationEvent>
    decreases ids.len(),
{
    if ids.len() == 0 {
        Seq::empty()
    } else {
        let rest = spec_fan_out_failures(ids.drop_first(), self_id, error);
        if ids[0]@ == self_id {
            rest
        } else {
            seq![(TranslationEvent::Failed { request_id: ids[0], error })] + rest
        }
    }
}

proof fn lemma_sorted_insert(q: Seq<TranslationRequest>, r: TranslationRequest, pos: int)
    requires
        queue_sorted(q),
        0 <= pos <= q.len(),
        forall|j: int| 0 <= j < pos ==> spec_rank(q[j].priority) >= spec_rank(r.priority),
        pos < q.len() ==> spec_rank(q[pos as int].priority) <= spec_rank(r.priority),
    ensures
        queue_sorted(q.insert(pos, r)),
{
    let q2 = q.insert(pos, r);
    assert forall|i: int, j: int| 0 <= i < j < q2.len() implies spec_rank(q2[i].priority)
        >= spec_rank(q2[j].priority) by {
        if i < pos {
            assert(q2[i] == q[i]);
        } else if i == pos {
            assert(q2[i] == r);
        } else {
            assert(q2[i] == q[i - 1]);
        }
        if j < pos {
            assert(q2[j] == q[j]);
        } else if j == pos {
            assert(q2[j] == r);
        } else {
            assert(q2[j] == q[j - 1]);
        }
    }
}

proof fn lemma_sorted_remove(q: Seq<TranslationRequest>, pos: int)
    requires
        queue_sorted(q),
        0 <= pos < q.len(),
    ensures
        queue_sorted(q.remove(pos)),
{
    let q2 = q.remove(pos);
    assert forall|i: int, j: int| 0 <= i < j < q2.len() implies spec_rank(q2[i].priority)
        >= spec_rank(q2[j].priority) by {
        if i < pos {
            assert(q2[i] == q[i]);
        } else {
            assert(q2[i] == q[i + 1]);
        }
        if j < pos {
            assert(q2[j] == q[j]);
        } else {
            assert(q2[j] == q[j + 1]);
        }
    }
}

proof fn lemma_insert_pos_range(q: Seq<TranslationRequest>, rank: int)
    ensures
        0 <= spec_insert_pos(q, rank) <= q.len(),
    decreases q.len(),
{
    if q.len() > 0 && !(spec_rank(q[0].priority) < rank) {
        lemma_insert_pos_range(q.drop_first(), rank);
    }
}

proof fn lemma_insert_pos_at(q: Seq<TranslationRequest>, rank: int, i: int)
    requires
        0 <= i <= q.len(),
        forall|j: int| 0 <= j < i ==> spec_rank(q[j].priority) >= rank,
        i < q.len() ==> spec_rank(q[i as int].priority) < rank,
    ensures
        spec_insert_pos(q, rank) == i,
    decreases i,
{
    if q.len() == 0 {
    } else if i == 0 {
    } else {
        assert(spec_rank(q[0].priority) >= rank);
        let t = q.drop_first();
        assert(forall|j: int| 0 <= j < i - 1 ==> spec_rank((#[trigger] t[j]).priority) >= rank);
        lemma_insert_pos_at(t, rank, i - 1);
    }
}

proof fn lemma_front_pos_at(q: Seq<TranslationRequest>, rank: int, i: int)
    requires
        0 <= i <= q.len(),
        forall|j: int| 0 <= j < i ==> spec_rank(q[j].priority) > rank,
        i < q.len() ==> spec_rank(q[i as int].priority) <= rank,
    ensures
        spec_front_pos(q, rank) == i,
    decreases i,
{
    if q.len() == 0 {
    } else if i == 0 {
    } else {
        let t = q.drop_first();
        assert(forall|j: int| 0 <= j < i - 1 ==> spec_rank((#[trigger] t[j]).priority) > rank);
        lemma_front_pos_at(t, rank, i - 1);
    }
}

/// What one submission does: a fresh cache entry answers it at once; an
/// open pending group for the same text attaches it as a follower with no
/// new queue entry; otherwise it opens a group and enters the queue at the
/// back of its priority band.
pub open spec fn translate_transition(
    pre: TranslationManager,
    post: TranslationManager,
    text: String,
    prompt_preset: String,
    priority: RequestPriority,
    request_id: String,
    now_ms: u64,
    r: Result<String, String>,
) -> bool {
    let key = spec_cache_key(text@, prompt_preset@);
    let h = spec_hash_text(text@);
    &&& post.spec_limiter() == pre.spec_limiter()
    &&& post.spec_cache() == pre.spec_cache()
    &&& post.spec_cache_ttl() == pre.spec_cache_ttl()
    &&& post.spec_active() == pre.spec_active()
    &&& post.spec_events() == pre.spec_events()
    &&& match spec_cached_text(pre.spec_cache(), key, now_ms, pre.spec_cache_ttl()) {
        Some(cached) => {
            &&& r matches Ok(s) && s@ == cached
            &&& post.spec_queue() == pre.spec_queue()
            &&& post.spec_pending() == pre.spec_pending()
        },
        None => match pending_index_of(pre.spec_pending(), h) {
            Some(g) => {
                &&& r matches Err(m) && m@ == "Request deduplicated"@
                &&& post.spec_queue() == pre.spec_queue()
                &&& post.spec_pending().len() == pre.spec_pending().len()
                &&& forall|k: int|
                    0 <= k < pre.spec_pending().len() && k != g ==> post.spec_pending()[k]
                        == pre.spec_pending()[k]
                &&& post.spec_pending()[g].text_hash == pre.spec_pending()[g].text_hash
                &&& post.spec_pending()[g].request_ids@ == pre.spec_pending()[g].request_ids@.push(
                    request_id,
                )
            },
            None => {
                &&& r matches Ok(s) && s == request_id
                &&& post.spec_queue() == spec_enqueue(
                    pre.spec_queue(),
                    (TranslationRequest {
                        id: request_id,
                        text: text,
                        prompt_preset: prompt_preset,
                        priority: priority,
                        created_at_ms: now_ms,
                    }),
                )
                &&& post.spec_pending().len() == pre.spec_pending().len() + 1
                &&& post.spec_pending().drop_last() == pre.spec_pending()
                &&& post.spec_pending().last().text_hash == h
                &&& post.spec_pending().last().request_ids@ == seq![request_id]
            },
        },
    }
}

/// The translation engine's state: the priority queue, the ids of
/// dispatched requests, the result cache, the deduplication table, the
/// admission limiter, and the pending event log.
pub struct TranslationManager {
    rate_limiter: RateLimiter,
    queue: Vec<TranslationRequest>,
    active_ids: Vec<String>,
    cache: Vec<CacheEntry>,
    cache_ttl_ms: u64,
    pending: Vec<PendingGroup>,
    events: Vec<TranslationEvent>,
}

impl TranslationManager {
    pub closed spec fn spec_queue(&self) -> Seq<TranslationRequest> {
        self.queue@
    }

    pub closed spec fn spec_active(&self) -> Seq<String> {
        self.active_ids@
    }

    pub closed spec fn spec_cache(&self) -> Seq<CacheEntry> {
        self.cache@
    }

    pub closed spec fn spec_cache_ttl(&self) -> u64 {
        self.cache_ttl_ms
    }

    pub closed spec fn spec_pending(&self) -> Seq<PendingGroup> {
        self.pending@
    }

    pub closed spec fn spec_events(&self) -> Seq<TranslationEvent> {
        self.events@
    }

    pub closed spec fn spec_limiter(&self) -> RateLimiter {
        self.rate_limiter
    }

    /// The engine's invariant: the queue is ordered by priority band.
    pub open spec fn wf(&self) -> bool {
        queue_sorted(self.spec_queue())
    }

    /// A fresh engine around the given admission limiter, with the fixed
    /// five-minute cache TTL and nothing queued, active, cached or pending.
    pub fn new(rate_limiter: RateLimiter) -> (r: TranslationManager)
        ensures
            r.wf(),
            r.spec_limiter() == rate_limiter,
            r.spec_queue() == Seq::<TranslationRequest>::empty(),
            r.spec_active() == Seq::<String>::empty(),
            r.spec_cache() == Seq::<CacheEntry>::empty(),
            r.spec_pending() == Seq::<PendingGroup>::empty(),
            r.spec_events() == Seq::<TranslationEvent>::empty(),
            r.spec_cache_ttl() == 300000,
    {
        TranslationManager {
            rate_limiter,
            queue: Vec::new(),
            active_ids: Vec::new(),
            cache: Vec::new(),
            cache_ttl_ms: 300000,
            pending: Vec::new(),
            events: Vec::new(),
        }
    }

    /// Relies on uuid::Uuid::new_v4: a fresh random identifier, rendered
    /// as `req_<uuid>`. Nothing is promised of the value.
    #[verifier::external_body]
    fn generate_request_id(&self) -> (r: String) {
        let mut id = String::from("req_");
        id.push_str(&uuid::Uuid::new_v4().to_string());
        id
    }

    /// The deterministic content hash of a text.
    pub fn hash_text(&self, text: &str) -> (h: u64)
        ensures
            h == spec_hash_text(text@),
    {
        let chars: Vec<char> = str_to_chars(text);
        hash_chars(&chars)
    }

    /// The cache key of a `(text, preset)` pair.
    pub fn cache_key(&self, text: &str, preset: &str) -> (k: String)
        ensures
            k@ == spec_cache_key(text@, preset@),
    {
        let h: u64 = self.hash_text(text);
        let mut k: String = preset.to_owned();
        k.append(":");
        k.append(u64_to_string(h).as_str());
        k
    }

    fn find_cache_index(&self, key: &str) -> (r: Option<usize>)
        ensures
            match r {
                Some(i) => cache_index_of(self.spec_cache(), key@) == Some(i as int) && i
                    < self.spec_cache().len(),
                None => cache_index_of(self.spec_cache(), key@) is None,
            },
    {
        let mut i: usize = 0;
        proof {
            assert(self.cache@.skip(0) =~= self.cache@);
        }
        while i < self.cache.len()
            invariant
                i <= self.cache@.len(),
                cache_index_of(self.cache@, key@) == match cache_index_of(
                    self.cache@.skip(i as int),
                    key@,
                ) {
                    Some(k) => Some(i + k),
                    None => None,
                },
            decreases self.cache@.len() - i,
        {
            proof {
                assert(self.cache@.skip(i as int)[0] == self.cache@[i as int]);
                assert(self.cache@.skip(i as int).drop_first() =~= self.cache@.skip(i + 1 as int));
            }
            if str_eq(self.cache[i].key.as_str(), key) {
                return Some(i);
            }
            i = i + 1;
        }
        proof {
            assert(self.cache@.skip(self.cache@.len() as int) =~= Seq::<CacheEntry>::empty());
        }
        None
    }

    fn find_pending_index(&self, h: u64) -> (r: Option<usize>)
        ensures
            match r {
                Some(i) => pending_index_of(self.spec_pending(), h) == Some(i as int) && i
                    < self.spec_pending().len(),
                None => pending_index_of(self.spec_pending(), h) is None,
            },
    {
        let mut i: usize = 0;
        proof {
            assert(self.pending@.skip(0) =~= self.pending@);
        }
        while i < self.pending.len()
            invariant
                i <= self.pending@.len(),
                pending_index_of(self.pending@, h) == match pending_index_of(
                    self.pending@.skip(i as int),
                    h,
                ) {
                    Some(k) => Some(i + k),
                    None => None,
                },
            decreases self.pending@.len() - i,
        {
            proof {
                assert(self.pending@.skip(i as int)[0] == self.pending@[i as int]);
                assert(self.pending@.skip(i as int).drop_first() =~= self.pending@.skip(
                    i + 1 as int,
                ));
            }
            if self.pending[i].text_hash == h {
                return Some(i);
            }
            i = i + 1;
        }
        proof {
            assert(self.pending@.skip(self.pending@.len() as int) =~= Seq::<PendingGroup>::empty());
        }
        None
    }

    fn find_queue_index(&self, id: &str) -> (r: Option<usize>)
        ensures
            match r {
                Some(i) => queue_index_of(self.spec_queue(), id@) == Some(i as int) && i
                    < self.spec_queue().len(),
                None => queue_index_of(self.spec_queue(), id@) is None,
            },
    {
        let mut i: usize = 0;
        proof {
            assert(self.queue@.skip(0) =~= self.queue@);
        }
        while i < self.queue.len()
            invariant
                i <= self.queue@.len(),
                queue_index_of(self.queue@, id@) == match queue_index_of(
                    self.queue@.skip(i as int),
                    id@,
                ) {
                    Some(k) => Some(i + k),
                    None => None,
                },
            decreases self.queue@.len() - i,
        {
            proof {
                assert(self.queue@.skip(i as int)[0] == self.queue@[i as int]);
                assert(self.queue@.skip(i as int).drop_first() =~= self.queue@.skip(i + 1 as int));
            }
            if str_eq(self.queue[i].id.as_str(), id) {
                return Some(i);
            }
            i = i + 1;
        }
        proof {
            assert(self.queue@.skip(self.queue@.len() as int) =~= Seq::<
                TranslationRequest,
            >::empty());
        }
        None
    }

    fn find_active_index(&self, id: &str) -> (r: Option<usize>)
        ensures
            match r {
                Some(i) => ids_index_of(self.spec_active(), id@) == Some(i as int) && i
                    < self.spec_active().len(),
                None => ids_index_of(self.spec_active(), id@) is None,
            },
    {
        let mut i: usize = 0;
        proof {
            assert(self.active_ids@.skip(0) =~= self.active_ids@);
        }
        while i < self.active_ids.len()
            invariant
                i <= self.active_ids@.len(),
                ids_index_of(self.active_ids@, id@) == match ids_index_of(
                    self.active_ids@.skip(i as int),
                    id@,
                ) {
                    Some(k) => Some(i + k),
                    None => None,
                },
            decreases self.active_ids@.len() - i,
        {
            proof {
                assert(self.active_ids@.skip(i as int)[0] == self.active_ids@[i as int]);
                assert(self.active_ids@.skip(i as int).drop_first() =~= self.active_ids@.skip(
                    i + 1 as int,
                ));
            }
            if str_eq(self.active_ids[i].as_str(), id) {
                return Some(i);
            }
            i = i + 1;
        }
        proof {
            assert(self.active_ids@.skip(self.active_ids@.len() as int) =~= Seq::<String>::empty());
        }
        None
    }

    /// The cached translation under `key` at the instant `now_ms`, if its
    /// entry is still fresh. A hit never consults anything but the cache.
    pub fn get_cached_at(&self, key: &str, now_ms: u64) -> (r: Option<String>)
        ensures
            match r {
                Some(s) => spec_cached_text(
                    self.spec_cache(),
                    key@,
                    now_ms,
                    self.spec_cache_ttl(),
                ) == Some(s@),
                None => spec_cached_text(self.spec_cache(), key@, now_ms, self.spec_cache_ttl())
                    is None,
            },
    {
        match self.find_cache_index(key) {
            Some(i) => {
                let e: &CacheEntry = &self.cache[i];
                let fresh: bool = e.created_ms > now_ms || now_ms - e.created_ms
                    < self.cache_ttl_ms;
                if fresh {
                    Some(e.text.clone())
                } else {
                    None
                }
            },
            None => None,
        }
    }

    /// The cached translation under `key` right now.
    pub fn get_cached(&self, key: &str) -> (r: Option<String>)
        ensures
            exists|now_ms: u64|
                match r {
                    Some(s) => spec_cached_text(
                        self.spec_cache(),
                        key@,
                        now_ms,
                        self.spec_cache_ttl(),
                    ) == Some(s@),
                    None => spec_cached_text(
                        self.spec_cache(),
                        key@,
                        now_ms,
                        self.spec_cache_ttl(),
                    ) is None,
                },
    {
        let now: u64 = now_millis();
        let r = self.get_cached_at(key, now);
        proof {
            assert(match r {
                Some(s) => spec_cached_text(self.spec_cache(), key@, now, self.spec_cache_ttl())
                    == Some(s@),
                None => spec_cached_text(self.spec_cache(), key@, now, self.spec_cache_ttl())
                    is None,
            });
        }
        r
    }

    /// Submit a request at the instant `now_ms` with the given fresh id:
    /// answered from the cache, attached to an in-flight duplicate, or
    /// queued by priority — exactly as `translate_transition` says.
    pub fn translate_at(
        &mut self,
        text: String,
        prompt_preset: String,
        priority: RequestPriority,
        request_id: String,
        now_ms: u64,
    ) -> (r: Result<String, String>)
        requires
            old(self).wf(),
        ensures
            final(self).wf(),
            translate_transition(
                *old(self),
                *final(self),
                text,
                prompt_preset,
                priority,
                request_id,
                now_ms,
                r,
            ),
    {
        let key: String = self.cache_key(text.as_str(), prompt_preset.as_str());
        match self.get_cached_at(key.as_str(), now_ms) {
            Some(cached) => {
                return Ok(cached);
            },
            None => {},
        }
        let h: u64 = self.hash_text(text.as_str());
        match self.find_pending_index(h) {
            Some(g) => {
                let ghost pre_pending = self.pending@;
                let mut group: PendingGroup = self.pending.remove(g);
                group.request_ids.push(request_id);
                self.pending.insert(g, group);
                proof {
                    assert(self.pending@.len() == pre_pending.len());
                    assert(forall|k: int|
                        0 <= k < pre_pending.len() && k != g ==> self.pending@[k]
                            == pre_pending[k]);
                }
                Err("Request deduplicated".to_owned())
            },
            None => {
                let mut ids: Vec<String> = Vec::new();
                ids.push(request_id.clone());
                self.pending.push(PendingGroup { text_hash: h, request_ids: ids });
                proof {
                    assert(self.pending@.drop_last() =~= old(self).pending@);
                }
                let request = TranslationRequest {
                    id: request_id.clone(),
                    text,
                    prompt_preset,
                    priority,
                    created_at_ms: now_ms,
                };
                self.enqueue_request(request);
                Ok(request_id)
            },
        }
    }

    /// Submit a request now: a fresh id is generated, the clock read once,
    /// and the submission performed for that id and instant.
    pub fn translate(
        &mut self,
        text: String,
        prompt_preset: String,
        priority: RequestPriority,
    ) -> (r: Result<String, String>)
        requires
            old(self).wf(),
        ensures
            final(self).wf(),
            exists|request_id: String, now_ms: u64|
                translate_transition(
                    *old(self),
                    *final(self),
                    text,
                    prompt_preset,
                    priority,
                    request_id,
                    now_ms,
                    r,
                ),
    {
        let request_id: String = self.generate_request_id();
        let now: u64 = now_millis();
        let ghost id_snapshot = request_id;
        let r = self.translate_at(text, prompt_preset, priority, request_id, now);
        proof {
            assert(translate_transition(
                *old(self),
                *self,
                text,
                prompt_preset,
                priority,
                id_snapshot,
                now,
                r,
            ));
        }
        r
    }

    /// Put a request into the queue, after every request of its own or a
    /// higher priority band (FIFO within the band).
    pub fn enqueue_request(&mut self, request: TranslationRequest)
        requires
            old(self).wf(),
        ensures
            final(self).wf(),
            final(self).spec_queue() == spec_enqueue(old(self).spec_queue(), request),
            final(self).spec_active() == old(self).spec_active(),
            final(self).spec_cache() == old(self).spec_cache(),
            final(self).spec_pending() == old(self).spec_pending(),
            final(self).spec_events() == old(self).spec_events(),
            final(self).spec_limiter() == old(self).spec_limiter(),
            final(self).spec_cache_ttl() == old(self).spec_cache_ttl(),
    {
        let rank: u8 = request.priority.rank();
        let mut pos: usize = 0;
        while pos < self.queue.len() && self.queue[pos].priority.rank() >= rank
            invariant
                pos <= self.queue@.len(),
                forall|j: int|
                    0 <= j < pos ==> spec_rank((#[trigger] self.queue@[j]).priority) >= rank,
                self.queue == old(self).queue,
            decreases self.queue@.len() - pos,
        {
            pos = pos + 1;
        }
        proof {
            lemma_insert_pos_at(self.queue@, rank as int, pos as int);
            lemma_sorted_insert(self.queue@, request, pos as int);
        }
        self.queue.insert(pos, request);
    }

    /// Cancel a request. A queued request leaves the queue; a dispatched
    /// one leaves the active set (its runtime observes the cancellation
    /// through its own handle). Either way exactly one `Cancelled` event is
    /// logged and `true` returned; an unknown id changes nothing and
    /// returns `false`.
    pub fn cancel(&mut self, request_id: &str) -> (r: bool)
        requires
            old(self).wf(),
        ensures
            final(self).wf(),
            final(self).spec_cache() == old(self).spec_cache(),
            final(self).spec_pending() == old(self).spec_pending(),
            final(self).spec_limiter() == old(self).spec_limiter(),
            final(self).spec_cache_ttl() == old(self).spec_cache_ttl(),
            match queue_index_of(old(self).spec_queue(), request_id@) {
                Some(i) => {
                    &&& r == true
                    &&& final(self).spec_queue() == old(self).spec_queue().remove(i)
                    &&& final(self).spec_active() == old(self).spec_active()
                    &&& final(self).spec_events().len() == old(self).spec_events().len() + 1
                    &&& final(self).spec_events().drop_last() == old(self).spec_events()
                    &&& final(self).spec_events().last() matches TranslationEvent::Cancelled {
                        request_id: s,
                    } && s@ == request_id@
                },
                None => match ids_index_of(old(self).spec_active(), request_id@) {
                    Some(i) => {
                        &&& r == true
                        &&& final(self).spec_queue() == old(self).spec_queue()
                        &&& final(self).spec_active() == old(self).spec_active().remove(i)
                        &&& final(self).spec_events().len() == old(self).spec_events().len() + 1
                        &&& final(self).spec_events().drop_last() == old(self).spec_events()
                        &&& final(self).spec_events().last() matches TranslationEvent::Cancelled {
                            request_id: s,
                        } && s@ == request_id@
                    },
                    None => {
                        &&& r == false
                        &&& final(self).spec_queue() == old(self).spec_queue()
                        &&& final(self).spec_active() == old(self).spec_active()
                        &&& final(self).spec_events() == old(self).spec_events()
                    },
                },
            },
    {
        match self.find_queue_index(request_id) {
            Some(i) => {
                proof {
                    lemma_sorted_remove(self.queue@, i as int);
                }
                let _removed: TranslationRequest = self.queue.remove(i);
                self.events.push(TranslationEvent::Cancelled { request_id: request_id.to_owned() });
                proof {
                    assert(self.events@.drop_last() =~= old(self).events@);
                }
                true
            },
            None => {
                match self.find_active_index(request_id) {
                    Some(i) => {
                        let _removed: String = self.active_ids.remove(i);
                        self.events.push(
                            TranslationEvent::Cancelled { request_id: request_id.to_owned() },
                        );
                        proof {
                            assert(self.events@.drop_last() =~= old(self).events@);
                        }
                        true
                    },
                    None => false,
                }
            },
        }
    }

    /// One poll of the dispatch gate at the instant `now_ms`: ask the
    /// limiter for admission; when denied, nothing is dequeued (ordering is
    /// preserved for the next tick); when admitted, the highest-priority
    /// request leaves the queue and its id joins the active set.
    pub fn get_next_request_at(&mut self, now_ms: u64) -> (r: Option<TranslationRequest>)
        requires
            old(self).wf(),
        ensures
            final(self).wf(),
            final(self).spec_cache() == old(self).spec_cache(),
            final(self).spec_pending() == old(self).spec_pending(),
            final(self).spec_events() == old(self).spec_events(),
            final(self).spec_cache_ttl() == old(self).spec_cache_ttl(),
            exists|ar: Result<(), RateLimitError>|
                {
                    &&& admit_transition(
                        old(self).spec_limiter(),
                        final(self).spec_limiter(),
                        now_ms,
                        ar,
                    )
                    &&& if ar is Err || old(self).spec_queue().len() == 0 {
                        r is None && final(self).spec_queue() == old(self).spec_queue()
                            && final(self).spec_active() == old(self).spec_active()
                    } else {
                        &&& r == Some(old(self).spec_queue()[0])
                        &&& final(self).spec_queue() == old(self).spec_queue().drop_first()
                        &&& final(self).spec_active() == old(self).spec_active().push(
                            old(self).spec_queue()[0].id,
                        )
                    }
                },
    {
        let admitted: Result<(), RateLimitError> = self.rate_limiter.check_and_update_at(now_ms);
        let ghost ar = admitted;
        match admitted {
            Err(_) => {
                proof {
                    assert(admit_transition(
                        old(self).spec_limiter(),
                        self.spec_limiter(),
                        now_ms,
                        ar,
                    ));
                }
                None
            },
            Ok(()) => {
                if self.queue.len() == 0 {
                    proof {
                        assert(admit_transition(
                            old(self).spec_limiter(),
                            self.spec_limiter(),
                            now_ms,
                            ar,
                        ));
                    }
                    None
                } else {
                    proof {
                        lemma_sorted_remove(self.queue@, 0);
                        assert(self.queue@.remove(0) =~= self.queue@.drop_first());
                    }
                    let request: TranslationRequest = self.queue.remove(0);
                    self.active_ids.push(request.id.clone());
                    proof {
                        assert(admit_transition(
                            old(self).spec_limiter(),
                            self.spec_limiter(),
                            now_ms,
                            ar,
                        ));
                    }
                    Some(request)
                }
            },
        }
    }

    /// One poll of the dispatch gate right now.
    pub fn get_next_request(&mut self) -> (r: Option<TranslationRequest>)
        requires
            old(self).wf(),
        ensures
            final(self).wf(),
            final(self).spec_cache() == old(self).spec_cache(),
            final(self).spec_pending() == old(self).spec_pending(),
            final(self).spec_events() == old(self).spec_events(),
            final(self).spec_cache_ttl() == old(self).spec_cache_ttl(),
            r matches Some(req) ==> old(self).spec_queue().len() > 0 && req == old(
                self,
            ).spec_queue()[0] && final(self).spec_queue() == old(self).spec_queue().drop_first()
                && final(self).spec_active() == old(self).spec_active().push(
                old(self).spec_queue()[0].id,
            ),
            r is None ==> final(self).spec_queue() == old(self).spec_queue()
                && final(self).spec_active() == old(self).spec_active(),
    {
        let now: u64 = now_millis();
        self.get_next_request_at(now)
    }

    /// Settle a successful dispatch: write the cache entry, log the
    /// `Completed` event, fan the same result out to every follower in the
    /// request's pending group, close that group, and retire the request
    /// from the active set.
    pub fn complete_request(
        &mut self,
        request: TranslationRequest,
        translated: String,
        tokens_used: u32,
        duration_ms: u64,
        now_ms: u64,
    )
        requires
            old(self).wf(),
        ensures
            final(self).wf(),
            final(self).spec_queue() == old(self).spec_queue(),
            final(self).spec_limiter() == old(self).spec_limiter(),
            final(self).spec_cache_ttl() == old(self).spec_cache_ttl(),
            ({
                let key = spec_cache_key(request.text@, request.prompt_preset@);
                let written = match cache_index_of(old(self).spec_cache(), key) {
                    Some(i) => i,
                    None => old(self).spec_cache().len() as int,
                };
                &&& final(self).spec_cache().len() == if cache_index_of(
                    old(self).spec_cache(),
                    key,
                ) is Some {
                    old(self).spec_cache().len() as int
                } else {
                    old(self).spec_cache().len() + 1int
                }
                &&& forall|j: int|
                    0 <= j < old(self).spec_cache().len() && j != written
                        ==> final(self).spec_cache()[j] == old(self).spec_cache()[j]
                &&& final(self).spec_cache()[written].key@ == key
                &&& final(self).spec_cache()[written].text == translated
                &&& final(self).spec_cache()[written].created_ms == now_ms
            }),
            ({
                let h = spec_hash_text(request.text@);
                let res = (TranslationResult {
                    request_id: request.id,
                    original_text: request.text,
                    translated_text: translated,
                    tokens_used: tokens_used,
                    duration_ms: duration_ms,
                });
                let followers = match pending_index_of(old(self).spec_pending(), h) {
                    Some(g) => old(self).spec_pending()[g].request_ids@,
                    None => Seq::<String>::empty(),
                };
                &&& final(self).spec_events() == old(self).spec_events() + seq![
                    TranslationEvent::Completed(res),
                ] + spec_fan_out_completions(followers, res)
                &&& match pending_index_of(old(self).spec_pending(), h) {
                    Some(g) => final(self).spec_pending() == old(self).spec_pending().remove(g),
                    None => final(self).spec_pending() == old(self).spec_pending(),
                }
            }),
            match ids_index_of(old(self).spec_active(), request.id@) {
                Some(i) => final(self).spec_active() == old(self).spec_active().remove(i),
                None => final(self).spec_active() == old(self).spec_active(),
            },
    {
        let key: String = self.cache_key(request.text.as_str(), request.prompt_preset.as_str());
        let entry = CacheEntry { key, text: translated.clone(), created_ms: now_ms };
        let ghost entry_snap = entry;
        match self.find_cache_index(entry.key.as_str()) {
            Some(i) => {
                self.cache.set(i, entry);
                proof {
                    assert(self.cache@ == old(self).cache@.update(i as int, entry_snap));
                }
            },
            None => {
                self.cache.push(entry);
                proof {
                    assert(self.cache@ == old(self).cache@.push(entry_snap));
                }
            },
        }

        let ghost res_spec = (TranslationResult {
            request_id: request.id,
            original_text: request.text,
            translated_text: translated,
            tokens_used: tokens_used,
            duration_ms: duration_ms,
        });
        let result = TranslationResult {
            request_id: request.id.clone(),
            original_text: request.text.clone(),
            translated_text: translated.clone(),
            tokens_used,
            duration_ms,
        };
        let ghost events_before = self.events@;
        self.events.push(TranslationEvent::Completed(result));
        proof {
            assert(self.events@ =~= events_before + seq![TranslationEvent::Completed(res_spec)]);
        }

        let h: u64 = self.hash_text(request.text.as_str());
        match self.find_pending_index(h) {
            Some(g) => {
                let group: PendingGroup = self.pending.remove(g);
                let ghost ids = group.request_ids@;
                let ghost fan_base = self.events@;
                let mut k: usize = 0;
                proof {
                    assert(ids.skip(0) =~= ids);
                }
                let ghost pending_now = self.pending@;
                let ghost cache_now = self.cache@;
                while k < group.request_ids.len()
                    invariant
                        k <= ids.len(),
                        ids == group.request_ids@,
                        res_spec.request_id@ == request.id@,
                        res_spec.original_text == request.text,
                        res_spec.translated_text == translated,
                        res_spec.tokens_used == tokens_used,
                        res_spec.duration_ms == duration_ms,
                        self.queue == old(self).queue,
                        self.active_ids == old(self).active_ids,
                        self.rate_limiter == old(self).rate_limiter,
                        self.cache_ttl_ms == old(self).cache_ttl_ms,
                        self.pending@ == pending_now,
                        self.cache@ == cache_now,
                        fan_base + spec_fan_out_completions(ids, res_spec) == self.events@
                            + spec_fan_out_completions(ids.skip(k as int), res_spec),
                    decreases ids.len() - k,
                {
                    proof {
                        assert(ids.skip(k as int)[0] == ids[k as int]);
                        assert(ids.skip(k as int).drop_first() =~= ids.skip(k + 1 as int));
                    }
                    if !str_eq(group.request_ids[k].as_str(), request.id.as_str()) {
                        let follower = TranslationResult {
                            request_id: group.request_ids[k].clone(),
                            original_text: request.text.clone(),
                            translated_text: translated.clone(),
                            tokens_used,
                            duration_ms,
                        };
                        let ghost ev_before = self.events@;
                        self.events.push(TranslationEvent::Completed(follower));
                        proof {
                            assert(self.events@ =~= ev_before + seq![
                                TranslationEvent::Completed(
                                    TranslationResult {
                                        request_id: ids[k as int],
                                        original_text: res_spec.original_text,
                                        translated_text: res_spec.translated_text,
                                        tokens_used: res_spec.tokens_used,
                                        duration_ms: res_spec.duration_ms,
                                    },
                                ),
                            ]);
                        }
                    }
                    k = k + 1;
                }
                proof {
                    assert(ids.skip(ids.len() as int) =~= Seq::<String>::empty());
                }
            },
            None => {},
        }

        match self.find_active_index(request.id.as_str()) {
            Some(i) => {
                let _removed: String = self.active_ids.remove(i);
            },
            None => {},
        }
    }

    /// Settle a failed dispatch: log the `Failed` event with the error
    /// text, fan the same failure out to every follower, close the pending
    /// group, and retire the request from the active set. The cache is not
    /// touched.
    pub fn fail_request(&mut self, request: TranslationRequest, error: String)
        requires
            old(self).wf(),
        ensures
            final(self).wf(),
            final(self).spec_queue() == old(self).spec_queue(),
            final(self).spec_limiter() == old(self).spec_limiter(),
            final(self).spec_cache() == old(self).spec_cache(),
            final(self).spec_cache_ttl() == old(self).spec_cache_ttl(),
            ({
                let h = spec_hash_text(request.text@);
                let followers = match pending_index_of(old(self).spec_pending(), h) {
                    Some(g) => old(self).spec_pending()[g].request_ids@,
                    None => Seq::<String>::empty(),
                };
                &&& final(self).spec_events() == old(self).spec_events() + seq![
                    (TranslationEvent::Failed { request_id: request.id, error }),
                ] + spec_fan_out_failures(followers, request.id@, error)
                &&& match pending_index_of(old(self).spec_pending(), h) {
                    Some(g) => final(self).spec_pending() == old(self).spec_pending().remove(g),
                    None => final(self).spec_pending() == old(self).spec_pending(),
                }
            }),
            match ids_index_of(old(self).spec_active(), request.id@) {
                Some(i) => final(self).spec_active() == old(self).spec_active().remove(i),
                None => final(self).spec_active() == old(self).spec_active(),
            },
    {
        let ghost events_before = self.events@;
        self.events.push(
            TranslationEvent::Failed { request_id: request.id.clone(), error: error.clone() },
        );
        proof {
            assert(self.events@ =~= events_before + seq![
                (TranslationEvent::Failed { request_id: request.id, error }),
            ]);
        }

        let h: u64 = self.hash_text(request.text.as_str());
        match self.find_pending_index(h) {
            Some(g) => {
                let group: PendingGroup = self.pending.remove(g);
                let ghost ids = group.request_ids@;
                let ghost fan_base = self.events@;
                let mut k: usize = 0;
                proof {
                    assert(ids.skip(0) =~= ids);
                }
                let ghost pending_now = self.pending@;
                while k < group.request_ids.len()
                    invariant
                        k <= ids.len(),
                        ids == group.request_ids@,
                        self.queue == old(self).queue,
                        self.active_ids == old(self).active_ids,
                        self.rate_limiter == old(self).rate_limiter,
                        self.cache_ttl_ms == old(self).cache_ttl_ms,
                        self.cache == old(self).cache,
                        self.pending@ == pending_now,
                        fan_base + spec_fan_out_failures(ids, request.id@, error) == self.events@
                            + spec_fan_out_failures(ids.skip(k as int), request.id@, error),
                    decreases ids.len() - k,
                {
                    proof {
                        assert(ids.skip(k as int)[0] == ids[k as int]);
                        assert(ids.skip(k as int).drop_first() =~= ids.skip(k + 1 as int));
                    }
                    if !str_eq(group.request_ids[k].as_str(), request.id.as_str()) {
                        let ghost ev_before = self.events@;
                        self.events.push(
                            TranslationEvent::Failed {
                                request_id: group.request_ids[k].clone(),
                                error: error.clone(),
                            },
                        );
                        proof {
                            assert(self.events@ =~= ev_before + seq![
                                (TranslationEvent::Failed { request_id: ids[k as int], error }),
                            ]);
                        }
                    }
                    k = k + 1;
                }
                proof {
                    assert(ids.skip(ids.len() as int) =~= Seq::<String>::empty());
                }
            },
            None => {},
        }

        match self.find_active_index(request.id.as_str()) {
            Some(i) => {
                let _removed: String = self.active_ids.remove(i);
            },
            None => {},
        }
    }

    /// Put a rate-limited dispatch back at the front of its priority band
    /// (it is deferred, not failed), log the `RateLimited` event with the
    /// wait, and retire the id from the active set. Its pending group stays
    /// open: the request is still owed an outcome.
    pub fn requeue_rate_limited(&mut self, request: TranslationRequest, wait_time_ms: u64)
        requires
            old(self).wf(),
        ensures
            final(self).wf(),
            final(self).spec_cache() == old(self).spec_cache(),
            final(self).spec_pending() == old(self).spec_pending(),
            final(self).spec_limiter() == old(self).spec_limiter(),
            final(self).spec_cache_ttl() == old(self).spec_cache_ttl(),
            final(self).spec_queue() == old(self).spec_queue().insert(
                spec_front_pos(old(self).spec_queue(), spec_rank(request.priority)),
                request,
            ),
            final(self).spec_events() == old(self).spec_events().push(
                (TranslationEvent::RateLimited { request_id: request.id, wait_time_ms }),
            ),
            match ids_index_of(old(self).spec_active(), request.id@) {
                Some(i) => final(self).spec_active() == old(self).spec_active().remove(i),
                None => final(self).spec_active() == old(self).spec_active(),
            },
    {
        match self.find_active_index(request.id.as_str()) {
            Some(i) => {
                let _removed: String = self.active_ids.remove(i);
            },
            None => {},
        }

        self.events.push(
            TranslationEvent::RateLimited { request_id: request.id.clone(), wait_time_ms },
        );

        let rank: u8 = request.priority.rank();
        let mut pos: usize = 0;
        while pos < self.queue.len() && self.queue[pos].priority.rank() > rank
            invariant
                pos <= self.queue@.len(),
                forall|j: int|
                    0 <= j < pos ==> spec_rank((#[trigger] self.queue@[j]).priority) > rank,
                self.queue == old(self).queue,
            decreases self.queue@.len() - pos,
        {
            pos = pos + 1;
        }
        proof {
            lemma_front_pos_at(self.queue@, rank as int, pos as int);
            lemma_sorted_insert(self.queue@, request, pos as int);
        }
        self.queue.insert(pos, request);
    }

    /// Drop every cache entry whose TTL has elapsed by `now_ms` (the
    /// periodic sweep; fresh entries stay, in order).
    pub fn sweep_cache_at(&mut self, now_ms: u64)
        requires
            old(self).wf(),
        ensures
            final(self).wf(),
            final(self).spec_cache() == fresh_filter(
                old(self).spec_cache(),
                now_ms,
                old(self).spec_cache_ttl(),
            ),
            final(self).spec_queue() == old(self).spec_queue(),
            final(self).spec_active() == old(self).spec_active(),
            final(self).spec_pending() == old(self).spec_pending(),
            final(self).spec_events() == old(self).spec_events(),
            final(self).spec_limiter() == old(self).spec_limiter(),
            final(self).spec_cache_ttl() == old(self).spec_cache_ttl(),
    {
        let ghost base = self.cache@;
        let mut kept: Vec<CacheEntry> = Vec::new();
        proof {
            assert(self.cache@.skip(0) =~= self.cache@);
            assert(kept@ + fresh_filter(self.cache@, now_ms, self.cache_ttl_ms) =~= fresh_filter(
                base,
                now_ms,
                self.cache_ttl_ms,
            ));
        }
        let mut i: usize = 0;
        while i < self.cache.len()
            invariant
                i <= self.cache@.len(),
                base == self.cache@,
                fresh_filter(base, now_ms, self.cache_ttl_ms) == kept@ + fresh_filter(
                    self.cache@.skip(i as int),
                    now_ms,
                    self.cache_ttl_ms,
                ),
            decreases self.cache@.len() - i,
        {
            proof {
                assert(self.cache@.skip(i as int)[0] == self.cache@[i as int]);
                assert(self.cache@.skip(i as int).drop_first() =~= self.cache@.skip(i + 1 as int));
            }
            let e: &CacheEntry = &self.cache[i];
            if e.created_ms > now_ms || now_ms - e.created_ms < self.cache_ttl_ms {
                let copied = CacheEntry {
                    key: e.key.clone(),
                    text: e.text.clone(),
                    created_ms: e.created_ms,
                };
                let ghost kept_before = kept@;
                kept.push(copied);
                proof {
                    assert(kept@ =~= kept_before + seq![self.cache@[i as int]]);
                    assert(kept_before + (seq![self.cache@[i as int]] + fresh_filter(
                        self.cache@.skip(i + 1 as int),
                        now_ms,
                        self.cache_ttl_ms,
                    )) =~= kept@ + fresh_filter(
                        self.cache@.skip(i + 1 as int),
                        now_ms,
                        self.cache_ttl_ms,
                    ));
                }
            }
            i = i + 1;
        }
        proof {
            assert(self.cache@.skip(self.cache@.len() as int) =~= Seq::<CacheEntry>::empty());
            assert(kept@ =~= fresh_filter(base, now_ms, self.cache_ttl_ms));
        }
        self.cache = kept;
    }

    /// Hand the accumulated lifecycle events over, oldest first, leaving
    /// the log empty.
    pub fn take_events(&mut self) -> (r: Vec<TranslationEvent>)
        ensures
            r@ == old(self).spec_events(),
            final(self).spec_events() == Seq::<TranslationEvent>::empty(),
            final(self).spec_queue() == old(self).spec_queue(),
            final(self).spec_active() == old(self).spec_active(),
            final(self).spec_cache() == old(self).spec_cache(),
            final(self).spec_pending() == old(self).spec_pending(),
            final(self).spec_limiter() == old(self).spec_limiter(),
            final(self).spec_cache_ttl() == old(self).spec_cache_ttl(),
    {
        let mut out: Vec<TranslationEvent> = Vec::new();
        core::mem::swap(&mut out, &mut self.events);
        out
    }

    /// A point-in-time snapshot: queue depth, active dispatches, cache
    /// size, and the limiter's remaining budgets.
    pub fn get_stats(&self) -> (r: QueueStats)
        ensures
            r.queued == self.spec_queue().len(),
            r.active == self.spec_active().len(),
            r.cached == self.spec_cache().len(),
            r.rate_limit_remaining_minute == if self.spec_limiter().spec_requests().len()
                <= self.spec_limiter().spec_max_per_minute() {
                self.spec_limiter().spec_max_per_minute()
                    - self.spec_limiter().spec_requests().len()
            } else {
                0int
            },
            r.rate_limit_remaining_day == if self.spec_limiter().spec_daily_count()
                <= self.spec_limiter().spec_max_per_day() {
                self.spec_limiter().spec_max_per_day() - self.spec_limiter().spec_daily_count()
            } else {
                0int
            },
    {
        QueueStats {
            queued: self.queue.len(),
            active: self.active_ids.len(),
            cached: self.cache.len(),
            rate_limit_remaining_minute: self.rate_limiter.remaining_this_minute(),
            rate_limit_remaining_day: self.rate_limiter.remaining_today(),
        }
    }

    /// Assemble the outbound call for a request: the preset's system
    /// prompt, then the request text, under the given model, tagged with
    /// the request id. An unknown preset is an error naming it.
    pub fn build_api_request(
        prompts: &PromptSettings,
        model: &str,
        request: &TranslationRequest,
    ) -> (r: Result<ApiRequestPlan, String>)
        ensures
            match spec_preset_for(*prompts, request.prompt_preset@) {
                Some(p) => r matches Ok(plan) && plan.model@ == model@ && plan.user@ == request.id@
                    && plan.messages@.len() == 2 && plan.messages@[0].spec_content() == p.system@
                    && (plan.messages@[0] is System) && (plan.messages@[1] is User)
                    && plan.messages@[1].spec_content() == request.text@,
                None => r matches Err(m) && m@ == "Prompt preset '"@ + request.prompt_preset@
                    + "' not found"@,
            },
    {
        match prompts.get(request.prompt_preset.as_str()) {
            Some(preset) => {
                let mut messages: Vec<ChatMessage> = Vec::new();
                messages.push(ChatMessage::system(preset.system.as_str()));
                messages.push(ChatMessage::user(request.text.as_str()));
                Ok(
                    ApiRequestPlan {
                        model: model.to_owned(),
                        messages,
                        user: request.id.clone(),
                    },
                )
            },
            None => {
                let mut m = "Prompt preset '".to_owned();
                m.append(request.prompt_preset.as_str());
                m.append("' not found");
                Err(m)
            },
        }
    }
}

/// What one outbound chat call should carry: the model, the messages, and
/// the end-user tag. The transport adds its own parameters (temperature,
/// authentication) outside the library.
pub struct ApiRequestPlan {
    pub model: String,
    pub messages: Vec<ChatMessage>,
    pub user: String,
}

/// Drives one oversized request through its chunks: chunk `k`'s prompt is
/// its own text alone; translations come back in index order, token usage
/// accumulates, and any chunk failure aborts the whole request.
pub struct ChunkPlan {
    chunks: Vec<TranslationChunk>,
    translated: Vec<TranslatedChunk>,
    tokens_used: u32,
}

impl ChunkPlan {
    pub closed spec fn spec_chunks(&self) -> Seq<TranslationChunk> {
        self.chunks@
    }

    pub closed spec fn spec_translated(&self) -> Seq<TranslatedChunk> {
        self.translated@
    }

    pub closed spec fn spec_tokens_used(&self) -> u32 {
        self.tokens_used
    }

    /// Split the text into the chunks this plan will drive.
    pub fn new(splitter: &TextSplitter, text: &str) -> (r: ChunkPlan)
        requires
            splitter.spec_max() >= 1,
        ensures
            chunks_match(
                r.spec_chunks(),
                text@,
                split_cuts(text@, splitter.spec_max()),
                splitter.spec_overlap(),
            ),
            r.spec_chunks().len() >= 1,
            r.spec_translated() == Seq::<TranslatedChunk>::empty(),
            r.spec_tokens_used() == 0,
    {
        ChunkPlan {
            chunks: splitter.split_for_translation(text),
            translated: Vec::new(),
            tokens_used: 0,
        }
    }

    /// The next chunk to send, in index order, if any remain.
    pub fn next_chunk(&self) -> (r: Option<&TranslationChunk>)
        ensures
            match r {
                Some(c) => self.spec_translated().len() < self.spec_chunks().len() && *c
                    == self.spec_chunks()[self.spec_translated().len() as int],
                None => self.spec_translated().len() >= self.spec_chunks().len(),
            },
    {
        if self.translated.len() < self.chunks.len() {
            Some(&self.chunks[self.translated.len()])
        } else {
            None
        }
    }

    /// Record the translation of the current chunk and add its token
    /// usage (saturating at the counter's capacity).
    pub fn record_translation(&mut self, translated_text: String, tokens: u32)
        requires
            old(self).spec_translated().len() < old(self).spec_chunks().len(),
        ensures
            final(self).spec_chunks() == old(self).spec_chunks(),
            final(self).spec_translated() == old(self).spec_translated().push(
                (TranslatedChunk {
                    index: old(self).spec_chunks()[old(self).spec_translated().len() as int].index,
                    translated_text: translated_text,
                    overlap_start: old(self).spec_chunks()[old(
                        self,
                    ).spec_translated().len() as int].overlap_start,
                }),
            ),
            final(self).spec_tokens_used() == if old(self).spec_tokens_used() + tokens
                <= u32::MAX {
                old(self).spec_tokens_used() + tokens
            } else {
                u32::MAX as int
            },
    {
        let k: usize = self.translated.len();
        let chunk_index: usize = self.chunks[k].index;
        let chunk_overlap: usize = self.chunks[k].overlap_start;
        self.translated.push(
            TranslatedChunk {
                index: chunk_index,
                translated_text,
                overlap_start: chunk_overlap,
            },
        );
        if self.tokens_used <= u32::MAX - tokens {
            self.tokens_used = self.tokens_used + tokens;
        } else {
            self.tokens_used = u32::MAX;
        }
    }

    /// Whether every chunk has its translation recorded.
    pub fn is_complete(&self) -> (r: bool)
        ensures
            r == (self.spec_translated().len() == self.spec_chunks().len()),
    {
        self.translated.len() == self.chunks.len()
    }

    /// Reassemble the recorded translations and report the accumulated
    /// token usage.
    pub fn merge(self, splitter: &TextSplitter) -> (r: (String, u32))
        ensures
            r.0@ == spec_merge(translated_views(self.spec_translated())),
            r.1 == self.spec_tokens_used(),
    {
        let tokens: u32 = self.tokens_used;
        let merged: String = splitter.merge_translations(self.translated);
        (merged, tokens)
    }
}

/// Queue ordering: requests A (High), B (Normal), C (Low) dequeue as
/// A, B, C whether they were enqueued in that order or as C, A, B —
/// dequeuing always takes the front, so the queue being exactly
/// `[A, B, C]` both times is the dequeue order claim.
pub proof fn lemma_priority_order(
    a: TranslationRequest,
    b: TranslationRequest,
    c: TranslationRequest,
)
    requires
        a.priority is High,
        b.priority is Normal,
        c.priority is Low,
    ensures
        spec_enqueue(spec_enqueue(spec_enqueue(Seq::empty(), a), b), c) == seq![a, b, c],
        spec_enqueue(spec_enqueue(spec_enqueue(Seq::empty(), c), a), b) == seq![a, b, c],
{
    let e = Seq::<TranslationRequest>::empty();
    assert(spec_rank(a.priority) == 2);
    assert(spec_rank(b.priority) == 1);
    assert(spec_rank(c.priority) == 0);
    assert(seq![a].drop_first() =~= e);
    assert(seq![b].drop_first() =~= e);
    assert(seq![c].drop_first() =~= e);
    assert(seq![a, b].drop_first() =~= seq![b]);
    assert(seq![a, c].drop_first() =~= seq![c]);

    assert(spec_insert_pos(e, 2) == 0);
    assert(spec_enqueue(e, a) =~= seq![a]);
    assert(spec_insert_pos(seq![a], 1) == 1 + spec_insert_pos(e, 1));
    assert(spec_insert_pos(e, 1) == 0);
    assert(spec_enqueue(seq![a], b) =~= seq![a, b]);
    assert(spec_insert_pos(seq![a, b], 0) == 1 + spec_insert_pos(seq![b], 0));
    assert(spec_insert_pos(seq![b], 0) == 1 + spec_insert_pos(e, 0));
    assert(spec_insert_pos(e, 0) == 0);
    assert(spec_enqueue(seq![a, b], c) =~= seq![a, b, c]);

    assert(spec_insert_pos(e, 0) == 0);
    assert(spec_enqueue(e, c) =~= seq![c]);
    assert(spec_insert_pos(seq![c], 2) == 0);
    assert(spec_enqueue(seq![c], a) =~= seq![a, c]);
    assert(spec_insert_pos(seq![a, c], 1) == 1 + spec_insert_pos(seq![c], 1));
    assert(spec_insert_pos(seq![c], 1) == 0);
    assert(spec_enqueue(seq![a, c], b) =~= seq![a, b, c]);
}

/// A cache hit answers a submission with the cached text and touches
/// nothing: no queue entry, no pending group, no event — so no outbound
/// call can result from it.
pub proof fn lemma_cache_hit_makes_no_work(
    pre: TranslationManager,
    post: TranslationManager,
    text: String,
    prompt_preset: String,
    priority: RequestPriority,
    request_id: String,
    now_ms: u64,
    r: Result<String, String>,
)
    requires
        translate_transition(pre, post, text, prompt_preset, priority, request_id, now_ms, r),
        spec_cached_text(
            pre.spec_cache(),
            spec_cache_key(text@, prompt_preset@),
            now_ms,
            pre.spec_cache_ttl(),
        ) is Some,
    ensures
        r matches Ok(s) && Some(s@) == spec_cached_text(
            pre.spec_cache(),
            spec_cache_key(text@, prompt_preset@),
            now_ms,
            pre.spec_cache_ttl(),
        ),
        post.spec_queue() == pre.spec_queue(),
        post.spec_pending() == pre.spec_pending(),
        post.spec_events() == pre.spec_events(),
{
}

/// Submitting the same text twice while the first submission is still in
/// flight creates one queue entry and one pending group carrying both ids:
/// one outbound call serves both submissions.
pub proof fn lemma_duplicate_submission_shares_one_call(
    pre: TranslationManager,
    mid: TranslationManager,
    post: TranslationManager,
    text: String,
    prompt_preset: String,
    p1: RequestPriority,
    p2: RequestPriority,
    id1: String,
    id2: String,
    now1: u64,
    now2: u64,
    r1: Result<String, String>,
    r2: Result<String, String>,
)
    requires
        translate_transition(pre, mid, text, prompt_preset, p1, id1, now1, r1),
        translate_transition(mid, post, text, prompt_preset, p2, id2, now2, r2),
        spec_cached_text(
            pre.spec_cache(),
            spec_cache_key(text@, prompt_preset@),
            now1,
            pre.spec_cache_ttl(),
        ) is None,
        spec_cached_text(
            mid.spec_cache(),
            spec_cache_key(text@, prompt_preset@),
            now2,
            mid.spec_cache_ttl(),
        ) is None,
        pending_index_of(pre.spec_pending(), spec_hash_text(text@)) is None,
    ensures
        r1 matches Ok(s) && s == id1,
        mid.spec_queue().len() == pre.spec_queue().len() + 1,
        r2 matches Err(m) && m@ == "Request deduplicated"@,
        post.spec_queue() == mid.spec_queue(),
        ({
            let h = spec_hash_text(text@);
            pending_index_of(post.spec_pending(), h) matches Some(g) && post.spec_pending()[g].request_ids@
                =~= seq![id1, id2]
        }),
{
    let h = spec_hash_text(text@);
    lemma_insert_pos_range(pre.spec_queue(), spec_rank(p1));
    assert(mid.spec_pending().last().text_hash == h);
    assert(mid.spec_pending().len() >= 1);
    let g = pending_index_of(mid.spec_pending(), h);
    lemma_pending_index_some(mid.spec_pending(), h);
    assert(g is Some);
    let gi = g->Some_0;
    assert(post.spec_pending()[gi].request_ids@ == mid.spec_pending()[gi].request_ids@.push(id2));
    lemma_pending_index_stable(mid.spec_pending(), post.spec_pending(), h);
    if mid.spec_pending()[gi].request_ids@ == seq![id1] {
        assert(post.spec_pending()[gi].request_ids@ =~= seq![id1, id2]);
    } else {
        lemma_pending_index_unique_tail(pre.spec_pending(), mid.spec_pending(), h, id1);
        assert(false);
    }
}

proof fn lemma_pending_index_some(groups: Seq<PendingGroup>, h: u64)
    requires
        exists|i: int| 0 <= i < groups.len() && (#[trigger] groups[i]).text_hash == h,
    ensures
        pending_index_of(groups, h) is Some,
        ({
            let g = pending_index_of(groups, h)->Some_0;
            &&& 0 <= g < groups.len()
            &&& groups[g].text_hash == h
            &&& forall|j: int| 0 <= j < g ==> (#[trigger] groups[j]).text_hash != h
        }),
    decreases groups.len(),
{
    if groups.len() > 0 && groups[0].text_hash != h {
        let t = groups.drop_first();
        let w = choose|i: int| 0 <= i < groups.len() && (#[trigger] groups[i]).text_hash == h;
        assert(t[w - 1].text_hash == h);
        lemma_pending_index_some(t, h);
        let g2 = pending_index_of(t, h)->Some_0;
        assert(pending_index_of(groups, h) == Some(1 + g2));
        assert(groups[1 + g2] == t[g2]);
        assert forall|j: int| 0 <= j < 1 + g2 implies (#[trigger] groups[j]).text_hash != h by {
            if j > 0 {
                assert(groups[j] == t[j - 1]);
            }
        }
    }
}

proof fn lemma_pending_index_stable(a: Seq<PendingGroup>, b: Seq<PendingGroup>, h: u64)
    requires
        a.len() == b.len(),
        forall|j: int| 0 <= j < a.len() ==> (#[trigger] b[j]).text_hash == a[j].text_hash,
    ensures
        pending_index_of(a, h) == pending_index_of(b, h),
    decreases a.len(),
{
    if a.len() > 0 {
        assert(b[0].text_hash == a[0].text_hash);
        let ta = a.drop_first();
        let tb = b.drop_first();
        assert(forall|j: int|
            0 <= j < ta.len() ==> (#[trigger] tb[j]).text_hash == ta[j].text_hash);
        lemma_pending_index_stable(ta, tb, h);
    }
}

proof fn lemma_pending_index_unique_tail(
    pre: Seq<PendingGroup>,
    mid: Seq<PendingGroup>,
    h: u64,
    id1: String,
)
    requires
        pending_index_of(pre, h) is None,
        mid.drop_last() == pre,
        mid.len() == pre.len() + 1,
        mid.last().text_hash == h,
        mid.last().request_ids@ == seq![id1],
        pending_index_of(mid, h) is Some,
    ensures
        mid[pending_index_of(mid, h)->Some_0].request_ids@ == seq![id1],
{
    lemma_pending_index_none_except_last(pre, mid, h);
}

proof fn lemma_pending_index_none_except_last(pre: Seq<PendingGroup>, mid: Seq<PendingGroup>, h: u64)
    requires
        pending_index_of(pre, h) is None,
        mid.drop_last() == pre,
        mid.len() == pre.len() + 1,
        mid.last().text_hash == h,
    ensures
        pending_index_of(mid, h) == Some(mid.len() - 1),
    decreases mid.len(),
{
    lemma_pending_index_none_members(pre, h);
    lemma_pending_index_some(mid, h);
    let g = pending_index_of(mid, h)->Some_0;
    if g < mid.len() - 1 {
        assert(mid[g] == pre[g]);
        assert(false);
    }
}

proof fn lemma_pending_index_none_members(groups: Seq<PendingGroup>, h: u64)
    requires
        pending_index_of(groups, h) is None,
    ensures
        forall|j: int| 0 <= j < groups.len() ==> (#[trigger] groups[j]).text_hash != h,
    decreases groups.len(),
{
    if groups.len() > 0 {
        lemma_pending_index_none_members(groups.drop_first(), h);
        assert forall|j: int| 0 <= j < groups.len() implies (#[trigger] groups[j]).text_hash
            != h by {
            if j > 0 {
                assert(groups[j] == groups.drop_first()[j - 1]);
            }
        }
    }
}

/// When a completion fans out over the group `[originator, follower]`, the
/// follower receives one `Completed` event carrying the same translated
/// text, token count and duration as the originator's result.
pub proof fn lemma_fan_out_pair(id1: String, id2: String, res: TranslationResult)
    requires
        res.request_id == id1,
        id1@ != id2@,
    ensures
        spec_fan_out_completions(seq![id1, id2], res) == seq![
            TranslationEvent::Completed(
                TranslationResult {
                    request_id: id2,
                    original_text: res.original_text,
                    translated_text: res.translated_text,
                    tokens_used: res.tokens_used,
                    duration_ms: res.duration_ms,
                },
            ),
        ],
{
    let ids = seq![id1, id2];
    assert(ids.drop_first() =~= seq![id2]);
    assert(seq![id2].drop_first() =~= Seq::<String>::empty());
    assert(spec_fan_out_completions(Seq::<String>::empty(), res) =~= Seq::<
        TranslationEvent,
    >::empty());
    assert(spec_fan_out_completions(seq![id2], res) =~= seq![
        TranslationEvent::Completed(
            TranslationResult {
                request_id: id2,
                original_text: res.original_text,
                translated_text: res.translated_text,
                tokens_used: res.tokens_used,
                duration_ms: res.duration_ms,
            },
        ),
    ]);
    assert(spec_fan_out_completions(ids, res) =~= spec_fan_out_completions(seq![id2], res));
}

} // verus!
