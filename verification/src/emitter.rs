//! Combinatorial generation of log messages and the pool of unique messages
//! that the emitters sample from.
//!
//! A message fills one of four patterns with words from five slots
//! (component, action, metric, target, context) of twenty words each.

use rand::Rng;
use vstd::prelude::*;

verus! {

/// Number of words in each slot.
pub const SLOT_WORDS: usize = 20;

/// Number of message patterns.
pub const MESSAGE_PATTERNS: usize = 4;

#[verifier::external_type_specification]
#[verifier::external_body]
pub struct ExStdRng(rand::rngs::StdRng);

/// Calls `rand::Rng::gen_range(0..bound)` on the standard generator.
/// The contract claims only that the draw lies in `0..bound`; which value comes
/// out depends on the generator's state and is not stated.
#[verifier::external_body]
fn random_below(rng: &mut rand::rngs::StdRng, bound: usize) -> (r: usize)
    requires
        bound > 0,
    ensures
        r < bound,
{
    rng.gen_range(0..bound)
}

/// Calls `rand::Rng::gen_range(0..bound)` on the standard generator with `u8`
/// bounds (a separate sampler from the `usize` one, drawing 32-bit words).
/// The contract claims only that the draw lies in `0..bound`; which value comes
/// out depends on the generator's state and is not stated.
#[verifier::external_body]
fn random_u8_below(rng: &mut rand::rngs::StdRng, bound: u8) -> (r: u8)
    requires
        bound > 0,
    ensures
        r < bound,
{
    rng.gen_range(0..bound)
}

/// Word `i` of the component slot: the subsystem that a message is about.
pub open spec fn spec_component(i: int) -> Seq<char> {
    if i == 0 {
        "ConnectionPool"@
    } else if i == 1 {
        "QueryExecutor"@
    } else if i == 2 {
        "AuthManager"@
    } else if i == 3 {
        "CacheLayer"@
    } else if i == 4 {
        "LoadBalancer"@
    } else if i == 5 {
        "RateLimiter"@
    } else if i == 6 {
        "SchemaValidator"@
    } else if i == 7 {
        "EventBus"@
    } else if i == 8 {
        "HealthMonitor"@
    } else if i == 9 {
        "SessionStore"@
    } else if i == 10 {
        "CircuitBreaker"@
    } else if i == 11 {
        "JobScheduler"@
    } else if i == 12 {
        "ReplicaManager"@
    } else if i == 13 {
        "PartitionConsumer"@
    } else if i == 14 {
        "TLSHandler"@
    } else if i == 15 {
        "GarbageCollector"@
    } else if i == 16 {
        "DiskMonitor"@
    } else if i == 17 {
        "DeadLetterQueue"@
    } else if i == 18 {
        "IdempotencyFilter"@
    } else {
        "TraceContext"@
    }
}

/// Word `i` of the component slot.
pub fn component(i: usize) -> (w: &'static str)
    requires
        i < SLOT_WORDS,
    ensures
        w@ == spec_component(i as int),
{
    match i {
        0 => "ConnectionPool",
        1 => "QueryExecutor",
        2 => "AuthManager",
        3 => "CacheLayer",
        4 => "LoadBalancer",
        5 => "RateLimiter",
        6 => "SchemaValidator",
        7 => "EventBus",
        8 => "HealthMonitor",
        9 => "SessionStore",
        10 => "CircuitBreaker",
        11 => "JobScheduler",
        12 => "ReplicaManager",
        13 => "PartitionConsumer",
        14 => "TLSHandler",
        15 => "GarbageCollector",
        16 => "DiskMonitor",
        17 => "DeadLetterQueue",
        18 => "IdempotencyFilter",
        _ => "TraceContext",
    }
}

/// Word `i` of the action slot: what the subsystem did.
pub open spec fn spec_action(i: int) -> Seq<char> {
    if i == 0 {
        "detected threshold breach"@
    } else if i == 1 {
        "completed successfully"@
    } else if i == 2 {
        "failed after retries"@
    } else if i == 3 {
        "initiated graceful recovery"@
    } else if i == 4 {
        "rejected invalid request"@
    } else if i == 5 {
        "triggered rebalance"@
    } else if i == 6 {
        "exceeded soft limit"@
    } else if i == 7 {
        "evicted stale entry"@
    } else if i == 8 {
        "propagated context"@
    } else if i == 9 {
        "acquired resource handle"@
    } else if i == 10 {
        "flushed pending writes"@
    } else if i == 11 {
        "rotated credentials"@
    } else if i == 12 {
        "promoted fallback path"@
    } else if i == 13 {
        "checkpointed at offset"@
    } else if i == 14 {
        "enqueued background task"@
    } else if i == 15 {
        "resolved after backoff"@
    } else if i == 16 {
        "timed out waiting"@
    } else if i == 17 {
        "received reset signal"@
    } else if i == 18 {
        "applied migration"@
    } else {
        "scheduled maintenance"@
    }
}

/// Word `i` of the action slot.
pub fn action(i: usize) -> (w: &'static str)
    requires
        i < SLOT_WORDS,
    ensures
        w@ == spec_action(i as int),
{
    match i {
        0 => "detected threshold breach",
        1 => "completed successfully",
        2 => "failed after retries",
        3 => "initiated graceful recovery",
        4 => "rejected invalid request",
        5 => "triggered rebalance",
        6 => "exceeded soft limit",
        7 => "evicted stale entry",
        8 => "propagated context",
        9 => "acquired resource handle",
        10 => "flushed pending writes",
        11 => "rotated credentials",
        12 => "promoted fallback path",
        13 => "checkpointed at offset",
        14 => "enqueued background task",
        15 => "resolved after backoff",
        16 => "timed out waiting",
        17 => "received reset signal",
        18 => "applied migration",
        _ => "scheduled maintenance",
    }
}

/// Word `i` of the metric slot: a measurement quoted in square brackets.
pub open spec fn spec_metric(i: int) -> Seq<char> {
    if i == 0 {
        "latency=2340ms"@
    } else if i == 1 {
        "count=184302"@
    } else if i == 2 {
        "ratio=0.94"@
    } else if i == 3 {
        "depth=500"@
    } else if i == 4 {
        "attempt=3/5"@
    } else if i == 5 {
        "usage=85%"@
    } else if i == 6 {
        "lag=500ms"@
    } else if i == 7 {
        "size=1.2MB"@
    } else if i == 8 {
        "rate=120/s"@
    } else if i == 9 {
        "ttl=3600s"@
    } else if i == 10 {
        "connections=980/1024"@
    } else if i == 11 {
        "duration=30s"@
    } else if i == 12 {
        "retries=3"@
    } else if i == 13 {
        "offset=48291"@
    } else if i == 14 {
        "queue_depth=1247"@
    } else if i == 15 {
        "p99=450ms"@
    } else if i == 16 {
        "batch_size=500"@
    } else if i == 17 {
        "memory=2.4GB"@
    } else if i == 18 {
        "iops=12000"@
    } else {
        "threads=48"@
    }
}

/// Word `i` of the metric slot.
pub fn metric(i: usize) -> (w: &'static str)
    requires
        i < SLOT_WORDS,
    ensures
        w@ == spec_metric(i as int),
{
    match i {
        0 => "latency=2340ms",
        1 => "count=184302",
        2 => "ratio=0.94",
        3 => "depth=500",
        4 => "attempt=3/5",
        5 => "usage=85%",
        6 => "lag=500ms",
        7 => "size=1.2MB",
        8 => "rate=120/s",
        9 => "ttl=3600s",
        10 => "connections=980/1024",
        11 => "duration=30s",
        12 => "retries=3",
        13 => "offset=48291",
        14 => "queue_depth=1247",
        15 => "p99=450ms",
        16 => "batch_size=500",
        17 => "memory=2.4GB",
        18 => "iops=12000",
        _ => "threads=48",
    }
}

/// Word `i` of the target slot: what the action applied to.
pub open spec fn spec_target(i: int) -> Seq<char> {
    if i == 0 {
        "on orders table"@
    } else if i == 1 {
        "for payments-api"@
    } else if i == 2 {
        "from upstream host"@
    } else if i == 3 {
        "in consumer group"@
    } else if i == 4 {
        "on /data volume"@
    } else if i == 5 {
        "for tenant af923c"@
    } else if i == 6 {
        "to downstream service"@
    } else if i == 7 {
        "across service boundary"@
    } else if i == 8 {
        "in container cgroup"@
    } else if i == 9 {
        "from replica node-3"@
    } else if i == 10 {
        "on topic order.completed"@
    } else if i == 11 {
        "for client session"@
    } else if i == 12 {
        "in write-ahead log"@
    } else if i == 13 {
        "on port 8443"@
    } else if i == 14 {
        "from discovery endpoint"@
    } else if i == 15 {
        "in ring buffer"@
    } else if i == 16 {
        "for user session"@
    } else if i == 17 {
        "on primary shard"@
    } else if i == 18 {
        "to dead letter queue"@
    } else {
        "from environment config"@
    }
}

/// Word `i` of the target slot.
pub fn target(i: usize) -> (w: &'static str)
    requires
        i < SLOT_WORDS,
    ensures
        w@ == spec_target(i as int),
{
    match i {
        0 => "on orders table",
        1 => "for payments-api",
        2 => "from upstream host",
        3 => "in consumer group",
        4 => "on /data volume",
        5 => "for tenant af923c",
        6 => "to downstream service",
        7 => "across service boundary",
        8 => "in container cgroup",
        9 => "from replica node-3",
        10 => "on topic order.completed",
        11 => "for client session",
        12 => "in write-ahead log",
        13 => "on port 8443",
        14 => "from discovery endpoint",
        15 => "in ring buffer",
        16 => "for user session",
        17 => "on primary shard",
        18 => "to dead letter queue",
        _ => "from environment config",
    }
}

/// Word `i` of the context slot: a parenthesised qualifier.
pub open spec fn spec_context(i: int) -> Seq<char> {
    if i == 0 {
        "(retrying)"@
    } else if i == 1 {
        "(non-blocking)"@
    } else if i == 2 {
        "(scheduled)"@
    } else if i == 3 {
        "(cached response)"@
    } else if i == 4 {
        "(dark_launch=true)"@
    } else if i == 5 {
        "(read-only)"@
    } else if i == 6 {
        "(best-effort)"@
    } else if i == 7 {
        "(idempotent)"@
    } else if i == 8 {
        "(correlation_id=missing)"@
    } else if i == 9 {
        "(circuit=open)"@
    } else if i == 10 {
        "(degraded mode)"@
    } else if i == 11 {
        "(cold start)"@
    } else if i == 12 {
        "(warm path)"@
    } else if i == 13 {
        "(fallback)"@
    } else if i == 14 {
        "(async)"@
    } else if i == 15 {
        "(batched)"@
    } else if i == 16 {
        "(compressed)"@
    } else if i == 17 {
        "(encrypted)"@
    } else if i == 18 {
        "(sampled)"@
    } else {
        "(throttled)"@
    }
}

/// Word `i` of the context slot.
pub fn context(i: usize) -> (w: &'static str)
    requires
        i < SLOT_WORDS,
    ensures
        w@ == spec_context(i as int),
{
    match i {
        0 => "(retrying)",
        1 => "(non-blocking)",
        2 => "(scheduled)",
        3 => "(cached response)",
        4 => "(dark_launch=true)",
        5 => "(read-only)",
        6 => "(best-effort)",
        7 => "(idempotent)",
        8 => "(correlation_id=missing)",
        9 => "(circuit=open)",
        10 => "(degraded mode)",
        11 => "(cold start)",
        12 => "(warm path)",
        13 => "(fallback)",
        14 => "(async)",
        15 => "(batched)",
        16 => "(compressed)",
        17 => "(encrypted)",
        18 => "(sampled)",
        _ => "(throttled)",
    }
}
/// The text of a message in pattern `pattern` with the given slot words.
///
/// - pattern 0: `C: A T X`
/// - pattern 1: `C: A [M] T`
/// - pattern 2: `C: A [M]`
/// - pattern 3: `C: A T [M] X`
pub open spec fn message_text(
    pattern: int,
    c: Seq<char>,
    a: Seq<char>,
    m: Seq<char>,
    t: Seq<char>,
    x: Seq<char>,
) -> Seq<char> {
    if pattern == 0 {
        c + ": "@ + a + " "@ + t + " "@ + x
    } else if pattern == 1 {
        c + ": "@ + a + " ["@ + m + "] "@ + t
    } else if pattern == 2 {
        c + ": "@ + a + " ["@ + m + "]"@
    } else {
        c + ": "@ + a + " "@ + t + " ["@ + m + "] "@ + x
    }
}

/// The message for a pattern and one word index per slot.
pub open spec fn message_for(pattern: int, ci: int, ai: int, mi: int, ti: int, xi: int) -> Seq<char> {
    message_text(
        pattern,
        spec_component(ci),
        spec_action(ai),
        spec_metric(mi),
        spec_target(ti),
        spec_context(xi),
    )
}

/// A valid choice of pattern and slot words.
pub open spec fn valid_choice(pattern: int, ci: int, ai: int, mi: int, ti: int, xi: int) -> bool {
    &&& 0 <= pattern < MESSAGE_PATTERNS
    &&& 0 <= ci < SLOT_WORDS
    &&& 0 <= ai < SLOT_WORDS
    &&& 0 <= mi < SLOT_WORDS
    &&& 0 <= ti < SLOT_WORDS
    &&& 0 <= xi < SLOT_WORDS
}

/// Whether `s` is a message that the generator can produce.
pub open spec fn is_generated_message(s: Seq<char>) -> bool {
    exists|pattern: int, ci: int, ai: int, mi: int, ti: int, xi: int|
        valid_choice(pattern, ci, ai, mi, ti, xi) && s == #[trigger] message_for(
            pattern,
            ci,
            ai,
            mi,
            ti,
            xi,
        )
}

/// Builds the message for a pattern and one word index per slot.
pub fn compose_message(pattern: usize, ci: usize, ai: usize, mi: usize, ti: usize, xi: usize) -> (s: String)
    requires
        valid_choice(pattern as int, ci as int, ai as int, mi as int, ti as int, xi as int),
    ensures
        s@ == message_for(pattern as int, ci as int, ai as int, mi as int, ti as int, xi as int),
{
    let mut s = String::from_str(component(ci));
    s.append(": ");
    s.append(action(ai));
    if pattern == 0 {
        s.append(" ");
        s.append(target(ti));
        s.append(" ");
        s.append(context(xi));
    } else if pattern == 1 {
        s.append(" [");
        s.append(metric(mi));
        s.append("] ");
        s.append(target(ti));
    } else if pattern == 2 {
        s.append(" [");
        s.append(metric(mi));
        s.append("]");
    } else {
        s.append(" ");
        s.append(target(ti));
        s.append(" [");
        s.append(metric(mi));
        s.append("] ");
        s.append(context(xi));
    }
    s
}

/// Number of word draws a pattern takes: one per slot that its text uses.
pub open spec fn words_used(pattern: int) -> nat {
    if pattern == 0 {
        4
    } else if pattern == 1 {
        4
    } else if pattern == 2 {
        3
    } else {
        5
    }
}

/// Draws that a pattern can take: as many as it uses, each a word index.
pub open spec fn valid_draws(pattern: int, words: Seq<usize>) -> bool {
    &&& 0 <= pattern < MESSAGE_PATTERNS
    &&& words.len() == words_used(pattern)
    &&& forall|i: int| 0 <= i < words.len() ==> words[i] < SLOT_WORDS
}

/// The message that a pattern and its word draws make, the draws filling the
/// slots in the order they appear in the message:
///
/// - pattern 0: component, action, target, context
/// - pattern 1: component, action, metric, target
/// - pattern 2: component, action, metric
/// - pattern 3: component, action, target, metric, context
pub open spec fn drawn_message(pattern: int, w: Seq<usize>) -> Seq<char> {
    if pattern == 0 {
        message_for(0, w[0] as int, w[1] as int, 0, w[2] as int, w[3] as int)
    } else if pattern == 1 {
        message_for(1, w[0] as int, w[1] as int, w[2] as int, w[3] as int, 0)
    } else if pattern == 2 {
        message_for(2, w[0] as int, w[1] as int, w[2] as int, 0, 0)
    } else {
        message_for(3, w[0] as int, w[1] as int, w[3] as int, w[2] as int, w[4] as int)
    }
}

/// Number of word draws pattern `pattern` takes.
pub fn word_draws(pattern: u8) -> (n: usize)
    requires
        pattern < 4,
    ensures
        n == words_used(pattern as int),
{
    if pattern == 0 {
        4
    } else if pattern == 1 {
        4
    } else if pattern == 2 {
        3
    } else {
        5
    }
}

/// Builds the message from a pattern and its word draws, in draw order.
pub fn message_from_draws(pattern: u8, words: &Vec<usize>) -> (s: String)
    requires
        valid_draws(pattern as int, words@),
    ensures
        s@ == drawn_message(pattern as int, words@),
        is_generated_message(s@),
{
    let (ci, ai, mi, ti, xi) = if pattern == 0 {
        (words[0], words[1], 0, words[2], words[3])
    } else if pattern == 1 {
        (words[0], words[1], words[2], words[3], 0)
    } else if pattern == 2 {
        (words[0], words[1], words[2], 0, 0)
    } else {
        (words[0], words[1], words[3], words[2], words[4])
    };
    let s = compose_message(pattern as usize, ci, ai, mi, ti, xi);
    assert(valid_choice(pattern as int, ci as int, ai as int, mi as int, ti as int, xi as int));
    s
}

/// Draws a random message: first the pattern (as a `u8` below 4), then the
/// words of the slots it uses, in the order they appear in the message.
pub fn generate_message(rng: &mut rand::rngs::StdRng) -> (s: String)
    ensures
        exists|pattern: int, words: Seq<usize>|
            valid_draws(pattern, words) && s@ == #[trigger] drawn_message(pattern, words),
        is_generated_message(s@),
{
    let pattern = random_u8_below(rng, 4);
    let n = word_draws(pattern);
    let mut words: Vec<usize> = Vec::new();
    while words.len() < n
        invariant
            pattern < 4,
            n == words_used(pattern as int),
            words.len() <= n,
            forall|i: int| 0 <= i < words.len() ==> words@[i] < SLOT_WORDS,
        decreases n - words.len(),
    {
        let w = random_below(rng, SLOT_WORDS);
        words.push(w);
    }
    let s = message_from_draws(pattern, &words);
    assert(valid_draws(pattern as int, words@));
    s
}

/// No two strings of the sequence have the same text.
pub open spec fn distinct_texts(v: Seq<String>) -> bool {
    forall|i: int, j: int| 0 <= i < j < v.len() ==> v[i]@ != v[j]@
}

/// Whether some string of the sequence has the text `s`.
pub open spec fn has_text(v: Seq<String>, s: Seq<char>) -> bool {
    exists|i: int| 0 <= i < v.len() && v[i]@ == s
}

/// Whether `pool` already holds a message with the text of `msg`.
pub fn contains_text(pool: &Vec<String>, msg: &String) -> (found: bool)
    ensures
        found == has_text(pool@, msg@),
{
    let mut i: usize = 0;
    while i < pool.len()
        invariant
            i <= pool.len(),
            forall|j: int| 0 <= j < i ==> pool@[j]@ != msg@,
        decreases pool.len() - i,
    {
        if pool[i] == *msg {
            return true;
        }
        i = i + 1;
    }
    false
}

/// Adds `msg` to `pool` unless a message with the same text is already there,
/// as inserting into a set does; says whether it was added.
pub fn insert_unique(pool: &mut Vec<String>, msg: String) -> (added: bool)
    ensures
        added == !has_text(old(pool)@, msg@),
        added ==> final(pool)@ == old(pool)@.push(msg),
        !added ==> final(pool)@ == old(pool)@,
{
    if contains_text(pool, &msg) {
        false
    } else {
        pool.push(msg);
        true
    }
}

/// Number of codes that enumerate every choice of pattern and slot words.
pub const MESSAGE_CODES: usize = 12_800_000;

/// The choice that code `k` stands for: the pattern and the five word indices
/// are the digits of `k` in base 20 (the pattern being the leading digit).
pub open spec fn code_message(k: int) -> Seq<char> {
    message_for(
        k / 3_200_000,
        (k / 160_000) % 20,
        (k / 8_000) % 20,
        (k / 400) % 20,
        (k / 20) % 20,
        k % 20,
    )
}

/// Every message the generator can produce has its text in `pool`.
pub open spec fn holds_every_message(pool: Seq<String>) -> bool {
    forall|pattern: int, ci: int, ai: int, mi: int, ti: int, xi: int|
        valid_choice(pattern, ci, ai, mi, ti, xi) ==> has_text(
            pool,
            #[trigger] message_for(pattern, ci, ai, mi, ti, xi),
        )
}

proof fn lemma_code_digits(pattern: int, ci: int, ai: int, mi: int, ti: int, xi: int)
    requires
        valid_choice(pattern, ci, ai, mi, ti, xi),
    ensures
        ({
            let k = pattern * 3_200_000 + ci * 160_000 + ai * 8_000 + mi * 400 + ti * 20 + xi;
            &&& 0 <= k < MESSAGE_CODES
            &&& code_message(k) == message_for(pattern, ci, ai, mi, ti, xi)
        }),
{
    let k = pattern * 3_200_000 + ci * 160_000 + ai * 8_000 + mi * 400 + ti * 20 + xi;
    assert(k / 3_200_000 == pattern) by (nonlinear_arith)
        requires
            k == pattern * 3_200_000 + ci * 160_000 + ai * 8_000 + mi * 400 + ti * 20 + xi,
            0 <= ci < 20, 0 <= ai < 20, 0 <= mi < 20, 0 <= ti < 20, 0 <= xi < 20, 0 <= pattern,
    ;
    assert((k / 160_000) % 20 == ci) by (nonlinear_arith)
        requires
            k == pattern * 3_200_000 + ci * 160_000 + ai * 8_000 + mi * 400 + ti * 20 + xi,
            0 <= ci < 20, 0 <= ai < 20, 0 <= mi < 20, 0 <= ti < 20, 0 <= xi < 20, 0 <= pattern,
    ;
    assert((k / 8_000) % 20 == ai) by (nonlinear_arith)
        requires
            k == pattern * 3_200_000 + ci * 160_000 + ai * 8_000 + mi * 400 + ti * 20 + xi,
            0 <= ci < 20, 0 <= ai < 20, 0 <= mi < 20, 0 <= ti < 20, 0 <= xi < 20, 0 <= pattern,
    ;
    assert((k / 400) % 20 == mi) by (nonlinear_arith)
        requires
            k == pattern * 3_200_000 + ci * 160_000 + ai * 8_000 + mi * 400 + ti * 20 + xi,
            0 <= ci < 20, 0 <= ai < 20, 0 <= mi < 20, 0 <= ti < 20, 0 <= xi < 20, 0 <= pattern,
    ;
    assert((k / 20) % 20 == ti) by (nonlinear_arith)
        requires
            k == pattern * 3_200_000 + ci * 160_000 + ai * 8_000 + mi * 400 + ti * 20 + xi,
            0 <= ci < 20, 0 <= ai < 20, 0 <= mi < 20, 0 <= ti < 20, 0 <= xi < 20, 0 <= pattern,
    ;
    assert(k % 20 == xi) by (nonlinear_arith)
        requires
            k == pattern * 3_200_000 + ci * 160_000 + ai * 8_000 + mi * 400 + ti * 20 + xi,
            0 <= ci < 20, 0 <= ai < 20, 0 <= mi < 20, 0 <= ti < 20, 0 <= xi < 20, 0 <= pattern,
    ;
}

/// Adds a generable message to a pool of distinct generable messages, unless
/// its text is already there.
fn add_to_pool(pool: &mut Vec<String>, msg: String)
    requires
        distinct_texts(old(pool)@),
        forall|i: int| 0 <= i < old(pool).len() ==> is_generated_message(#[trigger] old(pool)@[i]@),
        is_generated_message(msg@),
    ensures
        distinct_texts(final(pool)@),
        forall|i: int| 0 <= i < final(pool).len() ==> is_generated_message(#[trigger] final(pool)@[i]@),
        has_text(final(pool)@, msg@),
        forall|s: Seq<char>| has_text(old(pool)@, s) ==> has_text(final(pool)@, s),
        old(pool).len() <= final(pool).len() <= old(pool).len() + 1,
{
    let ghost before = pool@;
    let ghost text = msg@;
    let added = insert_unique(pool, msg);
    proof {
        if added {
            assert forall|i: int, j: int| 0 <= i < j < pool@.len() implies pool@[i]@ != pool@[j]@ by {
                if j == pool@.len() - 1 {
                    assert(pool@[i] == before[i]);
                }
            }
            assert(pool@[before.len() as int]@ == text);
            assert forall|s: Seq<char>| has_text(before, s) implies has_text(pool@, s) by {
                let w = choose|w: int| 0 <= w < before.len() && before[w]@ == s;
                assert(pool@[w] == before[w]);
            }
        }
    }
}

/// Calls the generator until `size` distinct messages are held or `u64::MAX`
/// calls have been made, keeping each new text; returns the messages and the
/// number of calls. Every call adds at most one message, so the pool is short
/// of `size` only when all `u64::MAX` calls were made.
pub fn draw_distinct_messages(rng: &mut rand::rngs::StdRng, size: usize) -> (res: (Vec<String>, u64))
    ensures
        res.0.len() <= size,
        res.0.len() <= res.1,
        res.0.len() == size || res.1 == u64::MAX,
        distinct_texts(res.0@),
        forall|i: int| 0 <= i < res.0.len() ==> is_generated_message(#[trigger] res.0@[i]@),
{
    let mut pool: Vec<String> = Vec::new();
    let mut draws: u64 = 0;
    while pool.len() < size && draws < u64::MAX
        invariant
            pool.len() <= size,
            pool.len() <= draws,
            distinct_texts(pool@),
            forall|i: int| 0 <= i < pool.len() ==> is_generated_message(#[trigger] pool@[i]@),
        decreases u64::MAX - draws,
    {
        let msg = generate_message(rng);
        add_to_pool(&mut pool, msg);
        draws = draws + 1;
    }
    (pool, draws)
}

/// Draws messages until `size` distinct ones have been collected.
///
/// The messages are drawn by [`draw_distinct_messages`]. Should its
/// `u64::MAX` draws leave the pool short, the remaining messages are taken in
/// order of their codes (see [`code_message`]), so the pool ends with `size` messages or with every
/// message the generator can produce.
pub fn build_message_pool(rng: &mut rand::rngs::StdRng, size: usize) -> (pool: Vec<String>)
    ensures
        pool.len() <= size,
        pool.len() == size || holds_every_message(pool@),
        distinct_texts(pool@),
        forall|i: int| 0 <= i < pool.len() ==> is_generated_message(#[trigger] pool@[i]@),
{
    let (mut pool, _draws) = draw_distinct_messages(rng, size);
    let mut k: usize = 0;
    while pool.len() < size && k < MESSAGE_CODES
        invariant
            pool.len() <= size,
            k <= MESSAGE_CODES,
            distinct_texts(pool@),
            forall|i: int| 0 <= i < pool.len() ==> is_generated_message(#[trigger] pool@[i]@),
            forall|j: int| 0 <= j < k ==> has_text(pool@, #[trigger] code_message(j)),
        decreases MESSAGE_CODES - k,
    {
        let pattern = k / 3_200_000;
        let ci = (k / 160_000) % 20;
        let ai = (k / 8_000) % 20;
        let mi = (k / 400) % 20;
        let ti = (k / 20) % 20;
        let xi = k % 20;
        let msg = compose_message(pattern, ci, ai, mi, ti, xi);
        proof {
            assert(valid_choice(pattern as int, ci as int, ai as int, mi as int, ti as int, xi as int));
            assert(msg@ == code_message(k as int));
        }
        let ghost before = pool@;
        add_to_pool(&mut pool, msg);
        proof {
            assert forall|j: int| 0 <= j < k + 1 implies has_text(pool@, #[trigger] code_message(j)) by {
                if j < k {
                    assert(has_text(before, code_message(j)));
                }
            }
        }
        k = k + 1;
    }
    proof {
        if pool.len() < size {
            assert forall|pattern: int, ci: int, ai: int, mi: int, ti: int, xi: int|
                valid_choice(pattern, ci, ai, mi, ti, xi) implies has_text(
                pool@,
                #[trigger] message_for(pattern, ci, ai, mi, ti, xi),
            ) by {
                lemma_code_digits(pattern, ci, ai, mi, ti, xi);
                let code = pattern * 3_200_000 + ci * 160_000 + ai * 8_000 + mi * 400 + ti * 20 + xi;
                assert(has_text(pool@, code_message(code)));
            }
        }
    }
    pool
}

/// Whether an emitter keeps producing entries: a run length of zero means
/// forever, otherwise until the elapsed time reaches the run length.
pub fn keep_emitting(run_for_nanos: u128, elapsed_nanos: u128) -> (go: bool)
    ensures
        go == (run_for_nanos == 0 || elapsed_nanos < run_for_nanos),
{
    run_for_nanos == 0 || elapsed_nanos < run_for_nanos
}

} // verus!
