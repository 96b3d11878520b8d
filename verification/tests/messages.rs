use emitter::emitter::{
    action, build_message_pool, message_from_draws, word_draws, component, compose_message, context, generate_message, insert_unique,
    keep_emitting, metric, target, MESSAGE_PATTERNS, SLOT_WORDS,
};
use rand::rngs::StdRng;
use rand::{Rng, SeedableRng};

fn all_messages_contain(msg: &str) -> bool {
    (0..SLOT_WORDS).any(|c| msg.starts_with(&format!("{}: ", component(c))))
        && (0..SLOT_WORDS).any(|a| msg.contains(action(a)))
}

#[test]
fn patterns_compose_as_documented() {
    assert_eq!(
        compose_message(0, 0, 1, 2, 3, 4),
        "ConnectionPool: completed successfully in consumer group (dark_launch=true)"
    );
    assert_eq!(
        compose_message(1, 0, 1, 2, 3, 4),
        "ConnectionPool: completed successfully [ratio=0.94] in consumer group"
    );
    assert_eq!(compose_message(2, 19, 19, 19, 0, 0), "TraceContext: scheduled maintenance [threads=48]");
    assert_eq!(
        compose_message(3, 14, 2, 0, 13, 19),
        "TLSHandler: failed after retries on port 8443 [latency=2340ms] (throttled)"
    );
}

#[test]
fn slot_words_match_their_lists() {
    assert_eq!(component(13), "PartitionConsumer");
    assert_eq!(action(16), "timed out waiting");
    assert_eq!(metric(10), "connections=980/1024");
    assert_eq!(target(5), "for tenant af923c");
    assert_eq!(context(4), "(dark_launch=true)");
    assert_eq!(SLOT_WORDS, 20);
    assert_eq!(MESSAGE_PATTERNS, 4);
}

#[test]
fn generated_messages_follow_the_patterns() {
    let mut rng = StdRng::seed_from_u64(7);
    for _ in 0..200 {
        let m = generate_message(&mut rng);
        assert!(all_messages_contain(&m), "unexpected message {}", m);
    }
}

#[test]
fn pool_holds_distinct_messages() {
    let mut rng = StdRng::seed_from_u64(11);
    let pool = build_message_pool(&mut rng, 300);
    assert_eq!(pool.len(), 300);
    let mut sorted = pool.clone();
    sorted.sort();
    sorted.dedup();
    assert_eq!(sorted.len(), 300);
    assert!(pool.iter().all(|m| all_messages_contain(m)));
    assert!(build_message_pool(&mut rng, 0).is_empty());
}

#[test]
fn insert_unique_acts_as_a_set() {
    let mut pool = vec!["a".to_string()];
    assert!(!insert_unique(&mut pool, "a".to_string()));
    assert!(insert_unique(&mut pool, "b".to_string()));
    assert_eq!(pool, vec!["a".to_string(), "b".to_string()]);
}

#[test]
fn zero_run_length_means_forever() {
    assert!(keep_emitting(0, 0));
    assert!(keep_emitting(0, u128::MAX));
    assert!(keep_emitting(10, 9));
    assert!(!keep_emitting(10, 10));
    assert!(!keep_emitting(10, 11));
}

#[test]
fn draws_follow_the_generator_order() {
    let mut lib_rng = StdRng::seed_from_u64(99);
    let mut ref_rng = StdRng::seed_from_u64(99);
    for _ in 0..100 {
        let got = generate_message(&mut lib_rng);
        let pattern = ref_rng.gen_range(0..4u8);
        let pick = |rng: &mut StdRng| rng.gen_range(0..SLOT_WORDS);
        let expected = match pattern {
            0 => {
                let (c, a, t, x) = (pick(&mut ref_rng), pick(&mut ref_rng), pick(&mut ref_rng), pick(&mut ref_rng));
                format!("{}: {} {} {}", component(c), action(a), target(t), context(x))
            }
            1 => {
                let (c, a, m, t) = (pick(&mut ref_rng), pick(&mut ref_rng), pick(&mut ref_rng), pick(&mut ref_rng));
                format!("{}: {} [{}] {}", component(c), action(a), metric(m), target(t))
            }
            2 => {
                let (c, a, m) = (pick(&mut ref_rng), pick(&mut ref_rng), pick(&mut ref_rng));
                format!("{}: {} [{}]", component(c), action(a), metric(m))
            }
            _ => {
                let (c, a, t, m, x) = (
                    pick(&mut ref_rng),
                    pick(&mut ref_rng),
                    pick(&mut ref_rng),
                    pick(&mut ref_rng),
                    pick(&mut ref_rng),
                );
                format!("{}: {} {} [{}] {}", component(c), action(a), target(t), metric(m), context(x))
            }
        };
        assert_eq!(got, expected);
    }
}

#[test]
fn draws_fill_slots_in_message_order() {
    assert_eq!(
        message_from_draws(3, &vec![19, 19, 19, 19, 19]),
        "TraceContext: scheduled maintenance from environment config [threads=48] (throttled)"
    );
    assert_eq!(
        message_from_draws(3, &vec![14, 2, 13, 0, 19]),
        "TLSHandler: failed after retries on port 8443 [latency=2340ms] (throttled)"
    );
    assert_eq!(
        message_from_draws(0, &vec![0, 1, 3, 4]),
        "ConnectionPool: completed successfully in consumer group (dark_launch=true)"
    );
    assert_eq!(
        message_from_draws(1, &vec![0, 1, 2, 3]),
        "ConnectionPool: completed successfully [ratio=0.94] in consumer group"
    );
    assert_eq!(message_from_draws(2, &vec![19, 19, 19]), "TraceContext: scheduled maintenance [threads=48]");
    let counts: Vec<usize> = (0..4u8).map(word_draws).collect();
    assert_eq!(counts, vec![4, 4, 3, 5]);
}
