use mugunghwa::hashing::fnv1a_hash64;
use mugunghwa::snowflake::{generate_snowflake, EPOCH_MS};
use mugunghwa::text::u64_to_decimal;

#[test]
fn fnv1a_known_vectors() {
    assert_eq!(fnv1a_hash64(""), 0xcbf29ce484222325);
    assert_eq!(fnv1a_hash64("a"), 0xaf63dc4c8601ec8c);
    assert_eq!(fnv1a_hash64("foobar"), 0x85944171f73967e8);
    assert_eq!(fnv1a_hash64("default"), 0xebada5168620c5fe);
}

#[test]
fn snowflake_default_machine() {
    // 1000 ms after the epoch, machine "default" (id 510), sequence 0
    let id = generate_snowflake(EPOCH_MS + 1000, None);
    assert_eq!(id, 4196392960);
    assert_eq!(id >> 22, 1000);
    assert_eq!((id >> 12) & 0x3FF, 510);
    assert_eq!(id & 0xFFF, 0);
}

#[test]
fn snowflake_named_machine() {
    let id = generate_snowflake(EPOCH_MS + 5, Some("worker-1"));
    assert_eq!(id >> 22, 5);
    assert_eq!((id >> 12) & 0x3FF, 1005);
    assert_eq!(id, (5u64 << 22) | (1005u64 << 12));
    // an explicitly configured "default" is the same machine as none
    assert_eq!(generate_snowflake(EPOCH_MS + 5, Some("default")), generate_snowflake(EPOCH_MS + 5, None));
}

#[test]
fn snowflake_at_epoch_is_machine_only() {
    assert_eq!(generate_snowflake(EPOCH_MS, Some("a")), 140u64 << 12);
}

#[test]
fn snowflakes_are_time_ordered_across_machines() {
    let earlier = generate_snowflake(EPOCH_MS + 1_000, Some("worker-1"));
    let later = generate_snowflake(EPOCH_MS + 1_001, Some("a"));
    assert!(earlier < later);
    let now = 1_760_000_000_000u64;
    assert!(generate_snowflake(now, None) < generate_snowflake(now + 1, Some("foobar")));
}

#[test]
fn decimal_rendering() {
    assert_eq!(u64_to_decimal(0), "0");
    assert_eq!(u64_to_decimal(7), "7");
    assert_eq!(u64_to_decimal(1234567890), "1234567890");
    assert_eq!(u64_to_decimal(u64::MAX), u64::MAX.to_string());
    assert_eq!(u64_to_decimal(4196392960), "4196392960");
}
