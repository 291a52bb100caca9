use crustyring::error::Result;
use crustyring::error::Error;
use crustyring::hash::{
    generate_hash64, generate_id_hash, generate_id_hash_at, generate_salted_hash, salt_from_clock,
    salt_of_reading,
};

#[test]
fn test_generate_hash64() -> Result<()> {
    let key = "key".to_owned();
    let hash = generate_hash64(key.as_bytes())?;
    let hash_retry = generate_hash64(key.as_bytes())?;

    assert_eq!(hash, hash_retry);
    Ok(())
}

#[test]
fn test_generate_id_hash() -> Result<()> {
    let id: u64 = 69;
    let hash = generate_id_hash(id)?;
    let hash_retry = generate_id_hash(id)?;

    assert_ne!(hash, hash_retry);
    Ok(())
}

#[test]
fn hash64_is_the_leading_eight_bytes_of_the_digest() {
    assert_eq!(generate_hash64(b"hello world").unwrap(), 0xb94d27b9934d3e08);
    assert_eq!(generate_hash64(b"key").unwrap(), 0x2c70e12b7a0646f9);
    assert_eq!(generate_hash64(b"a").unwrap(), 0xca978112ca1bbdca);
}

#[test]
fn hash64_of_the_empty_input() {
    assert_eq!(generate_hash64(b"").unwrap(), 0xe3b0c44298fc1c14);
}

#[test]
fn hash64_tells_inputs_apart() {
    assert_ne!(generate_hash64(b"a").unwrap(), generate_hash64(b"b").unwrap());
}

#[test]
fn id_hash_at_a_given_time() {
    assert_eq!(generate_id_hash_at(69, 1).unwrap(), 0x6cbfe0c25c655491);
}

#[test]
fn id_hash_changes_with_the_salt() {
    assert_ne!(generate_id_hash_at(69, 1).unwrap(), generate_id_hash_at(69, 2).unwrap());
}

#[test]
fn salted_hash_joins_label_and_time_with_an_underscore() {
    assert_eq!(
        generate_salted_hash("http://0.0.0.0:50001", 1000).unwrap(),
        0x833d2c706a4c1d02
    );
    assert_eq!(generate_salted_hash("node-a", 7).unwrap(), 0x98dbc4514921dc0e);
    assert_eq!(
        generate_salted_hash("69", 1).unwrap(),
        generate_id_hash_at(69, 1).unwrap()
    );
}

#[test]
fn clock_reads_a_time_after_the_epoch() {
    let salt = salt_from_clock().unwrap();
    assert!(salt > 0);
}

#[test]
fn salt_is_the_reading_of_the_clock() {
    assert_eq!(salt_of_reading(Some(0)).unwrap(), 0);
    assert_eq!(
        salt_of_reading(Some(1_700_000_000_000_000_000)).unwrap(),
        1_700_000_000_000_000_000
    );
    assert_eq!(salt_of_reading(Some(u128::MAX)).unwrap(), u128::MAX);
}

#[test]
fn clock_before_the_epoch_is_an_internal_failure() {
    let failure = salt_of_reading(None).unwrap_err();
    assert!(matches!(failure, Error::Internal(_)));
    assert_eq!(failure.to_string(), "System clock is set before the Unix epoch.");
}
