use sec_parsers::batch::hash_content_batch;
use sec_parsers::fingerprint::fnv1a_hash;

#[test]
fn reference_hash_values() {
    assert_eq!(fnv1a_hash(b""), 0xCBF29CE484222325);
    assert_eq!(fnv1a_hash(b"a"), 0xAF63DC4C8601EC8C);
    assert_eq!(fnv1a_hash(b"foobar"), 0x85944171F73967E8);
}

#[test]
fn equal_content_equal_hash() {
    let x = vec![1u8, 2, 3, 4];
    let y = vec![1u8, 2, 3, 4];
    assert_eq!(fnv1a_hash(&x), fnv1a_hash(&y));
}

#[test]
fn batch_hash_matches_scalar() {
    let inputs = vec![
        String::new(),
        String::from("a"),
        String::from("foobar"),
        String::from("some longer document body\nwith two lines"),
    ];
    let batch = hash_content_batch(inputs.clone());
    assert_eq!(batch.len(), inputs.len());
    for (input, h) in inputs.iter().zip(batch.iter()) {
        assert_eq!(*h, fnv1a_hash(input.as_bytes()));
    }
    assert_eq!(batch[0], 0xCBF29CE484222325);
    assert_eq!(batch[1], 0xAF63DC4C8601EC8C);
    assert_eq!(batch[2], 0x85944171F73967E8);
}
