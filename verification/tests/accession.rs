use sec_parsers::accession::decode_accession;
use sec_parsers::batch::decode_accession_batch;

#[test]
fn decode_valid_accession() {
    let d = decode_accession("0000320193-24-000081").unwrap();
    assert_eq!(d.filer, "0000320193");
    assert_eq!(d.year, 24);
    assert_eq!(d.sequence, 81);
}

#[test]
fn decode_preserves_leading_zeros() {
    let d = decode_accession("0000000001-05-000001").unwrap();
    assert_eq!(d.filer, "0000000001");
    assert_eq!(d.year, 5);
    assert_eq!(d.sequence, 1);
}

#[test]
fn decode_wrong_separator() {
    assert!(decode_accession("0000320193_24-000081").is_none());
    assert!(decode_accession("0000320193-24_000081").is_none());
}

#[test]
fn decode_wrong_length() {
    assert!(decode_accession("320193-24-000081").is_none());
    assert!(decode_accession("0000320193-24-0000811").is_none());
    assert!(decode_accession("").is_none());
}

#[test]
fn decode_non_digit() {
    assert!(decode_accession("00003201a3-24-000081").is_none());
    assert!(decode_accession("0000320193-2x-000081").is_none());
    assert!(decode_accession("0000320193-24-00008x").is_none());
}

#[test]
fn decode_extreme_fields() {
    let d = decode_accession("9999999999-99-999999").unwrap();
    assert_eq!(d.filer, "9999999999");
    assert_eq!(d.year, 99);
    assert_eq!(d.sequence, 999999);
    let d = decode_accession("0000000000-00-000000").unwrap();
    assert_eq!(d.filer, "0000000000");
    assert_eq!(d.year, 0);
    assert_eq!(d.sequence, 0);
}

#[test]
fn decode_batch_matches_scalar() {
    let inputs = vec![
        String::from("0000320193-24-000081"),
        String::from("0000320193_24-000081"),
        String::from("320193-24-000081"),
        String::from("0001018724-23-000012"),
    ];
    let batch = decode_accession_batch(inputs.clone());
    assert_eq!(batch.len(), inputs.len());
    for (input, out) in inputs.iter().zip(batch.iter()) {
        let scalar = decode_accession(input);
        match (scalar, out) {
            (None, None) => {}
            (Some(a), Some(b)) => {
                assert_eq!(a.filer, b.filer);
                assert_eq!(a.year, b.year);
                assert_eq!(a.sequence, b.sequence);
            }
            _ => panic!("batch result differs from scalar result"),
        }
    }
    assert!(batch[0].is_some());
    assert!(batch[1].is_none());
    assert!(batch[2].is_none());
    assert!(batch[3].is_some());
}
