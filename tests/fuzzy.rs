use zk_smarthome::error::ZkError;
use zk_smarthome::fuzzyextractor::FuzzyExtractor;

#[test]
fn bind_is_bytewise_addition_mod_256() {
    let fe = FuzzyExtractor::new();
    assert_eq!(fe.bind(&[250, 1, 0], &[10, 2, 255]), vec![4, 3, 255]);
}

#[test]
fn reproduce_is_bytewise_subtraction_mod_256() {
    let fe = FuzzyExtractor::new();
    assert_eq!(fe.reproduce(&[250, 1, 0], &[4, 3, 255]), Ok(vec![10, 2, 255]));
}

#[test]
fn reproduce_recovers_generated_secret() {
    let fe = FuzzyExtractor::new();
    let sample: Vec<u8> = (0..16u8).map(|i| i.wrapping_mul(37).wrapping_add(200)).collect();
    for _ in 0..20 {
        let (secret, helper) = fe.generate(&sample);
        assert_eq!(secret.len(), sample.len());
        assert!(secret.iter().all(|b| *b <= 177));
        assert_eq!(fe.reproduce(&sample, &helper), Ok(secret));
    }
}

#[test]
fn independent_generations_differ() {
    let fe = FuzzyExtractor::new();
    let sample = vec![9u8; 16];
    let (s1, h1) = fe.generate(&sample);
    let (s2, _h2) = fe.generate(&sample);
    assert_ne!(s1, s2);
    assert_ne!(fe.reproduce(&sample, &h1), Ok(s2));
}

#[test]
fn reproduce_rejects_length_mismatch() {
    let fe = FuzzyExtractor::new();
    assert_eq!(fe.reproduce(&[1, 2, 3], &[1, 2]), Err(ZkError::LengthMismatch));
}

#[test]
fn empty_sample() {
    let fe = FuzzyExtractor::new();
    let (secret, helper) = fe.generate(&[]);
    assert!(secret.is_empty());
    assert!(helper.is_empty());
    assert_eq!(fe.reproduce(&[], &helper), Ok(vec![]));
}
