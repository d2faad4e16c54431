use rig_cat::embedding::{Embedding, EmbeddingRequest};
use rig_cat::error::Error;

fn bits(v: &[f64]) -> Vec<u64> {
    v.iter().map(|x| x.to_bits()).collect()
}

#[test]
fn dimension_mismatch_returns_error() {
    let a = Embedding::new(bits(&[1.0, 0.0]));
    let b = Embedding::new(bits(&[1.0, 0.0, 0.0]));
    assert!(a.check_dimension(&b).is_err());
}

#[test]
fn dimension_mismatch_reports_both_dimensions() {
    let a = Embedding::new(bits(&[1.0, 0.0]));
    let b = Embedding::new(bits(&[1.0, 0.0, 0.0]));
    match a.check_dimension(&b) {
        Err(Error::DimensionMismatch { expected, got }) => {
            assert_eq!(expected, 2);
            assert_eq!(got, 3);
        }
        other => panic!("unexpected {:?}", other),
    }
    assert!(a.check_dimension(&Embedding::new(bits(&[0.5, 0.5]))).is_ok());
}

#[test]
fn embedding_accessors() {
    let a = Embedding::new(bits(&[1.5, -2.0]));
    assert_eq!(a.dimension(), 2);
    assert_eq!(f64::from_bits(a.values()[1]), -2.0);
    assert_eq!(a.duplicate().values(), a.values());
}

#[test]
fn embedding_request_single_and_many() {
    let one = EmbeddingRequest::single("q".into());
    assert_eq!(one.texts().len(), 1);
    assert_eq!(one.texts()[0], "q");
    let many = EmbeddingRequest::new(vec!["a".into(), "b".into()]);
    assert_eq!(many.texts(), &["a".to_string(), "b".to_string()]);
}
