use rig_cat::ranking::{rank_indices, score_less};

#[test]
fn score_less_follows_float_less_than() {
    let cases = [0.0f64, -0.0, 1.0, -1.0, 0.5, f64::INFINITY, f64::NEG_INFINITY, f64::NAN, 1e-300, -1e300];
    for a in cases {
        for b in cases {
            assert_eq!(score_less(a.to_bits(), b.to_bits()), a < b, "{a} < {b}");
        }
    }
}

#[test]
fn rank_indices_is_stable_and_cut() {
    let scores: Vec<u64> = [0.3f64, 0.9, 0.3, 0.1, 0.9].iter().map(|x| x.to_bits()).collect();
    assert_eq!(rank_indices(&scores, 10), vec![1, 4, 0, 2, 3]);
    assert_eq!(rank_indices(&scores, 2), vec![1, 4]);
    assert_eq!(rank_indices(&scores, 0), Vec::<usize>::new());
    assert_eq!(rank_indices(&Vec::new(), 3), Vec::<usize>::new());
}
