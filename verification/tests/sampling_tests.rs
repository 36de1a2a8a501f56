use mptgen::sampling::{
    apply_cfg, greedy, BasicSampler, Mirostat, Sampler, DEFAULT_TARGET_SURPRISE, SCALE_ONE,
};

const ONE: i64 = SCALE_ONE;

#[test]
fn greedy_picks_the_maximum() {
    assert_eq!(greedy(&vec![-5, 3, 10, 2]), 2);
    assert_eq!(greedy(&vec![7]), 0);
    assert_eq!(greedy(&vec![-3, -1, -2]), 1);
}

#[test]
fn greedy_breaks_ties_by_first_occurrence() {
    assert_eq!(greedy(&vec![1, 9, 9, 9]), 1);
    assert_eq!(greedy(&vec![4, 4]), 0);
}

#[test]
fn cfg_at_scale_one_is_identity() {
    let pos = vec![3 * ONE, -2 * ONE, 12345, 0];
    let neg = vec![-7 * ONE, 5 * ONE, 99, 100];
    let out = apply_cfg(ONE, &pos, &neg).unwrap();
    assert_eq!(out, pos);
}

#[test]
fn cfg_mismatched_lengths_fail() {
    let pos = vec![ONE, ONE];
    let neg = vec![ONE];
    assert!(apply_cfg(ONE, &pos, &neg).is_none());
    assert!(apply_cfg(ONE, &neg, &pos).is_none());
}

#[test]
fn cfg_blends_elementwise() {
    // scale 2: guided = n + 2 * (p - n) = 2p - n, exactly in fixed point.
    let pos = vec![ONE, 0];
    let neg = vec![0, ONE];
    let out = apply_cfg(2 * ONE, &pos, &neg).unwrap();
    assert_eq!(out, vec![2 * ONE, -ONE]);
    // scale 0: guided = n.
    let out = apply_cfg(0, &pos, &neg).unwrap();
    assert_eq!(out, neg);
    // scale 1/2: guided = n + (p - n) / 2, rounded toward negative infinity.
    let out = apply_cfg(ONE / 2, &vec![ONE], &vec![0]).unwrap();
    assert_eq!(out, vec![ONE / 2]);
}

#[test]
fn basic_sampler_temperature_zero_is_greedy() {
    let s = BasicSampler { temperature: Some(0) };
    let scores = vec![2, 9, 9, 1];
    // The categorical weights point elsewhere; a zero temperature must not
    // consult them.
    let weights = vec![1000, 0, 0, 0];
    assert_eq!(s.sample(&scores, &weights), Some(1));
    assert_eq!(s.sample(&scores, &weights), Some(1));
}

#[test]
fn basic_sampler_draws_a_positive_weight() {
    let s = BasicSampler { temperature: None };
    let scores = vec![0, 0, 0];
    let weights = vec![0, 17, 0];
    assert_eq!(s.sample(&scores, &weights), Some(1));
}

#[test]
fn basic_sampler_all_zero_weights_yield_nothing() {
    let s = BasicSampler { temperature: Some(ONE) };
    assert_eq!(s.sample(&vec![1, 2], &vec![0, 0]), None);
}

#[test]
fn default_basic_sampler_has_no_temperature() {
    assert_eq!(BasicSampler::default().temperature, None);
}

#[test]
fn sampler_dispatches_to_each_strategy() {
    let scores = vec![1, 8, 3];
    let weights = vec![0, 0, 9];
    let surprises = vec![0, 0, 0];

    let mut s = Sampler::Greedy;
    assert_eq!(s.sample(&scores, &weights, &surprises, 0), Some(1));

    let mut s = Sampler::Basic(BasicSampler { temperature: Some(0) });
    assert_eq!(s.sample(&scores, &weights, &surprises, 0), Some(1));

    let mut s = Sampler::Basic(BasicSampler { temperature: None });
    assert_eq!(s.sample(&scores, &weights, &surprises, 0), Some(2));

    // Mirostat with a cutoff estimate covering every candidate draws the
    // one positive weight.
    let mut s = Sampler::Mirostat(Mirostat::new());
    assert_eq!(s.sample(&scores, &weights, &surprises, 99), Some(2));
}

#[test]
fn mirostat_defaults() {
    let m = Mirostat::new();
    assert_eq!(m.lr, ONE);
    assert_eq!(m.target_surprise, DEFAULT_TARGET_SURPRISE);
    assert_eq!(m.max_surprise, 2 * DEFAULT_TARGET_SURPRISE);
    assert_eq!(m.m, 100);
}

#[test]
fn mirostat_builders_replace_fields() {
    let m = Mirostat::new().lr(ONE / 2).target_surprise(5 * ONE);
    assert_eq!(m.lr, ONE / 2);
    assert_eq!(m.target_surprise, 5 * ONE);
    assert_eq!(m.max_surprise, 10 * ONE);
}

#[test]
fn mirostat_update_moves_against_the_error() {
    let mut m = Mirostat::new().lr(ONE).target_surprise(2 * ONE);
    assert_eq!(m.max_surprise, 4 * ONE);
    // observed - target = 3, lr = 1: the estimate drops by exactly 3.
    m.update(5 * ONE);
    assert_eq!(m.max_surprise, ONE);
    // observed - target = -2: the estimate rises by exactly 2.
    m.update(0);
    assert_eq!(m.max_surprise, 3 * ONE);
}

#[test]
fn mirostat_converges_to_the_target_surprise() {
    // A stationary synthetic distribution whose realized surprise sits at
    // the controller's current estimate: the feedback loop must drive the
    // estimate, and with it the running average of realized surprise,
    // toward the target.
    let mut m = Mirostat::new().lr(ONE / 4).target_surprise(DEFAULT_TARGET_SURPRISE);
    let target = m.target_surprise;
    let mut observed_sum: i64 = 0;
    let rounds: i64 = 200;
    for _ in 0..rounds {
        let observed = m.max_surprise;
        observed_sum += observed;
        m.update(observed);
    }
    assert!((m.max_surprise - target).abs() <= 8);
    let avg = observed_sum / rounds;
    // The early iterations start at twice the target; the running average
    // still lands within three percent of it.
    assert!((avg - target).abs() <= target / 33);
}

#[test]
fn mirostat_sample_stays_in_the_cutoff() {
    let mut m = Mirostat::new().lr(ONE).target_surprise(2 * ONE);
    let scores = vec![10, 30, 20, 40];
    // Cutoff estimate 1 keeps the top 2 candidates (indices 3 and 1); only
    // index 1 carries weight, so the draw must land there.
    let weights = vec![5, 5, 5, 0];
    let surprises = vec![ONE, 3 * ONE, ONE, ONE];
    let before = m.max_surprise;
    let got = m.sample(&scores, &weights, &surprises, 1);
    assert_eq!(got, Some(1));
    // The realized surprise of candidate 1 is one above target: lr 1 drops
    // the estimate by exactly one.
    assert_eq!(m.max_surprise, before - ONE);
}

#[test]
fn mirostat_sample_draws_whenever_the_cutoff_has_weight() {
    // With every weight positive, the truncated candidate set always
    // carries weight, so a draw is owed whatever the randomness source.
    let mut m = Mirostat::new();
    let scores = vec![5, 1, 9, 3];
    let weights = vec![7, 7, 7, 7];
    let surprises = vec![0, 0, 0, 0];
    assert!(m.sample(&scores, &weights, &surprises, 0).is_some());
    assert!(m.sample(&scores, &weights, &surprises, 3).is_some());
}

#[test]
fn sampler_mirostat_and_basic_owe_draws_alike() {
    let scores = vec![1, 8, 3];
    let surprises = vec![0, 0, 0];
    let mut s = Sampler::Mirostat(Mirostat::new());
    assert!(s.sample(&scores, &vec![2, 2, 2], &surprises, 99).is_some());
    let mut s = Sampler::Basic(BasicSampler { temperature: Some(SCALE_ONE) });
    assert_eq!(s.sample(&scores, &vec![0, 0, 0], &surprises, 0), None);
    assert!(s.sample(&scores, &vec![1, 1, 1], &surprises, 0).is_some());
}

#[test]
fn mirostat_sample_without_surviving_weight_yields_nothing() {
    let mut m = Mirostat::new();
    let scores = vec![10, 30, 20, 40];
    // Only a candidate outside the top-2 cutoff carries weight.
    let weights = vec![9, 0, 0, 0];
    let surprises = vec![0, 0, 0, 0];
    let before = m.max_surprise;
    assert_eq!(m.sample(&scores, &weights, &surprises, 1), None);
    assert_eq!(m.max_surprise, before);
}
