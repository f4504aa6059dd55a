use bandit_agent::fbits;
use bandit_agent::source::RewardSource;

#[test]
fn ordering_matches_ieee_comparison() {
    let vals: [f64; 20] = [
        0.0,
        -0.0,
        1.0,
        -1.0,
        1.5,
        -1.5,
        2.0,
        0.5,
        7.25,
        -7.25,
        f64::INFINITY,
        f64::NEG_INFINITY,
        f64::NAN,
        -f64::NAN,
        f64::MIN_POSITIVE,
        -f64::MIN_POSITIVE,
        5e-324,
        -5e-324,
        1e308,
        -1e308,
    ];
    for &a in &vals {
        for &b in &vals {
            assert_eq!(
                fbits::gt_exec(a.to_bits(), b.to_bits()),
                a > b,
                "ordering of encodings disagrees with > on {} vs {}",
                a,
                b
            );
        }
    }
}

#[test]
fn sources_equal_and_hash_by_bits() {
    let a = RewardSource::new(2.0f64.to_bits(), 3.0f64.to_bits());
    let b = RewardSource::new(2.0f64.to_bits(), 3.0f64.to_bits());
    let c = RewardSource::new(2.0f64.to_bits(), 4.0f64.to_bits());
    assert_eq!(a, b);
    assert_ne!(a, c);
    assert_eq!(a.mean_bits(), 2.0f64.to_bits());
    assert_eq!(a.std_dev_bits(), 3.0f64.to_bits());

    let mut keyed = std::collections::HashMap::new();
    keyed.insert(a, 1u32);
    keyed.insert(b, 2u32);
    assert_eq!(keyed.len(), 1);
    assert_eq!(keyed[&a], 2);
    keyed.insert(c, 3u32);
    assert_eq!(keyed.len(), 2);

    // identity is bit-exact: the two zero encodings are distinct keys
    let plus = RewardSource::new(0.0f64.to_bits(), 1.0f64.to_bits());
    let minus = RewardSource::new((-0.0f64).to_bits(), 1.0f64.to_bits());
    assert_ne!(plus, minus);
}
