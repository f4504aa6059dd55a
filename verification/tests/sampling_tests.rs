use bandit_agent::agent::Agent;
use bandit_agent::source::RewardSource;
use rand::rngs::StdRng;
use rand::SeedableRng;
use rand_distr::{Distribution, StandardNormal};

/// One observed reward of a source: a standard-normal draw `z` plus
/// `mean * std_dev`, the coupling the agent's model prescribes.
fn sample_reward(source: &RewardSource, rng: &mut StdRng) -> f64 {
    let z: f64 = StandardNormal.sample(rng);
    z + f64::from_bits(source.mean_bits) * f64::from_bits(source.std_dev_bits)
}

#[test]
fn base_variate_mean_and_variance() {
    let source = RewardSource::new(0.0f64.to_bits(), 1.0f64.to_bits());
    let mut rng = StdRng::seed_from_u64(7);
    let n = 10_000;
    let mut sum = 0.0f64;
    let mut sum_sq = 0.0f64;
    for _ in 0..n {
        let reward = sample_reward(&source, &mut rng);
        sum += reward;
        sum_sq += reward * reward;
    }
    let mean = sum / n as f64;
    let variance = sum_sq / n as f64 - mean * mean;
    assert!(mean.abs() < 0.1, "sample mean {} too far from 0", mean);
    assert!(
        (variance - 1.0).abs() < 0.1,
        "sample variance {} too far from 1",
        variance
    );
}

#[test]
fn end_to_end_single_step() {
    let sources: Vec<RewardSource> = [(0.0, 7.0), (2.0, 3.0), (4.0, 2.0), (5.0, 0.0), (4.0, 13.0)]
        .iter()
        .map(|&(m, s): &(f64, f64)| RewardSource::new(m.to_bits(), s.to_bits()))
        .collect();
    let mut agent = Agent::new(&sources).unwrap();
    let mut rng = StdRng::seed_from_u64(11);

    let chosen = agent.select_best();
    let reward = sample_reward(&chosen, &mut rng);
    assert!(reward != 0.0);
    let returned = agent.observe_and_learn(reward.to_bits());
    assert_eq!(returned, chosen);

    assert_eq!(agent.action_count, 1);
    let score: f64 = agent.rewards.iter().map(|&b| f64::from_bits(b)).sum();
    assert!(score.is_finite());
    assert_eq!(score, reward);

    let moved = agent
        .estimates
        .iter()
        .filter(|&&e| e != 0.0f64.to_bits())
        .count();
    assert_eq!(moved, 1);
    assert_eq!(agent.estimates[0], reward.to_bits());
    for k in 1..5 {
        assert_eq!(agent.estimates[k], 0.0f64.to_bits());
    }
}
