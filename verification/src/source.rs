//! Reward sources: the arms the agent chooses among.

use vstd::prelude::*;

verus! {

/// One stochastic reward source. Its fixed distribution parameters are real
/// numbers, held as the 64-bit encodings of their binary64 values so that two
/// sources are the same key exactly when both parameters are bit-identical.
///
/// The source's reward is one standard-normal draw `z` plus
/// `mean * std_dev`; drawing happens at the caller's boundary and the
/// observed encoding is handed to the agent.
#[derive(PartialEq, Eq, Structural, Hash, Clone, Copy, Debug)]
pub struct RewardSource {
    /// Encoding of the distribution's mean parameter.
    pub mean_bits: u64,
    /// Encoding of the distribution's standard-deviation parameter.
    pub std_dev_bits: u64,
}

impl RewardSource {
    /// Builds a source holding the two parameter encodings exactly as given;
    /// no validation is applied to the standard deviation's sign.
    pub fn new(mean_bits: u64, std_dev_bits: u64) -> (s: Self)
        ensures
            s.mean_bits == mean_bits,
            s.std_dev_bits == std_dev_bits,
    {
        RewardSource { mean_bits, std_dev_bits }
    }

    /// The encoding of the mean parameter.
    pub fn mean_bits(&self) -> (r: u64)
        ensures
            r == self.mean_bits,
    {
        self.mean_bits
    }

    /// The encoding of the standard-deviation parameter.
    pub fn std_dev_bits(&self) -> (r: u64)
        ensures
            r == self.std_dev_bits,
    {
        self.std_dev_bits
    }
}

/// Two sources are equal exactly when their parameter encodings are
/// bit-identical, so sources with differing parameters never collide as keys.
pub proof fn lemma_source_identity(a: RewardSource, b: RewardSource)
    ensures
        (a == b) <==> (a.mean_bits == b.mean_bits && a.std_dev_bits == b.std_dev_bits),
{
}

} // verus!
