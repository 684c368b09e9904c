//! The device's prover: the size of the puzzle it proves, the round of
//! proofs it makes per block, and the window of totals it reports rates
//! from.

use vstd::prelude::*;
use vstd::arithmetic::power2::pow2;
use std::collections::VecDeque;

verus! {

broadcast use vstd::std_specs::vecdeque::group_vec_dequeue_axioms;

/// How many samples of the proof total the prover keeps.
pub const STATUS_LOG_LEN: usize = 60;

/// The windows, in minutes, that rates are reported over.
pub open spec fn rate_windows() -> Seq<u32> {
    seq![1u32, 5, 15, 30, 60]
}

/// A reported rate: over a window of `minutes`, the proofs made in it
/// (`delta`); the rate per second is `delta / (minutes * 60)`.
#[derive(Debug, PartialEq, Eq, Structural)]
pub struct RateSample {
    pub minutes: u32,
    pub delta: u32,
}

/// The samples reported after a total of `new` with the window `log`: for
/// each window of `m` minutes, `new` less the sample at position `m - 1`.
pub open spec fn rate_samples(log: Seq<u32>, new: u32) -> Seq<RateSample> {
    rate_windows().map_values(
        |m: u32| RateSample { minutes: m, delta: (new - log[m - 1]) as u32 },
    )
}

/// Each sample is at most the next one.
pub open spec fn non_decreasing(s: Seq<u32>) -> bool {
    forall|i: int, j: int| 0 <= i <= j < s.len() ==> s[i] <= s[j]
}

/// The prover's plain values: the window of proof totals, the puzzle
/// degree, and how many proofs make up one block.
#[derive(Clone)]
pub struct Prover {
    status_log: VecDeque<u32>,
    degree: u32,
    prove_count_per_block: u32,
}

/// The rounds of proofs for one block: how many are needed and how many
/// were made.
pub struct ProveRound {
    target: u32,
    done: u32,
}

impl Prover {
    /// The window holds `STATUS_LOG_LEN` totals, oldest first, never falling.
    pub open spec fn wf(&self) -> bool {
        &&& self.log().len() == STATUS_LOG_LEN
        &&& non_decreasing(self.log())
    }

    /// The window of totals, oldest first.
    pub closed spec fn log(&self) -> Seq<u32> {
        self.status_log@
    }

    /// The puzzle degree.
    pub closed spec fn spec_degree(&self) -> u32 {
        self.degree
    }

    /// The proofs per block.
    pub closed spec fn spec_count(&self) -> u32 {
        self.prove_count_per_block
    }

    /// The puzzle degree for `exponent`: two to that power.
    pub fn puzzle_degree(exponent: u32) -> (d: u32)
        requires
            exponent < 32,
        ensures
            d == pow2(exponent as nat),
    {
        let mut d: u32 = 1;
        let mut i: u32 = 0;
        proof {
            vstd::arithmetic::power2::lemma_pow2(0);
            vstd::arithmetic::power::lemma_pow0(2);
        }
        while i < exponent
            invariant
                i <= exponent < 32,
                d == pow2(i as nat),
            decreases exponent - i,
        {
            proof {
                vstd::arithmetic::power2::lemma_pow2_unfold((i + 1) as nat);
                vstd::arithmetic::power2::lemma_pow2_strictly_increases((i + 1) as nat, 32);
                vstd::arithmetic::power2::lemma2_to64();
            }
            d = d * 2;
            i = i + 1;
        }
        d
    }

    /// A prover of `prove_count_per_block` proofs per block on a puzzle of
    /// degree two to the `degree_prove`, with a window of zero totals.
    pub fn new(prove_count_per_block: u32, degree_prove: u32) -> (p: Prover)
        requires
            degree_prove < 32,
        ensures
            p.wf(),
            p.log() == Seq::new(STATUS_LOG_LEN as nat, |i: int| 0u32),
            p.spec_degree() == pow2(degree_prove as nat),
            p.spec_count() == prove_count_per_block,
    {
        let mut status_log: VecDeque<u32> = VecDeque::new();
        let mut i: usize = 0;
        while i < STATUS_LOG_LEN
            invariant
                i <= STATUS_LOG_LEN,
                status_log@ == Seq::new(i as nat, |j: int| 0u32),
            decreases STATUS_LOG_LEN - i,
        {
            status_log.push_back(0);
            i = i + 1;
            assert(status_log@ =~= Seq::new(i as nat, |j: int| 0u32));
        }
        let degree = Prover::puzzle_degree(degree_prove);
        Prover { status_log, degree, prove_count_per_block }
    }

    /// The puzzle degree.
    pub fn degree(&self) -> (d: u32)
        ensures
            d == self.spec_degree(),
    {
        self.degree
    }

    /// The proofs per block.
    pub fn prove_count_per_block(&self) -> (c: u32)
        ensures
            c == self.spec_count(),
    {
        self.prove_count_per_block
    }

    /// The latest total in the window.
    pub fn latest_total(&self) -> (t: u32)
        requires
            self.wf(),
        ensures
            t == self.log().last(),
    {
        self.status_log[STATUS_LOG_LEN - 1]
    }

    /// Takes the proof total `new`: the oldest sample leaves the window and
    /// `new` enters it; the proofs made over each reporting window are
    /// returned.
    pub fn status_prove_shares(&mut self, new: u32) -> (r: Vec<RateSample>)
        requires
            old(self).wf(),
            old(self).log().last() <= new,
        ensures
            final(self).wf(),
            final(self).log() == old(self).log().drop_first().push(new),
            final(self).spec_degree() == old(self).spec_degree(),
            final(self).spec_count() == old(self).spec_count(),
            r@ == rate_samples(final(self).log(), new),
    {
        let ghost old_log = self.status_log@;
        let _ = self.status_log.pop_front();
        self.status_log.push_back(new);
        let ghost log = self.status_log@;
        assert(log =~= old_log.drop_first().push(new));
        assert(non_decreasing(log)) by {
            assert forall|i: int, j: int| 0 <= i <= j < log.len() implies log[i] <= log[j] by {
                if j < log.len() - 1 {
                    assert(log[i] == old_log[i + 1]);
                    assert(log[j] == old_log[j + 1]);
                } else {
                    assert(log[i] <= old_log.last() || i == j);
                }
            }
        }
        let mut r: Vec<RateSample> = Vec::new();
        let mut k: usize = 0;
        while k < 5
            invariant
                k <= 5,
                self.status_log@ == log,
                log.len() == STATUS_LOG_LEN,
                non_decreasing(log),
                log.last() == new,
                r@ =~= rate_samples(log, new).take(k as int),
            decreases 5 - k,
        {
            let minutes: u32 = if k == 0 {
                1
            } else if k == 1 {
                5
            } else if k == 2 {
                15
            } else if k == 3 {
                30
            } else {
                60
            };
            assert(minutes == rate_windows()[k as int]);
            let old_total = self.status_log[(minutes - 1) as usize];
            assert(old_total <= new);
            r.push(RateSample { minutes, delta: new - old_total });
            k = k + 1;
        }
        r
    }

    /// The round of proofs for the next block.
    pub fn next_prove(&self) -> (round: ProveRound)
        ensures
            round.spec_target() == self.spec_count(),
            round.spec_done() == 0,
    {
        ProveRound { target: self.prove_count_per_block, done: 0 }
    }
}

impl ProveRound {
    /// The proofs needed.
    pub closed spec fn spec_target(&self) -> u32 {
        self.target
    }

    /// The proofs made.
    pub closed spec fn spec_done(&self) -> u32 {
        self.done
    }

    /// The round needs no more proofs.
    pub open spec fn spec_complete(&self) -> bool {
        self.spec_done() >= self.spec_target()
    }

    /// The round needs no more proofs.
    pub fn is_complete(&self) -> (b: bool)
        ensures
            b == self.spec_complete(),
    {
        self.done >= self.target
    }

    /// Takes one attempt: a proof that was found counts, a failed one does not.
    pub fn record_attempt(&mut self, solved: bool)
        requires
            !old(self).spec_complete(),
        ensures
            final(self).spec_target() == old(self).spec_target(),
            final(self).spec_done() == old(self).spec_done() + (if solved {
                1int
            } else {
                0int
            }),
    {
        if solved {
            self.done = self.done + 1;
        }
    }
}


/// The proofs reported over each window are the full difference between the
/// new total and the window's sample `minutes - 1` places from the oldest:
/// for the windows of 1, 5, 15, 30 and 60 minutes, in that order, with
/// nothing dropped from the difference.
pub proof fn law_rate_samples_exact(log: Seq<u32>, new: u32)
    requires
        log.len() == STATUS_LOG_LEN,
        forall|i: int| 0 <= i < log.len() ==> log[i] <= new,
    ensures
        rate_samples(log, new).len() == 5,
        rate_samples(log, new)[0].minutes == 1,
        rate_samples(log, new)[0].delta as int == new as int - log[0] as int,
        rate_samples(log, new)[1].minutes == 5,
        rate_samples(log, new)[1].delta as int == new as int - log[4] as int,
        rate_samples(log, new)[2].minutes == 15,
        rate_samples(log, new)[2].delta as int == new as int - log[14] as int,
        rate_samples(log, new)[3].minutes == 30,
        rate_samples(log, new)[3].delta as int == new as int - log[29] as int,
        rate_samples(log, new)[4].minutes == 60,
        rate_samples(log, new)[4].delta as int == new as int - log[59] as int,
{
    assert(log[0] <= new && log[4] <= new && log[14] <= new && log[29] <= new && log[59] <= new);
}

} // verus!
