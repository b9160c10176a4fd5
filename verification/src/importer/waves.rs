//! Sharing the rows of a workflow among the providers, wave by wave.
use crate::importer::budget::capped_sum;
use crate::number::{decimal, push_decimal};
use vstd::arithmetic::div_mod::{lemma_fundamental_div_mod, lemma_mod_bound};
use vstd::prelude::*;
use vstd::string::*;

verus! {

/// The share of one of several consumers: the same for all, and one more for the
/// first few where something is left over.
pub open spec fn share(total: u64, consumers: nat, index: int) -> nat {
    let base = total as nat / consumers;
    if index < total as nat % consumers {
        base + 1
    } else {
        base
    }
}

/// The shares of all consumers.
pub open spec fn shares(total: u64, consumers: nat) -> Seq<nat> {
    Seq::new(consumers, |i: int| share(total, consumers, i))
}

/// The sum of some numbers.
pub open spec fn sum(numbers: Seq<nat>) -> nat
    decreases numbers.len(),
{
    if numbers.len() == 0 {
        0
    } else {
        sum(numbers.drop_last()) + numbers.last()
    }
}

/// Machine numbers as mathematical ones.
pub open spec fn as_nats(numbers: Seq<u64>) -> Seq<nat> {
    numbers.map_values(|n: u64| n as nat)
}

/// Shares a total of rows fairly among a number of consumers.
pub fn fair_row_limits(total: u64, consumers: usize) -> (limits: Vec<u64>)
    ensures
        as_nats(limits@) == shares(total, consumers as nat),
        limits@.len() == consumers,
        forall|i: int|
            0 <= i < consumers ==> #[trigger] limits@[i] == share(total, consumers as nat, i),
{
    let mut limits: Vec<u64> = Vec::new();
    if consumers == 0 {
        assert(as_nats(limits@) =~= shares(total, 0));
        return limits;
    }
    let base: u64 = total / consumers as u64;
    let remainder: u64 = total % consumers as u64;
    proof {
        lemma_fundamental_div_mod(total as int, consumers as int);
        lemma_mod_bound(total as int, consumers as int);
    }
    let mut index: usize = 0;
    while index < consumers
        invariant
            index <= consumers,
            0 < consumers,
            base == total as nat / consumers as nat,
            remainder == total as nat % consumers as nat,
            remainder < consumers,
            total == consumers * base + remainder,
            limits@.len() == index,
            forall|k: int|
                0 <= k < index ==> #[trigger] limits@[k] == share(total, consumers as nat, k),
        decreases consumers - index,
    {
        if (index as u64) < remainder {
            assert(base < u64::MAX) by (nonlinear_arith)
                requires
                    remainder > 0,
                    0 < consumers,
                    total == consumers * base + remainder,
                    total <= u64::MAX,
            ;
            limits.push(base + 1);
        } else {
            limits.push(base);
        }
        index += 1;
    }
    assert(as_nats(limits@) =~= shares(total, consumers as nat));
    limits
}

proof fn lemma_sum_of_shares(total: u64, consumers: nat, count: nat)
    requires
        0 < consumers,
        count <= consumers,
    ensures
        sum(shares(total, consumers).take(count as int)) == count * (total as nat / consumers) + if count
            < total as nat % consumers {
            count
        } else {
            total as nat % consumers
        },
    decreases count,
{
    let all = shares(total, consumers);
    if count > 0 {
        lemma_sum_of_shares(total, consumers, (count - 1) as nat);
        assert(all.take(count as int).drop_last() =~= all.take(count - 1));
        let base = total as nat / consumers;
        assert(count * base == (count - 1) * base + base) by (nonlinear_arith)
            requires
                count > 0,
        ;
    } else {
        assert(all.take(0) =~= seq![]);
        assert(0 * (total as nat / consumers) == 0) by (nonlinear_arith);
    }
}

/// The shares are exact and balanced: they add up to the total, no two differ by
/// more than one, and a consumer that comes first does not get less.
pub proof fn law_shares_are_exact_and_balanced(total: u64, consumers: nat)
    requires
        0 < consumers,
    ensures
        sum(shares(total, consumers)) == total,
        forall|i: int, j: int|
            0 <= i <= j < consumers ==> shares(total, consumers)[j] <= #[trigger] shares(
                total,
                consumers,
            )[i] <= #[trigger] shares(total, consumers)[j] + 1,
{
    let all = shares(total, consumers);
    lemma_sum_of_shares(total, consumers, consumers);
    assert(all.take(consumers as int) =~= all);
    lemma_fundamental_div_mod(total as int, consumers as int);
    lemma_mod_bound(total as int, consumers as int);
    assert(consumers * (total as nat / consumers) == (total as nat / consumers) * consumers)
        by (nonlinear_arith);
}

// ---------------------------------------------------------------------------
// Waves
// ---------------------------------------------------------------------------
/// The rows of a workflow, as they are used wave by wave.
#[derive(Clone, Copy, Debug, PartialEq, Eq, Structural)]
pub struct Workflow {
    pub max_rows: u64,
    pub total_rows_processed: u64,
    pub remaining_budget: u64,
    pub wave: u64,
    pub has_error: bool,
    pub write_budget_exhausted: bool,
}

/// What one provider did in a wave.
#[derive(Clone, Copy, Debug)]
pub struct WaveResult {
    pub max_rows: u64,
    /// The rows it processed and whether it ran out of writes; `None` where it
    /// failed.
    pub processed: Option<(u64, bool)>,
}

/// The shares of a wave.
#[derive(Debug)]
pub struct WavePlan {
    /// The share of each provider, in the order of the providers.
    pub shares: Vec<u64>,
    /// The sum of the shares.
    pub allocated: u64,
}

impl WavePlan {
    /// Whether a provider waits for the next wave: this one has no row for it.
    pub fn is_put_off(&self, provider: usize) -> (waits: bool)
        requires
            provider < self.shares@.len(),
        ensures
            waits == (self.shares@[provider as int] == 0),
    {
        self.shares[provider] == 0
    }
}

/// What a wave came to.
#[derive(Clone, Copy, Debug, PartialEq, Eq, Structural)]
pub enum WaveStep {
    /// Another wave shares the rows that are left.
    Continue,
    /// The workflow is over.
    Stop,
}

/// The rows that some providers processed, none counted beyond its share.
pub open spec fn processed_rows(results: Seq<WaveResult>) -> int
    decreases results.len(),
{
    if results.len() == 0 {
        0
    } else {
        let front = processed_rows(results.drop_last());
        match results.last().processed {
            None => front,
            Some((rows, _)) => capped_sum(
                front,
                if rows < results.last().max_rows {
                    rows as int
                } else {
                    results.last().max_rows as int
                },
            ),
        }
    }
}

/// A provider failed, or took more rows than its share.
pub open spec fn has_failure(results: Seq<WaveResult>) -> bool {
    exists|i: int|
        0 <= i < results.len() && match (#[trigger] results[i]).processed {
            None => true,
            Some((rows, _)) => rows > results[i].max_rows,
        }
}

/// A provider ran out of writes.
pub open spec fn ran_out(results: Seq<WaveResult>) -> bool {
    exists|i: int|
        0 <= i < results.len() && match (#[trigger] results[i]).processed {
            None => false,
            Some((_, exhausted)) => exhausted,
        }
}

/// The workflow after a wave.
pub open spec fn after_wave(workflow: Workflow, results: Seq<WaveResult>) -> Workflow {
    let total = capped_sum(workflow.total_rows_processed as int, processed_rows(results)) as u64;
    Workflow {
        max_rows: workflow.max_rows,
        total_rows_processed: total,
        remaining_budget: if total > workflow.max_rows {
            0
        } else {
            (workflow.max_rows - total) as u64
        },
        wave: workflow.wave,
        has_error: workflow.has_error || has_failure(results),
        write_budget_exhausted: workflow.write_budget_exhausted || ran_out(results),
    }
}

/// Another wave is worth it: nothing failed, writes are left, and the providers
/// left rows of this wave to share again.
pub open spec fn goes_on(after: Workflow, results: Seq<WaveResult>, allocated: u64) -> bool {
    !after.has_error && !after.write_budget_exhausted && processed_rows(results) < allocated
}

proof fn lemma_processed_is_a_count(results: Seq<WaveResult>)
    ensures
        0 <= processed_rows(results) <= u64::MAX,
    decreases results.len(),
{
    if results.len() > 0 {
        lemma_processed_is_a_count(results.drop_last());
    }
}

/// The text of the error of a workflow with too few rows for its providers.
pub open spec fn too_few_rows_message(max_rows: u64, providers: nat) -> Seq<char> {
    "MAX_ROWS_PER_WORKFLOW="@ + decimal(max_rows as nat)
        + " cannot provide at least one row to each of the "@ + decimal(providers)
        + " providers with pending work"@
}

impl Workflow {
    /// The numbers belong together.
    pub open spec fn wf(&self) -> bool {
        &&& self.remaining_budget == if self.total_rows_processed > self.max_rows {
            0
        } else {
            self.max_rows - self.total_rows_processed
        }
    }

    /// A workflow before its first wave. Each provider must get at least one row. A
    /// provider that could not be prepared counts as an error of the workflow, but
    /// the first wave of the others runs.
    pub fn start(max_rows: u64, prepared: usize, has_error: bool) -> (workflow: Result<Workflow, String>)
        ensures
            match workflow {
                Ok(w) => max_rows >= prepared && w.wf() && w == (Workflow {
                    max_rows,
                    total_rows_processed: 0,
                    remaining_budget: max_rows,
                    wave: 1,
                    has_error,
                    write_budget_exhausted: false,
                }),
                Err(message) => max_rows < prepared && message@ == too_few_rows_message(
                    max_rows,
                    prepared as nat,
                ),
            },
    {
        if max_rows < prepared as u64 {
            let mut message = "MAX_ROWS_PER_WORKFLOW=".to_owned();
            push_decimal(&mut message, max_rows as u128);
            message.append(" cannot provide at least one row to each of the ");
            push_decimal(&mut message, prepared as u128);
            message.append(" providers with pending work");
            return Err(message);
        }
        Ok(
            Workflow {
                max_rows,
                total_rows_processed: 0,
                remaining_budget: max_rows,
                wave: 1,
                has_error,
                write_budget_exhausted: false,
            },
        )
    }

    /// Whether a wave comes, with some providers pending.
    pub fn has_wave(&self, pending: usize) -> (yes: bool)
        ensures
            yes == (pending > 0 && self.remaining_budget != 0),
    {
        pending > 0 && self.remaining_budget != 0
    }

    /// Shares the rows that are left among some providers.
    pub fn plan_wave(&self, providers: usize) -> (plan: WavePlan)
        ensures
            as_nats(plan.shares@) == shares(self.remaining_budget, providers as nat),
            plan.shares@.len() == providers,
            plan.allocated == sum(shares(self.remaining_budget, providers as nat)),
    {
        let shares = fair_row_limits(self.remaining_budget, providers);
        let allocated: u64 = if providers == 0 {
            0
        } else {
            self.remaining_budget
        };
        proof {
            if providers > 0 {
                law_shares_are_exact_and_balanced(self.remaining_budget, providers as nat);
            }
        }
        WavePlan { shares, allocated }
    }

    /// Takes what a wave came to. `allocated` is the sum of the shares.
    pub fn finish_wave(&mut self, results: &Vec<WaveResult>, allocated: u64) -> (step: WaveStep)
        ensures
            final(self).wf(),
            ({
                let after = after_wave(*old(self), results@);
                match step {
                    WaveStep::Continue => goes_on(after, results@, allocated) && *final(self)
                        == (Workflow { wave: final(self).wave, ..after }) && final(self).wave
                        == capped_sum(old(self).wave as int, 1),
                    WaveStep::Stop => !goes_on(after, results@, allocated) && *final(self) == after,
                }
            }),
    {
        let ghost before = *self;
        let mut processed: u64 = 0;
        let mut i: usize = 0;
        while i < results.len()
            invariant
                i <= results@.len(),
                processed == processed_rows(results@.take(i as int)),
                *self == (Workflow {
                    has_error: before.has_error || has_failure(results@.take(i as int)),
                    write_budget_exhausted: before.write_budget_exhausted || ran_out(
                        results@.take(i as int),
                    ),
                    ..before
                }),
            decreases results.len() - i,
        {
            let ghost so_far = results@.take(i as int);
            let ghost now = results@.take(i + 1);
            proof {
                assert(now.drop_last() =~= so_far);
                assert(now.last() == results@[i as int]);
                assert forall|k: int| 0 <= k < i implies now[k] == so_far[k] by {}
                assert(has_failure(so_far) ==> has_failure(now)) by {
                    if has_failure(so_far) {
                        let k = choose|k: int|
                            0 <= k < so_far.len() && match (#[trigger] so_far[k]).processed {
                                None => true,
                                Some((rows, _)) => rows > so_far[k].max_rows,
                            };
                        assert(now[k] == so_far[k]);
                    }
                }
                assert(ran_out(so_far) ==> ran_out(now)) by {
                    if ran_out(so_far) {
                        let k = choose|k: int|
                            0 <= k < so_far.len() && match (#[trigger] so_far[k]).processed {
                                None => false,
                                Some((_, exhausted)) => exhausted,
                            };
                        assert(now[k] == so_far[k]);
                    }
                }
                assert(now[i as int] == results@[i as int]);
            }
            let result = results[i];
            match result.processed {
                None => {
                    self.has_error = true;
                },
                Some((rows, exhausted)) => {
                    if rows > result.max_rows {
                        self.has_error = true;
                    }
                    processed = processed.saturating_add(
                        if rows < result.max_rows {
                            rows
                        } else {
                            result.max_rows
                        },
                    );
                    if exhausted {
                        self.write_budget_exhausted = true;
                    }
                },
            }
            proof {
                assert(has_failure(now) ==> has_failure(so_far) || match result.processed {
                    None => true,
                    Some((rows, _)) => rows > result.max_rows,
                }) by {
                    if has_failure(now) {
                        let k = choose|k: int|
                            0 <= k < now.len() && match (#[trigger] now[k]).processed {
                                None => true,
                                Some((rows, _)) => rows > now[k].max_rows,
                            };
                        if k < i {
                            assert(so_far[k] == now[k]);
                        }
                    }
                }
                assert(ran_out(now) ==> ran_out(so_far) || match result.processed {
                    None => false,
                    Some((_, exhausted)) => exhausted,
                }) by {
                    if ran_out(now) {
                        let k = choose|k: int|
                            0 <= k < now.len() && match (#[trigger] now[k]).processed {
                                None => false,
                                Some((_, exhausted)) => exhausted,
                            };
                        if k < i {
                            assert(so_far[k] == now[k]);
                        }
                    }
                }
            }
            i += 1;
        }
        assert(results@.take(results@.len() as int) =~= results@);
        self.total_rows_processed = self.total_rows_processed.saturating_add(processed);
        self.remaining_budget = self.max_rows.saturating_sub(self.total_rows_processed);
        if self.has_error || self.write_budget_exhausted || processed >= allocated {
            return WaveStep::Stop;
        }
        self.wave = self.wave.saturating_add(1);
        WaveStep::Continue
    }
}

/// The rows of a workflow are never overspent: as long as the shares of a wave
/// are those of the rows that are left, no wave processes more than those.
pub proof fn law_waves_never_exceed_the_rows(workflow: Workflow, results: Seq<WaveResult>)
    requires
        workflow.wf(),
        workflow.total_rows_processed <= workflow.max_rows,
        sum(results.map_values(|r: WaveResult| r.max_rows as nat)) <= workflow.remaining_budget,
    ensures
        after_wave(workflow, results).total_rows_processed <= workflow.max_rows,
{
    lemma_processed_within_shares(results);
    lemma_processed_is_a_count(results);
}

proof fn lemma_processed_within_shares(results: Seq<WaveResult>)
    ensures
        processed_rows(results) <= sum(results.map_values(|r: WaveResult| r.max_rows as nat)),
    decreases results.len(),
{
    let limits = results.map_values(|r: WaveResult| r.max_rows as nat);
    if results.len() > 0 {
        lemma_processed_within_shares(results.drop_last());
        assert(limits.drop_last() =~= results.drop_last().map_values(
            |r: WaveResult| r.max_rows as nat,
        ));
    }
}

} // verus!
