//! The write budget of a workflow: writes are reserved before they are sent, and
//! what turns out not to be needed becomes available again.
use crate::importer::fault::{D1Error, D1ErrorView};
use crate::number::{decimal, push_decimal};
use vstd::prelude::*;
use vstd::string::*;

verus! {

/// The writes that are left, and the reservations that are not settled yet.
#[derive(Debug)]
pub struct D1WriteBudget {
    pub remaining: u64,
    pub in_flight: u64,
}

/// Writes that are set aside for one request.
#[derive(Debug)]
pub struct D1WriteReservation {
    pub reserved: u64,
}

/// What a request for writes gets.
#[derive(Debug)]
pub enum ReserveStep {
    Granted(D1WriteReservation),
    /// The writes may become available when a reservation is settled.
    Wait,
    Exhausted(D1Error),
}

/// The sum of two numbers, or the greatest number where it is too large.
pub open spec fn capped_sum(a: int, b: int) -> int {
    if a + b > u64::MAX {
        u64::MAX as int
    } else {
        a + b
    }
}

/// The difference of two numbers, or none where it is negative.
pub open spec fn floored_difference(a: int, b: int) -> int {
    if a < b {
        0
    } else {
        a - b
    }
}

/// The budget after some writes are reserved.
pub open spec fn after_reserving(budget: D1WriteBudget, requested: u64) -> D1WriteBudget {
    D1WriteBudget {
        remaining: (budget.remaining - requested) as u64,
        in_flight: capped_sum(budget.in_flight as int, 1) as u64,
    }
}

/// The budget after a reservation is settled with the writes that took place.
pub open spec fn after_settling(
    budget: D1WriteBudget,
    reserved: u64,
    actual: u64,
) -> D1WriteBudget {
    D1WriteBudget {
        remaining: if actual > reserved {
            floored_difference(budget.remaining as int, actual - reserved) as u64
        } else {
            capped_sum(budget.remaining as int, reserved - actual) as u64
        },
        in_flight: floored_difference(budget.in_flight as int, 1) as u64,
    }
}

impl D1WriteBudget {
    pub fn new(maximum_writes: u64) -> (budget: D1WriteBudget)
        ensures
            budget.remaining == maximum_writes,
            budget.in_flight == 0,
    {
        D1WriteBudget { remaining: maximum_writes, in_flight: 0 }
    }

    /// Reserves writes. Where there are not enough, the request waits as long as
    /// a reservation is in flight, and fails otherwise.
    pub fn reserve(&mut self, requested: u64) -> (step: ReserveStep)
        ensures
            match step {
                ReserveStep::Granted(reservation) => requested <= old(self).remaining
                    && reservation.reserved == requested && *final(self) == after_reserving(
                    *old(self),
                    requested,
                ),
                ReserveStep::Wait => requested > old(self).remaining && old(self).in_flight > 0
                    && *final(self) == *old(self),
                ReserveStep::Exhausted(error) => requested > old(self).remaining && old(
                    self,
                ).in_flight == 0 && *final(self) == *old(self) && error@
                    == (D1ErrorView::WriteBudgetExhausted {
                    requested,
                    remaining: old(self).remaining,
                }),
            },
    {
        if requested <= self.remaining {
            self.remaining = self.remaining - requested;
            self.in_flight = self.in_flight.saturating_add(1);
            return ReserveStep::Granted(D1WriteReservation { reserved: requested });
        }
        if self.in_flight == 0 {
            return ReserveStep::Exhausted(
                D1Error::WriteBudgetExhausted { requested, remaining: self.remaining },
            );
        }
        ReserveStep::Wait
    }

    /// Settles a reservation with the writes that took place, and tells whether
    /// they were more than reserved.
    pub fn settle(&mut self, reserved: u64, actual: u64) -> (exceeded: bool)
        ensures
            exceeded == (actual > reserved),
            *final(self) == after_settling(*old(self), reserved, actual),
    {
        self.in_flight = self.in_flight.saturating_sub(1);
        let exceeded = actual > reserved;
        if exceeded {
            self.remaining = self.remaining.saturating_sub(actual - reserved);
        } else {
            self.remaining = self.remaining.saturating_add(reserved - actual);
        }
        exceeded
    }
}

/// The text of the error of a request that wrote more than it had reserved.
pub open spec fn exceeded_message(actual: u64, reserved: u64) -> Seq<char> {
    "D1 reported "@ + decimal(actual as nat) + " row writes for a "@ + decimal(reserved as nat)
        + "-write reservation; the schema write-amplification invariant was exceeded"@
}

impl D1WriteReservation {
    /// Settles the reservation with the writes that took place. More than were
    /// reserved are taken from the budget, and are an error.
    pub fn finish(self, budget: &mut D1WriteBudget, actual: u64) -> (settled: Result<(), D1Error>)
        ensures
            *final(budget) == after_settling(*old(budget), self.reserved, actual),
            match settled {
                Ok(()) => actual <= self.reserved,
                Err(error) => actual > self.reserved && error@ == D1ErrorView::ApiError(
                    exceeded_message(actual, self.reserved),
                ),
            },
    {
        if budget.settle(self.reserved, actual) {
            let mut message = "D1 reported ".to_owned();
            push_decimal(&mut message, actual as u128);
            message.append(" row writes for a ");
            push_decimal(&mut message, self.reserved as u128);
            message.append(
                "-write reservation; the schema write-amplification invariant was exceeded",
            );
            return Err(D1Error::ApiError(message));
        }
        Ok(())
    }

    /// Settles the reservation as if all its writes had taken place. A request
    /// whose outcome is not known, or that was cancelled, ends so.
    pub fn consume_all(self, budget: &mut D1WriteBudget)
        ensures
            *final(budget) == after_settling(*old(budget), self.reserved, self.reserved),
    {
        let reserved: u64 = self.reserved;
        let _ = self.finish(budget, reserved);
    }
}

// ---------------------------------------------------------------------------
// What holds over many requests
// ---------------------------------------------------------------------------
/// A budget with its history: the reservations that are not settled, and the
/// writes that took place.
#[verifier::ext_equal]
pub struct Spending {
    pub budget: D1WriteBudget,
    pub open: Seq<u64>,
    pub spent: nat,
}

/// One thing that happens to a budget.
pub enum SpendingStep {
    /// Writes are reserved, if they are there.
    Reserve(u64),
    /// The open reservation at an index is settled with some writes.
    Settle(int, u64),
}

/// The writes of all open reservations.
pub open spec fn total(open: Seq<u64>) -> nat
    decreases open.len(),
{
    if open.len() == 0 {
        0
    } else {
        total(open.drop_last()) + open.last() as nat
    }
}

/// What a step does. A step that is not possible does nothing.
pub open spec fn spend(state: Spending, step: SpendingStep) -> Spending {
    match step {
        SpendingStep::Reserve(requested) => if requested <= state.budget.remaining {
            Spending {
                budget: after_reserving(state.budget, requested),
                open: state.open.push(requested),
                spent: state.spent,
            }
        } else {
            state
        },
        SpendingStep::Settle(index, actual) => if 0 <= index < state.open.len() {
            Spending {
                budget: after_settling(state.budget, state.open[index], actual),
                open: state.open.remove(index),
                spent: state.spent + actual as nat,
            }
        } else {
            state
        },
    }
}

/// What some steps do, one after the other.
pub open spec fn spend_all(state: Spending, steps: Seq<SpendingStep>) -> Spending
    decreases steps.len(),
{
    if steps.len() == 0 {
        state
    } else {
        spend(spend_all(state, steps.drop_last()), steps.last())
    }
}

/// A new budget.
pub open spec fn unspent(maximum: u64) -> Spending {
    Spending {
        budget: D1WriteBudget { remaining: maximum, in_flight: 0 },
        open: seq![],
        spent: 0,
    }
}

/// No request writes more than it reserved.
pub open spec fn keeps_reservations(state: Spending, steps: Seq<SpendingStep>) -> bool
    decreases steps.len(),
{
    steps.len() == 0 || {
        let before = spend_all(state, steps.drop_last());
        &&& keeps_reservations(state, steps.drop_last())
        &&& match steps.last() {
            SpendingStep::Settle(index, actual) => 0 <= index < before.open.len() ==> actual
                <= before.open[index],
            SpendingStep::Reserve(_) => true,
        }
    }
}

proof fn lemma_total_remove(open: Seq<u64>, index: int)
    requires
        0 <= index < open.len(),
    ensures
        total(open) == total(open.remove(index)) + open[index],
    decreases open.len(),
{
    if index == open.len() - 1 {
        assert(open.remove(index) =~= open.drop_last());
    } else {
        lemma_total_remove(open.drop_last(), index);
        assert(open.remove(index).drop_last() =~= open.drop_last().remove(index));
        assert(open.remove(index).last() == open.last());
    }
}

/// The ceiling is never crossed: whatever is reserved and settled, in any order,
/// as long as no request writes more than it reserved, the writes that took
/// place, those set aside and those left are the maximum.
pub proof fn law_writes_never_exceed_the_maximum(maximum: u64, steps: Seq<SpendingStep>)
    requires
        keeps_reservations(unspent(maximum), steps),
        steps.len() <= u64::MAX,
    ensures
        ({
            let state = spend_all(unspent(maximum), steps);
            &&& state.budget.remaining + total(state.open) + state.spent == maximum
            &&& state.budget.in_flight == state.open.len()
            &&& state.open.len() <= steps.len()
        }),
    decreases steps.len(),
{
    if steps.len() > 0 {
        law_writes_never_exceed_the_maximum(maximum, steps.drop_last());
        let before = spend_all(unspent(maximum), steps.drop_last());
        match steps.last() {
            SpendingStep::Reserve(requested) => {
                if requested <= before.budget.remaining {
                    assert(before.open.push(requested).drop_last() =~= before.open);
                }
            },
            SpendingStep::Settle(index, actual) => {
                if 0 <= index < before.open.len() {
                    lemma_total_remove(before.open, index);
                }
            },
        }
    }
}

/// Writes that a request reserved and did not make are available again at once.
pub proof fn law_unused_writes_are_returned(budget: D1WriteBudget, requested: u64, actual: u64)
    requires
        actual <= requested <= budget.remaining,
        budget.in_flight < u64::MAX,
    ensures
        ({
            let after = after_settling(after_reserving(budget, requested), requested, actual);
            &&& after.remaining == budget.remaining - actual
            &&& after.in_flight == budget.in_flight
        }),
{
}

/// A reservation that is given up without an answer is spent in full.
pub proof fn law_an_unsettled_reservation_is_spent(budget: D1WriteBudget, requested: u64)
    requires
        requested <= budget.remaining,
    ensures
        after_settling(after_reserving(budget, requested), requested, requested).remaining
            == budget.remaining - requested,
{
}

} // verus!
