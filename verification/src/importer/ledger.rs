//! The ledger of the daily budget: every run leases writes of the day before it
//! imports anything, and returns what it did not need.
use crate::importer::budget::{after_reserving, D1WriteBudget, ReserveStep};
use crate::importer::client::first_count;
use crate::importer::d1::{values, D1Query, D1Result, SqlValue, SqlValueView};
use crate::importer::fault::{D1Error, D1ErrorView};
use crate::importer::upload::MAX_D1_WRITES_PER_LOGICAL_ROW;
use crate::text::same_text;
use vstd::prelude::*;
use vstd::string::*;

verus! {

/// The writes of one day in UTC.
pub const DAILY_WRITE_CEILING: u64 = 100_000;

/// The writes of a lease that are set aside for progress and versions.
pub const METADATA_WRITES: u64 = 1_000;

/// The writes of a lease that the ledger itself takes.
pub const LEDGER_WRITES: u64 = 2;

/// The seconds of a day.
pub const DAY_SECONDS: u64 = 86_400;

/// The seconds at the end of a day in which no request is made any more.
pub const CLOSING_SECONDS: u64 = 60;

/// The state of the ledger: a day, counted from the beginning of 1970, and the
/// writes that are leased on it.
#[derive(Clone, Copy, Debug, PartialEq, Eq, Structural)]
pub struct DailyLedger {
    pub day: u64,
    pub leased: u64,
}

/// Writes of one day that a run may make.
#[derive(Clone, Copy, Debug, PartialEq, Eq, Structural)]
pub struct DailyLease {
    pub day: u64,
    pub writes: u64,
}

/// The writes that are leased on a day already. The ledger starts again on a new
/// day.
pub open spec fn leased_on(ledger: DailyLedger, day: u64) -> u64 {
    if ledger.day == day {
        ledger.leased
    } else {
        0
    }
}

/// The writes that a run gets: what is configured, or what is left of the day.
pub open spec fn lease_size(ledger: DailyLedger, day: u64, configured: u64) -> u64 {
    let left = if leased_on(ledger, day) < DAILY_WRITE_CEILING {
        (DAILY_WRITE_CEILING - leased_on(ledger, day)) as u64
    } else {
        0
    };
    if configured < left {
        configured
    } else {
        left
    }
}

/// The lease covers metadata, ledger writes and at least one write of data.
pub open spec fn is_worth_it(writes: u64) -> bool {
    writes > METADATA_WRITES + LEDGER_WRITES
}

impl DailyLease {
    /// A lease that covers its own overhead.
    pub open spec fn wf(&self) -> bool {
        is_worth_it(self.writes) && self.writes <= DAILY_WRITE_CEILING
    }

    /// The writes of the lease that are for data.
    pub fn data_writes(&self) -> (writes: u64)
        requires
            self.wf(),
        ensures
            writes == self.writes - METADATA_WRITES - LEDGER_WRITES,
    {
        self.writes - METADATA_WRITES - LEDGER_WRITES
    }
}

/// The ledger after a run returned some writes of its lease. On another day there
/// is nothing to return to.
pub open spec fn after_release(ledger: DailyLedger, lease: DailyLease, unused: int) -> DailyLedger {
    if ledger.day == lease.day && ledger.leased >= unused {
        DailyLedger { day: ledger.day, leased: (ledger.leased - unused) as u64 }
    } else {
        ledger
    }
}

impl DailyLedger {
    /// Leases writes of a day for a run, if what is left is worth it.
    pub fn acquire_daily_budget(&mut self, day: u64, configured: u64) -> (lease: Option<DailyLease>)
        ensures
            match lease {
                Some(given) => given.wf() && given.day == day && given.writes == lease_size(
                    *old(self),
                    day,
                    configured,
                ) && final(self).day == day && final(self).leased == leased_on(*old(self), day)
                    + given.writes,
                None => !is_worth_it(lease_size(*old(self), day, configured)) && *final(self)
                    == *old(self),
            },
            final(self).leased <= DAILY_WRITE_CEILING || *final(self) == *old(self),
    {
        let leased: u64 = if self.day == day {
            self.leased
        } else {
            0
        };
        let left: u64 = DAILY_WRITE_CEILING.saturating_sub(leased);
        let writes: u64 = if configured < left {
            configured
        } else {
            left
        };
        if writes <= METADATA_WRITES + LEDGER_WRITES {
            return None;
        }
        self.day = day;
        self.leased = leased + writes;
        Some(DailyLease { day, writes })
    }

    /// Returns what a run did not need: the writes left of its data and of its
    /// metadata.
    pub fn release_daily_budget(&mut self, lease: &DailyLease, data_left: u64, metadata_left: u64)
        requires
            lease.wf(),
            data_left <= lease.writes - METADATA_WRITES - LEDGER_WRITES,
            metadata_left <= METADATA_WRITES,
        ensures
            *final(self) == after_release(*old(self), *lease, data_left + metadata_left),
    {
        let unused: u64 = data_left + metadata_left;
        if self.day == lease.day && self.leased >= unused {
            self.leased = self.leased - unused;
        }
    }
}

/// The day of a second since the beginning of 1970.
pub open spec fn day_of(second: u64) -> u64 {
    second / DAY_SECONDS
}

pub fn day_number(second: u64) -> (day: u64)
    ensures
        day == day_of(second),
{
    second / DAY_SECONDS
}

/// A request may be made under a lease: on its day, but for the last minute.
pub open spec fn may_request(lease: DailyLease, second: u64) -> bool {
    day_of(second) == lease.day && second % DAY_SECONDS < DAY_SECONDS - CLOSING_SECONDS
}

/// Whether a request may be made under a lease at a second.
pub fn is_open(lease: &DailyLease, second: u64) -> (yes: bool)
    ensures
        yes == may_request(*lease, second),
{
    second / DAY_SECONDS == lease.day && second % DAY_SECONDS < DAY_SECONDS - CLOSING_SECONDS
}

/// Whether a database is the one that holds the ledger.
pub fn is_budget_database(budget_database: &str, database_id: &str) -> (yes: bool)
    ensures
        yes == (budget_database@ == database_id@),
{
    same_text(budget_database, database_id)
}

/// Reserves the writes that the progress of one file takes at most.
pub fn reserve_checkpoint(metadata: &mut D1WriteBudget) -> (step: ReserveStep)
    ensures
        match step {
            ReserveStep::Granted(reservation) => MAX_D1_WRITES_PER_LOGICAL_ROW <= old(
                metadata).remaining && reservation.reserved == MAX_D1_WRITES_PER_LOGICAL_ROW
                && *final(metadata) == after_reserving(
                *old(metadata),
                MAX_D1_WRITES_PER_LOGICAL_ROW,
            ),
            ReserveStep::Wait => MAX_D1_WRITES_PER_LOGICAL_ROW > old(metadata).remaining && old(
                metadata).in_flight > 0 && *final(metadata) == *old(metadata),
            ReserveStep::Exhausted(error) => MAX_D1_WRITES_PER_LOGICAL_ROW > old(metadata).remaining
                && old(metadata).in_flight == 0 && *final(metadata) == *old(metadata) && error@
                == (D1ErrorView::WriteBudgetExhausted {
                requested: MAX_D1_WRITES_PER_LOGICAL_ROW,
                remaining: old(metadata).remaining,
            }),
        },
{
    metadata.reserve(MAX_D1_WRITES_PER_LOGICAL_ROW)
}

// ---------------------------------------------------------------------------
// Laws
// ---------------------------------------------------------------------------
/// The ledger after a lease of a day, if one is given.
pub open spec fn after_lease(ledger: DailyLedger, day: u64, configured: u64) -> DailyLedger {
    let writes = lease_size(ledger, day, configured);
    if is_worth_it(writes) {
        DailyLedger { day, leased: (leased_on(ledger, day) + writes) as u64 }
    } else {
        ledger
    }
}

/// The ledger after leases of one day, one after the other.
pub open spec fn after_leases(ledger: DailyLedger, day: u64, configured: Seq<u64>) -> DailyLedger
    decreases configured.len(),
{
    if configured.len() == 0 {
        ledger
    } else {
        after_lease(after_leases(ledger, day, configured.drop_last()), day, configured.last())
    }
}

/// The ceiling of a day is never crossed, however many runs lease writes of it
/// and whatever they are configured to.
pub proof fn law_a_day_never_exceeds_its_ceiling(
    ledger: DailyLedger,
    day: u64,
    configured: Seq<u64>,
)
    requires
        ledger.leased <= DAILY_WRITE_CEILING,
    ensures
        after_leases(ledger, day, configured).leased <= DAILY_WRITE_CEILING,
    decreases configured.len(),
{
    if configured.len() > 0 {
        law_a_day_never_exceeds_its_ceiling(ledger, day, configured.drop_last());
    }
}

/// The first run of a new day finds the whole ceiling, whatever was leased before.
pub proof fn law_a_new_day_starts_again(ledger: DailyLedger, day: u64, configured: u64)
    requires
        ledger.day != day,
    ensures
        lease_size(ledger, day, configured) == if configured < DAILY_WRITE_CEILING {
            configured
        } else {
            DAILY_WRITE_CEILING
        },
{
}

/// What a run returns can be leased again on the same day, and no more than that:
/// the ledger then stands where it stood before the run, but for the writes that
/// the run kept.
pub proof fn law_returned_writes_can_be_leased_again(
    ledger: DailyLedger,
    day: u64,
    configured: u64,
    unused: int,
)
    requires
        is_worth_it(lease_size(ledger, day, configured)),
        0 <= unused <= lease_size(ledger, day, configured),
    ensures
        ({
            let writes = lease_size(ledger, day, configured);
            let leased = after_lease(ledger, day, configured);
            let returned = after_release(leased, DailyLease { day, writes }, unused);
            &&& returned.day == day
            &&& returned.leased == leased_on(ledger, day) + writes - unused
            &&& returned.leased <= DAILY_WRITE_CEILING
        }),
{
}

/// No request is made under a lease after its day is over.
pub proof fn law_an_old_lease_is_closed(lease: DailyLease, second: u64)
    requires
        second >= (lease.day + 1) * DAY_SECONDS - CLOSING_SECONDS,
    ensures
        !may_request(lease, second),
{
    if day_of(second) == lease.day {
        assert(second == DAY_SECONDS * (second / DAY_SECONDS) + second % DAY_SECONDS)
            by (nonlinear_arith);
        assert((lease.day + 1) * DAY_SECONDS == DAY_SECONDS * lease.day + DAY_SECONDS)
            by (nonlinear_arith);
    }
}

// ---------------------------------------------------------------------------
// Statements
// ---------------------------------------------------------------------------
/// The statement that reads the ledger.
pub fn ledger_query() -> (query: D1Query)
    ensures
        query.is("SELECT Day, Leased FROM daily_import_budget WHERE Id = 1"@, seq![]),
{
    let params: Vec<SqlValue> = Vec::new();
    assert(values(params@) =~= seq![]);
    D1Query { sql: "SELECT Day, Leased FROM daily_import_budget WHERE Id = 1".to_owned(), params }
}

/// The ledger that the answers give; an empty one where there is no row yet.
pub open spec fn ledger_of(results: Seq<D1Result>) -> DailyLedger {
    DailyLedger {
        day: first_count(results, "Day"@),
        leased: first_count(results, "Leased"@),
    }
}

pub fn ledger_from(results: &Vec<D1Result>) -> (ledger: DailyLedger)
    ensures
        ledger == ledger_of(results@),
{
    if results.len() > 0 && results[0].results.len() > 0 {
        let row = &results[0].results[0];
        let day: u64 = match row.get_unsigned("Day") {
            Some(n) => n,
            None => 0,
        };
        let leased: u64 = match row.get_unsigned("Leased") {
            Some(n) => n,
            None => 0,
        };
        return DailyLedger { day, leased };
    }
    DailyLedger { day: 0, leased: 0 }
}

/// The statement that changes the ledger, only if nothing changed it meanwhile.
pub fn update_ledger_query(before: &DailyLedger, after: &DailyLedger) -> (query: D1Query)
    ensures
        query.is(
            "INSERT INTO daily_import_budget (Id, Day, Leased) VALUES (1, ?, ?) ON CONFLICT(Id) DO UPDATE SET Day = excluded.Day, Leased = excluded.Leased WHERE daily_import_budget.Day = ? AND daily_import_budget.Leased = ?"@,
            seq![
                SqlValueView::Unsigned(after.day),
                SqlValueView::Unsigned(after.leased),
                SqlValueView::Unsigned(before.day),
                SqlValueView::Unsigned(before.leased),
            ],
        ),
{
    let params: Vec<SqlValue> = vec![
        SqlValue::Unsigned(after.day),
        SqlValue::Unsigned(after.leased),
        SqlValue::Unsigned(before.day),
        SqlValue::Unsigned(before.leased),
    ];
    assert(values(params@) =~= seq![
        SqlValueView::Unsigned(after.day),
        SqlValueView::Unsigned(after.leased),
        SqlValueView::Unsigned(before.day),
        SqlValueView::Unsigned(before.leased),
    ]);
    D1Query {
        sql:
            "INSERT INTO daily_import_budget (Id, Day, Leased) VALUES (1, ?, ?) ON CONFLICT(Id) DO UPDATE SET Day = excluded.Day, Leased = excluded.Leased WHERE daily_import_budget.Day = ? AND daily_import_budget.Leased = ?".to_owned(),
        params,
    }
}

/// Whether the ledger was changed by the statement that changes it: the answer must tell
/// that a row was written. Where something else changed the ledger meanwhile, none was.
pub fn ledger_updated(results: &Vec<D1Result>) -> (updated: Result<(), D1Error>)
    ensures
        match updated {
            Ok(()) => results@.len() > 0 && (results@[0].writes() matches Some(n) && n > 0),
            Err(error) => if results@.len() > 0 && results@[0].writes() is Some {
                results@[0].writes() == Some(0u64) && error@ == D1ErrorView::ApiError(
                    "The daily ledger changed meanwhile"@,
                )
            } else {
                error@ == D1ErrorView::ApiError(
                    "D1 response omitted rows_written metadata for the daily ledger"@,
                )
            },
        },
{
    if results.len() > 0 {
        if let Some(writes) = results[0].rows_written() {
            if writes > 0 {
                return Ok(());
            }
            return Err(D1Error::ApiError("The daily ledger changed meanwhile".to_owned()));
        }
    }
    Err(
        D1Error::ApiError(
            "D1 response omitted rows_written metadata for the daily ledger".to_owned(),
        ),
    )
}

} // verus!
