//! What holds of the settings of every environment.
use crate::importer::config::{
    bounded, limits, lookup, named_provider, positive, positive_alias, producers, setting,
    EnvironmentFault, ProviderConfig, ProvidersToml, RuntimeConfig, Variable,
};
use crate::number::parse_unsigned;
use crate::number_laws::{law_numbers_are_read_as_they_are_written, spells};
use crate::pieces::trim;
use crate::pieces_laws::{
    is_blank, is_tight, law_blanks_around_do_not_matter, law_trimming_takes_the_blanks_off,
};
use crate::text::is_whitespace;
use vstd::prelude::*;
use vstd::string::*;

verus! {

// ---------------------------------------------------------------------------
// Variables
// ---------------------------------------------------------------------------
/// The variable is the first of its name.
pub open spec fn is_first_variable(environment: Seq<Variable>, i: int, name: Seq<char>) -> bool {
    &&& 0 <= i < environment.len()
    &&& environment[i].name@ == name
    &&& forall|k: int| 0 <= k < i ==> (#[trigger] environment[k]).name@ != name
}

/// No variable has the name.
pub open spec fn has_no_variable(environment: Seq<Variable>, name: Seq<char>) -> bool {
    forall|k: int| 0 <= k < environment.len() ==> (#[trigger] environment[k]).name@ != name
}

/// A variable is found by its name; the first counts.
pub proof fn law_variables_are_found_by_name(environment: Seq<Variable>, i: int, name: Seq<char>)
    ensures
        is_first_variable(environment, i, name) ==> lookup(environment, name) == Some(
            environment[i].value@,
        ),
        has_no_variable(environment, name) <==> lookup(environment, name) is None,
    decreases environment.len(),
{
    if environment.len() > 0 {
        let rest = environment.drop_first();
        assert forall|k: int| 0 <= k < rest.len() implies rest[k] == environment[k + 1] by {}
        law_variables_are_found_by_name(rest, i - 1, name);
        if environment[0].name@ != name {
            if is_first_variable(environment, i, name) {
                assert(i > 0);
                assert(is_first_variable(rest, i - 1, name));
            }
            if has_no_variable(rest, name) {
                assert forall|k: int| 0 <= k < environment.len() implies (
                #[trigger] environment[k]).name@ != name by {
                    if k > 0 {
                        assert(rest[k - 1] == environment[k]);
                    }
                }
            }
            if has_no_variable(environment, name) {
                assert(has_no_variable(rest, name));
            }
        }
    }
}

/// The variable is set to a text: it stands in its value, with nothing but whitespace
/// around it.
pub open spec fn is_set_to(
    environment: Seq<Variable>,
    name: Seq<char>,
    i: int,
    before: Seq<char>,
    text: Seq<char>,
    behind: Seq<char>,
) -> bool {
    &&& is_first_variable(environment, i, name)
    &&& environment[i].value@ == before + text + behind
    &&& is_blank(before)
    &&& is_blank(behind)
    &&& is_tight(text)
    &&& text.len() > 0
}

/// The variable is not there, or blank.
pub open spec fn is_unset(environment: Seq<Variable>, name: Seq<char>) -> bool {
    has_no_variable(environment, name) || exists|i: int| #[trigger]
        is_first_variable(environment, i, name) && is_blank(environment[i].value@)
}

/// A setting is the text of its variable without the whitespace around it; there is none
/// where the variable is not there, or blank.
pub proof fn law_settings_are_trimmed(
    environment: Seq<Variable>,
    name: Seq<char>,
    i: int,
    before: Seq<char>,
    text: Seq<char>,
    behind: Seq<char>,
)
    ensures
        is_set_to(environment, name, i, before, text, behind) ==> setting(environment, name)
            == Some(text),
        is_unset(environment, name) <==> setting(environment, name) is None,
{
    law_variables_are_found_by_name(environment, i, name);
    if is_set_to(environment, name, i, before, text, behind) {
        law_blanks_around_do_not_matter(before, text, behind);
    }
    if lookup(environment, name) is Some {
        let first = first_variable(environment, name);
        law_variables_are_found_by_name(environment, first, name);
        let value = environment[first].value@;
        let around = law_trimming_takes_the_blanks_off(value);
        if trim(value).len() == 0 {
            assert forall|k: int| 0 <= k < value.len() implies is_whitespace(
                #[trigger] value[k],
            ) by {
                if k < around.0.len() {
                    assert(value[k] == around.0[k]);
                } else {
                    assert(value[k] == around.1[k - around.0.len()]);
                }
            }
            assert(is_first_variable(environment, first, name) && is_blank(value));
        }
        if is_unset(environment, name) {
            let j = choose|j: int| #[trigger]
                is_first_variable(environment, j, name) && is_blank(environment[j].value@);
            law_variables_are_found_by_name(environment, j, name);
            let blank = environment[j].value@;
            if trim(blank).len() > 0 {
                let sides = law_trimming_takes_the_blanks_off(blank);
                assert(blank[sides.0.len() as int] == trim(blank)[0]);
            }
        }
    }
}

proof fn first_variable(environment: Seq<Variable>, name: Seq<char>) -> (i: int)
    requires
        lookup(environment, name) is Some,
    ensures
        is_first_variable(environment, i, name),
    decreases environment.len(),
{
    if environment[0].name@ == name {
        0
    } else {
        let rest = environment.drop_first();
        let i = first_variable(rest, name) + 1;
        assert forall|k: int| 0 <= k < i implies (#[trigger] environment[k]).name@ != name by {
            if k > 0 {
                assert(rest[k - 1] == environment[k]);
            }
        }
        assert(rest[i - 1] == environment[i]);
        i
    }
}

/// A variable gives a number: its default where it is not set, else the number that it
/// spells, from one to a maximum.
pub open spec fn gives(
    environment: Seq<Variable>,
    name: Seq<char>,
    default: int,
    maximum: int,
    n: int,
) -> bool {
    if is_unset(environment, name) {
        n == default
    } else {
        1 <= n <= maximum && exists|text: Seq<char>, sign: Seq<char>, zeros: nat|
            setting(environment, name) == Some(text) && #[trigger] spells(text, n as nat, sign, zeros)
    }
}

/// Counts and numbers are the default where nothing is set, else exactly what is spelled,
/// within its bounds, and a fault of that variable otherwise.
pub proof fn law_numbers_are_those_set(
    environment: Seq<Variable>,
    name: Seq<char>,
    default: u64,
    count: usize,
    maximum: usize,
    n: u64,
    m: usize,
)
    ensures
        positive(environment, name, default) == Ok::<
            u64,
            EnvironmentFault,
        >(n) <==> gives(environment, name, default as int, u64::MAX as int, n as int),
        bounded(environment, name, count, maximum) == Ok::<
            usize,
            EnvironmentFault,
        >(m) <==> gives(environment, name, count as int, maximum as int, m as int),
        positive(environment, name, default) matches Err(fault) ==> fault.name == name
            && setting(environment, name) == Some(fault.value),
        bounded(environment, name, count, maximum) matches Err(fault) ==> fault.name == name
            && setting(environment, name) == Some(fault.value),
{
    law_settings_are_trimmed(environment, name, 0, seq![], seq![], seq![]);
    if let Some(text) = setting(environment, name) {
        law_numbers_are_read_as_they_are_written(text, u64::MAX as nat, n as nat);
        law_numbers_are_read_as_they_are_written(text, usize::MAX as nat, m as nat);
        if parse_unsigned(text, u64::MAX as nat) == Some(n as nat) {
            let (sign, zeros) = choose|sign: Seq<char>, zeros: nat| #[trigger]
                spells(text, n as nat, sign, zeros);
            assert(setting(environment, name) == Some(text) && spells(text, n as nat, sign, zeros));
        }
        if parse_unsigned(text, usize::MAX as nat) == Some(m as nat) {
            let (sign, zeros) = choose|sign: Seq<char>, zeros: nat| #[trigger]
                spells(text, m as nat, sign, zeros);
            assert(setting(environment, name) == Some(text) && spells(text, m as nat, sign, zeros));
        }
    }
}

// ---------------------------------------------------------------------------
// The limits of a run
// ---------------------------------------------------------------------------
/// The numbers of an environment, each in the unit of its variable.
pub struct Numbers {
    pub threshold: u64,
    pub download: u64,
    pub uncompressed: u64,
    pub record: u64,
    pub payload: u64,
    pub storage: u64,
    pub rows: usize,
    pub statements: usize,
    pub writes: u64,
    pub csv: usize,
    pub global: usize,
    pub database: usize,
    pub databases: usize,
    pub workflow: u64,
}

/// The environment gives these numbers.
pub open spec fn gives_all(
    environment: Seq<Variable>,
    detected: Option<usize>,
    n: Numbers,
) -> bool {
    let most = u64::MAX as int;
    let cpus = match detected {
        None => 2int,
        Some(count) => if count == 0 {
            1
        } else if count > 8 {
            8
        } else {
            count as int
        },
    };
    let workflow = if is_unset(environment, "MAX_ROWS_PER_WORKFLOW"@) {
        "MAX_ROWS_PER_RUN"@
    } else {
        "MAX_ROWS_PER_WORKFLOW"@
    };
    &&& gives(environment, "DB_SIZE_THRESHOLD_MB"@, 400, most, n.threshold as int)
    &&& gives(environment, "MAX_FEED_DOWNLOAD_MB"@, 256, most, n.download as int)
    &&& gives(environment, "MAX_UNCOMPRESSED_FEED_MB"@, 512, most, n.uncompressed as int)
    &&& gives(environment, "MAX_CSV_RECORD_KB"@, 512, most, n.record as int)
    &&& gives(environment, "MAX_STATEMENT_PAYLOAD_KB"@, 1536, most, n.payload as int)
    &&& gives(environment, "MAX_TEMP_FEED_STORAGE_MB"@, 2048, most, n.storage as int)
    &&& gives(environment, "QUERY_STATEMENT_BATCH_SIZE"@, 1000, 10_000, n.rows as int)
    &&& gives(environment, "D1_STATEMENTS_PER_REQUEST"@, 4, 16, n.statements as int)
    &&& gives(environment, "MAX_D1_ROWS_WRITTEN_PER_WORKFLOW"@, 100_000, most, n.writes as int)
    &&& gives(environment, "CSV_CONCURRENCY_LIMIT"@, cpus, 64, n.csv as int)
    &&& gives(environment, "D1_CONCURRENCY_LIMIT"@, 6, 64, n.global as int)
    &&& gives(environment, "D1_DATABASE_CONCURRENCY_LIMIT"@, 1, 16, n.database as int)
    &&& gives(environment, "D1_MAX_DATABASES"@, 10, 50_000, n.databases as int)
    &&& gives(environment, workflow, 1_750_000, most, n.workflow as int)
}

/// The numbers go together: all sizes can be counted in bytes, a record fits into a feed
/// and into a payload, a payload into a value of the database, a download into the
/// storage, and the writes of a workflow cover two for each row of a full request.
pub open spec fn go_together(n: Numbers) -> bool {
    &&& n.threshold * 1_048_576 <= u64::MAX
    &&& n.download * 1_048_576 <= u64::MAX
    &&& n.uncompressed * 1_048_576 <= u64::MAX
    &&& n.storage * 1_048_576 <= u64::MAX
    &&& n.record * 1024 <= n.uncompressed * 1_048_576
    &&& n.record <= n.payload
    &&& n.payload * 1024 <= 2_000_000
    &&& n.download <= n.storage
    &&& n.rows * n.statements * 2 <= n.writes
}

/// The limits of a run are those that the environment sets, each with its own default,
/// maximum and unit: an environment is accepted exactly where its numbers go together,
/// and then every limit is its number.
pub proof fn law_limits_are_those_set(
    environment: Seq<Variable>,
    detected: Option<usize>,
    n: Numbers,
)
    requires
        gives_all(environment, detected, n),
    ensures
        limits(environment, detected) is Ok <==> go_together(n),
        limits(environment, detected) matches Ok(config) ==> config == (RuntimeConfig {
            csv_concurrency_limit: n.csv,
            d1_global_concurrency_limit: n.global,
            d1_database_concurrency_limit: n.database,
            d1_max_databases: n.databases,
            query_statement_batch_size: n.rows,
            d1_statements_per_request: n.statements,
            max_d1_rows_written_per_workflow: n.writes,
            max_rows_per_workflow: n.workflow,
            max_feed_download_bytes: (n.download * 1_048_576) as u64,
            max_uncompressed_feed_bytes: (n.uncompressed * 1_048_576) as u64,
            max_csv_record_bytes: (n.record * 1024) as u64,
            max_statement_payload_bytes: (n.payload * 1024) as u64,
            max_temp_feed_storage_bytes: (n.storage * 1_048_576) as u64,
            db_size_threshold_bytes: (n.threshold * 1_048_576) as u64,
            http_connect_timeout: 10,
            http_request_timeout: 120,
            d1_query_timeout: 35,
        }),
{
    let e = environment;
    lemma_given(e, "DB_SIZE_THRESHOLD_MB"@, 400, n.threshold);
    lemma_given(e, "MAX_FEED_DOWNLOAD_MB"@, 256, n.download);
    lemma_given(e, "MAX_UNCOMPRESSED_FEED_MB"@, 512, n.uncompressed);
    lemma_given(e, "MAX_CSV_RECORD_KB"@, 512, n.record);
    lemma_given(e, "MAX_STATEMENT_PAYLOAD_KB"@, 1536, n.payload);
    lemma_given(e, "MAX_TEMP_FEED_STORAGE_MB"@, 2048, n.storage);
    lemma_given(e, "MAX_D1_ROWS_WRITTEN_PER_WORKFLOW"@, 100_000, n.writes);
    law_settings_are_trimmed(e, "MAX_ROWS_PER_WORKFLOW"@, 0, seq![], seq![], seq![]);
    if is_unset(e, "MAX_ROWS_PER_WORKFLOW"@) {
        lemma_given(e, "MAX_ROWS_PER_RUN"@, 1_750_000, n.workflow);
    } else {
        lemma_given(e, "MAX_ROWS_PER_WORKFLOW"@, 1_750_000, n.workflow);
    }
    lemma_counted(e, "QUERY_STATEMENT_BATCH_SIZE"@, 1000, 10_000, n.rows);
    lemma_counted(e, "D1_STATEMENTS_PER_REQUEST"@, 4, 16, n.statements);
    lemma_counted(e, "CSV_CONCURRENCY_LIMIT"@, producers(detected), 64, n.csv);
    lemma_counted(e, "D1_CONCURRENCY_LIMIT"@, 6, 64, n.global);
    lemma_counted(e, "D1_DATABASE_CONCURRENCY_LIMIT"@, 1, 16, n.database);
    lemma_counted(e, "D1_MAX_DATABASES"@, 10, 50_000, n.databases);
}

proof fn lemma_given(environment: Seq<Variable>, name: Seq<char>, default: u64, n: u64)
    requires
        gives(environment, name, default as int, u64::MAX as int, n as int),
    ensures
        positive(environment, name, default) == Ok::<
            u64,
            EnvironmentFault,
        >(n),
{
    law_numbers_are_those_set(environment, name, default, 0, 0, n, 0);
}

proof fn lemma_counted(
    environment: Seq<Variable>,
    name: Seq<char>,
    default: usize,
    maximum: usize,
    n: usize,
)
    requires
        gives(environment, name, default as int, maximum as int, n as int),
    ensures
        bounded(environment, name, default, maximum) == Ok::<
            usize,
            EnvironmentFault,
        >(n),
{
    law_numbers_are_those_set(environment, name, 0, default, maximum, 0, n);
}

/// Where a variable gives no number, no limits are read.
pub proof fn law_limits_need_every_number(environment: Seq<Variable>, detected: Option<usize>) -> (n:
    Numbers)
    requires
        limits(environment, detected) is Ok,
    ensures
        gives_all(environment, detected, n),
{
    let e = environment;
    let n = Numbers {
        threshold: positive(e, "DB_SIZE_THRESHOLD_MB"@, 400)->Ok_0,
        download: positive(e, "MAX_FEED_DOWNLOAD_MB"@, 256)->Ok_0,
        uncompressed: positive(e, "MAX_UNCOMPRESSED_FEED_MB"@, 512)->Ok_0,
        record: positive(e, "MAX_CSV_RECORD_KB"@, 512)->Ok_0,
        payload: positive(e, "MAX_STATEMENT_PAYLOAD_KB"@, 1536)->Ok_0,
        storage: positive(e, "MAX_TEMP_FEED_STORAGE_MB"@, 2048)->Ok_0,
        rows: bounded(e, "QUERY_STATEMENT_BATCH_SIZE"@, 1000, 10_000)->Ok_0,
        statements: bounded(e, "D1_STATEMENTS_PER_REQUEST"@, 4, 16)->Ok_0,
        writes: positive(e, "MAX_D1_ROWS_WRITTEN_PER_WORKFLOW"@, 100_000)->Ok_0,
        csv: bounded(e, "CSV_CONCURRENCY_LIMIT"@, producers(detected), 64)->Ok_0,
        global: bounded(e, "D1_CONCURRENCY_LIMIT"@, 6, 64)->Ok_0,
        database: bounded(e, "D1_DATABASE_CONCURRENCY_LIMIT"@, 1, 16)->Ok_0,
        databases: bounded(e, "D1_MAX_DATABASES"@, 10, 50_000)->Ok_0,
        workflow: positive_alias(
            e,
            "MAX_ROWS_PER_WORKFLOW"@,
            "MAX_ROWS_PER_RUN"@,
            1_750_000,
        )->Ok_0,
    };
    law_numbers_are_those_set(e, "DB_SIZE_THRESHOLD_MB"@, 400, 0, 0, n.threshold, 0);
    law_numbers_are_those_set(e, "MAX_FEED_DOWNLOAD_MB"@, 256, 0, 0, n.download, 0);
    law_numbers_are_those_set(e, "MAX_UNCOMPRESSED_FEED_MB"@, 512, 0, 0, n.uncompressed, 0);
    law_numbers_are_those_set(e, "MAX_CSV_RECORD_KB"@, 512, 0, 0, n.record, 0);
    law_numbers_are_those_set(e, "MAX_STATEMENT_PAYLOAD_KB"@, 1536, 0, 0, n.payload, 0);
    law_numbers_are_those_set(e, "MAX_TEMP_FEED_STORAGE_MB"@, 2048, 0, 0, n.storage, 0);
    law_numbers_are_those_set(
        e,
        "MAX_D1_ROWS_WRITTEN_PER_WORKFLOW"@,
        100_000,
        0,
        0,
        n.writes,
        0,
    );
    law_settings_are_trimmed(e, "MAX_ROWS_PER_WORKFLOW"@, 0, seq![], seq![], seq![]);
    law_numbers_are_those_set(e, "MAX_ROWS_PER_WORKFLOW"@, 1_750_000, 0, 0, n.workflow, 0);
    law_numbers_are_those_set(e, "MAX_ROWS_PER_RUN"@, 1_750_000, 0, 0, n.workflow, 0);
    law_numbers_are_those_set(e, "QUERY_STATEMENT_BATCH_SIZE"@, 0, 1000, 10_000, 0, n.rows);
    law_numbers_are_those_set(e, "D1_STATEMENTS_PER_REQUEST"@, 0, 4, 16, 0, n.statements);
    law_numbers_are_those_set(e, "CSV_CONCURRENCY_LIMIT"@, 0, producers(detected), 64, 0, n.csv);
    law_numbers_are_those_set(e, "D1_CONCURRENCY_LIMIT"@, 0, 6, 64, 0, n.global);
    law_numbers_are_those_set(e, "D1_DATABASE_CONCURRENCY_LIMIT"@, 0, 1, 16, 0, n.database);
    law_numbers_are_those_set(e, "D1_MAX_DATABASES"@, 0, 10, 50_000, 0, n.databases);
    n
}

// ---------------------------------------------------------------------------
// The database of the budget
// ---------------------------------------------------------------------------
/// The daily budget stands in the database of the first provider that it names; there is
/// none where no provider has the name, or that one has no database.
pub proof fn law_the_budget_stands_with_its_provider(settings: ProvidersToml, i: int)
    requires
        0 <= i < settings.providers@.len(),
        settings.providers@[i].name@ == settings.budget_provider@,
        forall|k: int|
            0 <= k < i ==> (#[trigger] settings.providers@[k]).name@ != settings.budget_provider@,
    ensures
        settings.ledger_database() == if settings.providers@[i].database_id@.len() > 0 {
            Some(settings.providers@[i].database_id@)
        } else {
            None
        },
{
    lemma_named(settings.providers@, settings.budget_provider@, i);
}

/// Without a provider of its name, the daily budget has no database.
pub proof fn law_no_budget_without_its_provider(settings: ProvidersToml)
    requires
        forall|k: int|
            0 <= k < settings.providers@.len() ==> (#[trigger] settings.providers@[k]).name@
                != settings.budget_provider@,
    ensures
        settings.ledger_database() is None,
{
    lemma_unnamed(settings.providers@, settings.budget_provider@);
}

proof fn lemma_named(providers: Seq<ProviderConfig>, name: Seq<char>, i: int)
    requires
        0 <= i < providers.len(),
        providers[i].name@ == name,
        forall|k: int| 0 <= k < i ==> (#[trigger] providers[k]).name@ != name,
    ensures
        named_provider(providers, name) == Some(providers[i]),
    decreases i,
{
    if i > 0 {
        let rest = providers.drop_first();
        assert(providers[0].name@ != name);
        assert forall|k: int| 0 <= k < i - 1 implies (#[trigger] rest[k]).name@ != name by {
            assert(rest[k] == providers[k + 1]);
        }
        lemma_named(rest, name, i - 1);
    }
}

proof fn lemma_unnamed(providers: Seq<ProviderConfig>, name: Seq<char>)
    requires
        forall|k: int| 0 <= k < providers.len() ==> (#[trigger] providers[k]).name@ != name,
    ensures
        named_provider(providers, name) is None,
    decreases providers.len(),
{
    if providers.len() > 0 {
        let rest = providers.drop_first();
        assert(providers[0].name@ != name);
        assert forall|k: int| 0 <= k < rest.len() implies (#[trigger] rest[k]).name@ != name by {
            assert(rest[k] == providers[k + 1]);
        }
        lemma_unnamed(rest, name);
    }
}

} // verus!
