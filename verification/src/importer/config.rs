//! The configuration of the importer: the providers, and the limits that the
//! environment sets.
use crate::importer::fault::IoFailure;
use crate::number::{decimal, decimal_text, parse_text, parse_unsigned};
use crate::outside::std_text::{debug_of, debug_text};
use crate::pieces::{trim, trimmed};
use crate::text::{chars_of, same_text, string_of};
use vstd::prelude::*;
use vstd::string::*;

verus! {

/// The longest string value that D1 stores.
pub const D1_MAX_VALUE_BYTES: u64 = 2_000_000;

/// The bytes of a kilobyte.
pub const KILOBYTE: u64 = 1024;

/// The bytes of a megabyte.
pub const MEGABYTE: u64 = 1024 * 1024;

/// An error in the configuration.
#[derive(Debug)]
pub enum ConfigError {
    Io(IoFailure),
    Toml(String),
    InvalidEnvironment { name: &'static str, value: String, requirement: &'static str },
}

/// What is wrong with a variable: its name, its value, and what it must meet.
pub struct EnvironmentFault {
    pub name: Seq<char>,
    pub value: Seq<char>,
    pub requirement: Seq<char>,
}

impl ConfigError {
    /// The error says this of a variable.
    pub open spec fn is(&self, fault: EnvironmentFault) -> bool {
        match *self {
            ConfigError::InvalidEnvironment { name, value, requirement } => name@ == fault.name
                && value@ == fault.value && requirement@ == fault.requirement,
            _ => false,
        }
    }

    /// The text of an error.
    pub open spec fn text(&self) -> Seq<char> {
        match *self {
            ConfigError::Io(failure) => "I/O error: "@ + failure.message@,
            ConfigError::Toml(reason) => "TOML parsing error: "@ + reason@,
            ConfigError::InvalidEnvironment { name, value, requirement } => "invalid "@ + name@
                + "="@ + debug_text(value@) + ": "@ + requirement@,
        }
    }

    /// The text of the error.
    pub fn message(&self) -> (text: String)
        ensures
            text@ == self.text(),
    {
        match self {
            ConfigError::Io(failure) => {
                let mut text = "I/O error: ".to_owned();
                text.append(failure.message.as_str());
                text
            },
            ConfigError::Toml(reason) => {
                let mut text = "TOML parsing error: ".to_owned();
                text.append(reason.as_str());
                text
            },
            ConfigError::InvalidEnvironment { name, value, requirement } => {
                let mut text = "invalid ".to_owned();
                text.append(*name);
                text.append("=");
                text.append(debug_of(value.as_str()).as_str());
                text.append(": ");
                text.append(*requirement);
                text
            },
        }
    }
}

/// One provider of feeds.
#[derive(Debug)]
pub struct ProviderConfig {
    pub name: String,
    pub is_active: bool,
    pub static_url: String,
    pub static_provider: String,
    pub database_id: String,
}

/// Whether a provider is active that does not say so.
pub fn default() -> (is_active: bool)
    ensures
        !is_active,
{
    false
}

/// All providers, and the one whose database holds the daily budget.
#[derive(Debug)]
pub struct ProvidersToml {
    pub budget_provider: String,
    pub providers: Vec<ProviderConfig>,
}

impl ProviderConfig {
    /// Whether the provider is imported: it is active and has a database.
    pub fn is_importable(&self) -> (yes: bool)
        ensures
            yes == (self.is_active && self.database_id@.len() > 0),
    {
        self.is_active && !self.database_id.as_str().is_empty()
    }
}

/// The first provider of a name.
pub open spec fn named_provider(providers: Seq<ProviderConfig>, name: Seq<char>) -> Option<
    ProviderConfig,
>
    decreases providers.len(),
{
    if providers.len() == 0 {
        None
    } else if providers[0].name@ == name {
        Some(providers[0])
    } else {
        named_provider(providers.drop_first(), name)
    }
}

impl ProvidersToml {
    /// The database that holds the daily budget, if one is configured.
    pub open spec fn ledger_database(&self) -> Option<Seq<char>> {
        match named_provider(self.providers@, self.budget_provider@) {
            Some(provider) => if provider.database_id@.len() > 0 {
                Some(provider.database_id@)
            } else {
                None
            },
            None => None,
        }
    }

    /// The database that holds the daily budget.
    pub fn budget_database(&self) -> (database: Result<&str, &'static str>)
        ensures
            match database {
                Ok(id) => self.ledger_database() == Some(id@),
                Err(message) => self.ledger_database() is None && message@
                    == "budget_provider must name a configured provider with a database_id"@,
            },
    {
        let mut i: usize = 0;
        assert(self.providers@.skip(0) =~= self.providers@);
        while i < self.providers.len()
            invariant
                i <= self.providers@.len(),
                named_provider(self.providers@, self.budget_provider@) == named_provider(
                    self.providers@.skip(i as int),
                    self.budget_provider@,
                ),
            decreases self.providers.len() - i,
        {
            assert(self.providers@.skip(i as int).drop_first() =~= self.providers@.skip(i + 1));
            if same_text(self.providers[i].name.as_str(), self.budget_provider.as_str()) {
                let id = self.providers[i].database_id.as_str();
                if id.is_empty() {
                    return Err(
                        "budget_provider must name a configured provider with a database_id",
                    );
                }
                return Ok(id);
            }
            i += 1;
        }
        Err("budget_provider must name a configured provider with a database_id")
    }
}

/// The limits of a run. Timeouts are in seconds.
#[derive(Clone, Copy, Debug, PartialEq, Eq, Structural)]
pub struct RuntimeConfig {
    pub csv_concurrency_limit: usize,
    pub d1_global_concurrency_limit: usize,
    pub d1_database_concurrency_limit: usize,
    pub d1_max_databases: usize,
    pub query_statement_batch_size: usize,
    pub d1_statements_per_request: usize,
    pub max_d1_rows_written_per_workflow: u64,
    pub max_rows_per_workflow: u64,
    pub max_feed_download_bytes: u64,
    pub max_uncompressed_feed_bytes: u64,
    pub max_csv_record_bytes: u64,
    pub max_statement_payload_bytes: u64,
    pub max_temp_feed_storage_bytes: u64,
    pub db_size_threshold_bytes: u64,
    pub http_connect_timeout: u64,
    pub http_request_timeout: u64,
    pub d1_query_timeout: u64,
}

// ---------------------------------------------------------------------------
// Variables
// ---------------------------------------------------------------------------
/// A variable of the environment.
#[derive(Debug)]
pub struct Variable {
    pub name: String,
    pub value: String,
}

/// The value of the first variable of a name.
pub open spec fn lookup(environment: Seq<Variable>, name: Seq<char>) -> Option<Seq<char>>
    decreases environment.len(),
{
    if environment.len() == 0 {
        None
    } else if environment[0].name@ == name {
        Some(environment[0].value@)
    } else {
        lookup(environment.drop_first(), name)
    }
}

/// The value of a variable without the whitespace around it, if anything is left.
pub open spec fn setting(environment: Seq<Variable>, name: Seq<char>) -> Option<Seq<char>> {
    match lookup(environment, name) {
        Some(value) => if trim(value).len() > 0 {
            Some(trim(value))
        } else {
            None
        },
        None => None,
    }
}

/// The value of a variable, trimmed, if it is set and not blank.
pub fn environment_value(environment: &Vec<Variable>, name: &str) -> (value: Option<String>)
    ensures
        match value {
            Some(text) => setting(environment@, name@) == Some(text@),
            None => setting(environment@, name@) is None,
        },
{
    let mut i: usize = 0;
    assert(environment@.skip(0) =~= environment@);
    while i < environment.len()
        invariant
            i <= environment@.len(),
            lookup(environment@, name@) == lookup(environment@.skip(i as int), name@),
        decreases environment.len() - i,
    {
        let ghost rest = environment@.skip(i as int);
        assert(rest.drop_first() =~= environment@.skip(i + 1));
        if same_text(environment[i].name.as_str(), name) {
            let chars = chars_of(environment[i].value.as_str());
            let inner = trimmed(chars.as_slice());
            if inner.len() == 0 {
                return None;
            }
            return Some(string_of(inner));
        }
        i += 1;
    }
    None
}

/// A fault of a variable.
pub open spec fn fault(
    name: Seq<char>,
    value: Seq<char>,
    requirement: Seq<char>,
) -> EnvironmentFault {
    EnvironmentFault { name, value, requirement }
}

/// A variable that counts something, up to a maximum: the default where it is
/// not set, else a number from 1 to the maximum.
pub open spec fn bounded(
    environment: Seq<Variable>,
    name: Seq<char>,
    default: usize,
    maximum: usize,
) -> Result<usize, EnvironmentFault> {
    match setting(environment, name) {
        None => Ok(default),
        Some(value) => match parse_unsigned(value, usize::MAX as nat) {
            None => Err(fault(name, value, "must be a positive integer"@)),
            Some(n) => if n == 0 || n > maximum {
                Err(fault(name, value, "is outside the supported positive range"@))
            } else {
                Ok(n as usize)
            },
        },
    }
}

/// A variable that is a positive number.
pub open spec fn positive(environment: Seq<Variable>, name: Seq<char>, default: u64) -> Result<
    u64,
    EnvironmentFault,
> {
    match setting(environment, name) {
        None => Ok(default),
        Some(value) => match parse_unsigned(value, u64::MAX as nat) {
            None => Err(fault(name, value, "must be a positive integer"@)),
            Some(n) => if n == 0 {
                Err(fault(name, value, "must be greater than zero"@))
            } else {
                Ok(n as u64)
            },
        },
    }
}

/// A variable that is a positive number of some unit, in bytes.
pub open spec fn sized(
    environment: Seq<Variable>,
    name: Seq<char>,
    default: u64,
    unit: u64,
) -> Result<u64, EnvironmentFault> {
    match positive(environment, name, default) {
        Err(error) => Err(error),
        Ok(n) => if n * unit > u64::MAX {
            Err(fault(name, decimal(n as nat), "must fit in bytes"@))
        } else {
            Ok((n * unit) as u64)
        },
    }
}

/// A variable that may still go by an older name.
pub open spec fn positive_alias(
    environment: Seq<Variable>,
    primary: Seq<char>,
    legacy: Seq<char>,
    default: u64,
) -> Result<u64, EnvironmentFault> {
    if setting(environment, primary) is Some {
        positive(environment, primary, default)
    } else {
        positive(environment, legacy, default)
    }
}

/// The result of reading a variable is this.
pub open spec fn reads<T>(result: Result<T, ConfigError>, said: Result<T, EnvironmentFault>) -> bool {
    match (result, said) {
        (Ok(a), Ok(b)) => a == b,
        (Err(error), Err(fault)) => error.is(fault),
        _ => false,
    }
}

pub fn bounded_usize(
    environment: &Vec<Variable>,
    name: &'static str,
    default: usize,
    maximum: usize,
) -> (read: Result<usize, ConfigError>)
    ensures
        reads(read, bounded(environment@, name@, default, maximum)),
{
    match environment_value(environment, name) {
        None => Ok(default),
        Some(value) => match parse_text(value.as_str(), usize::MAX as u64) {
            None => Err(
                ConfigError::InvalidEnvironment {
                    name,
                    value,
                    requirement: "must be a positive integer",
                },
            ),
            Some(parsed) => {
                if parsed == 0 || parsed > maximum as u64 {
                    return Err(
                        ConfigError::InvalidEnvironment {
                            name,
                            value,
                            requirement: "is outside the supported positive range",
                        },
                    );
                }
                Ok(parsed as usize)
            },
        },
    }
}

pub fn positive_u64(environment: &Vec<Variable>, name: &'static str, default: u64) -> (read: Result<
    u64,
    ConfigError,
>)
    ensures
        reads(read, positive(environment@, name@, default)),
{
    match environment_value(environment, name) {
        None => Ok(default),
        Some(value) => match parse_text(value.as_str(), u64::MAX) {
            None => Err(
                ConfigError::InvalidEnvironment {
                    name,
                    value,
                    requirement: "must be a positive integer",
                },
            ),
            Some(parsed) => {
                if parsed == 0 {
                    return Err(
                        ConfigError::InvalidEnvironment {
                            name,
                            value,
                            requirement: "must be greater than zero",
                        },
                    );
                }
                Ok(parsed)
            },
        },
    }
}

/// Reads a variable, or the older one that stands for it.
pub fn positive_u64_alias(
    environment: &Vec<Variable>,
    primary: &'static str,
    legacy: &'static str,
    default: u64,
) -> (read: Result<u64, ConfigError>)
    ensures
        reads(read, positive_alias(environment@, primary@, legacy@, default)),
{
    if environment_value(environment, primary).is_some() {
        return positive_u64(environment, primary, default);
    }
    positive_u64(environment, legacy, default)
}

/// Reads a variable that is a size, both in its unit and in bytes.
fn sized_u64(environment: &Vec<Variable>, name: &'static str, default: u64, unit: u64) -> (read:
    Result<(u64, u64), ConfigError>)
    requires
        unit > 0,
    ensures
        match read {
            Ok((n, bytes)) => positive(environment@, name@, default) == Ok::<
                u64,
                EnvironmentFault,
            >(n) && sized(environment@, name@, default, unit) == Ok::<u64, EnvironmentFault>(bytes),
            Err(error) => sized(environment@, name@, default, unit) matches Err(fault) && error.is(
                fault,
            ),
        },
{
    match positive_u64(environment, name, default) {
        Err(error) => Err(error),
        Ok(n) => match n.checked_mul(unit) {
            None => Err(
                ConfigError::InvalidEnvironment {
                    name,
                    value: decimal_text(n),
                    requirement: "must fit in bytes",
                },
            ),
            Some(bytes) => Ok((n, bytes)),
        },
    }
}

// ---------------------------------------------------------------------------
// The limits
// ---------------------------------------------------------------------------
/// The CPUs that were detected, two where they are not known, from one to eight.
pub open spec fn producers(detected: Option<usize>) -> usize {
    match detected {
        None => 2,
        Some(n) => if n < 1 {
            1
        } else if n > 8 {
            8
        } else {
            n
        },
    }
}

/// The number that a variable is set to.
pub open spec fn number(environment: Seq<Variable>, name: Seq<char>, default: u64) -> u64 {
    positive(environment, name, default)->Ok_0
}

/// The sizes that the environment sets.
pub struct Sizes {
    pub threshold: u64,
    pub download: u64,
    pub uncompressed: u64,
    pub record: u64,
    pub payload: u64,
    pub storage: u64,
}

/// The sizes that the environment sets, or the first that is not in order: a
/// record fits into a feed, a payload holds a record and fits into a value of D1,
/// and the temporary storage holds a download.
pub open spec fn sizes(environment: Seq<Variable>) -> Result<Sizes, EnvironmentFault> {
    match sized(environment, "DB_SIZE_THRESHOLD_MB"@, 400, MEGABYTE) {
        Err(error) => Err(error),
        Ok(threshold) => match sized(environment, "MAX_FEED_DOWNLOAD_MB"@, 256, MEGABYTE) {
            Err(error) => Err(error),
            Ok(download) => match sized(environment, "MAX_UNCOMPRESSED_FEED_MB"@, 512, MEGABYTE) {
                Err(error) => Err(error),
                Ok(uncompressed) => match sized(environment, "MAX_CSV_RECORD_KB"@, 512, KILOBYTE) {
                    Err(error) => Err(error),
                    Ok(record) => if record > uncompressed {
                        Err(
                            fault(
                                "MAX_CSV_RECORD_KB"@,
                                decimal(number(environment, "MAX_CSV_RECORD_KB"@, 512) as nat),
                                "must not exceed MAX_UNCOMPRESSED_FEED_MB"@,
                            ),
                        )
                    } else {
                        payload_sizes(environment, threshold, download, uncompressed, record)
                    },
                },
            },
        },
    }
}

/// The sizes, once those of a feed and of a record are known.
pub open spec fn payload_sizes(
    environment: Seq<Variable>,
    threshold: u64,
    download: u64,
    uncompressed: u64,
    record: u64,
) -> Result<Sizes, EnvironmentFault> {
    let payload_text = decimal(number(environment, "MAX_STATEMENT_PAYLOAD_KB"@, 1536) as nat);
    match sized(environment, "MAX_STATEMENT_PAYLOAD_KB"@, 1536, KILOBYTE) {
        Err(error) => Err(error),
        Ok(payload) => if payload < record {
            Err(
                fault(
                    "MAX_STATEMENT_PAYLOAD_KB"@,
                    payload_text,
                    "must be at least MAX_CSV_RECORD_KB"@,
                ),
            )
        } else if payload > D1_MAX_VALUE_BYTES {
            Err(
                fault(
                    "MAX_STATEMENT_PAYLOAD_KB"@,
                    payload_text,
                    "must not exceed D1's 2,000,000-byte string-value limit"@,
                ),
            )
        } else {
            match sized(environment, "MAX_TEMP_FEED_STORAGE_MB"@, 2048, MEGABYTE) {
                Err(error) => Err(error),
                Ok(storage) => if storage < download {
                    Err(
                        fault(
                            "MAX_TEMP_FEED_STORAGE_MB"@,
                            decimal(number(environment, "MAX_TEMP_FEED_STORAGE_MB"@, 2048) as nat),
                            "must be at least MAX_FEED_DOWNLOAD_MB"@,
                        ),
                    )
                } else {
                    Ok(Sizes { threshold, download, uncompressed, record, payload, storage })
                },
            }
        },
    }
}

/// How rows and statements are grouped, and the writes of a workflow.
pub struct Groups {
    pub rows: usize,
    pub statements: usize,
    pub writes: u64,
}

/// The grouping that the environment sets: the writes of a workflow cover two
/// writes for every row of one full group.
pub open spec fn groups(environment: Seq<Variable>) -> Result<Groups, EnvironmentFault> {
    match bounded(environment, "QUERY_STATEMENT_BATCH_SIZE"@, 1000, 10_000) {
        Err(error) => Err(error),
        Ok(rows) => match bounded(environment, "D1_STATEMENTS_PER_REQUEST"@, 4, 16) {
            Err(error) => Err(error),
            Ok(statements) => match positive(
                environment,
                "MAX_D1_ROWS_WRITTEN_PER_WORKFLOW"@,
                100_000,
            ) {
                Err(error) => Err(error),
                Ok(writes) => if rows * statements * 2 > writes {
                    Err(
                        fault(
                            "MAX_D1_ROWS_WRITTEN_PER_WORKFLOW"@,
                            decimal(writes as nat),
                            "must reserve at least two indexed D1 writes for every row in one maximum statement group"@,
                        ),
                    )
                } else {
                    Ok(Groups { rows, statements, writes })
                },
            },
        },
    }
}

/// The limits that the environment sets.
pub open spec fn limits(environment: Seq<Variable>, detected: Option<usize>) -> Result<
    RuntimeConfig,
    EnvironmentFault,
> {
    match sizes(environment) {
        Err(error) => Err(error),
        Ok(size) => match groups(environment) {
            Err(error) => Err(error),
            Ok(group) => match bounded(
                environment,
                "CSV_CONCURRENCY_LIMIT"@,
                producers(detected),
                64,
            ) {
                Err(error) => Err(error),
                Ok(csv) => match bounded(environment, "D1_CONCURRENCY_LIMIT"@, 6, 64) {
                    Err(error) => Err(error),
                    Ok(global) => match bounded(
                        environment,
                        "D1_DATABASE_CONCURRENCY_LIMIT"@,
                        1,
                        16,
                    ) {
                        Err(error) => Err(error),
                        Ok(database) => match bounded(
                            environment,
                            "D1_MAX_DATABASES"@,
                            10,
                            50_000,
                        ) {
                            Err(error) => Err(error),
                            Ok(databases) => match positive_alias(
                                environment,
                                "MAX_ROWS_PER_WORKFLOW"@,
                                "MAX_ROWS_PER_RUN"@,
                                1_750_000,
                            ) {
                                Err(error) => Err(error),
                                Ok(rows) => Ok(
                                    RuntimeConfig {
                                        csv_concurrency_limit: csv,
                                        d1_global_concurrency_limit: global,
                                        d1_database_concurrency_limit: database,
                                        d1_max_databases: databases,
                                        query_statement_batch_size: group.rows,
                                        d1_statements_per_request: group.statements,
                                        max_d1_rows_written_per_workflow: group.writes,
                                        max_rows_per_workflow: rows,
                                        max_feed_download_bytes: size.download,
                                        max_uncompressed_feed_bytes: size.uncompressed,
                                        max_csv_record_bytes: size.record,
                                        max_statement_payload_bytes: size.payload,
                                        max_temp_feed_storage_bytes: size.storage,
                                        db_size_threshold_bytes: size.threshold,
                                        http_connect_timeout: 10,
                                        http_request_timeout: 120,
                                        d1_query_timeout: 35,
                                    },
                                ),
                            },
                        },
                    },
                },
            },
        },
    }
}

fn read_sizes(environment: &Vec<Variable>) -> (read: Result<Sizes, ConfigError>)
    ensures
        reads(read, sizes(environment@)),
{
    let (_, threshold) = match sized_u64(environment, "DB_SIZE_THRESHOLD_MB", 400, MEGABYTE) {
        Ok(size) => size,
        Err(error) => return Err(error),
    };
    let (_, download) = match sized_u64(environment, "MAX_FEED_DOWNLOAD_MB", 256, MEGABYTE) {
        Ok(size) => size,
        Err(error) => return Err(error),
    };
    let (_, uncompressed) = match sized_u64(
        environment,
        "MAX_UNCOMPRESSED_FEED_MB",
        512,
        MEGABYTE,
    ) {
        Ok(size) => size,
        Err(error) => return Err(error),
    };
    let (record_kb, record) = match sized_u64(environment, "MAX_CSV_RECORD_KB", 512, KILOBYTE) {
        Ok(size) => size,
        Err(error) => return Err(error),
    };
    if record > uncompressed {
        return Err(
            ConfigError::InvalidEnvironment {
                name: "MAX_CSV_RECORD_KB",
                value: decimal_text(record_kb),
                requirement: "must not exceed MAX_UNCOMPRESSED_FEED_MB",
            },
        );
    }
    let (payload_kb, payload) = match sized_u64(
        environment,
        "MAX_STATEMENT_PAYLOAD_KB",
        1536,
        KILOBYTE,
    ) {
        Ok(size) => size,
        Err(error) => return Err(error),
    };
    if payload < record {
        return Err(
            ConfigError::InvalidEnvironment {
                name: "MAX_STATEMENT_PAYLOAD_KB",
                value: decimal_text(payload_kb),
                requirement: "must be at least MAX_CSV_RECORD_KB",
            },
        );
    }
    if payload > D1_MAX_VALUE_BYTES {
        return Err(
            ConfigError::InvalidEnvironment {
                name: "MAX_STATEMENT_PAYLOAD_KB",
                value: decimal_text(payload_kb),
                requirement: "must not exceed D1's 2,000,000-byte string-value limit",
            },
        );
    }
    let (storage_mb, storage) = match sized_u64(
        environment,
        "MAX_TEMP_FEED_STORAGE_MB",
        2048,
        MEGABYTE,
    ) {
        Ok(size) => size,
        Err(error) => return Err(error),
    };
    if storage < download {
        return Err(
            ConfigError::InvalidEnvironment {
                name: "MAX_TEMP_FEED_STORAGE_MB",
                value: decimal_text(storage_mb),
                requirement: "must be at least MAX_FEED_DOWNLOAD_MB",
            },
        );
    }
    Ok(Sizes { threshold, download, uncompressed, record, payload, storage })
}

fn read_groups(environment: &Vec<Variable>) -> (read: Result<Groups, ConfigError>)
    ensures
        reads(read, groups(environment@)),
{
    let rows: usize = match bounded_usize(environment, "QUERY_STATEMENT_BATCH_SIZE", 1000, 10_000) {
        Ok(count) => count,
        Err(error) => return Err(error),
    };
    let statements: usize = match bounded_usize(environment, "D1_STATEMENTS_PER_REQUEST", 4, 16) {
        Ok(count) => count,
        Err(error) => return Err(error),
    };
    let writes: u64 = match positive_u64(
        environment,
        "MAX_D1_ROWS_WRITTEN_PER_WORKFLOW",
        100_000,
    ) {
        Ok(count) => count,
        Err(error) => return Err(error),
    };
    assert(rows * statements <= 10_000 * 16) by (nonlinear_arith)
        requires
            rows <= 10_000,
            statements <= 16,
    ;
    let group_rows: u64 = rows as u64 * statements as u64;
    if group_rows * 2 > writes {
        return Err(
            ConfigError::InvalidEnvironment {
                name: "MAX_D1_ROWS_WRITTEN_PER_WORKFLOW",
                value: decimal_text(writes),
                requirement:
                    "must reserve at least two indexed D1 writes for every row in one maximum statement group",
            },
        );
    }
    Ok(Groups { rows, statements, writes })
}

impl RuntimeConfig {
    /// The limits that the environment sets, with the number of CPUs where it
    /// was detected; or the first variable that is not in order.
    pub fn from_env(environment: &Vec<Variable>, detected_parallelism: Option<usize>) -> (read:
        Result<RuntimeConfig, ConfigError>)
        ensures
            reads(read, limits(environment@, detected_parallelism)),
    {
        let size = match read_sizes(environment) {
            Ok(size) => size,
            Err(error) => return Err(error),
        };
        let group = match read_groups(environment) {
            Ok(group) => group,
            Err(error) => return Err(error),
        };
        let parallelism: usize = match detected_parallelism {
            None => 2,
            Some(n) => if n < 1 {
                1
            } else if n > 8 {
                8
            } else {
                n
            },
        };
        let csv_concurrency_limit: usize = match bounded_usize(
            environment,
            "CSV_CONCURRENCY_LIMIT",
            parallelism,
            64,
        ) {
            Ok(count) => count,
            Err(error) => return Err(error),
        };
        let d1_global_concurrency_limit: usize = match bounded_usize(
            environment,
            "D1_CONCURRENCY_LIMIT",
            6,
            64,
        ) {
            Ok(count) => count,
            Err(error) => return Err(error),
        };
        let d1_database_concurrency_limit: usize = match bounded_usize(
            environment,
            "D1_DATABASE_CONCURRENCY_LIMIT",
            1,
            16,
        ) {
            Ok(count) => count,
            Err(error) => return Err(error),
        };
        let d1_max_databases: usize = match bounded_usize(
            environment,
            "D1_MAX_DATABASES",
            10,
            50_000,
        ) {
            Ok(count) => count,
            Err(error) => return Err(error),
        };
        let max_rows_per_workflow: u64 = match positive_u64_alias(
            environment,
            "MAX_ROWS_PER_WORKFLOW",
            "MAX_ROWS_PER_RUN",
            1_750_000,
        ) {
            Ok(count) => count,
            Err(error) => return Err(error),
        };
        Ok(
            RuntimeConfig {
                csv_concurrency_limit,
                d1_global_concurrency_limit,
                d1_database_concurrency_limit,
                d1_max_databases,
                query_statement_batch_size: group.rows,
                d1_statements_per_request: group.statements,
                max_d1_rows_written_per_workflow: group.writes,
                max_rows_per_workflow,
                max_feed_download_bytes: size.download,
                max_uncompressed_feed_bytes: size.uncompressed,
                max_csv_record_bytes: size.record,
                max_statement_payload_bytes: size.payload,
                max_temp_feed_storage_bytes: size.storage,
                db_size_threshold_bytes: size.threshold,
                http_connect_timeout: 10,
                http_request_timeout: 120,
                d1_query_timeout: 35,
            },
        )
    }
}

/// Limits that fit together: all are positive, a record fits into a feed and
/// into a payload, a payload into a value of D1, a download into the temporary
/// storage, and one full group into the writes of a workflow.
pub open spec fn is_consistent(config: RuntimeConfig) -> bool {
    &&& 1 <= config.csv_concurrency_limit <= 64
    &&& 1 <= config.d1_global_concurrency_limit <= 64
    &&& 1 <= config.d1_database_concurrency_limit <= 16
    &&& 1 <= config.d1_max_databases <= 50_000
    &&& 1 <= config.query_statement_batch_size <= 10_000
    &&& 1 <= config.d1_statements_per_request <= 16
    &&& 1 <= config.max_rows_per_workflow
    &&& 1 <= config.db_size_threshold_bytes
    &&& 1 <= config.max_feed_download_bytes <= config.max_temp_feed_storage_bytes
    &&& 1 <= config.max_csv_record_bytes <= config.max_uncompressed_feed_bytes
    &&& config.max_csv_record_bytes <= config.max_statement_payload_bytes <= D1_MAX_VALUE_BYTES
    &&& config.query_statement_batch_size * config.d1_statements_per_request * 2
        <= config.max_d1_rows_written_per_workflow
}

proof fn lemma_sized_is_positive(
    environment: Seq<Variable>,
    name: Seq<char>,
    default: u64,
    unit: u64,
)
    requires
        default > 0,
        unit > 0,
    ensures
        sized(environment, name, default, unit) matches Ok(bytes) ==> bytes > 0,
{
    if let Ok(n) = positive(environment, name, default) {
        assert(n * unit > 0) by (nonlinear_arith)
            requires
                n > 0,
                unit > 0,
        ;
    }
}

/// The limits that any environment sets fit together.
pub proof fn law_limits_are_consistent(environment: Seq<Variable>, detected: Option<usize>)
    ensures
        limits(environment, detected) matches Ok(config) ==> is_consistent(config),
{
    lemma_sized_is_positive(environment, "DB_SIZE_THRESHOLD_MB"@, 400, MEGABYTE);
    lemma_sized_is_positive(environment, "MAX_FEED_DOWNLOAD_MB"@, 256, MEGABYTE);
    lemma_sized_is_positive(environment, "MAX_CSV_RECORD_KB"@, 512, KILOBYTE);
}

} // verus!
