//! Rotating the database of a provider: a new one takes over when the old one is
//! nearly full, and the file of the providers records both.
use crate::importer::d1::D1DatabaseInfo;
use crate::importer::fault::{D1Error, ProcessorError, ProcessorErrorView};
use crate::importer::file_task::api_fault;
use crate::number::{decimal, push_decimal};
use crate::outside::clock::{compact_text, rfc3339_text, Timestamp};
use crate::outside::toml_text::{
    optional_texts, pair_texts, push_table, read_strings, set_string, strings_of, value_under,
    with_new_table, with_string,
};
use crate::text::{opt_text, same_text};
use vstd::prelude::*;
use vstd::string::*;

verus! {

// ---------------------------------------------------------------------------
// The file of the providers
// ---------------------------------------------------------------------------
/// The index of the first string of a list that is this text, or the length.
pub open spec fn first_index(list: Seq<Option<Seq<char>>>, text: Seq<char>) -> int
    decreases list.len(),
{
    if list.len() == 0 || list[0] == Some(text) {
        0
    } else {
        1 + first_index(list.drop_first(), text)
    }
}

proof fn lemma_first_index(list: Seq<Option<Seq<char>>>, text: Seq<char>, at: int)
    requires
        0 <= at <= list.len(),
        forall|k: int| 0 <= k < at ==> #[trigger] list[k] != Some(text),
        at < list.len() ==> list[at] == Some(text),
    ensures
        first_index(list, text) == at,
    decreases list.len(),
{
    if list.len() > 0 && at > 0 {
        let rest = list.drop_first();
        assert(list[0] != Some(text));
        assert forall|k: int| 0 <= k < at - 1 implies #[trigger] rest[k] != Some(text) by {
            assert(rest[k] == list[k + 1]);
        }
        lemma_first_index(rest, text, at - 1);
    }
}

/// The index of the first provider of a name.
pub fn find_provider(names: &Vec<Option<String>>, name: &str) -> (index: Option<usize>)
    ensures
        match index {
            Some(i) => i < names@.len() && i == first_index(optional_texts(names@), name@),
            None => first_index(optional_texts(names@), name@) == names@.len(),
        },
{
    let ghost all = optional_texts(names@);
    let mut i: usize = 0;
    while i < names.len()
        invariant
            i <= names@.len(),
            all == optional_texts(names@),
            forall|k: int| 0 <= k < i ==> #[trigger] all[k] != Some(name@),
        decreases names.len() - i,
    {
        assert(all[i as int] == opt_text(names@[i as int]));
        if let Some(text) = &names[i] {
            if same_text(text.as_str(), name) {
                proof {
                    lemma_first_index(all, name@, i as int);
                }
                return Some(i);
            }
        }
        i += 1;
    }
    proof {
        lemma_first_index(all, name@, i as int);
    }
    None
}

/// Whether a database is recorded among some identifiers.
pub fn is_recorded(ids: &Vec<Option<String>>, database_id: &str) -> (yes: bool)
    ensures
        yes == optional_texts(ids@).contains(Some(database_id@)),
{
    let ghost all = optional_texts(ids@);
    let mut i: usize = 0;
    while i < ids.len()
        invariant
            i <= ids@.len(),
            all == optional_texts(ids@),
            forall|k: int| 0 <= k < i ==> #[trigger] all[k] != Some(database_id@),
        decreases ids.len() - i,
    {
        assert(all[i as int] == opt_text(ids@[i as int]));
        if let Some(text) = &ids[i] {
            if same_text(text.as_str(), database_id) {
                assert(all[i as int] == Some(database_id@));
                return true;
            }
        }
        i += 1;
    }
    false
}

/// What to record of a rotation.
#[derive(Debug)]
pub struct RotationRecord {
    pub provider_name: String,
    pub retired_database_id: String,
    pub retired_database_name: String,
    pub database_id: String,
    pub retired_at: String,
}

/// What the file keeps of a retired database.
pub open spec fn retired_pairs(record: RotationRecord) -> Seq<(Seq<char>, Seq<char>)> {
    seq![
        ("provider"@, record.provider_name@),
        ("name"@, record.retired_database_name@),
        ("database_id"@, record.retired_database_id@),
        ("retired_at"@, record.retired_at@),
    ]
}

/// The strings under a key of the providers of a file, where it has any.
pub open spec fn provider_strings(content: Seq<char>, key: Seq<char>) -> Seq<Option<Seq<char>>> {
    match strings_of(content, "providers"@, key) {
        Ok(Some(list)) => list,
        _ => seq![],
    }
}

/// The strings under a key of the retired databases of a file, where it can have
/// any.
pub open spec fn retired_strings(content: Seq<char>, key: Seq<char>) -> Option<
    Seq<Option<Seq<char>>>,
> {
    match strings_of(content, "retired_databases"@, key) {
        Ok(read) => read,
        Err(_) => None,
    }
}

/// The database is listed as retired.
pub open spec fn is_retired(content: Seq<char>, database_id: Seq<char>) -> bool {
    retired_strings(content, "database_id"@) matches Some(ids) && ids.contains(Some(database_id))
}

/// The text of the file with the new database of the provider, and with the old
/// one among those that are retired, once.
pub open spec fn recorded(content: Seq<char>, index: usize, record: RotationRecord) -> Seq<char> {
    let updated = with_string(
        content,
        "providers"@,
        index,
        "database_id"@,
        record.database_id@,
    );
    if is_retired(content, record.retired_database_id@) {
        updated
    } else {
        with_new_table(updated, "retired_databases"@, retired_pairs(record))
    }
}

/// The providers of a text are those of another, but that one has another database.
pub open spec fn providers_moved(
    text: Seq<char>,
    content: Seq<char>,
    index: int,
    database_id: Seq<char>,
) -> bool {
    let ids = provider_strings(content, "database_id"@);
    &&& provider_strings(text, "name"@) == provider_strings(content, "name"@)
    &&& index < ids.len()
    &&& provider_strings(text, "database_id"@) == ids.update(index, Some(database_id))
}

/// The retired databases of a text are those of another and one more, with this
/// under a key.
pub open spec fn retired_more(
    text: Seq<char>,
    content: Seq<char>,
    key: Seq<char>,
    value: Seq<char>,
) -> bool {
    retired_strings(content, key) matches Some(list) && retired_strings(text, key) == Some(
        list.push(Some(value)),
    )
}

/// The file tells what is recorded of a rotation: the provider's new database, and
/// of the old one, unless it was listed already, the provider, the name, the
/// identifier and the time.
pub open spec fn tells(
    text: Seq<char>,
    content: Seq<char>,
    index: int,
    record: RotationRecord,
) -> bool {
    &&& providers_moved(text, content, index, record.database_id@)
    &&& if is_retired(content, record.retired_database_id@) {
        forall|key: Seq<char>| #[trigger]
            retired_strings(text, key) == retired_strings(content, key)
    } else {
        &&& retired_more(text, content, "provider"@, record.provider_name@)
        &&& retired_more(text, content, "name"@, record.retired_database_name@)
        &&& retired_more(text, content, "database_id"@, record.retired_database_id@)
        &&& retired_more(text, content, "retired_at"@, record.retired_at@)
    }
}

/// The text parses.
pub open spec fn parses(text: Seq<char>) -> bool {
    forall|array: Seq<char>, key: Seq<char>| #[trigger] strings_of(text, array, key) is Ok
}

/// The pairs of a retired database.
fn pairs_of(record: &RotationRecord) -> (pairs: Vec<(String, String)>)
    ensures
        pair_texts(pairs@) == retired_pairs(*record),
{
    let mut pairs: Vec<(String, String)> = Vec::new();
    pairs.push(("provider".to_owned(), record.provider_name.clone()));
    pairs.push(("name".to_owned(), record.retired_database_name.clone()));
    pairs.push(("database_id".to_owned(), record.retired_database_id.clone()));
    pairs.push(("retired_at".to_owned(), record.retired_at.clone()));
    assert(pair_texts(pairs@) =~= retired_pairs(*record));
    pairs
}

/// The names of the arrays and of the keys differ.
proof fn lemma_names_differ()
    ensures
        "providers"@ != "retired_databases"@,
        "provider"@ != "name"@,
        "provider"@ != "database_id"@,
        "provider"@ != "retired_at"@,
        "name"@ != "database_id"@,
        "name"@ != "retired_at"@,
        "database_id"@ != "retired_at"@,
{
    reveal_strlit("providers");
    reveal_strlit("retired_databases");
    reveal_strlit("provider");
    reveal_strlit("name");
    reveal_strlit("database_id");
    reveal_strlit("retired_at");
    assert("providers"@.len() == 9 && "retired_databases"@.len() == 17);
    assert("provider"@.len() == 8 && "name"@.len() == 4);
    assert("database_id"@.len() == 11 && "retired_at"@.len() == 10);
}

/// Each key of a retired database has its own string.
proof fn lemma_retired_values(record: RotationRecord)
    ensures
        value_under(retired_pairs(record), "provider"@) == Some(record.provider_name@),
        value_under(retired_pairs(record), "name"@) == Some(record.retired_database_name@),
        value_under(retired_pairs(record), "database_id"@) == Some(record.retired_database_id@),
        value_under(retired_pairs(record), "retired_at"@) == Some(record.retired_at@),
{
    lemma_names_differ();
    let all = retired_pairs(record);
    let three = all.drop_last();
    let two = three.drop_last();
    let one = two.drop_last();
    assert(all.last() == all[3] && three.last() == all[2]);
    assert(two.last() == all[1] && one.last() == all[0]);
    assert(value_under(one, "provider"@) == Some(record.provider_name@));
    assert(value_under(two, "provider"@) == Some(record.provider_name@));
    assert(value_under(three, "provider"@) == Some(record.provider_name@));
    assert(value_under(two, "name"@) == Some(record.retired_database_name@));
    assert(value_under(three, "name"@) == Some(record.retired_database_name@));
    assert(value_under(three, "database_id"@) == Some(record.retired_database_id@));
}

/// Records a rotation in the text of the file of the providers: the provider gets
/// its new database, and the old one is listed as retired, unless it is already.
/// Where the text that results parses, all of it is read back from it.
pub fn persist_database_id(path: &str, content: &str, record: &RotationRecord) -> (written: Result<
    String,
    ProcessorError,
>)
    ensures
        ({
            let names = provider_strings(content@, "name"@);
            let index = first_index(names, record.provider_name@);
            match written {
                Err(error) => if let Err(reason) = strings_of(content@, "providers"@, "name"@) {
                    error@ == api_fault("Failed to parse "@ + path@ + ": "@ + reason)
                } else if index >= names.len() {
                    error@ == api_fault(
                        "Provider "@ + record.provider_name@ + " was not found in "@ + path@,
                    )
                } else {
                    retired_strings(content@, "database_id"@) is None && error@ == api_fault(
                        "retired_databases in "@ + path@ + " is not an array of tables"@,
                    )
                },
                Ok(text) => {
                    &&& 0 <= index < names.len()
                    &&& retired_strings(content@, "database_id"@) is Some
                    &&& text@ == recorded(content@, index as usize, *record)
                    &&& parses(text@) ==> tells(text@, content@, index, *record)
                },
            }
        }),
{
    let names = match read_strings(content, "providers", "name") {
        Err(reason) => {
            let mut message = "Failed to parse ".to_owned();
            message.append(path);
            message.append(": ");
            message.append(reason.as_str());
            return Err(ProcessorError::api(message));
        },
        Ok(Some(list)) => list,
        Ok(None) => Vec::new(),
    };
    assert(optional_texts(names@) =~= provider_strings(content@, "name"@));
    let index: usize = match find_provider(&names, record.provider_name.as_str()) {
        Some(index) => index,
        None => {
            let mut message = "Provider ".to_owned();
            message.append(record.provider_name.as_str());
            message.append(" was not found in ");
            message.append(path);
            return Err(ProcessorError::api(message));
        },
    };
    proof {
        lemma_names_differ();
        lemma_retired_values(*record);
    }
    let updated = set_string(
        content,
        "providers",
        index,
        "database_id",
        record.database_id.as_str(),
    );
    assert(providers_moved(updated@, content@, index as int, record.database_id@));
    let retired = match read_strings(updated.as_str(), "retired_databases", "database_id") {
        Ok(Some(list)) => list,
        _ => {
            let mut message = "retired_databases in ".to_owned();
            message.append(path);
            message.append(" is not an array of tables");
            return Err(ProcessorError::api(message));
        },
    };
    assert(retired_strings(updated@, "database_id"@) == retired_strings(content@, "database_id"@));
    if is_recorded(&retired, record.retired_database_id.as_str()) {
        assert forall|key: Seq<char>| #[trigger] retired_strings(updated@, key) == retired_strings(
            content@,
            key,
        ) by {
            assert(strings_of(updated@, "retired_databases"@, key) == strings_of(
                content@,
                "retired_databases"@,
                key,
            ));
        }
        return Ok(updated);
    }
    let pairs = pairs_of(record);
    let text = push_table(updated.as_str(), "retired_databases", &pairs);
    proof {
        if parses(text@) {
            assert(strings_of(text@, "providers"@, "name"@) is Ok);
            assert(strings_of(text@, "providers"@, "database_id"@) is Ok);
            assert(providers_moved(text@, content@, index as int, record.database_id@));
            assert(strings_of(text@, "retired_databases"@, "provider"@) is Ok);
            assert(strings_of(text@, "retired_databases"@, "name"@) is Ok);
            assert(strings_of(text@, "retired_databases"@, "database_id"@) is Ok);
            assert(strings_of(text@, "retired_databases"@, "retired_at"@) is Ok);
            assert(tells(text@, content@, index as int, *record));
        }
    }
    Ok(text)
}

// ---------------------------------------------------------------------------
// The rotation
// ---------------------------------------------------------------------------
/// What a rotation waits for.
#[derive(Debug)]
pub enum RotationPhase {
    Describing,
    Counting { old_name: String },
    Creating { old_name: String, at: Timestamp },
    ApplyingSchema { old_name: String, at: Timestamp, new_id: String },
    Recording { new_id: String },
    Deleting { error: ProcessorError },
}

/// Something that a rotation waited for.
#[derive(Debug)]
pub enum RotationEvent {
    Described(Result<D1DatabaseInfo, D1Error>),
    /// The databases of the account, and the time.
    Counted(Result<u64, D1Error>, Timestamp),
    /// The new database, and whether there is a schema for it.
    Created(Result<String, D1Error>, bool),
    SchemaApplied(Result<(), D1Error>),
    Recorded(Result<(), ProcessorError>),
    /// The new database was deleted, or not.
    Deleted,
}

/// What to do next for a rotation.
#[derive(Debug)]
pub enum RotationAction {
    /// Count the databases while no other rotation runs.
    Count,
    Create(String),
    ApplySchema(String),
    Record(RotationRecord),
    Delete(String),
}

/// The rotation of one database.
#[derive(Debug)]
pub struct RotationTask {
    pub provider_name: String,
    pub database_id: String,
    pub threshold_bytes: u64,
    pub max_databases: usize,
    /// The database holds the ledger of the daily budget.
    pub holds_ledger: bool,
    pub phase: RotationPhase,
}

/// What comes after an event: another action, or the new database if there is one.
#[derive(Debug)]
pub enum RotationStep {
    Continue(RotationTask, RotationAction),
    Finish(Result<Option<String>, ProcessorError>),
}

/// The event is what the rotation waits for.
pub open spec fn rotation_awaits(phase: RotationPhase, event: RotationEvent) -> bool {
    match event {
        RotationEvent::Described(_) => phase is Describing,
        RotationEvent::Counted(_, _) => phase is Counting,
        RotationEvent::Created(_, _) => phase is Creating,
        RotationEvent::SchemaApplied(_) => phase is ApplyingSchema,
        RotationEvent::Recorded(_) => phase is Recording,
        RotationEvent::Deleted => phase is Deleting,
    }
}

/// The name of a new database of a provider.
pub open spec fn new_database_name(provider: Seq<char>, at: Timestamp) -> Seq<char> {
    "gtfs-"@ + provider + "-db-"@ + compact_text(at.spec_seconds(), at.spec_nanoseconds())
}

/// The text of the error of an account that is full.
pub open spec fn account_full_message(count: u64, maximum: usize) -> Seq<char> {
    "Database rotation requires a new D1 database, but the account already has "@ + decimal(
        count as nat,
    ) + "/"@ + decimal(maximum as nat)
        + ". Archive and delete an obsolete database before retrying."@
}

impl RotationStep {
    /// The rotation fails with this error.
    pub open spec fn fails(&self, error: ProcessorErrorView) -> bool {
        *self matches RotationStep::Finish(Err(given)) && given@ == error
    }

    /// The new database is deleted, and the rotation fails afterwards.
    pub open spec fn undoes(&self, new_id: Seq<char>, error: ProcessorErrorView) -> bool {
        *self matches RotationStep::Continue(next, RotationAction::Delete(id)) && id@ == new_id && (
        next.phase matches RotationPhase::Deleting { error: kept } && kept@ == error)
    }
}

impl RotationTask {
    /// What the rotation is about stays the same.
    pub open spec fn same_subject(&self, other: &RotationTask) -> bool {
        &&& self.provider_name == other.provider_name
        &&& self.database_id == other.database_id
        &&& self.threshold_bytes == other.threshold_bytes
        &&& self.max_databases == other.max_databases
        &&& self.holds_ledger == other.holds_ledger
    }

    fn go_on(self, phase: RotationPhase, action: RotationAction) -> (step: RotationStep)
        ensures
            step matches RotationStep::Continue(next, given) && next.same_subject(&self)
                && next.phase == phase && given == action,
    {
        RotationStep::Continue(RotationTask { phase, ..self }, action)
    }

    /// What to do after an event. The database stays where it is below the
    /// threshold; the one with the ledger never rotates; and a new database that
    /// cannot be set up is deleted again.
    pub fn rotate_database_if_needed(self, event: RotationEvent) -> (step: RotationStep)
        requires
            rotation_awaits(self.phase, event),
        ensures
            match event {
                RotationEvent::Described(Err(error)) => step.fails(ProcessorErrorView::D1(error@)),
                RotationEvent::Described(Ok(database)) => if database.file_size
                    < self.threshold_bytes {
                    step matches RotationStep::Finish(Ok(None))
                } else if self.holds_ledger {
                    step.fails(
                        api_fault(
                            "The daily-budget database cannot rotate automatically; preserve its ledger when moving it"@,
                        ),
                    )
                } else {
                    step matches RotationStep::Continue(next, RotationAction::Count)
                        && next.same_subject(&self) && (
                    next.phase matches RotationPhase::Counting { old_name } && old_name
                        == database.name)
                },
                RotationEvent::Counted(Err(error), _) => step.fails(ProcessorErrorView::D1(error@)),
                RotationEvent::Counted(Ok(count), at) => if count >= self.max_databases {
                    step.fails(api_fault(account_full_message(count, self.max_databases)))
                } else {
                    step matches RotationStep::Continue(next, RotationAction::Create(name)) && name@
                        == new_database_name(self.provider_name@, at) && next.same_subject(&self)
                        && next.phase == (RotationPhase::Creating {
                        old_name: self.phase->Counting_old_name,
                        at,
                    })
                },
                RotationEvent::Created(Err(error), _) => step.fails(ProcessorErrorView::D1(error@)),
                RotationEvent::Created(Ok(new_id), has_schema) => if !has_schema {
                    step.undoes(
                        new_id@,
                        api_fault("No schema SQL found for provider "@ + self.provider_name@),
                    )
                } else {
                    step matches RotationStep::Continue(next, RotationAction::ApplySchema(id))
                        && id@ == new_id@ && next.same_subject(&self) && (
                    next.phase matches RotationPhase::ApplyingSchema { old_name, at, new_id: kept }
                        && old_name == self.phase->Creating_old_name && at
                        == self.phase->Creating_at && kept@ == new_id@)
                },
                RotationEvent::SchemaApplied(Err(error)) => step.undoes(
                    self.phase->ApplyingSchema_new_id@,
                    ProcessorErrorView::D1(error@),
                ),
                RotationEvent::SchemaApplied(Ok(())) => {
                    &&& step matches RotationStep::Continue(next, RotationAction::Record(record))
                        && next.same_subject(&self) && (
                    next.phase matches RotationPhase::Recording { new_id } && new_id@
                        == self.phase->ApplyingSchema_new_id@) && record.provider_name@
                        == self.provider_name@ && record.retired_database_id@ == self.database_id@
                        && record.retired_database_name@ == self.phase->ApplyingSchema_old_name@
                        && record.database_id@ == self.phase->ApplyingSchema_new_id@
                        && record.retired_at@ == rfc3339_text(
                        self.phase->ApplyingSchema_at.spec_seconds(),
                        self.phase->ApplyingSchema_at.spec_nanoseconds(),
                    )
                },
                RotationEvent::Recorded(Err(error)) => step.undoes(
                    self.phase->Recording_new_id@,
                    error@,
                ),
                RotationEvent::Recorded(Ok(())) => {
                    &&& step matches RotationStep::Finish(Ok(Some(id))) && id@
                        == self.phase->Recording_new_id@
                },
                RotationEvent::Deleted => step.fails(self.phase->Deleting_error@),
            },
    {
        let RotationTask {
            provider_name,
            database_id,
            threshold_bytes,
            max_databases,
            holds_ledger,
            phase,
        } = self;
        let task = RotationTask {
            provider_name,
            database_id,
            threshold_bytes,
            max_databases,
            holds_ledger,
            phase: RotationPhase::Describing,
        };
        match event {
            RotationEvent::Described(described) => match described {
                Err(error) => RotationStep::Finish(Err(ProcessorError::D1(error))),
                Ok(database) => {
                    if database.file_size < task.threshold_bytes {
                        return RotationStep::Finish(Ok(None));
                    }
                    if task.holds_ledger {
                        return RotationStep::Finish(
                            Err(
                                ProcessorError::api(
                                    "The daily-budget database cannot rotate automatically; preserve its ledger when moving it".to_owned(),
                                ),
                            ),
                        );
                    }
                    task.go_on(
                        RotationPhase::Counting { old_name: database.name },
                        RotationAction::Count,
                    )
                },
            },
            RotationEvent::Counted(counted, at) => match counted {
                Err(error) => RotationStep::Finish(Err(ProcessorError::D1(error))),
                Ok(count) => {
                    if count >= task.max_databases as u64 {
                        let mut message =
                            "Database rotation requires a new D1 database, but the account already has ".to_owned();
                        push_decimal(&mut message, count as u128);
                        message.append("/");
                        push_decimal(&mut message, task.max_databases as u128);
                        message.append(
                            ". Archive and delete an obsolete database before retrying.",
                        );
                        return RotationStep::Finish(Err(ProcessorError::api(message)));
                    }
                    let mut name = "gtfs-".to_owned();
                    name.append(task.provider_name.as_str());
                    name.append("-db-");
                    name.append(at.compact().as_str());
                    match phase {
                        RotationPhase::Counting { old_name } => task.go_on(
                            RotationPhase::Creating { old_name, at },
                            RotationAction::Create(name),
                        ),
                        _ => RotationStep::Finish(Ok(None)),
                    }
                },
            },
            RotationEvent::Created(created, has_schema) => match created {
                Err(error) => RotationStep::Finish(Err(ProcessorError::D1(error))),
                Ok(new_id) => {
                    if !has_schema {
                        let mut message = "No schema SQL found for provider ".to_owned();
                        message.append(task.provider_name.as_str());
                        return task.go_on(
                            RotationPhase::Deleting { error: ProcessorError::api(message) },
                            RotationAction::Delete(new_id),
                        );
                    }
                    let id = new_id.clone();
                    match phase {
                        RotationPhase::Creating { old_name, at } => task.go_on(
                            RotationPhase::ApplyingSchema { old_name, at, new_id },
                            RotationAction::ApplySchema(id),
                        ),
                        _ => RotationStep::Finish(Ok(None)),
                    }
                },
            },
            RotationEvent::SchemaApplied(applied) => match phase {
                RotationPhase::ApplyingSchema { old_name, at, new_id } => match applied {
                    Err(error) => task.go_on(
                        RotationPhase::Deleting { error: ProcessorError::D1(error) },
                        RotationAction::Delete(new_id),
                    ),
                    Ok(()) => {
                        let record = RotationRecord {
                            provider_name: task.provider_name.clone(),
                            retired_database_id: task.database_id.clone(),
                            retired_database_name: old_name,
                            database_id: new_id.clone(),
                            retired_at: at.rfc3339(),
                        };
                        task.go_on(
                            RotationPhase::Recording { new_id },
                            RotationAction::Record(record),
                        )
                    },
                },
                _ => RotationStep::Finish(Ok(None)),
            },
            RotationEvent::Recorded(persisted) => match phase {
                RotationPhase::Recording { new_id } => match persisted {
                    Err(error) => task.go_on(
                        RotationPhase::Deleting { error },
                        RotationAction::Delete(new_id),
                    ),
                    Ok(()) => RotationStep::Finish(Ok(Some(new_id))),
                },
                _ => RotationStep::Finish(Ok(None)),
            },
            RotationEvent::Deleted => match phase {
                RotationPhase::Deleting { error } => RotationStep::Finish(Err(error)),
                _ => RotationStep::Finish(Ok(None)),
            },
        }
    }
}

} // verus!
