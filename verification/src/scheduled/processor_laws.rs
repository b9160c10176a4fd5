//! What holds of every import of a CSV file.
use crate::importer::d1::SqlValueView;
use crate::importer::record::{record_fault, RecordRead};
use crate::scheduled::config::{rows_per_statement, D1_MAX_BATCH_STATEMENTS, D1_MAX_BOUND_PARAMS};
use crate::scheduled::processor::{
    buffered_statement, imported, last_import_batch, next_import_record, row_values,
    with_import_row, Buffered, Import, Statement,
};
use vstd::prelude::*;

verus! {

// ---------------------------------------------------------------------------
// Bounds
// ---------------------------------------------------------------------------
/// The statement binds no more parameters than one may have. (A single row is
/// sent whatever its width.)
pub open spec fn statement_fits(import: Import, statement: Statement) -> bool {
    statement.params.len() <= D1_MAX_BOUND_PARAMS || statement.params.len() == import.indices.len()
}

/// All statements of a list fit.
pub open spec fn statements_fit(import: Import, statements: Seq<Statement>) -> bool {
    forall|i: int| 0 <= i < statements.len() ==> statement_fits(import, #[trigger] statements[i])
}

/// The batch holds a statement, not more than one may have, and all of them fit.
pub open spec fn batch_fits(import: Import, batch: Seq<Statement>) -> bool {
    1 <= batch.len() <= D1_MAX_BATCH_STATEMENTS && statements_fit(import, batch)
}

/// A place that an import can reach: fewer rows wait than a statement may have, and
/// fewer statements than a batch may have.
pub open spec fn may_buffer(import: Import, state: Buffered) -> bool {
    &&& import.indices.len() > 0
    &&& import.rows_per_insert == rows_per_statement(import.indices.len())
    &&& state.rows < import.rows_per_insert
    &&& state.params.len() == state.rows * import.indices.len()
    &&& state.statements.len() < D1_MAX_BATCH_STATEMENTS
    &&& statements_fit(import, state.statements)
}

proof fn lemma_rows_fit(import: Import, rows: nat)
    requires
        import.indices.len() > 0,
        import.rows_per_insert == rows_per_statement(import.indices.len()),
        rows <= import.rows_per_insert,
    ensures
        rows * import.indices.len() <= D1_MAX_BOUND_PARAMS || rows * import.indices.len()
            == import.indices.len(),
{
    let columns = import.indices.len();
    let fitting = D1_MAX_BOUND_PARAMS as nat / columns;
    vstd::arithmetic::div_mod::lemma_fundamental_div_mod(D1_MAX_BOUND_PARAMS as int, columns as int);
    assert(columns * fitting == fitting * columns) by (nonlinear_arith);
    if fitting >= 1 {
        assert(rows * columns <= fitting * columns) by (nonlinear_arith)
            requires
                rows <= fitting,
        ;
    } else {
        assert(rows * columns <= columns) by (nonlinear_arith)
            requires
                rows <= 1,
        ;
        if rows == 1 {
            assert(1 * columns == columns) by (nonlinear_arith);
        } else {
            assert(0 * columns == 0) by (nonlinear_arith);
        }
    }
}

proof fn lemma_one_more_statement(import: Import, statements: Seq<Statement>, statement: Statement)
    requires
        statements_fit(import, statements),
        statement_fits(import, statement),
    ensures
        statements_fit(import, statements.push(statement)),
{
    let more = statements.push(statement);
    assert forall|i: int| 0 <= i < more.len() implies statement_fits(
        import,
        #[trigger] more[i],
    ) by {
        if i < statements.len() {
            assert(more[i] == statements[i]);
        }
    }
}

/// Every batch of an import holds between one statement and the maximum, and every
/// statement binds no more parameters than one may have.
pub proof fn law_import_batches_are_bounded(import: Import, state: Buffered, processed: nat)
    requires
        may_buffer(import, state),
    ensures
        forall|i: int|
            0 <= i < imported(import, state, processed).batches.len() ==> batch_fits(
                import,
                #[trigger] imported(import, state, processed).batches[i],
            ),
    decreases import.data.len() - state.at,
{
    let read = next_import_record(import, state);
    let all = imported(import, state, processed);
    if record_fault(read, u64::MAX) is None {
        if let RecordRead::Found(fields, end) = read {
            if fields.len() == import.field_count {
                let (sent, next) = with_import_row(import, state);
                let columns = import.indices.len();
                let rows = state.rows + 1;
                let params = state.params + row_values(fields, import.indices);
                assert(rows * columns == state.rows * columns + columns) by (nonlinear_arith)
                    requires
                        rows == state.rows + 1,
                ;
                assert(0 * columns == 0) by (nonlinear_arith);
                lemma_rows_fit(import, rows);
                if rows >= import.rows_per_insert {
                    lemma_one_more_statement(
                        import,
                        state.statements,
                        buffered_statement(import, rows, params),
                    );
                }
                law_import_batches_are_bounded(import, next, processed + 1);
                let rest = imported(import, next, processed + 1);
                assert forall|i: int| 0 <= i < all.batches.len() implies batch_fits(
                    import,
                    #[trigger] all.batches[i],
                ) by {
                    if i >= sent.len() {
                        assert(all.batches[i] == rest.batches[i - sent.len()]);
                    }
                }
            }
        } else {
            lemma_rows_fit(import, state.rows);
            if state.rows > 0 {
                lemma_one_more_statement(
                    import,
                    state.statements,
                    buffered_statement(import, state.rows, state.params),
                );
            }
        }
    }
}

// ---------------------------------------------------------------------------
// Rows
// ---------------------------------------------------------------------------
/// The parameters of some statements, one after the other.
pub open spec fn statement_params(statements: Seq<Statement>) -> Seq<SqlValueView>
    decreases statements.len(),
{
    if statements.len() == 0 {
        seq![]
    } else {
        statement_params(statements.drop_last()) + statements.last().params
    }
}

/// The parameters of some batches, one after the other.
pub open spec fn batch_params(batches: Seq<Seq<Statement>>) -> Seq<SqlValueView>
    decreases batches.len(),
{
    if batches.len() == 0 {
        seq![]
    } else {
        statement_params(batches[0]) + batch_params(batches.drop_first())
    }
}

/// The parameters of a number of rows of the file from a place on.
pub open spec fn row_params(import: Import, at: nat, count: nat) -> Seq<SqlValueView>
    decreases count,
{
    if count == 0 {
        seq![]
    } else {
        let read = next_import_record(
            import,
            Buffered { at, rows: 0, params: seq![], statements: seq![] },
        );
        row_values(read->Found_0, import.indices) + row_params(
            import,
            read->Found_1,
            (count - 1) as nat,
        )
    }
}

/// Every row once, in order: the statements of an import that succeeds bind what
/// waited and then the rows of the file from the current place on, as many as were
/// processed.
pub proof fn law_rows_are_imported_once_and_in_order(
    import: Import,
    state: Buffered,
    processed: nat,
)
    requires
        imported(import, state, processed).result is Ok,
        state.rows == 0 ==> state.params.len() == 0,
    ensures
        ({
            let all = imported(import, state, processed);
            &&& all.result->Ok_0 >= processed
            &&& batch_params(all.batches) == statement_params(state.statements) + state.params
                + row_params(import, state.at, (all.result->Ok_0 - processed) as nat)
        }),
    decreases import.data.len() - state.at,
{
    let read = next_import_record(import, state);
    let all = imported(import, state, processed);
    let waiting = statement_params(state.statements) + state.params;
    match read {
        RecordRead::Found(fields, end) => {
            let (sent, next) = with_import_row(import, state);
            let rest = imported(import, next, processed + 1);
            law_rows_are_imported_once_and_in_order(import, next, processed + 1);
            let count = (all.result->Ok_0 - processed) as nat;
            let values = row_values(fields, import.indices);
            let params = state.params + values;
            let rows = state.rows + 1;
            let later = row_params(import, end, (count - 1) as nat);
            assert(row_params(import, state.at, count) == values + later);
            let full = state.statements.push(buffered_statement(import, rows, params));
            assert(full.drop_last() =~= state.statements);
            if sent.len() > 0 {
                assert(all.batches =~= seq![full] + rest.batches);
                assert(all.batches.drop_first() =~= rest.batches);
                assert(all.batches[0] == full);
            } else {
                assert(all.batches =~= rest.batches);
            }
            assert(batch_params(all.batches) =~= waiting + values + later);
            assert(waiting + values + later =~= waiting + (values + later));
        },
        _ => {
            let last = last_import_batch(import, state);
            if state.rows > 0 {
                let full = state.statements.push(
                    buffered_statement(import, state.rows, state.params),
                );
                assert(full.drop_last() =~= state.statements);
            }
            if last.len() > 0 {
                assert(batch_params(last.drop_first()) =~= seq![]);
                assert(batch_params(last) =~= statement_params(last[0]));
            }
            assert(batch_params(last) =~= waiting);
            assert(waiting + row_params(import, state.at, 0) =~= waiting);
        },
    }
}

} // verus!
