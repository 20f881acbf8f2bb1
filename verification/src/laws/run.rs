//! Laws of a run of migrations.

use vstd::prelude::*;

use crate::apply::{file_calls, run_next, run_request, run_start, RunPhaseView, RunView};
use crate::db::{oracle_error_text, BindView, OracleErrorView, SqlCallView, Timestamp};
use crate::migrations::{repeatable_row, versioned_row, MigType, MigrationView};
use crate::protocol::{ReplyView, RequestView};

verus! {

/// Of each migration the history is asked first, by its name: of a versioned one
/// how often it is there, of a repeatable one with which checksum. Without
/// migrations a run is done.
pub proof fn history_is_asked_first<P>(
    migs: Seq<MigrationView<P>>,
    placeholders: Option<Seq<(Seq<char>, Seq<char>)>>,
)
    ensures
        migs.len() == 0 ==> run_request(run_start(migs, placeholders)) == RequestView::<P>::Done,
        migs.len() > 0 && migs[0].ty == MigType::Versioned ==> run_request(
            run_start(migs, placeholders),
        ) == RequestView::<P>::Count(
            SqlCallView {
                sql: "SELECT COUNT(*) FROM MIGRATIONS_HISTORY WHERE NAME = :1 AND TYPE = 'V'"@,
                binds: seq![BindView::Text(migs[0].name)],
            },
        ),
        migs.len() > 0 && migs[0].ty == MigType::Repeatable ==> run_request(
            run_start(migs, placeholders),
        ) == RequestView::<P>::FirstColumn(
            SqlCallView {
                sql: "SELECT CHECKSUM FROM MIGRATIONS_HISTORY WHERE NAME = :1 AND TYPE = 'R'"@,
                binds: seq![BindView::Text(migs[0].name)],
            },
        ),
        run_start(migs, placeholders).left == migs,
        run_start(migs, placeholders).placeholders == placeholders,
{
}

/// A versioned migration that the history shows is passed over, and the file of one
/// that it does not show is read.
pub proof fn versioned_migration_is_applied_once<P>(
    migs: Seq<MigrationView<P>>,
    placeholders: Option<Seq<(Seq<char>, Seq<char>)>>,
    count: i64,
    now: Timestamp,
)
    requires
        migs.len() > 0,
        migs[0].ty == MigType::Versioned,
    ensures
        ({
            let next = run_next(
                run_start(migs, placeholders),
                ReplyView::<P>::Count(Ok(count)),
                now,
            );
            &&& count >= 1 ==> next == run_start(migs.skip(1), placeholders)
            &&& count < 1 ==> next == (RunView {
                left: migs,
                placeholders,
                phase: RunPhaseView::Read,
            })
            &&& count < 1 ==> run_request(next) == RequestView::ReadText(migs[0].path)
        }),
{
}

/// A repeatable migration is passed over exactly if the history shows its checksum,
/// as a number of 64 bits without sign and with none as zero; or else its file is
/// read.
pub proof fn repeatable_migration_is_applied_when_changed<P>(
    migs: Seq<MigrationView<P>>,
    placeholders: Option<Seq<(Seq<char>, Seq<char>)>>,
    row: Option<Option<i64>>,
    now: Timestamp,
)
    requires
        migs.len() > 0,
        migs[0].ty == MigType::Repeatable,
    ensures
        ({
            let next = run_next(
                run_start(migs, placeholders),
                ReplyView::<P>::FirstColumn(Ok(row)),
                now,
            );
            let current = match row {
                None => false,
                Some(None) => migs[0].checksum == 0,
                Some(Some(n)) => migs[0].checksum == if n < 0 {
                    n + 0x1_0000_0000_0000_0000
                } else {
                    n as int
                },
            };
            &&& current ==> next == run_start(migs.skip(1), placeholders)
            &&& !current ==> next == (RunView {
                left: migs,
                placeholders,
                phase: RunPhaseView::Read,
            })
            &&& !current ==> run_request(next) == RequestView::ReadText(migs[0].path)
        }),
{
    if let Some(Some(n)) = row {
        assert(n >= 0 ==> (n as u64) == n) by (bit_vector);
        assert(n < 0 ==> (n as u64) == n + 0x1_0000_0000_0000_0000) by (bit_vector);
    }
}

/// What was read is executed statement by statement, and then the migration is
/// recorded: a versioned one by a new row, a repeatable one by a new row in place
/// of the old one.
pub proof fn file_is_executed_and_then_recorded<P>(
    migs: Seq<MigrationView<P>>,
    placeholders: Option<Seq<(Seq<char>, Seq<char>)>>,
    content: Seq<char>,
    calls: Seq<SqlCallView>,
    now: Timestamp,
)
    requires
        migs.len() > 0,
    ensures
        ({
            let reading = RunView { left: migs, placeholders, phase: RunPhaseView::Read };
            let executing = RunView { left: migs, placeholders, phase: RunPhaseView::Execute(calls) };
            let recording = RunView {
                left: migs,
                placeholders,
                phase: if migs[0].ty == MigType::Versioned {
                    RunPhaseView::Record(versioned_row(migs[0], now))
                } else {
                    RunPhaseView::Forget(
                        SqlCallView {
                            sql: "DELETE FROM MIGRATIONS_HISTORY WHERE NAME = :1 AND TYPE = 'R'"@,
                            binds: seq![BindView::Text(migs[0].name)],
                        },
                        repeatable_row(migs[0], now),
                    )
                },
            };
            let read = run_next(reading, ReplyView::<P>::Text(Ok(content)), now);
            let executed = run_next(executing, ReplyView::<P>::Executed(Ok(())), now);
            let file = file_calls(content, placeholders);
            &&& file.len() == 0 ==> read == recording
            &&& file.len() > 0 ==> read == (RunView {
                left: migs,
                placeholders,
                phase: RunPhaseView::Execute(file),
            })
            &&& calls.len() > 0 ==> run_request(executing) == RequestView::<P>::Execute(calls[0])
            &&& calls.len() == 1 ==> executed == recording
            &&& calls.len() > 1 ==> executed == (RunView {
                left: migs,
                placeholders,
                phase: RunPhaseView::Execute(calls.skip(1)),
            })
        }),
{
}

/// The old row of a repeatable migration is deleted, whether that succeeds or not,
/// and the new one inserted; a row that was inserted is committed, and then comes
/// the next migration.
pub proof fn row_is_inserted_and_committed<P>(
    migs: Seq<MigrationView<P>>,
    placeholders: Option<Seq<(Seq<char>, Seq<char>)>>,
    delete: SqlCallView,
    insert: SqlCallView,
    outcome: Result<(), OracleErrorView>,
    now: Timestamp,
)
    requires
        migs.len() > 0,
    ensures
        ({
            let forgetting = RunView {
                left: migs,
                placeholders,
                phase: RunPhaseView::Forget(delete, insert),
            };
            let inserting = RunView {
                left: migs,
                placeholders,
                phase: RunPhaseView::Record(insert),
            };
            let committing = RunView { left: migs, placeholders, phase: RunPhaseView::Commit };
            &&& run_request(forgetting) == RequestView::<P>::Execute(delete)
            &&& run_next(forgetting, ReplyView::<P>::Executed(outcome), now) == inserting
            &&& run_request(inserting) == RequestView::<P>::Execute(insert)
            &&& run_next(inserting, ReplyView::<P>::Executed(Ok(())), now) == committing
            &&& run_request(committing) == RequestView::<P>::Commit
            &&& run_next(committing, ReplyView::<P>::Committed(Ok(())), now) == run_start(
                migs.skip(1),
                placeholders,
            )
        }),
{
}

/// Whatever else fails ends the run, with the report of what failed.
pub proof fn failure_ends_the_run<P>(
    run: RunView<P>,
    err: OracleErrorView,
    path: Seq<char>,
    error: Seq<char>,
    now: Timestamp,
)
    ensures
        ({
            let failed = RunView {
                left: run.left,
                placeholders: run.placeholders,
                phase: RunPhaseView::Failed(oracle_error_text(err)),
            };
            &&& run.phase is Check ==> run_next(run, ReplyView::<P>::Count(Err(err)), now) == failed
            &&& run.phase is Check ==> run_next(run, ReplyView::<P>::FirstColumn(Err(err)), now)
                == failed
            &&& run.phase is Execute ==> run_next(run, ReplyView::<P>::Executed(Err(err)), now)
                == failed
            &&& run.phase is Record ==> run_next(run, ReplyView::<P>::Executed(Err(err)), now)
                == failed
            &&& run.phase is Commit ==> run_next(run, ReplyView::<P>::Committed(Err(err)), now)
                == failed
            &&& run.phase is Read ==> run_next(
                run,
                ReplyView::<P>::Text(Err((path, error))),
                now,
            ) == (RunView {
                left: run.left,
                placeholders: run.placeholders,
                phase: RunPhaseView::Failed("failed to read "@ + path + ": "@ + error),
            })
            &&& run_request(failed) == RequestView::<P>::Failed(oracle_error_text(err))
        }),
{
}

} // verus!
