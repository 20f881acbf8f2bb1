//! Laws of how tables and indexes come to be.

use vstd::prelude::*;

use crate::db::{oracle_error_text, BindView, OracleErrorView, SqlCallView};
use crate::protocol::{ReplyView, RequestView};
use crate::schema::{
    agent_runtime_steps, ensure_after, ensure_executed, ensure_next, ensure_request, ensure_start,
    history_step, is_missing, EnsurePhaseView, EnsureStep, EnsureStepView, EnsureView, Missing,
};
use crate::text::uppercase;

verus! {

// --------------------------------------------------------- the agent runtime

/// In a database in which nothing is there, the two tables are created and then
/// three indexes on each of them, in this order and with these texts, and nothing
/// else is executed.
pub proof fn empty_database_gets_two_tables_and_six_indexes<P>(replies: Seq<ReplyView<P>>)
    requires
        replies.len() == 16,
        forall|i: int|
            0 <= i < 16 ==> (if i % 2 == 0 {
                #[trigger] replies[i] matches ReplyView::Count(Ok(n)) && n <= 0
            } else {
                replies[i] == ReplyView::<P>::Executed(Ok(()))
            }),
    ensures
        ensure_after(ensure_start(agent_runtime_steps()), replies).phase is Done,
        ({
            let calls = ensure_executed(ensure_start(agent_runtime_steps()), replies);
            &&& calls.len() == 8
            &&& forall|i: int| 0 <= i < 8 ==> (#[trigger] calls[i]).binds.len() == 0
            &&& calls[0].sql == "CREATE TABLE RESPONSES (
            RESPONSE_ID VARCHAR2(255) NOT NULL,
            CONVERSATION_STORE_ID VARCHAR2(255),
            CONVERSATION_ID VARCHAR2(255),
            PREVIOUS_RESPONSE_ID VARCHAR2(255),
            INPUT_ITEMS CLOB NOT NULL CHECK (INPUT_ITEMS IS JSON),
            RESPONSE_OBJECT CLOB NOT NULL CHECK (RESPONSE_OBJECT IS JSON),
            MODEL VARCHAR2(255) NOT NULL,
            CREATED_AT TIMESTAMP WITH TIME ZONE NOT NULL,
            EXPIRES_AT TIMESTAMP WITH TIME ZONE NOT NULL,
            CONSTRAINT PK_RESPONSES_RECORD PRIMARY KEY (RESPONSE_ID)
        )"@
            &&& calls[1].sql == "CREATE TABLE CONVERSATIONS (
            CONVERSATION_ID VARCHAR2(255) NOT NULL,
            CONVERSATION_STORE_ID VARCHAR2(255),
            CREATED_AT TIMESTAMP WITH TIME ZONE NOT NULL,
            METADATA CLOB,
            ITEMS CLOB,
            UPDATED_AT TIMESTAMP WITH TIME ZONE,
            EXPIRES_AT TIMESTAMP WITH TIME ZONE NOT NULL,
            CONSTRAINT PK_CONVERSATIONS_RECORD PRIMARY KEY (CONVERSATION_ID)
        )"@
            &&& calls[2].sql == "CREATE INDEX IX_RESP_TTL_CLEANUP ON RESPONSES (EXPIRES_AT)"@
            &&& calls[3].sql
                == "CREATE INDEX IX_RESP_RESPONSE_ID_CONVERSATION_STORE_ID ON RESPONSES (RESPONSE_ID, CONVERSATION_STORE_ID)"@
            &&& calls[4].sql
                == "CREATE INDEX IX_RESP_CONVERSATION_STORE_ID ON RESPONSES (CONVERSATION_STORE_ID)"@
            &&& calls[5].sql == "CREATE INDEX IX_CONV_TTL_CLEANUP ON CONVERSATIONS (EXPIRES_AT)"@
            &&& calls[6].sql
                == "CREATE INDEX IX_CONV_CONVERSATION_ID_CONVERSATION_STORE_ID ON CONVERSATIONS (CONVERSATION_ID, CONVERSATION_STORE_ID)"@
            &&& calls[7].sql
                == "CREATE INDEX IX_CONV_CONVERSATION_STORE_ID ON CONVERSATIONS (CONVERSATION_STORE_ID)"@
        }),
{
    let steps = agent_runtime_steps();
    assert forall|i: int| 0 <= i < steps.len() implies (#[trigger] steps[i]).missing
        == Missing::NotPositive && steps[i].follow_up is None by {}
    statements_of_missing_objects(steps, replies);
}

/// The statement that creates each index of the agent runtime is made of the name
/// that is looked for, of the table and of the columns.
pub proof fn indexes_are_created_under_the_names_looked_for()
    ensures
        ({
            let indexes: Seq<(Seq<char>, Seq<char>, Seq<char>)> = seq![
                ("IX_RESP_TTL_CLEANUP"@, "RESPONSES"@, "EXPIRES_AT"@),
                (
                    "IX_RESP_RESPONSE_ID_CONVERSATION_STORE_ID"@,
                    "RESPONSES"@,
                    "RESPONSE_ID, CONVERSATION_STORE_ID"@,
                ),
                ("IX_RESP_CONVERSATION_STORE_ID"@, "RESPONSES"@, "CONVERSATION_STORE_ID"@),
                ("IX_CONV_TTL_CLEANUP"@, "CONVERSATIONS"@, "EXPIRES_AT"@),
                (
                    "IX_CONV_CONVERSATION_ID_CONVERSATION_STORE_ID"@,
                    "CONVERSATIONS"@,
                    "CONVERSATION_ID, CONVERSATION_STORE_ID"@,
                ),
                ("IX_CONV_CONVERSATION_STORE_ID"@, "CONVERSATIONS"@, "CONVERSATION_STORE_ID"@),
            ];
            let steps = agent_runtime_steps();
            &&& steps.len() == 2 + indexes.len()
            &&& forall|i: int|
                0 <= i < indexes.len() ==> {
                    let (name, table, columns) = #[trigger] indexes[i];
                    let step = steps[i + 2];
                    &&& step.ddl.sql == "CREATE INDEX "@ + name + " ON "@ + table + " ("@ + columns
                        + ")"@
                    &&& step.probe.sql
                        == "SELECT COUNT(*) FROM user_indexes WHERE index_name = :1"@
                    &&& step.probe.binds == seq![BindView::Text(uppercase(name))]
                }
        }),
{
    reveal_strlit("CREATE INDEX ");
    reveal_strlit(" ON ");
    reveal_strlit(" (");
    reveal_strlit(")");
    reveal_strlit("RESPONSES");
    reveal_strlit("CONVERSATIONS");
    reveal_strlit("EXPIRES_AT");
    reveal_strlit("CONVERSATION_STORE_ID");
    reveal_strlit("RESPONSE_ID, CONVERSATION_STORE_ID");
    reveal_strlit("CONVERSATION_ID, CONVERSATION_STORE_ID");
    reveal_strlit("IX_RESP_TTL_CLEANUP");
    reveal_strlit("IX_RESP_RESPONSE_ID_CONVERSATION_STORE_ID");
    reveal_strlit("IX_RESP_CONVERSATION_STORE_ID");
    reveal_strlit("IX_CONV_TTL_CLEANUP");
    reveal_strlit("IX_CONV_CONVERSATION_ID_CONVERSATION_STORE_ID");
    reveal_strlit("IX_CONV_CONVERSATION_STORE_ID");
    reveal_strlit("CREATE INDEX IX_RESP_TTL_CLEANUP ON RESPONSES (EXPIRES_AT)");
    reveal_strlit(
        "CREATE INDEX IX_RESP_RESPONSE_ID_CONVERSATION_STORE_ID ON RESPONSES (RESPONSE_ID, CONVERSATION_STORE_ID)",
    );
    reveal_strlit("CREATE INDEX IX_RESP_CONVERSATION_STORE_ID ON RESPONSES (CONVERSATION_STORE_ID)");
    reveal_strlit("CREATE INDEX IX_CONV_TTL_CLEANUP ON CONVERSATIONS (EXPIRES_AT)");
    reveal_strlit(
        "CREATE INDEX IX_CONV_CONVERSATION_ID_CONVERSATION_STORE_ID ON CONVERSATIONS (CONVERSATION_ID, CONVERSATION_STORE_ID)",
    );
    reveal_strlit(
        "CREATE INDEX IX_CONV_CONVERSATION_STORE_ID ON CONVERSATIONS (CONVERSATION_STORE_ID)",
    );
    let steps = agent_runtime_steps();
    assert(steps[2].ddl.sql =~= "CREATE INDEX "@ + "IX_RESP_TTL_CLEANUP"@ + " ON "@ + "RESPONSES"@
        + " ("@ + "EXPIRES_AT"@ + ")"@);
    assert(steps[3].ddl.sql =~= "CREATE INDEX "@ + "IX_RESP_RESPONSE_ID_CONVERSATION_STORE_ID"@
        + " ON "@ + "RESPONSES"@ + " ("@ + "RESPONSE_ID, CONVERSATION_STORE_ID"@ + ")"@);
    assert(steps[4].ddl.sql =~= "CREATE INDEX "@ + "IX_RESP_CONVERSATION_STORE_ID"@ + " ON "@
        + "RESPONSES"@ + " ("@ + "CONVERSATION_STORE_ID"@ + ")"@);
    assert(steps[5].ddl.sql =~= "CREATE INDEX "@ + "IX_CONV_TTL_CLEANUP"@ + " ON "@
        + "CONVERSATIONS"@ + " ("@ + "EXPIRES_AT"@ + ")"@);
    assert(steps[6].ddl.sql =~= "CREATE INDEX "@
        + "IX_CONV_CONVERSATION_ID_CONVERSATION_STORE_ID"@ + " ON "@ + "CONVERSATIONS"@ + " ("@
        + "CONVERSATION_ID, CONVERSATION_STORE_ID"@ + ")"@);
    assert(steps[7].ddl.sql =~= "CREATE INDEX "@ + "IX_CONV_CONVERSATION_STORE_ID"@ + " ON "@
        + "CONVERSATIONS"@ + " ("@ + "CONVERSATION_STORE_ID"@ + ")"@);
}

/// Tables are looked for by their names, and no error on creating one is passed
/// over; of an index two errors are, that its name is used and that its columns
/// are indexed.
pub proof fn objects_are_looked_for_by_name(code: i32)
    ensures
        agent_runtime_steps()[0].probe == (SqlCallView {
            sql: "SELECT COUNT(*) FROM user_tables WHERE table_name = :1"@,
            binds: seq![BindView::Text(uppercase("RESPONSES"@))],
        }),
        agent_runtime_steps()[1].probe == (SqlCallView {
            sql: "SELECT COUNT(*) FROM user_tables WHERE table_name = :1"@,
            binds: seq![BindView::Text(uppercase("CONVERSATIONS"@))],
        }),
        forall|i: int|
            0 <= i < agent_runtime_steps().len() ==> (
            #[trigger] agent_runtime_steps()[i]).missing == Missing::NotPositive,
        !agent_runtime_steps()[0].tolerated.contains(code),
        !agent_runtime_steps()[1].tolerated.contains(code),
        forall|i: int|
            2 <= i < 8 ==> ((#[trigger] agent_runtime_steps()[i]).tolerated.contains(code) <==> code
                == 955 || code == 1408),
        forall|i: int|
            0 <= i < 8 ==> (#[trigger] agent_runtime_steps()[i]).follow_up is None,
{
    let steps = agent_runtime_steps();
    let codes = seq![955i32, 1408i32];
    assert(codes[0] == 955 && codes[1] == 1408);
    assert forall|i: int| 2 <= i < 8 implies ((#[trigger] steps[i]).tolerated.contains(code) <==> (
    code == 955 || code == 1408)) by {
        assert(steps[i].tolerated =~= codes);
    }
}

// ---------------------------------------------------------------- any steps

/// Where each object is missing and each statement succeeds, the statements of the
/// steps are executed one after the other, and the run is done.
pub proof fn statements_of_missing_objects<P>(
    steps: Seq<EnsureStepView>,
    replies: Seq<ReplyView<P>>,
)
    requires
        replies.len() == 2 * steps.len(),
        forall|i: int|
            0 <= i < steps.len() ==> (#[trigger] steps[i]).missing == Missing::NotPositive
                && steps[i].follow_up is None,
        forall|i: int|
            0 <= i < replies.len() ==> (if i % 2 == 0 {
                #[trigger] replies[i] matches ReplyView::Count(Ok(n)) && n <= 0
            } else {
                replies[i] == ReplyView::<P>::Executed(Ok(()))
            }),
    ensures
        ensure_after(ensure_start(steps), replies).phase is Done,
        ensure_executed(ensure_start(steps), replies).len() == steps.len(),
        forall|i: int|
            0 <= i < steps.len() ==> #[trigger] ensure_executed(ensure_start(steps), replies)[i]
                == steps[i].ddl,
    decreases steps.len(),
{
    if steps.len() > 0 {
        let rest = steps.skip(1);
        let later = replies.skip(1).skip(1);
        let run = ensure_start(steps);
        let creating = EnsureView { left: steps, phase: EnsurePhaseView::Create };
        assert(replies[0] is Count);
        assert(replies.skip(1)[0] == replies[1]);
        assert(steps[0].missing == Missing::NotPositive);
        assert(ensure_next(run, replies[0]) == creating);
        assert(ensure_next(creating, replies[1]) == ensure_start(rest));
        assert forall|i: int| 0 <= i < rest.len() implies (#[trigger] rest[i]).missing
            == Missing::NotPositive && rest[i].follow_up is None by {
            assert(rest[i] == steps[i + 1]);
        }
        assert forall|i: int| 0 <= i < later.len() implies (if i % 2 == 0 {
            #[trigger] later[i] matches ReplyView::Count(Ok(n)) && n <= 0
        } else {
            later[i] == ReplyView::<P>::Executed(Ok(()))
        }) by {
            assert(later[i] == replies[i + 2]);
        }
        statements_of_missing_objects(rest, later);
        let tail = ensure_executed(ensure_start(rest), later);
        let from_create = ensure_executed(creating, replies.skip(1));
        assert(from_create == seq![steps[0].ddl] + tail);
        assert(ensure_executed(run, replies) == from_create);
        assert(ensure_after(run, replies) == ensure_after(creating, replies.skip(1)));
        assert(ensure_after(creating, replies.skip(1)) == ensure_after(ensure_start(rest), later));
        assert forall|i: int| 0 <= i < steps.len() implies #[trigger] from_create[i]
            == steps[i].ddl by {
            if i > 0 {
                assert(tail[i - 1] == rest[i - 1].ddl);
            }
        }
    }
}

/// A step first counts the objects of its name. A count below one means that there
/// is none, except where zero alone means it.
pub proof fn count_says_what_is_missing(count: i64)
    ensures
        is_missing(Missing::NotPositive, count) <==> count < 1,
        is_missing(Missing::Zero, count) <==> count == 0,
{
}

/// A run starts with the probe of its first step, and without steps it is done.
pub proof fn run_starts_with_a_probe<P>(steps: Seq<EnsureStepView>)
    ensures
        steps.len() > 0 ==> ensure_request::<P>(ensure_start(steps)) == RequestView::<P>::Count(
            steps[0].probe,
        ),
        steps.len() == 0 ==> ensure_request::<P>(ensure_start(steps)) == RequestView::<P>::Done,
        ensure_start(steps).left == steps,
{
}

/// After the probe the object is created where it is missing, or else the next step
/// is taken; a probe that fails ends the run with the error.
pub proof fn probe_decides_what_is_done<P>(steps: Seq<EnsureStepView>, count: i64, err: OracleErrorView)
    requires
        steps.len() > 0,
    ensures
        ({
            let run = ensure_start(steps);
            let counted = ensure_next(run, ReplyView::<P>::Count(Ok(count)));
            let failed = ensure_next(run, ReplyView::<P>::Count(Err(err)));
            let missing = if steps[0].missing == Missing::Zero {
                count == 0
            } else {
                count < 1
            };
            &&& missing ==> ensure_request::<P>(counted) == RequestView::<P>::Execute(steps[0].ddl)
                && counted.left == steps
            &&& !missing ==> counted == ensure_start(steps.skip(1))
            &&& ensure_request::<P>(failed) == RequestView::<P>::Failed(oracle_error_text(err))
        }),
{
}

/// A statement that creates an object ends the run if it fails with an error that
/// is not passed over; or else what follows it comes next, and then the next step.
pub proof fn creating_decides_what_follows<P>(
    steps: Seq<EnsureStepView>,
    err: OracleErrorView,
    outcome: Result<(), OracleErrorView>,
)
    requires
        steps.len() > 0,
    ensures
        ({
            let run = EnsureView { left: steps, phase: EnsurePhaseView::Create };
            let created = ensure_next(run, ReplyView::<P>::Executed(Ok(())));
            let failed = ensure_next(run, ReplyView::<P>::Executed(Err(err)));
            let passed_over = match err.db_error {
                Some((code, _)) => steps[0].tolerated.contains(code),
                None => false,
            };
            &&& passed_over ==> failed == created
            &&& !passed_over ==> ensure_request::<P>(failed) == RequestView::<P>::Failed(
                oracle_error_text(err),
            )
            &&& steps[0].follow_up is None ==> created == ensure_start(steps.skip(1))
            &&& steps[0].follow_up matches Some(call) ==> {
                &&& ensure_request::<P>(created) == RequestView::<P>::Execute(call)
                &&& ensure_next(created, ReplyView::<P>::Executed(outcome)) == ensure_start(
                    steps.skip(1),
                )
            }
        }),
{
}

/// The view of a step shows each of its fields.
pub proof fn step_is_seen_whole(step: EnsureStep)
    ensures
        step@.probe == step.probe@,
        step@.missing == step.missing,
        step@.ddl == step.ddl@,
        step@.tolerated == step.tolerated@,
        step@.follow_up is None <==> step.follow_up is None,
        step.follow_up matches Some(call) ==> step@.follow_up == Some(call@),
{
}

// --------------------------------------------------------------- the history

/// Where there is no history table, it is created and then its index, whether that
/// succeeds or not; where there is one, nothing is executed.
pub proof fn history_table_is_created_with_its_index<P>(
    count: i64,
    outcome: Result<(), OracleErrorView>,
)
    ensures
        history_step().probe == (SqlCallView {
            sql: "SELECT COUNT(*) FROM user_tables WHERE table_name = 'MIGRATIONS_HISTORY'"@,
            binds: Seq::empty(),
        }),
        ({
            let run = ensure_start(seq![history_step()]);
            let counted = seq![ReplyView::<P>::Count(Ok(count))];
            let created = seq![
                ReplyView::<P>::Count(Ok(0)),
                ReplyView::<P>::Executed(Ok(())),
                ReplyView::<P>::Executed(outcome),
            ];
            &&& count != 0 ==> ensure_after(run, counted).phase is Done && ensure_executed(
                run,
                counted,
            ).len() == 0
            &&& ensure_after(run, created).phase is Done
            &&& ensure_executed(run, created) == seq![
                (SqlCallView {
                    sql: "CREATE TABLE MIGRATIONS_HISTORY (
                NAME VARCHAR2(256) NOT NULL,
                VERSION NUMBER(19),
                TYPE VARCHAR2(16) NOT NULL,
                CHECKSUM NUMBER(19),
                APPLIED_AT TIMESTAMP WITH TIME ZONE NOT NULL,
                CONSTRAINT PK_MIGRATIONS_HISTORY PRIMARY KEY (NAME)
            )"@,
                    binds: Seq::empty(),
                }),
                (SqlCallView {
                    sql: "CREATE INDEX MIG_HIST_VER_IDX ON MIGRATIONS_HISTORY (TYPE, VERSION)"@,
                    binds: Seq::empty(),
                }),
            ]
        }),
{
    let steps = seq![history_step()];
    let run = ensure_start(steps);
    let counted = seq![ReplyView::<P>::Count(Ok(count))];
    let created = seq![
        ReplyView::<P>::Count(Ok(0)),
        ReplyView::<P>::Executed(Ok(())),
        ReplyView::<P>::Executed(outcome),
    ];
    let creating = EnsureView { left: steps, phase: EnsurePhaseView::Create };
    let following = EnsureView { left: steps, phase: EnsurePhaseView::FollowUp };
    let done = ensure_start(steps.skip(1));
    assert(steps.skip(1).len() == 0);
    let r1 = created.skip(1);
    let r2 = r1.skip(1);
    let r3 = r2.skip(1);
    assert(created[0] == ReplyView::<P>::Count(Ok(0)));
    assert(r1[0] == ReplyView::<P>::Executed(Ok(())));
    assert(r2[0] == ReplyView::<P>::Executed(outcome));
    assert(r3.len() == 0);
    assert(ensure_next(run, created[0]) == creating);
    assert(ensure_next(creating, r1[0]) == following);
    assert(ensure_next(following, r2[0]) == done);
    assert(ensure_after(following, r2) == ensure_after(done, r3));
    assert(ensure_after(creating, r1) == ensure_after(following, r2));
    assert(ensure_after(run, created) == ensure_after(creating, r1));
    let last = ensure_executed(following, r2);
    let both = ensure_executed(creating, r1);
    assert(ensure_executed(done, r3) == Seq::<SqlCallView>::empty());
    assert(ensure_request::<P>(following) == RequestView::<P>::Execute(history_step().follow_up->0));
    assert(last == seq![history_step().follow_up->0] + ensure_executed(done, r3));
    assert(last =~= seq![history_step().follow_up->0]);
    assert(both =~= seq![history_step().ddl, history_step().follow_up->0]);
    assert(ensure_executed(run, created) == both);
    if count != 0 {
        assert(ensure_next(run, counted[0]) == done);
        assert(counted.skip(1).len() == 0);
        assert(ensure_after(run, counted) == ensure_after(done, counted.skip(1)));
        assert(ensure_executed(done, counted.skip(1)).len() == 0);
    }
}

/// No error on creating the history table is passed over.
pub proof fn history_table_has_to_be_created<P>(err: OracleErrorView)
    ensures
        ensure_request::<P>(
            ensure_next(
                ensure_next(ensure_start(seq![history_step()]), ReplyView::<P>::Count(Ok(0))),
                ReplyView::<P>::Executed(Err(err)),
            ),
        ) == RequestView::<P>::Failed(oracle_error_text(err)),
{
    let run = ensure_start(seq![history_step()]);
    assert(run.left[0] == history_step());
    assert(history_step().tolerated.len() == 0);
}

} // verus!
