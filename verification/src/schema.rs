//! Tables and indexes that are created where they are missing.

use vstd::pervasive::unreached;
use vstd::prelude::*;

use crate::db;
use crate::db::{map_oracle_error, OracleError, SqlCall, SqlCallView};
use crate::protocol::{answers, Reply, ReplyView, Request, RequestView};
use crate::text;

verus! {

// -------------------------------------------------------------------- steps

/// Which counts mean that an object is missing.
#[derive(Clone, Copy, PartialEq, Eq, Structural, Debug)]
pub enum Missing {
    /// Those that are not positive.
    NotPositive,
    /// Zero alone.
    Zero,
}

/// Creates one object unless it is there.
pub struct EnsureStep {
    /// Counts the objects of this name.
    pub probe: SqlCall,
    pub missing: Missing,
    /// Creates the object.
    pub ddl: SqlCall,
    /// The codes of errors on creating that mean that it is there after all.
    pub tolerated: Vec<i32>,
    /// What is tried once the object was created, whether it succeeds or not.
    pub follow_up: Option<SqlCall>,
}

/// Creates one object unless it is there.
pub ghost struct EnsureStepView {
    pub probe: SqlCallView,
    pub missing: Missing,
    pub ddl: SqlCallView,
    pub tolerated: Seq<i32>,
    pub follow_up: Option<SqlCallView>,
}

impl View for EnsureStep {
    type V = EnsureStepView;

    open spec fn view(&self) -> EnsureStepView {
        EnsureStepView {
            probe: self.probe@,
            missing: self.missing,
            ddl: self.ddl@,
            tolerated: self.tolerated@,
            follow_up: match self.follow_up {
                Some(call) => Some(call@),
                None => None,
            },
        }
    }
}

/// Whether a count means that an object is missing.
pub open spec fn is_missing(missing: Missing, count: i64) -> bool {
    match missing {
        Missing::NotPositive => count <= 0,
        Missing::Zero => count == 0,
    }
}

/// Counts the tables of a name.
pub const COUNT_TABLES_SQL: &'static str =
    "SELECT COUNT(*) FROM user_tables WHERE table_name = :1";

/// Counts the indexes of a name.
pub const COUNT_INDEXES_SQL: &'static str =
    "SELECT COUNT(*) FROM user_indexes WHERE index_name = :1";

/// `ORA-00955`: the name is already used by an existing object.
pub const NAME_ALREADY_USED: i32 = 955;

/// `ORA-01408`: such a column list is already indexed.
pub const COLUMNS_ALREADY_INDEXED: i32 = 1408;

/// Asks how many tables have a name.
pub fn table_exists(table: &str) -> (call: SqlCall)
    ensures
        call@ == db::text_call(COUNT_TABLES_SQL@, text::uppercase(table@)),
{
    SqlCall::with_text(COUNT_TABLES_SQL, table.to_uppercase())
}

/// Asks how many indexes have a name.
pub fn index_exists(index_name: &str) -> (call: SqlCall)
    ensures
        call@ == db::text_call(COUNT_INDEXES_SQL@, text::uppercase(index_name@)),
{
    SqlCall::with_text(COUNT_INDEXES_SQL, index_name.to_uppercase())
}

/// Creates a table unless there is one of its name.
pub open spec fn table_step(table: Seq<char>, ddl: Seq<char>) -> EnsureStepView {
    EnsureStepView {
        probe: db::text_call(COUNT_TABLES_SQL@, text::uppercase(table)),
        missing: Missing::NotPositive,
        ddl: db::plain_call(ddl),
        tolerated: Seq::empty(),
        follow_up: None,
    }
}

/// Creates an index unless there is one of its name or over its columns.
pub open spec fn index_step(index_name: Seq<char>, ddl: Seq<char>) -> EnsureStepView {
    EnsureStepView {
        probe: db::text_call(COUNT_INDEXES_SQL@, text::uppercase(index_name)),
        missing: Missing::NotPositive,
        ddl: db::plain_call(ddl),
        tolerated: seq![NAME_ALREADY_USED, COLUMNS_ALREADY_INDEXED],
        follow_up: None,
    }
}

/// Creates an index unless there is one of its name or over its columns.
pub fn create_index_if_missing(index_name: &str, ddl: &str) -> (step: EnsureStep)
    ensures
        step@ == index_step(index_name@, ddl@),
{
    let mut tolerated: Vec<i32> = Vec::new();
    tolerated.push(NAME_ALREADY_USED);
    tolerated.push(COLUMNS_ALREADY_INDEXED);
    let step = EnsureStep {
        probe: index_exists(index_name),
        missing: Missing::NotPositive,
        ddl: SqlCall::plain(ddl),
        tolerated,
        follow_up: None,
    };
    proof {
        assert(step@.tolerated =~= seq![NAME_ALREADY_USED, COLUMNS_ALREADY_INDEXED]);
    }
    step
}

fn create_table_if_missing(table: &str, ddl: &str) -> (step: EnsureStep)
    ensures
        step@ == table_step(table@, ddl@),
{
    let step = EnsureStep {
        probe: table_exists(table),
        missing: Missing::NotPositive,
        ddl: SqlCall::plain(ddl),
        tolerated: Vec::new(),
        follow_up: None,
    };
    proof {
        assert(step@.tolerated =~= Seq::empty());
    }
    step
}

/// The table of stored responses.
pub const RESPONSES_DDL: &'static str = "CREATE TABLE RESPONSES (
            RESPONSE_ID VARCHAR2(255) NOT NULL,
            CONVERSATION_STORE_ID VARCHAR2(255),
            CONVERSATION_ID VARCHAR2(255),
            PREVIOUS_RESPONSE_ID VARCHAR2(255),
            INPUT_ITEMS CLOB NOT NULL CHECK (INPUT_ITEMS IS JSON),
            RESPONSE_OBJECT CLOB NOT NULL CHECK (RESPONSE_OBJECT IS JSON),
            MODEL VARCHAR2(255) NOT NULL,
            CREATED_AT TIMESTAMP WITH TIME ZONE NOT NULL,
            EXPIRES_AT TIMESTAMP WITH TIME ZONE NOT NULL,
            CONSTRAINT PK_RESPONSES_RECORD PRIMARY KEY (RESPONSE_ID)
        )";

/// The table of conversations.
pub const CONVERSATIONS_DDL: &'static str = "CREATE TABLE CONVERSATIONS (
            CONVERSATION_ID VARCHAR2(255) NOT NULL,
            CONVERSATION_STORE_ID VARCHAR2(255),
            CREATED_AT TIMESTAMP WITH TIME ZONE NOT NULL,
            METADATA CLOB,
            ITEMS CLOB,
            UPDATED_AT TIMESTAMP WITH TIME ZONE,
            EXPIRES_AT TIMESTAMP WITH TIME ZONE NOT NULL,
            CONSTRAINT PK_CONVERSATIONS_RECORD PRIMARY KEY (CONVERSATION_ID)
        )";

/// The table in which applied migrations are recorded.
pub const HISTORY_DDL: &'static str = "CREATE TABLE MIGRATIONS_HISTORY (
                NAME VARCHAR2(256) NOT NULL,
                VERSION NUMBER(19),
                TYPE VARCHAR2(16) NOT NULL,
                CHECKSUM NUMBER(19),
                APPLIED_AT TIMESTAMP WITH TIME ZONE NOT NULL,
                CONSTRAINT PK_MIGRATIONS_HISTORY PRIMARY KEY (NAME)
            )";

/// Counts the tables in which applied migrations are recorded.
pub const COUNT_HISTORY_SQL: &'static str =
    "SELECT COUNT(*) FROM user_tables WHERE table_name = 'MIGRATIONS_HISTORY'";

/// A helpful index on versioned migrations.
pub const HISTORY_INDEX_DDL: &'static str =
    "CREATE INDEX MIG_HIST_VER_IDX ON MIGRATIONS_HISTORY (TYPE, VERSION)";

/// Creates the table of stored responses unless it is there.
pub fn create_responses_table_if_missing() -> (step: EnsureStep)
    ensures
        step@ == table_step("RESPONSES"@, RESPONSES_DDL@),
{
    create_table_if_missing("RESPONSES", RESPONSES_DDL)
}

/// Creates the table of conversations unless it is there.
pub fn create_conversations_table_if_missing() -> (step: EnsureStep)
    ensures
        step@ == table_step("CONVERSATIONS"@, CONVERSATIONS_DDL@),
{
    create_table_if_missing("CONVERSATIONS", CONVERSATIONS_DDL)
}

/// Creates the history table, and then its index as far as that succeeds, unless
/// the table is there.
pub open spec fn history_step() -> EnsureStepView {
    EnsureStepView {
        probe: db::plain_call(COUNT_HISTORY_SQL@),
        missing: Missing::Zero,
        ddl: db::plain_call(HISTORY_DDL@),
        tolerated: Seq::empty(),
        follow_up: Some(db::plain_call(HISTORY_INDEX_DDL@)),
    }
}

/// The steps that make up the agent runtime's schema: its two tables, and three
/// indexes on each.
pub open spec fn agent_runtime_steps() -> Seq<EnsureStepView> {
    seq![
        table_step("RESPONSES"@, RESPONSES_DDL@),
        table_step("CONVERSATIONS"@, CONVERSATIONS_DDL@),
        index_step(
            "IX_RESP_TTL_CLEANUP"@,
            "CREATE INDEX IX_RESP_TTL_CLEANUP ON RESPONSES (EXPIRES_AT)"@,
        ),
        index_step(
            "IX_RESP_RESPONSE_ID_CONVERSATION_STORE_ID"@,
            "CREATE INDEX IX_RESP_RESPONSE_ID_CONVERSATION_STORE_ID ON RESPONSES (RESPONSE_ID, CONVERSATION_STORE_ID)"@,
        ),
        index_step(
            "IX_RESP_CONVERSATION_STORE_ID"@,
            "CREATE INDEX IX_RESP_CONVERSATION_STORE_ID ON RESPONSES (CONVERSATION_STORE_ID)"@,
        ),
        index_step(
            "IX_CONV_TTL_CLEANUP"@,
            "CREATE INDEX IX_CONV_TTL_CLEANUP ON CONVERSATIONS (EXPIRES_AT)"@,
        ),
        index_step(
            "IX_CONV_CONVERSATION_ID_CONVERSATION_STORE_ID"@,
            "CREATE INDEX IX_CONV_CONVERSATION_ID_CONVERSATION_STORE_ID ON CONVERSATIONS (CONVERSATION_ID, CONVERSATION_STORE_ID)"@,
        ),
        index_step(
            "IX_CONV_CONVERSATION_STORE_ID"@,
            "CREATE INDEX IX_CONV_CONVERSATION_STORE_ID ON CONVERSATIONS (CONVERSATION_STORE_ID)"@,
        ),
    ]
}

// ---------------------------------------------------------------------- run

/// Where a run of steps stands within its step.
pub enum EnsurePhase {
    Probe,
    Create,
    FollowUp,
    Done,
    Failed(String),
}

/// Where a run of steps stands within its step.
pub ghost enum EnsurePhaseView {
    Probe,
    Create,
    FollowUp,
    Done,
    Failed(Seq<char>),
}

/// A run of steps, one after the other.
pub struct EnsureRun {
    steps: Vec<EnsureStep>,
    at: usize,
    phase: EnsurePhase,
}

/// A run of steps: those that are still to do, the first of them under way, and
/// how far that one is.
#[verifier::ext_equal]
pub ghost struct EnsureView {
    pub left: Seq<EnsureStepView>,
    pub phase: EnsurePhaseView,
}

/// The views of steps.
pub open spec fn step_views(steps: Seq<EnsureStep>) -> Seq<EnsureStepView> {
    steps.map_values(|s: EnsureStep| s@)
}

impl View for EnsureRun {
    type V = EnsureView;

    closed spec fn view(&self) -> EnsureView {
        EnsureView {
            left: step_views(self.steps@).skip(self.at as int),
            phase: match self.phase {
                EnsurePhase::Probe => EnsurePhaseView::Probe,
                EnsurePhase::Create => EnsurePhaseView::Create,
                EnsurePhase::FollowUp => EnsurePhaseView::FollowUp,
                EnsurePhase::Done => EnsurePhaseView::Done,
                EnsurePhase::Failed(e) => EnsurePhaseView::Failed(e@),
            },
        }
    }
}

/// A run with these steps to do.
pub open spec fn ensure_start(steps: Seq<EnsureStepView>) -> EnsureView {
    EnsureView {
        left: steps,
        phase: if steps.len() > 0 {
            EnsurePhaseView::Probe
        } else {
            EnsurePhaseView::Done
        },
    }
}

/// A run that failed.
pub open spec fn ensure_failed(run: EnsureView, reason: Seq<char>) -> EnsureView {
    EnsureView { left: run.left, phase: EnsurePhaseView::Failed(reason) }
}

/// What a run asks for.
pub open spec fn ensure_request<P>(run: EnsureView) -> RequestView<P> {
    match run.phase {
        EnsurePhaseView::Probe => RequestView::Count(run.left[0].probe),
        EnsurePhaseView::Create => RequestView::Execute(run.left[0].ddl),
        EnsurePhaseView::FollowUp => RequestView::Execute(run.left[0].follow_up->0),
        EnsurePhaseView::Done => RequestView::Done,
        EnsurePhaseView::Failed(e) => RequestView::Failed(e),
    }
}

/// A run whose object was created.
pub open spec fn ensure_created(run: EnsureView) -> EnsureView {
    if run.left[0].follow_up is Some {
        EnsureView { left: run.left, phase: EnsurePhaseView::FollowUp }
    } else {
        ensure_start(run.left.skip(1))
    }
}

/// A run after a reply: an object that is there is passed over, one that is
/// missing is created, and an error ends the run unless it is tolerated.
pub open spec fn ensure_next<P>(run: EnsureView, reply: ReplyView<P>) -> EnsureView {
    let step = run.left[0];
    match (run.phase, reply) {
        (EnsurePhaseView::Probe, ReplyView::Count(Ok(n))) => if is_missing(step.missing, n) {
            EnsureView { left: run.left, phase: EnsurePhaseView::Create }
        } else {
            ensure_start(run.left.skip(1))
        },
        (EnsurePhaseView::Probe, ReplyView::Count(Err(e))) => ensure_failed(
            run,
            db::oracle_error_text(e),
        ),
        (EnsurePhaseView::Create, ReplyView::Executed(Ok(_))) => ensure_created(run),
        (EnsurePhaseView::Create, ReplyView::Executed(Err(e))) => if db::has_code(
            e,
            step.tolerated,
        ) {
            ensure_created(run)
        } else {
            ensure_failed(run, db::oracle_error_text(e))
        },
        (EnsurePhaseView::FollowUp, ReplyView::Executed(_)) => ensure_start(run.left.skip(1)),
        _ => run,
    }
}

fn holds_code(codes: &Vec<i32>, code: i32) -> (found: bool)
    ensures
        found == codes@.contains(code),
{
    let mut i: usize = 0;
    while i < codes.len()
        invariant
            i <= codes@.len(),
            forall|j: int| 0 <= j < i ==> codes@[j] != code,
        decreases codes@.len() - i,
    {
        if codes[i] == code {
            return true;
        }
        i += 1;
    }
    false
}

fn code_is_one_of(err: &OracleError, codes: &Vec<i32>) -> (found: bool)
    ensures
        found == db::has_code(err@, codes@),
{
    match &err.db_error {
        Some(db_err) => holds_code(codes, db_err.code),
        None => false,
    }
}

impl EnsureRun {
    #[verifier::type_invariant]
    spec fn points_at_a_step(self) -> bool {
        &&& self.at <= self.steps@.len()
        &&& self.phase is Probe || self.phase is Create || self.phase is FollowUp ==> self.at
            < self.steps@.len()
        &&& self.phase is FollowUp ==> self.steps@[self.at as int].follow_up is Some
    }

    /// A run with these steps to do.
    pub fn new(steps: Vec<EnsureStep>) -> (run: EnsureRun)
        ensures
            run@ == ensure_start(step_views(steps@)),
    {
        EnsureRun::at_step(steps, 0)
    }

    fn at_step(steps: Vec<EnsureStep>, at: usize) -> (run: EnsureRun)
        requires
            at <= steps@.len(),
        ensures
            run@ == ensure_start(step_views(steps@).skip(at as int)),
    {
        let phase: EnsurePhase = if at < steps.len() {
            EnsurePhase::Probe
        } else {
            EnsurePhase::Done
        };
        EnsureRun { steps, at, phase }
    }

    /// Whether all steps are done.
    pub fn is_done(&self) -> (done: bool)
        ensures
            done == (self@.phase is Done),
    {
        match &self.phase {
            EnsurePhase::Done => true,
            _ => false,
        }
    }

    /// What the run asks for.
    pub fn request<P>(&self) -> (request: Request<'_, P>)
        ensures
            request@ == ensure_request::<P>(self@),
    {
        proof {
            use_type_invariant(self);
        }
        match &self.phase {
            EnsurePhase::Probe => Request::Count(&self.steps[self.at].probe),
            EnsurePhase::Create => Request::Execute(&self.steps[self.at].ddl),
            EnsurePhase::FollowUp => match &self.steps[self.at].follow_up {
                Some(call) => Request::Execute(call),
                None => unreached(),
            },
            EnsurePhase::Done => Request::Done,
            EnsurePhase::Failed(e) => Request::Failed(e.as_str()),
        }
    }

    /// The run after a reply to what it asked for.
    pub fn step<P>(self, reply: Reply<P>) -> (after: EnsureRun)
        requires
            answers(reply@, ensure_request::<P>(self@)),
        ensures
            after@ == ensure_next(self@, reply@),
    {
        proof {
            use_type_invariant(&self);
            let all = step_views(self.steps@);
            if self.at < all.len() {
                assert(all.skip(self.at as int).skip(1) =~= all.skip(self.at + 1));
                assert(all.skip(self.at as int)[0] == self.steps@[self.at as int]@);
            }
        }
        let EnsureRun { steps, at, phase } = self;
        proof {
            assert(steps.len() == steps@.len());
        }
        match (phase, reply) {
            (EnsurePhase::Probe, Reply::Count(Ok(n))) => {
                let missing: bool = match steps[at].missing {
                    Missing::NotPositive => n <= 0,
                    Missing::Zero => n == 0,
                };
                if missing {
                    EnsureRun { steps, at, phase: EnsurePhase::Create }
                } else {
                    EnsureRun::at_step(steps, at + 1)
                }
            },
            (EnsurePhase::Probe, Reply::Count(Err(e))) => {
                EnsureRun { steps, at, phase: EnsurePhase::Failed(map_oracle_error(e)) }
            },
            (EnsurePhase::Create, Reply::Executed(outcome)) => {
                if let Err(e) = outcome {
                    if !code_is_one_of(&e, &steps[at].tolerated) {
                        return EnsureRun {
                            steps,
                            at,
                            phase: EnsurePhase::Failed(map_oracle_error(e)),
                        };
                    }
                }
                if steps[at].follow_up.is_some() {
                    EnsureRun { steps, at, phase: EnsurePhase::FollowUp }
                } else {
                    EnsureRun::at_step(steps, at + 1)
                }
            },
            (EnsurePhase::FollowUp, Reply::Executed(_)) => EnsureRun::at_step(steps, at + 1),
            (phase, _) => EnsureRun { steps, at, phase },
        }
    }
}

/// A run that creates the agent runtime's schema as far as it is missing.
pub fn init_agent_runtime_schema() -> (run: EnsureRun)
    ensures
        run@ == ensure_start(agent_runtime_steps()),
{
    let mut steps: Vec<EnsureStep> = Vec::new();
    steps.push(create_responses_table_if_missing());
    steps.push(create_conversations_table_if_missing());
    steps.push(
        create_index_if_missing(
            "IX_RESP_TTL_CLEANUP",
            "CREATE INDEX IX_RESP_TTL_CLEANUP ON RESPONSES (EXPIRES_AT)",
        ),
    );
    steps.push(
        create_index_if_missing(
            "IX_RESP_RESPONSE_ID_CONVERSATION_STORE_ID",
            "CREATE INDEX IX_RESP_RESPONSE_ID_CONVERSATION_STORE_ID ON RESPONSES (RESPONSE_ID, CONVERSATION_STORE_ID)",
        ),
    );
    steps.push(
        create_index_if_missing(
            "IX_RESP_CONVERSATION_STORE_ID",
            "CREATE INDEX IX_RESP_CONVERSATION_STORE_ID ON RESPONSES (CONVERSATION_STORE_ID)",
        ),
    );
    steps.push(
        create_index_if_missing(
            "IX_CONV_TTL_CLEANUP",
            "CREATE INDEX IX_CONV_TTL_CLEANUP ON CONVERSATIONS (EXPIRES_AT)",
        ),
    );
    steps.push(
        create_index_if_missing(
            "IX_CONV_CONVERSATION_ID_CONVERSATION_STORE_ID",
            "CREATE INDEX IX_CONV_CONVERSATION_ID_CONVERSATION_STORE_ID ON CONVERSATIONS (CONVERSATION_ID, CONVERSATION_STORE_ID)",
        ),
    );
    steps.push(
        create_index_if_missing(
            "IX_CONV_CONVERSATION_STORE_ID",
            "CREATE INDEX IX_CONV_CONVERSATION_STORE_ID ON CONVERSATIONS (CONVERSATION_STORE_ID)",
        ),
    );
    proof {
        assert(step_views(steps@) =~= agent_runtime_steps());
    }
    EnsureRun::new(steps)
}

/// A run that creates the history table where it is missing.
pub fn ensure_migrations_table() -> (run: EnsureRun)
    ensures
        run@ == ensure_start(seq![history_step()]),
{
    let step = EnsureStep {
        probe: SqlCall::plain(COUNT_HISTORY_SQL),
        missing: Missing::Zero,
        ddl: SqlCall::plain(HISTORY_DDL),
        tolerated: Vec::new(),
        follow_up: Some(SqlCall::plain(HISTORY_INDEX_DDL)),
    };
    proof {
        assert(step@.tolerated =~= Seq::empty());
    }
    let mut steps: Vec<EnsureStep> = Vec::new();
    steps.push(step);
    proof {
        assert(step_views(steps@) =~= seq![history_step()]);
    }
    EnsureRun::new(steps)
}

// --------------------------------------------------------------------- laws

/// A run after a series of replies.
pub open spec fn ensure_after<P>(run: EnsureView, replies: Seq<ReplyView<P>>) -> EnsureView
    decreases replies.len(),
{
    if replies.len() == 0 {
        run
    } else {
        ensure_after(ensure_next(run, replies[0]), replies.skip(1))
    }
}

/// The statements that a run had executed to get these replies.
pub open spec fn ensure_executed<P>(run: EnsureView, replies: Seq<ReplyView<P>>) -> Seq<SqlCallView>
    decreases replies.len(),
{
    if replies.len() == 0 {
        Seq::empty()
    } else {
        let rest = ensure_executed(ensure_next(run, replies[0]), replies.skip(1));
        match ensure_request::<P>(run) {
            RequestView::Execute(call) => seq![call] + rest,
            _ => rest,
        }
    }
}

/// Where every object is there, nothing is executed and the run succeeds: to set
/// up a schema twice is to set it up once.
pub proof fn existing_objects_are_left_alone<P>(
    steps: Seq<EnsureStepView>,
    replies: Seq<ReplyView<P>>,
)
    requires
        replies.len() == steps.len(),
        forall|i: int|
            0 <= i < steps.len() ==> (#[trigger] replies[i] matches ReplyView::Count(Ok(n))
                && !is_missing(steps[i].missing, n)),
    ensures
        ensure_after(ensure_start(steps), replies).phase is Done,
        ensure_executed(ensure_start(steps), replies) == Seq::<SqlCallView>::empty(),
    decreases steps.len(),
{
    if steps.len() > 0 {
        let rest = steps.skip(1);
        let later = replies.skip(1);
        assert(replies[0] is Count);
        assert forall|i: int| 0 <= i < rest.len() implies (
        #[trigger] later[i] matches ReplyView::Count(Ok(n)) && !is_missing(rest[i].missing, n)) by {
            assert(later[i] == replies[i + 1]);
        }
        existing_objects_are_left_alone(rest, later);
    }
}

/// The replies of a database in which nothing is there yet and every statement
/// succeeds.
pub open spec fn fresh_replies<P>(steps: Seq<EnsureStepView>) -> Seq<ReplyView<P>>
    decreases steps.len(),
{
    if steps.len() == 0 {
        Seq::empty()
    } else {
        let created = seq![ReplyView::<P>::Count(Ok(0)), ReplyView::<P>::Executed(Ok(()))];
        let followed = if steps[0].follow_up is Some {
            seq![ReplyView::<P>::Executed(Ok(()))]
        } else {
            Seq::empty()
        };
        created + followed + fresh_replies::<P>(steps.skip(1))
    }
}

/// What creates all objects: for each step its statement, and what follows it.
pub open spec fn creating_calls(steps: Seq<EnsureStepView>) -> Seq<SqlCallView>
    decreases steps.len(),
{
    if steps.len() == 0 {
        Seq::empty()
    } else {
        let followed = match steps[0].follow_up {
            Some(call) => seq![call],
            None => Seq::empty(),
        };
        seq![steps[0].ddl] + followed + creating_calls(steps.skip(1))
    }
}

/// Where no object is there, each one is created, in the order of the steps, and
/// the run succeeds.
pub proof fn missing_objects_are_created_in_order<P>(steps: Seq<EnsureStepView>)
    ensures
        ensure_after(ensure_start(steps), fresh_replies::<P>(steps)).phase is Done,
        ensure_executed(ensure_start(steps), fresh_replies::<P>(steps)) == creating_calls(steps),
    decreases steps.len(),
{
    if steps.len() > 0 {
        let rest = steps.skip(1);
        let run = ensure_start(steps);
        let creating = EnsureView { left: steps, phase: EnsurePhaseView::Create };
        let following = EnsureView { left: steps, phase: EnsurePhaseView::FollowUp };
        let r0 = fresh_replies::<P>(steps);
        let r1 = r0.skip(1);
        let r2 = r1.skip(1);
        let later = ensure_executed(ensure_start(rest), fresh_replies::<P>(rest));
        missing_objects_are_created_in_order::<P>(rest);
        assert(r0[0] == ReplyView::<P>::Count(Ok(0)));
        assert(r1[0] == ReplyView::<P>::Executed(Ok(())));
        assert(ensure_next(run, r0[0]) == creating);
        if steps[0].follow_up is Some {
            assert(r2[0] == ReplyView::<P>::Executed(Ok(())));
            assert(r2.skip(1) =~= fresh_replies::<P>(rest));
            assert(ensure_next(creating, r1[0]) == following);
            assert(ensure_next(following, r2[0]) == ensure_start(rest));
            assert(ensure_after(creating, r1) == ensure_after(following, r2));
            assert(ensure_executed(following, r2) == seq![steps[0].follow_up->0] + later);
            assert(seq![steps[0].ddl] + (seq![steps[0].follow_up->0] + later) =~= seq![steps[0].ddl]
                + seq![steps[0].follow_up->0] + later);
        } else {
            assert(r2 =~= fresh_replies::<P>(rest));
            assert(ensure_next(creating, r1[0]) == ensure_start(rest));
            assert(seq![steps[0].ddl] + later =~= seq![steps[0].ddl] + Seq::empty() + later);
        }
        assert(ensure_after(run, r0) == ensure_after(creating, r1));
        assert(ensure_executed(run, r0) == ensure_executed(creating, r1));
    }
}

/// A run comes to create an object only on a count that says that it is missing.
pub proof fn only_missing_objects_are_created<P>(run: EnsureView, reply: ReplyView<P>)
    requires
        answers(reply, ensure_request::<P>(run)),
        ensure_next(run, reply).phase is Create,
    ensures
        run.phase is Probe,
        reply matches ReplyView::Count(Ok(n)) && is_missing(run.left[0].missing, n),
        ensure_next(run, reply).left == run.left,
{
}

} // verus!
