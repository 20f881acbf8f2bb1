//! Applying migrations one after the other, and recording them.

use vstd::prelude::*;

use crate::checksum;
use crate::clock;
use crate::clock::utc_now;
use crate::db;
use crate::db::{map_oracle_error, SqlCall, SqlCallView, Timestamp};
use crate::migrations;
use crate::migrations::{
    fault_text, insert_history_row, migration_views, repeatable_checksum, repeatable_current,
    upsert_history_row, version_applied, MigType, MigrationFile, MigrationView,
};
use crate::protocol::{
    answers, effects_of, executions, Effect, Reply, ReplyView, Request, RequestView,
};
use crate::sql_text;
use crate::sql_text::{sql_statements, Placeholders};
use crate::text;

verus! {

enum RunPhase {
    Check(SqlCall),
    Read,
    Execute(Vec<SqlCall>),
    Forget(SqlCall, SqlCall),
    Record(SqlCall),
    Commit,
    Done,
    Failed(String),
}

/// A run of migrations, one after the other.
pub struct MigrationRun<P> {
    left: Vec<MigrationFile<P>>,
    placeholders: Option<Placeholders>,
    phase: RunPhase,
}

/// How far a run is with its migration.
pub ghost enum RunPhaseView {
    /// The history is asked.
    Check(SqlCallView),
    /// The file is read.
    Read,
    /// These statements are still to execute.
    Execute(Seq<SqlCallView>),
    /// The old row of the history is deleted, before the new one is inserted.
    Forget(SqlCallView, SqlCallView),
    /// The row of the history is inserted.
    Record(SqlCallView),
    /// The migration and its row are committed.
    Commit,
    /// All migrations are applied.
    Done,
    /// It failed.
    Failed(Seq<char>),
}

/// A run of migrations: those that are still to do, the first of them under way,
/// and how far that one is.
pub ghost struct RunView<P> {
    pub left: Seq<MigrationView<P>>,
    pub placeholders: Option<Seq<(Seq<char>, Seq<char>)>>,
    pub phase: RunPhaseView,
}

/// The views of statements.
pub open spec fn call_views(calls: Seq<SqlCall>) -> Seq<SqlCallView> {
    calls.map_values(|c: SqlCall| c@)
}

impl<P> View for MigrationRun<P> {
    type V = RunView<P>;

    closed spec fn view(&self) -> RunView<P> {
        RunView {
            left: migration_views(self.left@),
            placeholders: sql_text::placeholders_view(self.placeholders),
            phase: match self.phase {
                RunPhase::Check(call) => RunPhaseView::Check(call@),
                RunPhase::Read => RunPhaseView::Read,
                RunPhase::Execute(calls) => RunPhaseView::Execute(call_views(calls@)),
                RunPhase::Forget(delete, insert) => RunPhaseView::Forget(delete@, insert@),
                RunPhase::Record(insert) => RunPhaseView::Record(insert@),
                RunPhase::Commit => RunPhaseView::Commit,
                RunPhase::Done => RunPhaseView::Done,
                RunPhase::Failed(e) => RunPhaseView::Failed(e@),
            },
        }
    }
}

/// The query by which the history is asked of a migration.
pub open spec fn check_call<P>(mig: MigrationView<P>) -> SqlCallView {
    match mig.ty {
        MigType::Versioned => db::text_call(migrations::VERSION_APPLIED_SQL@, mig.name),
        MigType::Repeatable => db::text_call(migrations::REPEATABLE_CHECKSUM_SQL@, mig.name),
    }
}

/// A run with these migrations to do.
pub open spec fn run_start<P>(
    left: Seq<MigrationView<P>>,
    placeholders: Option<Seq<(Seq<char>, Seq<char>)>>,
) -> RunView<P> {
    RunView {
        left,
        placeholders,
        phase: if left.len() > 0 {
            RunPhaseView::Check(check_call(left[0]))
        } else {
            RunPhaseView::Done
        },
    }
}

/// A run that is done with its first migration.
pub open spec fn run_passed<P>(run: RunView<P>) -> RunView<P> {
    run_start(run.left.skip(1), run.placeholders)
}

/// A run in another phase.
pub open spec fn run_in<P>(run: RunView<P>, phase: RunPhaseView) -> RunView<P> {
    RunView { left: run.left, placeholders: run.placeholders, phase }
}

/// A run whose migration is recorded as applied at `now`.
pub open spec fn run_recording<P>(run: RunView<P>, now: Timestamp) -> RunView<P> {
    run_in(
        run,
        match run.left[0].ty {
            MigType::Versioned => RunPhaseView::Record(migrations::versioned_row(run.left[0], now)),
            MigType::Repeatable => RunPhaseView::Forget(
                db::text_call(migrations::DELETE_REPEATABLE_SQL@, run.left[0].name),
                migrations::repeatable_row(run.left[0], now),
            ),
        },
    )
}

/// A run with these statements to execute, and then to record the migration.
pub open spec fn run_executing<P>(
    run: RunView<P>,
    calls: Seq<SqlCallView>,
    now: Timestamp,
) -> RunView<P> {
    if calls.len() > 0 {
        run_in(run, RunPhaseView::Execute(calls))
    } else {
        run_recording(run, now)
    }
}

/// The statements of a migration's text, as they are executed.
pub open spec fn file_calls(
    content: Seq<char>,
    placeholders: Option<Seq<(Seq<char>, Seq<char>)>>,
) -> Seq<SqlCallView> {
    sql_text::migration_statements(content, placeholders).map_values(
        |s: Seq<char>| db::plain_call(s),
    )
}

/// What a run asks for.
pub open spec fn run_request<P>(run: RunView<P>) -> RequestView<P> {
    match run.phase {
        RunPhaseView::Check(call) => match run.left[0].ty {
            MigType::Versioned => RequestView::Count(call),
            MigType::Repeatable => RequestView::FirstColumn(call),
        },
        RunPhaseView::Read => RequestView::ReadText(run.left[0].path),
        RunPhaseView::Execute(calls) => RequestView::Execute(calls[0]),
        RunPhaseView::Forget(delete, _) => RequestView::Execute(delete),
        RunPhaseView::Record(insert) => RequestView::Execute(insert),
        RunPhaseView::Commit => RequestView::Commit,
        RunPhaseView::Done => RequestView::Done,
        RunPhaseView::Failed(e) => RequestView::Failed(e),
    }
}

/// A run after a reply, the time being `now`.
pub open spec fn run_next<P>(run: RunView<P>, reply: ReplyView<P>, now: Timestamp) -> RunView<P> {
    match (run.phase, reply) {
        (RunPhaseView::Check(_), ReplyView::Count(Ok(n))) => if n > 0 {
            run_passed(run)
        } else {
            run_in(run, RunPhaseView::Read)
        },
        (RunPhaseView::Check(_), ReplyView::FirstColumn(Ok(row))) => if migrations::is_current(
            row,
            run.left[0].checksum,
        ) {
            run_passed(run)
        } else {
            run_in(run, RunPhaseView::Read)
        },
        (RunPhaseView::Read, ReplyView::Text(Ok(content))) => run_executing(
            run,
            file_calls(content, run.placeholders),
            now,
        ),
        (RunPhaseView::Read, ReplyView::Text(Err((path, error)))) => run_in(
            run,
            RunPhaseView::Failed("failed to read "@ + path + ": "@ + error),
        ),
        (RunPhaseView::Execute(calls), ReplyView::Executed(Ok(_))) => run_executing(
            run,
            calls.skip(1),
            now,
        ),
        (RunPhaseView::Forget(_, insert), ReplyView::Executed(_)) => run_in(
            run,
            RunPhaseView::Record(insert),
        ),
        (RunPhaseView::Record(_), ReplyView::Executed(Ok(_))) => run_in(run, RunPhaseView::Commit),
        (RunPhaseView::Commit, ReplyView::Committed(Ok(_))) => run_passed(run),
        (RunPhaseView::Check(_), ReplyView::Count(Err(e))) => run_in(
            run,
            RunPhaseView::Failed(db::oracle_error_text(e)),
        ),
        (RunPhaseView::Check(_), ReplyView::FirstColumn(Err(e))) => run_in(
            run,
            RunPhaseView::Failed(db::oracle_error_text(e)),
        ),
        (RunPhaseView::Execute(_), ReplyView::Executed(Err(e))) => run_in(
            run,
            RunPhaseView::Failed(db::oracle_error_text(e)),
        ),
        (RunPhaseView::Record(_), ReplyView::Executed(Err(e))) => run_in(
            run,
            RunPhaseView::Failed(db::oracle_error_text(e)),
        ),
        (RunPhaseView::Commit, ReplyView::Committed(Err(e))) => run_in(
            run,
            RunPhaseView::Failed(db::oracle_error_text(e)),
        ),
        _ => run,
    }
}

/// What a reply makes of a run: a run that asks for something again, or one
/// whose migration has to be recorded first.
enum Advance<P> {
    Run(MigrationRun<P>),
    Applied(Vec<MigrationFile<P>>, Option<Placeholders>),
}

impl<P> Advance<P> {
    spec fn at(self, now: Timestamp) -> RunView<P> {
        match self {
            Advance::Run(run) => run@,
            Advance::Applied(left, placeholders) => run_recording(
                RunView {
                    left: migration_views(left@),
                    placeholders: sql_text::placeholders_view(placeholders),
                    phase: RunPhaseView::Read,
                },
                now,
            ),
        }
    }

    spec fn sound(self) -> bool {
        self matches Advance::Applied(left, _) ==> left@.len() > 0
    }
}

/// What is executed for a migration file with this content: its statements, in
/// their order, after substitution where there are placeholders.
pub fn apply_sql_file(content: &str, placeholders: &Option<Placeholders>) -> (calls: Vec<SqlCall>)
    ensures
        call_views(calls@) == file_calls(content@, sql_text::placeholders_view(*placeholders)),
{
    let statements: Vec<String> = sql_statements(content, placeholders);
    let mut calls: Vec<SqlCall> = Vec::new();
    let mut i: usize = 0;
    while i < statements.len()
        invariant
            i <= statements@.len(),
            calls@.len() == i,
            forall|j: int| 0 <= j < i ==> (#[trigger] calls@[j])@ == db::plain_call(statements@[j]@),
        decreases statements@.len() - i,
    {
        calls.push(SqlCall::plain(statements[i].as_str()));
        i += 1;
    }
    proof {
        assert(call_views(calls@) =~= text::string_views(statements@).map_values(
            |s: Seq<char>| db::plain_call(s),
        ));
    }
    calls
}

impl<P> MigrationRun<P> {
    #[verifier::type_invariant]
    spec fn has_what_it_asks_for(self) -> bool {
        &&& !(self.phase is Done || self.phase is Failed) ==> self.left@.len() > 0
        &&& self.phase matches RunPhase::Execute(calls) ==> calls@.len() > 0
    }

    /// A run with these migrations to do.
    pub fn new(left: Vec<MigrationFile<P>>, placeholders: Option<Placeholders>) -> (run:
        MigrationRun<P>)
        ensures
            run@ == run_start(
                migration_views(left@),
                sql_text::placeholders_view(placeholders),
            ),
    {
        if left.len() > 0 {
            let call: SqlCall = match left[0].ty {
                MigType::Versioned => version_applied(&left[0]),
                MigType::Repeatable => repeatable_checksum(&left[0]),
            };
            MigrationRun { left, placeholders, phase: RunPhase::Check(call) }
        } else {
            MigrationRun { left, placeholders, phase: RunPhase::Done }
        }
    }

    fn passed(left: Vec<MigrationFile<P>>, placeholders: Option<Placeholders>) -> (run:
        MigrationRun<P>)
        requires
            left@.len() > 0,
        ensures
            run@ == run_start(
                migration_views(left@).skip(1),
                sql_text::placeholders_view(placeholders),
            ),
    {
        let ghost before = migration_views(left@);
        let mut left: Vec<MigrationFile<P>> = left;
        let _ = left.remove(0);
        proof {
            assert(migration_views(left@) =~= before.skip(1));
        }
        MigrationRun::new(left, placeholders)
    }

    fn executing(
        left: Vec<MigrationFile<P>>,
        placeholders: Option<Placeholders>,
        calls: Vec<SqlCall>,
    ) -> (after: Advance<P>)
        requires
            left@.len() > 0,
        ensures
            after.sound(),
            forall|now: Timestamp| #[trigger] after.at(now) == run_executing(
                RunView {
                    left: migration_views(left@),
                    placeholders: sql_text::placeholders_view(placeholders),
                    phase: RunPhaseView::Read,
                },
                call_views(calls@),
                now,
            ),
    {
        if calls.len() > 0 {
            Advance::Run(MigrationRun { left, placeholders, phase: RunPhase::Execute(calls) })
        } else {
            Advance::Applied(left, placeholders)
        }
    }

    /// What the run asks for.
    pub fn request(&self) -> (request: Request<'_, P>)
        ensures
            request@ == run_request(self@),
    {
        proof {
            use_type_invariant(self);
        }
        match &self.phase {
            RunPhase::Check(call) => match self.left[0].ty {
                MigType::Versioned => Request::Count(call),
                MigType::Repeatable => Request::FirstColumn(call),
            },
            RunPhase::Read => Request::ReadText(&self.left[0].path),
            RunPhase::Execute(calls) => Request::Execute(&calls[0]),
            RunPhase::Forget(delete, _) => Request::Execute(delete),
            RunPhase::Record(insert) => Request::Execute(insert),
            RunPhase::Commit => Request::Commit,
            RunPhase::Done => Request::Done,
            RunPhase::Failed(e) => Request::Failed(e.as_str()),
        }
    }

    fn advance(self, reply: Reply<P>) -> (after: Advance<P>)
        requires
            answers(reply@, run_request(self@)),
        ensures
            after.sound(),
            forall|now: Timestamp| #[trigger] after.at(now) == run_next(self@, reply@, now),
    {
        proof {
            use_type_invariant(&self);
        }
        let MigrationRun { left, placeholders, phase } = self;
        match (phase, reply) {
            (RunPhase::Check(_), Reply::Count(Ok(n))) => if n > 0 {
                Advance::Run(MigrationRun::passed(left, placeholders))
            } else {
                Advance::Run(MigrationRun { left, placeholders, phase: RunPhase::Read })
            },
            (RunPhase::Check(_), Reply::FirstColumn(Ok(row))) => if repeatable_current(
                &left[0],
                row,
            ) {
                Advance::Run(MigrationRun::passed(left, placeholders))
            } else {
                Advance::Run(MigrationRun { left, placeholders, phase: RunPhase::Read })
            },
            (RunPhase::Read, Reply::Text(Ok(content))) => {
                let calls: Vec<SqlCall> = apply_sql_file(content.as_str(), &placeholders);
                MigrationRun::executing(left, placeholders, calls)
            },
            (RunPhase::Read, Reply::Text(Err(fault))) => {
                let reason: String = fault_text("failed to read ", &fault, ": ");
                Advance::Run(MigrationRun { left, placeholders, phase: RunPhase::Failed(reason) })
            },
            (RunPhase::Execute(calls), Reply::Executed(Ok(_))) => {
                let ghost before = call_views(calls@);
                let mut calls: Vec<SqlCall> = calls;
                let _ = calls.remove(0);
                proof {
                    assert(call_views(calls@) =~= before.skip(1));
                }
                MigrationRun::executing(left, placeholders, calls)
            },
            (RunPhase::Forget(_, insert), Reply::Executed(_)) => {
                Advance::Run(MigrationRun { left, placeholders, phase: RunPhase::Record(insert) })
            },
            (RunPhase::Record(_), Reply::Executed(Ok(_))) => {
                Advance::Run(MigrationRun { left, placeholders, phase: RunPhase::Commit })
            },
            (RunPhase::Commit, Reply::Committed(Ok(_))) => {
                Advance::Run(MigrationRun::passed(left, placeholders))
            },
            (RunPhase::Check(_), Reply::Count(Err(e))) => {
                let reason: String = map_oracle_error(e);
                Advance::Run(MigrationRun { left, placeholders, phase: RunPhase::Failed(reason) })
            },
            (RunPhase::Check(_), Reply::FirstColumn(Err(e))) => {
                let reason: String = map_oracle_error(e);
                Advance::Run(MigrationRun { left, placeholders, phase: RunPhase::Failed(reason) })
            },
            (RunPhase::Execute(_), Reply::Executed(Err(e))) => {
                let reason: String = map_oracle_error(e);
                Advance::Run(MigrationRun { left, placeholders, phase: RunPhase::Failed(reason) })
            },
            (RunPhase::Record(_), Reply::Executed(Err(e))) => {
                let reason: String = map_oracle_error(e);
                Advance::Run(MigrationRun { left, placeholders, phase: RunPhase::Failed(reason) })
            },
            (RunPhase::Commit, Reply::Committed(Err(e))) => {
                let reason: String = map_oracle_error(e);
                Advance::Run(MigrationRun { left, placeholders, phase: RunPhase::Failed(reason) })
            },
            (phase, _) => Advance::Run(MigrationRun { left, placeholders, phase }),
        }
    }

    fn recording(
        left: Vec<MigrationFile<P>>,
        placeholders: Option<Placeholders>,
        now: Timestamp,
    ) -> (run: MigrationRun<P>)
        requires
            left@.len() > 0,
        ensures
            run@ == Advance::Applied(left, placeholders).at(now),
    {
        match left[0].ty {
            MigType::Versioned => {
                let insert: SqlCall = insert_history_row(&left[0], now);
                MigrationRun { left, placeholders, phase: RunPhase::Record(insert) }
            },
            MigType::Repeatable => {
                let (delete, insert): (SqlCall, SqlCall) = upsert_history_row(&left[0], now);
                MigrationRun { left, placeholders, phase: RunPhase::Forget(delete, insert) }
            },
        }
    }

    /// The run after a reply to what it asked for, the time being `now`.
    pub fn step_at(self, reply: Reply<P>, now: Timestamp) -> (after: MigrationRun<P>)
        requires
            answers(reply@, run_request(self@)),
        ensures
            after@ == run_next(self@, reply@, now),
    {
        let after: Advance<P> = self.advance(reply);
        proof {
            assert(after.at(now) == run_next(self@, reply@, now));
        }
        match after {
            Advance::Run(run) => run,
            Advance::Applied(left, placeholders) => MigrationRun::recording(
                left,
                placeholders,
                now,
            ),
        }
    }

    /// The run after a reply to what it asked for. The clock is read where a
    /// migration has to be recorded.
    pub fn step(self, reply: Reply<P>) -> (after: MigrationRun<P>)
        requires
            answers(reply@, run_request(self@)),
        ensures
            exists|now: Timestamp|
                clock::is_moment(now) && after@ == #[trigger] run_next(self@, reply@, now),
    {
        let ghost any = Timestamp { secs: 0, nanos: 0 };
        match self.advance(reply) {
            Advance::Run(run) => {
                proof {
                    assert(Advance::Run(run).at(any) == run_next(self@, reply@, any));
                    assert(clock::is_moment(any));
                }
                run
            },
            Advance::Applied(left, placeholders) => {
                let now: Timestamp = utc_now();
                MigrationRun::recording(left, placeholders, now)
            },
        }
    }
}

// --------------------------------------------------------------------- laws

/// A run after a series of replies, each with the time at which it came.
pub open spec fn run_after<P>(run: RunView<P>, events: Seq<(ReplyView<P>, Timestamp)>) -> RunView<P>
    decreases events.len(),
{
    if events.len() == 0 {
        run
    } else {
        run_after(run_next(run, events[0].0, events[0].1), events.skip(1))
    }
}

/// What a run did to the database to get these replies.
pub open spec fn run_effects<P>(
    run: RunView<P>,
    events: Seq<(ReplyView<P>, Timestamp)>,
) -> Seq<Effect>
    decreases events.len(),
{
    if events.len() == 0 {
        Seq::empty()
    } else {
        effects_of(run_request(run)) + run_effects(
            run_next(run, events[0].0, events[0].1),
            events.skip(1),
        )
    }
}

/// A run takes replies one by one.
proof fn run_in_two_parts<P>(
    run: RunView<P>,
    first: Seq<(ReplyView<P>, Timestamp)>,
    second: Seq<(ReplyView<P>, Timestamp)>,
)
    ensures
        run_after(run, first + second) == run_after(run_after(run, first), second),
        run_effects(run, first + second) == run_effects(run, first) + run_effects(
            run_after(run, first),
            second,
        ),
    decreases first.len(),
{
    let all = first + second;
    let later = run_effects(run_after(run, first), second);
    if first.len() == 0 {
        assert(all =~= second);
        assert(Seq::empty() + later =~= later);
    } else {
        let next = run_next(run, first[0].0, first[0].1);
        let here = effects_of(run_request(run));
        run_in_two_parts(next, first.skip(1), second);
        assert(all.skip(1) =~= first.skip(1) + second);
        assert(here + (run_effects(next, first.skip(1)) + later) =~= here + run_effects(
            next,
            first.skip(1),
        ) + later);
    }
}

/// Whether a reply shows that a migration need not be applied: the history has
/// a versioned one, or a repeatable one with the checksum that it has now.
pub open spec fn shows_applied<P>(mig: MigrationView<P>, reply: ReplyView<P>) -> bool {
    match mig.ty {
        MigType::Versioned => reply matches ReplyView::Count(Ok(n)) && n > 0,
        MigType::Repeatable => reply matches ReplyView::FirstColumn(Ok(row))
            && migrations::is_current(row, mig.checksum),
    }
}

/// Whether a reply shows that a migration has to be applied.
pub open spec fn shows_pending<P>(mig: MigrationView<P>, reply: ReplyView<P>) -> bool {
    match mig.ty {
        MigType::Versioned => reply matches ReplyView::Count(Ok(n)) && n <= 0,
        MigType::Repeatable => reply matches ReplyView::FirstColumn(Ok(row))
            && !migrations::is_current(row, mig.checksum),
    }
}

/// Migrations that were applied before are passed over: nothing is executed, and
/// the run succeeds.
pub proof fn applied_migrations_are_left_alone<P>(
    left: Seq<MigrationView<P>>,
    placeholders: Option<Seq<(Seq<char>, Seq<char>)>>,
    events: Seq<(ReplyView<P>, Timestamp)>,
)
    requires
        events.len() == left.len(),
        forall|i: int| 0 <= i < left.len() ==> shows_applied(left[i], (#[trigger] events[i]).0),
    ensures
        run_after(run_start(left, placeholders), events).phase is Done,
        run_effects(run_start(left, placeholders), events) == Seq::<Effect>::empty(),
    decreases left.len(),
{
    if left.len() > 0 {
        let rest = left.skip(1);
        let later = events.skip(1);
        assert(shows_applied(left[0], events[0].0));
        assert forall|i: int| 0 <= i < rest.len() implies shows_applied(
            rest[i],
            (#[trigger] later[i]).0,
        ) by {
            assert(later[i] == events[i + 1]);
        }
        applied_migrations_are_left_alone(rest, placeholders, later);
    }
}

/// What is executed to record a migration.
pub open spec fn history_calls<P>(mig: MigrationView<P>, now: Timestamp) -> Seq<SqlCallView> {
    match mig.ty {
        MigType::Versioned => seq![migrations::versioned_row(mig, now)],
        MigType::Repeatable => seq![
            db::text_call(migrations::DELETE_REPEATABLE_SQL@, mig.name),
            migrations::repeatable_row(mig, now),
        ],
    }
}

/// What applying a migration does to the database: its statements are executed
/// in their order, it is recorded, and all of it is committed.
pub open spec fn applying_effects<P>(
    mig: MigrationView<P>,
    content: Seq<char>,
    placeholders: Option<Seq<(Seq<char>, Seq<char>)>>,
    now: Timestamp,
) -> Seq<Effect> {
    executions(file_calls(content, placeholders)) + executions(history_calls(mig, now)) + seq![
        Effect::Commit,
    ]
}

/// `n` statements that succeed, and the commit after them.
pub open spec fn successes<P>(n: nat, now: Timestamp) -> Seq<(ReplyView<P>, Timestamp)> {
    Seq::new(n, |i: int| (ReplyView::<P>::Executed(Ok(())), now)).push(
        (ReplyView::<P>::Committed(Ok(())), now),
    )
}

/// The replies to a migration of which the history replies `reply`, whose file
/// has this content, and all of whose statements succeed.
pub open spec fn applying_events<P>(
    mig: MigrationView<P>,
    reply: ReplyView<P>,
    content: Seq<char>,
    placeholders: Option<Seq<(Seq<char>, Seq<char>)>>,
    now: Timestamp,
) -> Seq<(ReplyView<P>, Timestamp)> {
    seq![(reply, now), (ReplyView::<P>::Text(Ok(content)), now)] + successes(
        file_calls(content, placeholders).len() + history_calls(mig, now).len(),
        now,
    )
}

/// The rest of a run on a migration whose statements succeed.
proof fn remaining_statements<P>(run: RunView<P>, calls: Seq<SqlCallView>, now: Timestamp)
    requires
        run.left.len() > 0,
    ensures
        run_after(
            run_executing(run, calls, now),
            successes::<P>(calls.len() + history_calls(run.left[0], now).len(), now),
        ) == run_passed(run),
        run_effects(
            run_executing(run, calls, now),
            successes::<P>(calls.len() + history_calls(run.left[0], now).len(), now),
        ) == executions(calls) + executions(history_calls(run.left[0], now)) + seq![Effect::Commit],
    decreases calls.len(),
{
    reveal_with_fuel(run_after, 4);
    reveal_with_fuel(run_effects, 4);
    let mig = run.left[0];
    let history = history_calls(mig, now);
    let ok = (ReplyView::<P>::Executed(Ok(())), now);
    let done = (ReplyView::<P>::Committed(Ok(())), now);
    let events = successes::<P>(calls.len() + history.len(), now);
    let state = run_executing(run, calls, now);
    let rest = events.skip(1);
    let next = run_next(state, events[0].0, events[0].1);
    let committing = run_in(run, RunPhaseView::Commit);
    let end = executions(history) + seq![Effect::Commit];
    assert(events[0] == ok);
    if calls.len() == 0 {
        assert(executions(calls) + executions(history) + seq![Effect::Commit] =~= end);
        assert(run_next(committing, done.0, now) == run_passed(run));
        match mig.ty {
            MigType::Versioned => {
                assert(next == committing);
                assert(rest =~= seq![done]);
                assert(rest.skip(1) =~= Seq::empty());
                assert(run_effects(committing, rest) =~= seq![Effect::Commit]);
                assert(seq![Effect::Execute(history[0])] + seq![Effect::Commit] =~= end);
            },
            MigType::Repeatable => {
                let recording = run_in(run, RunPhaseView::Record(history[1]));
                let last = rest.skip(1);
                assert(next == recording);
                assert(rest[0] == ok);
                assert(run_next(recording, ok.0, now) == committing);
                assert(last =~= seq![done]);
                assert(last.skip(1) =~= Seq::empty());
                assert(run_after(committing, last) == run_passed(run));
                assert(run_effects(committing, last) =~= seq![Effect::Commit]);
                assert(run_effects(recording, rest) =~= seq![
                    Effect::Execute(history[1]),
                    Effect::Commit,
                ]);
                assert(seq![Effect::Execute(history[0])] + seq![
                    Effect::Execute(history[1]),
                    Effect::Commit,
                ] =~= end);
            },
        }
    } else {
        let tail = calls.skip(1);
        remaining_statements(run, tail, now);
        assert(rest =~= successes::<P>(tail.len() + history.len(), now));
        assert(next == run_executing(run, tail, now));
        assert(seq![Effect::Execute(calls[0])] + (executions(tail) + executions(history) + seq![
            Effect::Commit,
        ]) =~= executions(calls) + executions(history) + seq![Effect::Commit]);
    }
}

/// A migration that the history does not show as it is now is applied: its
/// statements are executed in their order, it is recorded, all of it is
/// committed, and the run goes on to the next.
pub proof fn pending_migration_is_executed_recorded_and_committed<P>(
    left: Seq<MigrationView<P>>,
    placeholders: Option<Seq<(Seq<char>, Seq<char>)>>,
    reply: ReplyView<P>,
    content: Seq<char>,
    now: Timestamp,
)
    requires
        left.len() > 0,
        shows_pending(left[0], reply),
    ensures
        run_after(
            run_start(left, placeholders),
            applying_events(left[0], reply, content, placeholders, now),
        ) == run_start(left.skip(1), placeholders),
        run_effects(
            run_start(left, placeholders),
            applying_events(left[0], reply, content, placeholders, now),
        ) == applying_effects(left[0], content, placeholders, now),
{
    let run = run_start(left, placeholders);
    let calls = file_calls(content, placeholders);
    let events = applying_events(left[0], reply, content, placeholders, now);
    let later = events.skip(1);
    let reading = run_in(run, RunPhaseView::Read);
    let none = Seq::<Effect>::empty();
    let effects = applying_effects(left[0], content, placeholders, now);
    assert(events[0] == (reply, now));
    assert(run_next(run, events[0].0, events[0].1) == reading);
    assert(later[0] == (ReplyView::<P>::Text(Ok(content)), now));
    assert(later.skip(1) =~= successes::<P>(calls.len() + history_calls(left[0], now).len(), now));
    assert(run_next(reading, later[0].0, later[0].1) == run_executing(run, calls, now));
    remaining_statements(run, calls, now);
    assert(run_after(reading, later) == run_passed(run));
    assert(none + effects =~= effects);
    assert(run_effects(reading, later) == none + effects);
    assert(run_effects(run, events) == none + effects);
}

/// The next migration starts only once the one before is committed.
pub proof fn run_goes_on_only_after_the_commit<P>(
    run: RunView<P>,
    reply: ReplyView<P>,
    now: Timestamp,
)
    requires
        answers(reply, run_request(run)),
        run_next(run, reply, now).left != run.left,
    ensures
        run.phase is Check && shows_applied(run.left[0], reply) || run.phase is Commit
            && reply matches ReplyView::Committed(Ok(_)),
{
}

/// What the history holds of a migration.
pub ghost struct HistoryRow {
    pub ty: MigType,
    pub checksum: Option<i64>,
}

/// What the history replies of a migration. It holds one row per name.
pub open spec fn history_reply<P>(
    history: Map<Seq<char>, HistoryRow>,
    mig: MigrationView<P>,
) -> ReplyView<P> {
    let there = history.contains_key(mig.name) && history[mig.name].ty == mig.ty;
    match mig.ty {
        MigType::Versioned => ReplyView::Count(
            Ok(
                if there {
                    1
                } else {
                    0
                },
            ),
        ),
        MigType::Repeatable => ReplyView::FirstColumn(
            Ok(
                if there {
                    Some(history[mig.name].checksum)
                } else {
                    None
                },
            ),
        ),
    }
}

/// The history with a migration recorded.
pub open spec fn with_record<P>(
    history: Map<Seq<char>, HistoryRow>,
    mig: MigrationView<P>,
) -> Map<Seq<char>, HistoryRow> {
    history.insert(
        mig.name,
        HistoryRow { ty: mig.ty, checksum: Some(migrations::stored_checksum(mig.checksum)) },
    )
}

/// The history after migrations were applied, as far as they have to be.
pub open spec fn history_after<P>(
    left: Seq<MigrationView<P>>,
    history: Map<Seq<char>, HistoryRow>,
) -> Map<Seq<char>, HistoryRow>
    decreases left.len(),
{
    if left.len() == 0 {
        history
    } else if shows_applied(left[0], history_reply(history, left[0])) {
        history_after(left.skip(1), history)
    } else {
        history_after(left.skip(1), with_record(history, left[0]))
    }
}

/// The replies to migrations over a history, where nothing fails.
pub open spec fn events_over<P>(
    history: Map<Seq<char>, HistoryRow>,
    left: Seq<MigrationView<P>>,
    contents: Seq<Seq<char>>,
    placeholders: Option<Seq<(Seq<char>, Seq<char>)>>,
    now: Timestamp,
) -> Seq<(ReplyView<P>, Timestamp)>
    decreases left.len(),
{
    if left.len() == 0 {
        Seq::empty()
    } else {
        let reply = history_reply(history, left[0]);
        if shows_applied(left[0], reply) {
            seq![(reply, now)] + events_over(
                history,
                left.skip(1),
                contents.skip(1),
                placeholders,
                now,
            )
        } else {
            applying_events(left[0], reply, contents[0], placeholders, now) + events_over(
                with_record(history, left[0]),
                left.skip(1),
                contents.skip(1),
                placeholders,
                now,
            )
        }
    }
}

/// What applying migrations over a history does to the database: each one that
/// has to be applied is executed, recorded and committed, one after the other.
pub open spec fn effects_over<P>(
    history: Map<Seq<char>, HistoryRow>,
    left: Seq<MigrationView<P>>,
    contents: Seq<Seq<char>>,
    placeholders: Option<Seq<(Seq<char>, Seq<char>)>>,
    now: Timestamp,
) -> Seq<Effect>
    decreases left.len(),
{
    if left.len() == 0 {
        Seq::empty()
    } else if shows_applied(left[0], history_reply(history, left[0])) {
        effects_over(history, left.skip(1), contents.skip(1), placeholders, now)
    } else {
        applying_effects(left[0], contents[0], placeholders, now) + effects_over(
            with_record(history, left[0]),
            left.skip(1),
            contents.skip(1),
            placeholders,
            now,
        )
    }
}

/// Over any history the migrations that it does not show as they are now are
/// applied, in the order of the run, each recorded and committed before the next
/// one starts; the others are passed over.
pub proof fn pending_migrations_are_applied_in_order<P>(
    history: Map<Seq<char>, HistoryRow>,
    left: Seq<MigrationView<P>>,
    placeholders: Option<Seq<(Seq<char>, Seq<char>)>>,
    contents: Seq<Seq<char>>,
    now: Timestamp,
)
    requires
        contents.len() == left.len(),
    ensures
        run_after(
            run_start(left, placeholders),
            events_over(history, left, contents, placeholders, now),
        ).phase is Done,
        run_effects(
            run_start(left, placeholders),
            events_over(history, left, contents, placeholders, now),
        ) == effects_over(history, left, contents, placeholders, now),
    decreases left.len(),
{
    if left.len() > 0 {
        let run = run_start(left, placeholders);
        let reply = history_reply(history, left[0]);
        let rest = left.skip(1);
        let later = contents.skip(1);
        let events = events_over(history, left, contents, placeholders, now);
        if shows_applied(left[0], reply) {
            pending_migrations_are_applied_in_order(history, rest, placeholders, later, now);
            assert(events[0] == (reply, now));
            assert(events.skip(1) =~= events_over(history, rest, later, placeholders, now));
            assert(run_next(run, reply, now) == run_start(rest, placeholders));
            assert(Seq::empty() + effects_over(history, rest, later, placeholders, now)
                =~= effects_over(history, rest, later, placeholders, now));
        } else {
            let more = with_record(history, left[0]);
            pending_migration_is_executed_recorded_and_committed(
                left,
                placeholders,
                reply,
                contents[0],
                now,
            );
            pending_migrations_are_applied_in_order(more, rest, placeholders, later, now);
            run_in_two_parts(
                run,
                applying_events(left[0], reply, contents[0], placeholders, now),
                events_over(more, rest, later, placeholders, now),
            );
        }
    }
}

/// Whether no two migrations have the same name.
pub open spec fn names_are_distinct<P>(left: Seq<MigrationView<P>>) -> bool {
    forall|i: int, j: int|
        0 <= i < j < left.len() ==> (#[trigger] left[i]).name != (#[trigger] left[j]).name
}

proof fn names_are_distinct_in_rest<P>(left: Seq<MigrationView<P>>)
    requires
        names_are_distinct(left),
        left.len() > 0,
    ensures
        names_are_distinct(left.skip(1)),
        forall|i: int| 0 <= i < left.len() - 1 ==> (#[trigger] left.skip(1)[i]).name != left[0].name,
{
    let rest = left.skip(1);
    assert forall|i: int, j: int| 0 <= i < j < rest.len() implies (#[trigger] rest[i]).name != (
    #[trigger] rest[j]).name by {
        assert(left[i + 1].name != left[j + 1].name);
    }
    assert forall|i: int| 0 <= i < left.len() - 1 implies (#[trigger] left.skip(1)[i]).name
        != left[0].name by {
        assert(left[0].name != left[i + 1].name);
    }
}

/// Migrations leave the rows of other names alone.
proof fn other_rows_stay<P>(
    left: Seq<MigrationView<P>>,
    history: Map<Seq<char>, HistoryRow>,
    name: Seq<char>,
)
    requires
        forall|i: int| 0 <= i < left.len() ==> (#[trigger] left[i]).name != name,
    ensures
        history_after(left, history).contains_key(name) == history.contains_key(name),
        history.contains_key(name) ==> history_after(left, history)[name] == history[name],
    decreases left.len(),
{
    if left.len() > 0 {
        let rest = left.skip(1);
        assert forall|i: int| 0 <= i < rest.len() implies (#[trigger] rest[i]).name != name by {
            assert(left[i + 1].name != name);
        }
        assert(left[0].name != name);
        other_rows_stay(rest, history, name);
        other_rows_stay(rest, with_record(history, left[0]), name);
    }
}

/// After a run the history shows every migration of it as it is now.
pub proof fn history_shows_what_was_applied<P>(
    left: Seq<MigrationView<P>>,
    history: Map<Seq<char>, HistoryRow>,
    i: int,
)
    requires
        names_are_distinct(left),
        0 <= i < left.len(),
    ensures
        shows_applied(left[i], history_reply(history_after(left, history), left[i])),
    decreases left.len(),
{
    let mig = left[0];
    let rest = left.skip(1);
    let next = if shows_applied(mig, history_reply(history, mig)) {
        history
    } else {
        with_record(history, mig)
    };
    names_are_distinct_in_rest(left);
    if i == 0 {
        other_rows_stay(rest, next, mig.name);
        migrations::recorded_checksum_tells_changes(mig.checksum, mig.checksum);
        assert(shows_applied(mig, history_reply(next, mig)));
    } else {
        history_shows_what_was_applied(rest, next, i - 1);
        assert(rest[i - 1] == left[i]);
    }
}

/// Over a history that shows every migration as it is now nothing is executed,
/// and the history stays.
proof fn shown_migrations_have_no_effect<P>(
    history: Map<Seq<char>, HistoryRow>,
    left: Seq<MigrationView<P>>,
    contents: Seq<Seq<char>>,
    placeholders: Option<Seq<(Seq<char>, Seq<char>)>>,
    now: Timestamp,
)
    requires
        forall|i: int|
            0 <= i < left.len() ==> shows_applied(
                #[trigger] left[i],
                history_reply(history, left[i]),
            ),
    ensures
        effects_over(history, left, contents, placeholders, now) == Seq::<Effect>::empty(),
        history_after(left, history) == history,
    decreases left.len(),
{
    if left.len() > 0 {
        let rest = left.skip(1);
        assert(shows_applied(left[0], history_reply(history, left[0])));
        assert forall|i: int| 0 <= i < rest.len() implies shows_applied(
            #[trigger] rest[i],
            history_reply(history, rest[i]),
        ) by {
            assert(rest[i] == left[i + 1]);
        }
        shown_migrations_have_no_effect(history, rest, contents.skip(1), placeholders, now);
    }
}

/// Migrations are applied once: over the history that an earlier run left, a run
/// of the same migrations succeeds, does nothing to the database, and leaves the
/// history as it is.
pub proof fn migrations_are_applied_once<P>(
    history: Map<Seq<char>, HistoryRow>,
    left: Seq<MigrationView<P>>,
    placeholders: Option<Seq<(Seq<char>, Seq<char>)>>,
    contents: Seq<Seq<char>>,
    now: Timestamp,
)
    requires
        names_are_distinct(left),
        contents.len() == left.len(),
    ensures
        ({
            let left_behind = history_after(left, history);
            let events = events_over(left_behind, left, contents, placeholders, now);
            &&& run_after(run_start(left, placeholders), events).phase is Done
            &&& run_effects(run_start(left, placeholders), events) == Seq::<Effect>::empty()
            &&& effects_over(left_behind, left, contents, placeholders, now) == Seq::<
                Effect,
            >::empty()
            &&& history_after(left, left_behind) == left_behind
        }),
{
    let left_behind = history_after(left, history);
    assert forall|i: int| 0 <= i < left.len() implies shows_applied(
        #[trigger] left[i],
        history_reply(left_behind, left[i]),
    ) by {
        history_shows_what_was_applied(left, history, i);
    }
    shown_migrations_have_no_effect(left_behind, left, contents, placeholders, now);
    pending_migrations_are_applied_in_order(left_behind, left, placeholders, contents, now);
}

/// A run comes to record a migration only when the last of its statements
/// succeeded, or when it has none.
pub proof fn only_applied_migrations_are_recorded<P>(
    run: RunView<P>,
    reply: ReplyView<P>,
    now: Timestamp,
)
    requires
        answers(reply, run_request(run)),
        run_next(run, reply, now).phase is Record || run_next(run, reply, now).phase is Forget,
    ensures
        run_next(run, reply, now).left == run.left,
        match run.phase {
            RunPhaseView::Read => reply matches ReplyView::Text(Ok(content)) && file_calls(
                content,
                run.placeholders,
            ).len() == 0,
            RunPhaseView::Execute(calls) => calls.len() <= 1
                && reply matches ReplyView::Executed(Ok(_)),
            RunPhaseView::Forget(_, _) => true,
            _ => false,
        },
{
}

/// A statement that fails ends the run: the migration is neither recorded nor
/// committed, and nothing after it is applied.
pub proof fn failed_statement_ends_the_run<P>(
    run: RunView<P>,
    error: db::OracleErrorView,
    now: Timestamp,
)
    requires
        run.phase is Execute,
    ensures
        run_request(run_next(run, ReplyView::<P>::Executed(Err(error)), now))
            == RequestView::<P>::Failed(db::oracle_error_text(error)),
        forall|reply: ReplyView<P>|
            !#[trigger] answers(
                reply,
                run_request(run_next(run, ReplyView::<P>::Executed(Err(error)), now)),
            ),
{
}

/// A repeatable migration is applied again exactly if its checksum is no longer
/// the one with which it was recorded.
pub proof fn repeatable_migration_is_applied_again_when_changed<P>(
    left: Seq<MigrationView<P>>,
    placeholders: Option<Seq<(Seq<char>, Seq<char>)>>,
    recorded: u64,
    now: Timestamp,
)
    requires
        left.len() > 0,
        left[0].ty == MigType::Repeatable,
    ensures
        run_next(
            run_start(left, placeholders),
            ReplyView::<P>::FirstColumn(Ok(Some(Some(migrations::stored_checksum(recorded))))),
            now,
        ) == if recorded == left[0].checksum {
            run_start(left.skip(1), placeholders)
        } else {
            run_in(run_start(left, placeholders), RunPhaseView::Read)
        },
{
    migrations::recorded_checksum_tells_changes(recorded, left[0].checksum);
}

/// A repeatable migration in whose file one byte was changed is applied again.
pub proof fn edited_repeatable_migration_is_applied_again<P>(
    left: Seq<MigrationView<P>>,
    placeholders: Option<Seq<(Seq<char>, Seq<char>)>>,
    data: Seq<u8>,
    at: int,
    byte: u8,
    now: Timestamp,
)
    requires
        left.len() > 0,
        left[0].ty == MigType::Repeatable,
        0 <= at < data.len(),
        byte != data[at],
        left[0].checksum == checksum::fnv1a(data.update(at, byte)),
    ensures
        run_next(
            run_start(left, placeholders),
            ReplyView::<P>::FirstColumn(
                Ok(Some(Some(migrations::stored_checksum(checksum::fnv1a(data))))),
            ),
            now,
        ) == run_in(run_start(left, placeholders), RunPhaseView::Read),
{
    checksum::changed_byte_changes_the_checksum(data, at, byte);
    repeatable_migration_is_applied_again_when_changed(
        left,
        placeholders,
        checksum::fnv1a(data),
        now,
    );
}

} // verus!
