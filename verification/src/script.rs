//! What is done to the database before the connector uses it.

use vstd::prelude::*;

use crate::apply;
use crate::apply::{HistoryRow, MigrationRun, RunView};
use crate::clock;
use crate::db;
use crate::db::Timestamp;
use crate::migrations;
use crate::migrations::{MigrationFile, MigrationView};
use crate::protocol::{
    answers, effects_of, executions, DirEntryView, Effect, ListingView, Reply, ReplyView, Request,
    RequestView,
};
use crate::scan;
use crate::scan::{DirectoryScan, ScanView};
use crate::schema;
use crate::schema::{ensure_migrations_table, init_agent_runtime_schema, EnsureRun, EnsureView};
use crate::sql_text;
use crate::sql_text::Placeholders;

verus! {

enum ScriptState<P> {
    Nothing,
    Ensure(EnsureRun),
    History(EnsureRun, String, Option<Placeholders>),
    Scan(DirectoryScan<P>, Option<Placeholders>),
    Apply(MigrationRun<P>),
}

/// What sets up the database.
pub struct SchemaScript<P> {
    state: ScriptState<P>,
}

/// What sets up the database, and how far it is.
pub ghost enum ScriptView<P> {
    /// There is nothing to do.
    Nothing,
    /// Tables and indexes are created where they are missing.
    Ensure(EnsureView),
    /// The history table is created where it is missing, before migrations are
    /// looked for in the directory.
    History {
        run: EnsureView,
        dir: Seq<char>,
        placeholders: Option<Seq<(Seq<char>, Seq<char>)>>,
    },
    /// Migrations are looked for.
    Scan { scan: ScanView<P>, placeholders: Option<Seq<(Seq<char>, Seq<char>)>> },
    /// Migrations are applied.
    Apply(RunView<P>),
}

impl<P> View for SchemaScript<P> {
    type V = ScriptView<P>;

    closed spec fn view(&self) -> ScriptView<P> {
        match self.state {
            ScriptState::Nothing => ScriptView::Nothing,
            ScriptState::Ensure(run) => ScriptView::Ensure(run@),
            ScriptState::History(run, dir, placeholders) => ScriptView::History {
                run: run@,
                dir: dir@,
                placeholders: sql_text::placeholders_view(placeholders),
            },
            ScriptState::Scan(scan, placeholders) => ScriptView::Scan {
                scan: scan@,
                placeholders: sql_text::placeholders_view(placeholders),
            },
            ScriptState::Apply(run) => ScriptView::Apply(run@),
        }
    }
}

/// The script that sets up the agent runtime's schema.
pub open spec fn agent_runtime_script<P>() -> ScriptView<P> {
    ScriptView::Ensure(schema::ensure_start(schema::agent_runtime_steps()))
}

/// The script that applies the migrations in a directory.
pub open spec fn filesystem_script<P>(
    dir: Seq<char>,
    placeholders: Option<Seq<(Seq<char>, Seq<char>)>>,
) -> ScriptView<P> {
    ScriptView::History {
        run: schema::ensure_start(seq![schema::history_step()]),
        dir,
        placeholders,
    }
}

/// The script with a walk through the directory: once that is through, what it
/// found is applied.
pub open spec fn script_of_scan<P>(
    scan: ScanView<P>,
    placeholders: Option<Seq<(Seq<char>, Seq<char>)>>,
) -> ScriptView<P> {
    match scan {
        ScanView::Done { found } => ScriptView::Apply(
            apply::run_start(migrations::plan_of(found), placeholders),
        ),
        _ => ScriptView::Scan { scan, placeholders },
    }
}

/// What a script asks for.
pub open spec fn script_request<P>(script: ScriptView<P>) -> RequestView<P> {
    match script {
        ScriptView::Nothing => RequestView::Done,
        ScriptView::Ensure(run) => schema::ensure_request(run),
        ScriptView::History { run, dir, placeholders } => schema::ensure_request(run),
        ScriptView::Scan { scan, placeholders } => scan::scan_request(scan),
        ScriptView::Apply(run) => apply::run_request(run),
    }
}

/// A script after a reply, the time being `now`.
pub open spec fn script_next<P>(
    script: ScriptView<P>,
    reply: ReplyView<P>,
    now: Timestamp,
) -> ScriptView<P> {
    match script {
        ScriptView::Nothing => script,
        ScriptView::Ensure(run) => ScriptView::Ensure(schema::ensure_next(run, reply)),
        ScriptView::History { run, dir, placeholders } => {
            let after = schema::ensure_next(run, reply);
            if after.phase is Done {
                ScriptView::Scan { scan: ScanView::List { dir }, placeholders }
            } else {
                ScriptView::History { run: after, dir, placeholders }
            }
        },
        ScriptView::Scan { scan, placeholders } => script_of_scan(
            scan::scan_next(scan, reply),
            placeholders,
        ),
        ScriptView::Apply(run) => ScriptView::Apply(apply::run_next(run, reply, now)),
    }
}

impl<P> SchemaScript<P> {
    /// The script that does nothing.
    pub fn nothing() -> (script: SchemaScript<P>)
        ensures
            script@ == ScriptView::<P>::Nothing,
    {
        SchemaScript { state: ScriptState::Nothing }
    }

    /// The script that sets up the agent runtime's schema.
    pub fn agent_runtime() -> (script: SchemaScript<P>)
        ensures
            script@ == agent_runtime_script::<P>(),
    {
        SchemaScript { state: ScriptState::Ensure(init_agent_runtime_schema()) }
    }

    /// The script that creates the history table where it is missing and applies
    /// the migrations in a directory.
    pub fn filesystem(dir: String, placeholders: Option<Placeholders>) -> (script: SchemaScript<P>)
        ensures
            script@ == filesystem_script::<P>(dir@, sql_text::placeholders_view(placeholders)),
    {
        SchemaScript { state: ScriptState::History(ensure_migrations_table(), dir, placeholders) }
    }

    /// The script that applies the migrations in a directory, where the history
    /// table is there.
    pub fn apply_migrations_from_dir(dir: String, placeholders: Option<Placeholders>) -> (script:
        SchemaScript<P>)
        ensures
            script@ == (ScriptView::<P>::Scan {
                scan: ScanView::List { dir: dir@ },
                placeholders: sql_text::placeholders_view(placeholders),
            }),
    {
        SchemaScript { state: ScriptState::Scan(DirectoryScan::new(dir), placeholders) }
    }

    /// What the script asks for.
    pub fn request(&self) -> (request: Request<'_, P>)
        ensures
            request@ == script_request(self@),
    {
        match &self.state {
            ScriptState::Nothing => Request::Done,
            ScriptState::Ensure(run) => run.request(),
            ScriptState::History(run, _, _) => run.request(),
            ScriptState::Scan(scan, _) => scan.request(),
            ScriptState::Apply(run) => run.request(),
        }
    }

    fn step_with(self, reply: Reply<P>, clock: Option<Timestamp>) -> (after: SchemaScript<P>)
        requires
            answers(reply@, script_request(self@)),
        ensures
            clock matches Some(now) ==> after@ == script_next(self@, reply@, now),
            clock is None ==> exists|now: Timestamp|
                clock::is_moment(now) && after@ == #[trigger] script_next(self@, reply@, now),
    {
        let ghost any = Timestamp { secs: 0, nanos: 0 };
        let ghost before = self@;
        let ghost answer = reply@;
        let state: ScriptState<P> = match self.state {
            ScriptState::Nothing => ScriptState::Nothing,
            ScriptState::Ensure(run) => ScriptState::Ensure(run.step(reply)),
            ScriptState::History(run, dir, placeholders) => {
                let next: EnsureRun = run.step(reply);
                if next.is_done() {
                    SchemaScript::apply_migrations_from_dir(dir, placeholders).state
                } else {
                    ScriptState::History(next, dir, placeholders)
                }
            },
            ScriptState::Scan(scan, placeholders) => {
                let next: DirectoryScan<P> = scan.step(reply);
                if next.is_done() {
                    let plan: Vec<MigrationFile<P>> = next.into_plan();
                    ScriptState::Apply(MigrationRun::new(plan, placeholders))
                } else {
                    ScriptState::Scan(next, placeholders)
                }
            },
            ScriptState::Apply(run) => match clock {
                Some(now) => ScriptState::Apply(run.step_at(reply, now)),
                None => {
                    let next: MigrationRun<P> = run.step(reply);
                    proof {
                        let now = choose|now: Timestamp|
                            clock::is_moment(now) && next@ == #[trigger] apply::run_next(
                                run@,
                                answer,
                                now,
                            );
                        assert(script_next(before, answer, now) == ScriptView::Apply(next@));
                    }
                    ScriptState::Apply(next)
                },
            },
        };
        let after = SchemaScript { state };
        proof {
            assert(clock::is_moment(any));
            assert(before is Apply || after@ == script_next(before, answer, any));
        }
        after
    }

    /// The script after a reply to what it asked for, the time being `now`.
    pub fn step_at(self, reply: Reply<P>, now: Timestamp) -> (after: SchemaScript<P>)
        requires
            answers(reply@, script_request(self@)),
        ensures
            after@ == script_next(self@, reply@, now),
    {
        self.step_with(reply, Some(now))
    }

    /// The script after a reply to what it asked for. The clock is read where a
    /// migration has to be recorded.
    pub fn step(self, reply: Reply<P>) -> (after: SchemaScript<P>)
        requires
            answers(reply@, script_request(self@)),
        ensures
            exists|now: Timestamp|
                clock::is_moment(now) && after@ == #[trigger] script_next(self@, reply@, now),
    {
        self.step_with(reply, None)
    }
}

// --------------------------------------------------------------------- laws

/// A script after a series of replies, each with the time at which it came.
pub open spec fn script_after<P>(
    script: ScriptView<P>,
    events: Seq<(ReplyView<P>, Timestamp)>,
) -> ScriptView<P>
    decreases events.len(),
{
    if events.len() == 0 {
        script
    } else {
        script_after(script_next(script, events[0].0, events[0].1), events.skip(1))
    }
}

/// What a script did to the database to get these replies.
pub open spec fn script_effects<P>(
    script: ScriptView<P>,
    events: Seq<(ReplyView<P>, Timestamp)>,
) -> Seq<Effect>
    decreases events.len(),
{
    if events.len() == 0 {
        Seq::empty()
    } else {
        effects_of(script_request(script)) + script_effects(
            script_next(script, events[0].0, events[0].1),
            events.skip(1),
        )
    }
}

proof fn script_in_two_parts<P>(
    script: ScriptView<P>,
    first: Seq<(ReplyView<P>, Timestamp)>,
    second: Seq<(ReplyView<P>, Timestamp)>,
)
    ensures
        script_after(script, first + second) == script_after(script_after(script, first), second),
        script_effects(script, first + second) == script_effects(script, first) + script_effects(
            script_after(script, first),
            second,
        ),
    decreases first.len(),
{
    let all = first + second;
    let later = script_effects(script_after(script, first), second);
    if first.len() == 0 {
        assert(all =~= second);
        assert(Seq::empty() + later =~= later);
    } else {
        let next = script_next(script, first[0].0, first[0].1);
        let here = effects_of(script_request(script));
        script_in_two_parts(next, first.skip(1), second);
        assert(all.skip(1) =~= first.skip(1) + second);
        assert(here + (script_effects(next, first.skip(1)) + later) =~= here + script_effects(
            next,
            first.skip(1),
        ) + later);
    }
}

proof fn applying_as_a_script<P>(run: RunView<P>, events: Seq<(ReplyView<P>, Timestamp)>)
    ensures
        script_after(ScriptView::Apply(run), events) == ScriptView::Apply(
            apply::run_after(run, events),
        ),
        script_effects(ScriptView::Apply(run), events) == apply::run_effects(run, events),
    decreases events.len(),
{
    if events.len() > 0 {
        applying_as_a_script(
            apply::run_next(run, events[0].0, events[0].1),
            events.skip(1),
        );
    }
}

/// The replies by which files are read.
pub open spec fn file_events<P>(files: Seq<Seq<u8>>, now: Timestamp) -> Seq<
    (ReplyView<P>, Timestamp),
> {
    files.map_values(|b: Seq<u8>| (ReplyView::<P>::Bytes(Ok(b)), now))
}

/// The listing of a directory all of whose entries can be had.
pub open spec fn listed<P>(entries: Seq<DirEntryView<P>>) -> Seq<
    Result<DirEntryView<P>, Seq<char>>,
> {
    entries.map_values(|e: DirEntryView<P>| Ok::<DirEntryView<P>, Seq<char>>(e))
}

/// The migrations in the files of a directory, in the order of the listing.
pub open spec fn migrations_in<P>(
    entries: Seq<DirEntryView<P>>,
    files: Seq<Seq<u8>>,
) -> Seq<MigrationView<P>> {
    Seq::new(files.len(), |i: int| scan::migration_of(scan::candidates(entries)[i], files[i]))
}

proof fn walking_as_a_script<P>(
    entries: Seq<DirEntryView<P>>,
    files: Seq<Seq<u8>>,
    found: Seq<MigrationView<P>>,
    placeholders: Option<Seq<(Seq<char>, Seq<char>)>>,
    now: Timestamp,
)
    requires
        files.len() == scan::candidates(entries).len(),
    ensures
        script_after(
            script_of_scan(scan::scan_from(listed(entries), found), placeholders),
            file_events::<P>(files, now),
        ) == ScriptView::Apply(
            apply::run_start(
                migrations::plan_of(found + migrations_in(entries, files)),
                placeholders,
            ),
        ),
        script_effects(
            script_of_scan(scan::scan_from(listed(entries), found), placeholders),
            file_events::<P>(files, now),
        ) == Seq::<Effect>::empty(),
    decreases entries.len(),
{
    let all = listed(entries);
    let events = file_events::<P>(files, now);
    if entries.len() == 0 {
        assert(found + migrations_in(entries, files) =~= found);
        assert(events.len() == 0);
    } else {
        let rest = entries.skip(1);
        assert(all.skip(1) =~= listed(rest));
        if scan::is_candidate(entries[0]) {
            let later = files.skip(1);
            let first = scan::migration_of(entries[0], files[0]);
            let state = script_of_scan(scan::scan_from(all, found), placeholders);
            assert(scan::candidates(entries).skip(1) =~= scan::candidates(rest));
            walking_as_a_script(rest, later, found.push(first), placeholders, now);
            assert(events.skip(1) =~= file_events::<P>(later, now));
            assert(found.push(first) + migrations_in(rest, later) =~= found + migrations_in(
                entries,
                files,
            ));
            assert(script_next(state, events[0].0, events[0].1) == script_of_scan(
                scan::scan_from(listed(rest), found.push(first)),
                placeholders,
            ));
        } else {
            walking_as_a_script(rest, files, found, placeholders, now);
            assert(migrations_in(rest, files) =~= migrations_in(entries, files));
        }
    }
}

/// The replies by which a directory with these entries and files is walked.
pub open spec fn directory_events<P>(
    entries: Seq<DirEntryView<P>>,
    files: Seq<Seq<u8>>,
    now: Timestamp,
) -> Seq<(ReplyView<P>, Timestamp)> {
    seq![(ReplyView::<P>::Listing(ListingView::Entries(listed(entries))), now)] + file_events::<P>(
        files,
        now,
    )
}

/// The script that applies the migrations in a directory, where the history table
/// is there.
pub open spec fn directory_script<P>(
    dir: Seq<char>,
    placeholders: Option<Seq<(Seq<char>, Seq<char>)>>,
) -> ScriptView<P> {
    ScriptView::Scan { scan: ScanView::List { dir }, placeholders }
}

/// The replies to a script that applies the migrations in a directory over a
/// history, where nothing fails.
pub open spec fn directory_events_over<P>(
    history: Map<Seq<char>, HistoryRow>,
    entries: Seq<DirEntryView<P>>,
    files: Seq<Seq<u8>>,
    contents: Seq<Seq<char>>,
    placeholders: Option<Seq<(Seq<char>, Seq<char>)>>,
    now: Timestamp,
) -> Seq<(ReplyView<P>, Timestamp)> {
    directory_events(entries, files, now) + apply::events_over(
        history,
        plan_in(entries, files),
        contents,
        placeholders,
        now,
    )
}

/// The plan of the migrations in the files of a directory.
pub open spec fn plan_in<P>(
    entries: Seq<DirEntryView<P>>,
    files: Seq<Seq<u8>>,
) -> Seq<MigrationView<P>> {
    migrations::plan_of(migrations_in(entries, files))
}

/// The migrations in a directory are applied as far as the history does not show
/// them as they are now: the versioned ones by version, then the repeatable ones
/// by name, each as a whole, recorded and committed before the next one starts.
/// Files that hold no migration have no part in it.
pub proof fn directory_is_applied_over_a_history<P>(
    dir: Seq<char>,
    placeholders: Option<Seq<(Seq<char>, Seq<char>)>>,
    history: Map<Seq<char>, HistoryRow>,
    entries: Seq<DirEntryView<P>>,
    files: Seq<Seq<u8>>,
    contents: Seq<Seq<char>>,
    now: Timestamp,
)
    requires
        files.len() == scan::candidates(entries).len(),
        contents.len() == plan_in(entries, files).len(),
    ensures
        script_request(
            script_after(
                directory_script(dir, placeholders),
                directory_events_over(history, entries, files, contents, placeholders, now),
            ),
        ) == RequestView::<P>::Done,
        script_effects(
            directory_script(dir, placeholders),
            directory_events_over(history, entries, files, contents, placeholders, now),
        ) == apply::effects_over(history, plan_in(entries, files), contents, placeholders, now),
        migrations::is_plan_of(plan_in(entries, files), migrations_in(entries, files)),
{
    migrations::there_is_a_plan(migrations_in(entries, files));
    let plan = plan_in(entries, files);
    let start = directory_script::<P>(dir, placeholders);
    let walked = script_of_scan(scan::scan_from(listed(entries), Seq::empty()), placeholders);
    let walk = directory_events(entries, files, now);
    let events = apply::events_over(history, plan, contents, placeholders, now);
    let effects = apply::effects_over(history, plan, contents, placeholders, now);
    assert(walk.skip(1) =~= file_events::<P>(files, now));
    assert(script_next(start, walk[0].0, walk[0].1) == walked);
    walking_as_a_script(entries, files, Seq::empty(), placeholders, now);
    assert(Seq::empty() + migrations_in(entries, files) =~= migrations_in(entries, files));
    assert(script_effects(start, walk) =~= Seq::<Effect>::empty());
    script_in_two_parts(start, walk, events);
    applying_as_a_script(apply::run_start(plan, placeholders), events);
    apply::pending_migrations_are_applied_in_order(history, plan, placeholders, contents, now);
    assert(Seq::empty() + effects =~= effects);
}

/// The replies by which the history table is found, or else created.
pub open spec fn table_events<P>(there: bool, now: Timestamp) -> Seq<(ReplyView<P>, Timestamp)> {
    if there {
        seq![(ReplyView::<P>::Count(Ok(1)), now)]
    } else {
        seq![
            (ReplyView::<P>::Count(Ok(0)), now),
            (ReplyView::<P>::Executed(Ok(())), now),
            (ReplyView::<P>::Executed(Ok(())), now),
        ]
    }
}

/// What creates the history table where it is missing.
pub open spec fn table_effects(there: bool) -> Seq<Effect> {
    if there {
        Seq::empty()
    } else {
        executions(
            seq![
                db::plain_call(schema::HISTORY_DDL@),
                db::plain_call(schema::HISTORY_INDEX_DDL@),
            ],
        )
    }
}

proof fn finding_the_table<P>(
    dir: Seq<char>,
    placeholders: Option<Seq<(Seq<char>, Seq<char>)>>,
    there: bool,
    now: Timestamp,
)
    ensures
        script_after(filesystem_script(dir, placeholders), table_events::<P>(there, now))
            == directory_script::<P>(dir, placeholders),
        script_effects(filesystem_script(dir, placeholders), table_events::<P>(there, now))
            == table_effects(there),
{
    reveal_with_fuel(script_after, 4);
    reveal_with_fuel(script_effects, 4);
    let steps = seq![schema::history_step()];
    let s0 = filesystem_script::<P>(dir, placeholders);
    let s3 = directory_script::<P>(dir, placeholders);
    let e0 = table_events::<P>(there, now);
    let e1 = e0.skip(1);
    assert(steps.skip(1).len() == 0);
    if there {
        assert(script_next(s0, e0[0].0, now) == s3);
        assert(e1.len() == 0);
        assert(script_effects(s0, e0) =~= table_effects(there));
    } else {
        let s1 = ScriptView::<P>::History {
            run: EnsureView { left: steps, phase: schema::EnsurePhaseView::Create },
            dir,
            placeholders,
        };
        let s2 = ScriptView::<P>::History {
            run: EnsureView { left: steps, phase: schema::EnsurePhaseView::FollowUp },
            dir,
            placeholders,
        };
        let e2 = e1.skip(1);
        assert(e1[0] == (ReplyView::<P>::Executed(Ok(())), now));
        assert(e2[0] == (ReplyView::<P>::Executed(Ok(())), now));
        assert(e2.skip(1).len() == 0);
        assert(script_next(s0, e0[0].0, now) == s1);
        assert(script_next(s1, e1[0].0, now) == s2);
        assert(script_next(s2, e2[0].0, now) == s3);
        assert(script_after(s2, e2) == s3);
        assert(script_after(s1, e1) == s3);
        assert(script_effects(s2, e2) =~= seq![
            Effect::Execute(db::plain_call(schema::HISTORY_INDEX_DDL@)),
        ]);
        assert(script_effects(s1, e1) =~= table_effects(there));
        assert(script_effects(s0, e0) =~= table_effects(there));
    }
}

/// A database gets every migration in the directory that it does not have as it
/// is now: the history table is created where it is missing, and then the
/// migrations are applied in their order.
pub proof fn database_gets_every_pending_migration<P>(
    dir: Seq<char>,
    placeholders: Option<Seq<(Seq<char>, Seq<char>)>>,
    there: bool,
    history: Map<Seq<char>, HistoryRow>,
    entries: Seq<DirEntryView<P>>,
    files: Seq<Seq<u8>>,
    contents: Seq<Seq<char>>,
    now: Timestamp,
)
    requires
        !there ==> history == Map::<Seq<char>, HistoryRow>::empty(),
        files.len() == scan::candidates(entries).len(),
        contents.len() == plan_in(entries, files).len(),
    ensures
        script_request(
            script_after(
                filesystem_script(dir, placeholders),
                table_events(there, now) + directory_events_over(
                    history,
                    entries,
                    files,
                    contents,
                    placeholders,
                    now,
                ),
            ),
        ) == RequestView::<P>::Done,
        script_effects(
            filesystem_script(dir, placeholders),
            table_events(there, now) + directory_events_over(
                history,
                entries,
                files,
                contents,
                placeholders,
                now,
            ),
        ) == table_effects(there) + apply::effects_over(
            history,
            plan_in(entries, files),
            contents,
            placeholders,
            now,
        ),
        migrations::is_plan_of(plan_in(entries, files), migrations_in(entries, files)),
{
    finding_the_table::<P>(dir, placeholders, there, now);
    directory_is_applied_over_a_history(
        dir,
        placeholders,
        history,
        entries,
        files,
        contents,
        now,
    );
    script_in_two_parts(
        filesystem_script(dir, placeholders),
        table_events(there, now),
        directory_events_over(history, entries, files, contents, placeholders, now),
    );
}

/// Whether no two entries of a directory have the same name.
pub open spec fn entry_names_are_distinct<P>(entries: Seq<DirEntryView<P>>) -> bool {
    forall|i: int, j: int|
        0 <= i < j < entries.len() ==> (#[trigger] entries[i]).name != (#[trigger] entries[j]).name
}

proof fn candidates_are_entries<P>(entries: Seq<DirEntryView<P>>, i: int)
    requires
        0 <= i < scan::candidates(entries).len(),
    ensures
        entries.contains(scan::candidates(entries)[i]),
    decreases entries.len(),
{
    let rest = entries.skip(1);
    if scan::is_candidate(entries[0]) && i == 0 {
        assert(entries[0] == scan::candidates(entries)[0]);
    } else {
        let at = if scan::is_candidate(entries[0]) {
            i - 1
        } else {
            i
        };
        candidates_are_entries(rest, at);
        let k = choose|k: int| 0 <= k < rest.len() && rest[k] == scan::candidates(rest)[at];
        assert(entries[k + 1] == scan::candidates(entries)[i]);
    }
}

proof fn candidates_have_distinct_names<P>(entries: Seq<DirEntryView<P>>)
    requires
        entry_names_are_distinct(entries),
    ensures
        entry_names_are_distinct(scan::candidates(entries)),
    decreases entries.len(),
{
    if entries.len() > 0 {
        let rest = entries.skip(1);
        let all = scan::candidates(entries);
        assert forall|i: int, j: int| 0 <= i < j < rest.len() implies (#[trigger] rest[i]).name != (
        #[trigger] rest[j]).name by {
            assert(entries[i + 1].name != entries[j + 1].name);
        }
        candidates_have_distinct_names(rest);
        if scan::is_candidate(entries[0]) {
            assert forall|i: int, j: int| 0 <= i < j < all.len() implies (#[trigger] all[i]).name
                != (#[trigger] all[j]).name by {
                assert(all[j] == scan::candidates(rest)[j - 1]);
                if i == 0 {
                    candidates_are_entries(rest, j - 1);
                    let k = choose|k: int| 0 <= k < rest.len() && rest[k] == all[j];
                    assert(entries[0].name != entries[k + 1].name);
                } else {
                    assert(all[i] == scan::candidates(rest)[i - 1]);
                }
            }
        }
    }
}

proof fn plan_has_distinct_names<P>(plan: Seq<MigrationView<P>>, found: Seq<MigrationView<P>>)
    requires
        migrations::is_plan_of(plan, found),
        apply::names_are_distinct(found),
    ensures
        apply::names_are_distinct(plan),
{
    broadcast use vstd::seq_lib::group_to_multiset_ensures;

    migrations::plan_keeps_every_migration(plan, found);
    assert(found.no_duplicates()) by {
        assert forall|i: int, j: int| 0 <= i < found.len() && 0 <= j < found.len() && i != j implies
            found[i] != found[j] by {
            if i < j {
                assert(found[i].name != found[j].name);
            } else {
                assert(found[j].name != found[i].name);
            }
        }
    }
    found.lemma_multiset_has_no_duplicates();
    plan.lemma_multiset_has_no_duplicates_conv();
    assert forall|i: int, j: int| 0 <= i < j < plan.len() implies (#[trigger] plan[i]).name != (
    #[trigger] plan[j]).name by {
        assert(plan[i] != plan[j]);
        assert(plan.contains(plan[i]) && plan.contains(plan[j]));
        assert(plan.to_multiset().count(plan[i]) > 0);
        assert(plan.to_multiset().count(plan[j]) > 0);
        assert(found.contains(plan[i]) && found.contains(plan[j]));
        let a = choose|a: int| 0 <= a < found.len() && found[a] == plan[i];
        let b = choose|b: int| 0 <= b < found.len() && found[b] == plan[j];
        if a < b {
            assert(found[a].name != found[b].name);
        } else {
            assert(found[b].name != found[a].name);
        }
    }
}

/// Migrations are applied once: where an earlier call applied the migrations in a
/// directory, and neither the files nor the history have changed since, another
/// call succeeds and does nothing to the database, over the same connection or a
/// new one.
pub proof fn second_call_does_nothing<P>(
    dir: Seq<char>,
    placeholders: Option<Seq<(Seq<char>, Seq<char>)>>,
    history: Map<Seq<char>, HistoryRow>,
    entries: Seq<DirEntryView<P>>,
    files: Seq<Seq<u8>>,
    contents: Seq<Seq<char>>,
    now: Timestamp,
)
    requires
        entry_names_are_distinct(entries),
        files.len() == scan::candidates(entries).len(),
        contents.len() == plan_in(entries, files).len(),
    ensures
        ({
            let left_behind = apply::history_after(plan_in(entries, files), history);
            let events = directory_events_over(
                left_behind,
                entries,
                files,
                contents,
                placeholders,
                now,
            );
            let directory = directory_script::<P>(dir, placeholders);
            let filesystem = filesystem_script::<P>(dir, placeholders);
            let table = table_events::<P>(true, now);
            &&& script_request(script_after(directory, events)) == RequestView::<P>::Done
            &&& script_effects(directory, events) == Seq::<Effect>::empty()
            &&& script_request(script_after(filesystem, table + events)) == RequestView::<P>::Done
            &&& script_effects(filesystem, table + events) == Seq::<Effect>::empty()
            &&& apply::history_after(plan_in(entries, files), left_behind) == left_behind
        }),
{
    let found = migrations_in(entries, files);
    let plan = plan_in(entries, files);
    let left_behind = apply::history_after(plan, history);
    migrations::there_is_a_plan(found);
    candidates_have_distinct_names(entries);
    assert(apply::names_are_distinct(found)) by {
        assert forall|i: int, j: int| 0 <= i < j < found.len() implies (#[trigger] found[i]).name
            != (#[trigger] found[j]).name by {
            assert(scan::candidates(entries)[i].name != scan::candidates(entries)[j].name);
        }
    }
    plan_has_distinct_names(plan, found);
    apply::migrations_are_applied_once(history, plan, placeholders, contents, now);
    directory_is_applied_over_a_history(
        dir,
        placeholders,
        left_behind,
        entries,
        files,
        contents,
        now,
    );
    database_gets_every_pending_migration(
        dir,
        placeholders,
        true,
        left_behind,
        entries,
        files,
        contents,
        now,
    );
    assert(table_effects(true) + Seq::<Effect>::empty() =~= Seq::<Effect>::empty());
}

/// Whether a script asks for something, is done, or failed: it does not stop
/// between its parts.
pub open spec fn script_flows<P>(script: ScriptView<P>) -> bool {
    match script {
        ScriptView::History { run, dir, placeholders } => !(run.phase is Done),
        ScriptView::Scan { scan, placeholders } => !(scan is Done),
        _ => true,
    }
}

/// A script does not stop between its parts: it is done only where nothing is
/// left to create or to apply.
pub proof fn script_ends_with_its_last_part<P>(
    script: ScriptView<P>,
    reply: ReplyView<P>,
    now: Timestamp,
)
    requires
        script_flows(script),
        answers(reply, script_request(script)),
    ensures
        script_flows(script_next(script, reply, now)),
        script_request(script_next(script, reply, now)) == RequestView::<P>::Done ==> match script_next(
            script,
            reply,
            now,
        ) {
            ScriptView::Ensure(run) => run.phase is Done,
            ScriptView::Apply(run) => run.phase is Done,
            _ => false,
        },
{
}

} // verus!
