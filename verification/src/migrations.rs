//! Migration files: how they are told by their names, in which order they are
//! applied, and how the history table is kept.

use vstd::prelude::*;

use crate::checksum;
use crate::checksum::hash64;
use crate::db;
use crate::db::{Bind, BindView, SqlCall, SqlCallView, Timestamp};
use crate::numbers;
use crate::numbers::parsed_u64;
use crate::text;
use crate::text::{chars_of, find_text, joined_text, part_of, reads_from, text_at_most};

verus! {

// ------------------------------------------------------------------- files

/// How often a migration is applied: once, or whenever it changes.
#[derive(Clone, Copy, PartialEq, Eq, Structural, Debug)]
pub enum MigType {
    Versioned,
    Repeatable,
}

/// A migration file. `P` is what the embedding program calls a file by.
pub struct MigrationFile<P> {
    pub ty: MigType,
    /// The version of a versioned migration.
    pub version: Option<u64>,
    /// The file name.
    pub name: String,
    pub path: P,
    pub checksum: u64,
}

/// A migration file.
pub ghost struct MigrationView<P> {
    pub ty: MigType,
    pub version: Option<u64>,
    pub name: Seq<char>,
    pub path: P,
    pub checksum: u64,
}

impl<P> View for MigrationFile<P> {
    type V = MigrationView<P>;

    open spec fn view(&self) -> MigrationView<P> {
        MigrationView {
            ty: self.ty,
            version: self.version,
            name: self.name@,
            path: self.path,
            checksum: self.checksum,
        }
    }
}

/// The views of migrations.
pub open spec fn migration_views<P>(files: Seq<MigrationFile<P>>) -> Seq<MigrationView<P>> {
    files.map_values(|f: MigrationFile<P>| f@)
}

/// Why a file could not be had: the path as messages show it, and the error.
pub struct FileFault {
    pub path: String,
    pub error: String,
}

/// Why the bytes of a file could not be had.
pub enum ReadFault {
    /// It could not be opened.
    Open(FileFault),
    /// It could be opened but not read.
    Read(FileFault),
}

/// How a failure to read a file's bytes is reported.
pub open spec fn read_fault_text(fault: ReadFault) -> Seq<char> {
    match fault {
        ReadFault::Open(f) => "open "@ + f.path@ + " failed: "@ + f.error@,
        ReadFault::Read(f) => "read "@ + f.path@ + " failed: "@ + f.error@,
    }
}

/// `before`, the path, `between` and the error, put together.
pub(crate) fn fault_text(before: &str, fault: &FileFault, between: &str) -> (s: String)
    ensures
        s@ == before@ + fault.path@ + between@ + fault.error@,
{
    let head: String = joined_text(before, fault.path.as_str());
    let front: String = joined_text(head.as_str(), between);
    joined_text(front.as_str(), fault.error.as_str())
}

/// The checksum of a file, given what reading it came to.
pub fn hash64_of_file(content: Result<Vec<u8>, ReadFault>) -> (sum: Result<u64, String>)
    ensures
        match (content, sum) {
            (Ok(bytes), Ok(s)) => s == checksum::fnv1a(bytes@),
            (Err(fault), Err(e)) => e@ == read_fault_text(fault),
            _ => false,
        },
{
    match content {
        Ok(bytes) => Ok(hash64(bytes.as_slice())),
        Err(ReadFault::Open(f)) => Err(fault_text("open ", &f, " failed: ")),
        Err(ReadFault::Read(f)) => Err(fault_text("read ", &f, " failed: ")),
    }
}

/// What a file name says of the migration in it: `V`, a number and two
/// underscores make a versioned one; `R__` in front and `.sql` at the end make a
/// repeatable one; anything else is no migration.
pub open spec fn migration_kind(fname: Seq<char>) -> Option<(MigType, Option<u64>)> {
    let stripped = fname.skip(1);
    let underscores = text::find_from(stripped, 0, seq!['_', '_']);
    let version = numbers::parse_u64(stripped.take(underscores.unwrap()));
    if fname.len() > 0 && fname[0] == 'V' && underscores is Some && version is Some {
        Some((MigType::Versioned, version))
    } else if text::reads_at(fname, 0, seq!['R', '_', '_']) && text::reads_at(
        fname,
        fname.len() - 4,
        seq!['.', 's', 'q', 'l'],
    ) && fname.len() >= 7 {
        Some((MigType::Repeatable, None))
    } else {
        None
    }
}

/// What a file name says of the migration in it.
pub fn kind_of_name(fname: &str) -> (kind: Option<(MigType, Option<u64>)>)
    ensures
        kind == migration_kind(fname@),
{
    let name: Vec<char> = chars_of(fname);
    if name.len() > 0 && name[0] == 'V' {
        let stripped: Vec<char> = part_of(&name, 1, name.len());
        let mut underscores: Vec<char> = Vec::new();
        underscores.push('_');
        underscores.push('_');
        proof {
            assert(stripped@ =~= fname@.skip(1));
            assert(underscores@ =~= seq!['_', '_']);
        }
        let found: Option<usize> = find_text(&stripped, 0, &underscores);
        if let Some(at) = found {
            let digits: Vec<char> = part_of(&stripped, 0, at);
            proof {
                assert(digits@ =~= stripped@.take(at as int));
            }
            let version: Option<u64> = parsed_u64(&digits);
            if version.is_some() {
                return Some((MigType::Versioned, version));
            }
        }
        proof {
            assert(!text::reads_at(fname@, 0, seq!['R', '_', '_'])) by {
                if text::reads_at(fname@, 0, seq!['R', '_', '_']) {
                    assert(fname@.subrange(0, 3)[0] == 'R');
                }
            }
        }
        return None;
    }
    let mut prefix: Vec<char> = Vec::new();
    prefix.push('R');
    prefix.push('_');
    prefix.push('_');
    let mut suffix: Vec<char> = Vec::new();
    suffix.push('.');
    suffix.push('s');
    suffix.push('q');
    suffix.push('l');
    proof {
        assert(prefix@ =~= seq!['R', '_', '_']);
        assert(suffix@ =~= seq!['.', 's', 'q', 'l']);
    }
    if name.len() >= 7 && reads_from(&name, 0, &prefix) && reads_from(
        &name,
        name.len() - 4,
        &suffix,
    ) {
        Some((MigType::Repeatable, None))
    } else {
        None
    }
}

/// The migration in a file, given its name and what reading the file came to:
/// a file whose name says that there is none is not looked into.
pub fn classify_migration_file<P>(
    fname: &str,
    path: P,
    content: Result<Vec<u8>, ReadFault>,
) -> (found: Result<Option<MigrationFile<P>>, String>)
    ensures
        match (migration_kind(fname@), content) {
            (None, _) => found == Ok::<Option<MigrationFile<P>>, String>(None),
            (Some((ty, version)), Ok(bytes)) => found matches Ok(Some(file)) && file@
                == (MigrationView {
                ty,
                version,
                name: fname@,
                path,
                checksum: checksum::fnv1a(bytes@),
            }),
            (Some(_), Err(fault)) => found matches Err(e) && e@ == read_fault_text(fault),
        },
{
    match kind_of_name(fname) {
        None => Ok(None),
        Some((ty, version)) => match hash64_of_file(content) {
            Ok(checksum) => Ok(
                Some(MigrationFile { ty, version, name: fname.to_owned(), path, checksum }),
            ),
            Err(e) => Err(e),
        },
    }
}

// ------------------------------------------------------------------- order

/// Whether `a` is applied no later than `b`: versioned migrations by ascending
/// version, then repeatable ones by ascending name.
pub open spec fn applies_before<P>(a: MigrationView<P>, b: MigrationView<P>) -> bool {
    match (a.ty, b.ty) {
        (MigType::Versioned, MigType::Versioned) => version_number(a.version) <= version_number(
            b.version,
        ),
        (MigType::Versioned, MigType::Repeatable) => true,
        (MigType::Repeatable, MigType::Versioned) => false,
        (MigType::Repeatable, MigType::Repeatable) => text::text_le(a.name, b.name),
    }
}

/// The version that a migration is sorted and recorded by.
pub open spec fn version_number(version: Option<u64>) -> u64 {
    match version {
        Some(v) => v,
        None => 0,
    }
}

/// Whether neither of two migrations has to be applied before the other one.
pub open spec fn same_rank<P>(a: MigrationView<P>, b: MigrationView<P>) -> bool {
    applies_before(a, b) && applies_before(b, a)
}

/// Whether no migration stands before one that has to be applied earlier.
pub open spec fn in_order<P>(files: Seq<MigrationView<P>>) -> bool {
    forall|i: int, j: int|
        0 <= i < j < files.len() ==> applies_before(#[trigger] files[i], #[trigger] files[j])
}

/// Those of `files` that have the rank of `file`, in their order.
pub open spec fn of_rank<P>(
    files: Seq<MigrationView<P>>,
    file: MigrationView<P>,
) -> Seq<MigrationView<P>> {
    files.filter(|f: MigrationView<P>| same_rank(f, file))
}

/// Whether `sorted` is `files` put in order, migrations of the same rank left in
/// the order that they had.
pub open spec fn is_plan_of<P>(
    sorted: Seq<MigrationView<P>>,
    files: Seq<MigrationView<P>>,
) -> bool {
    &&& in_order(sorted)
    &&& forall|file: MigrationView<P>| #[trigger] of_rank(sorted, file) == of_rank(files, file)
}

/// Of two migrations one is applied no later than the other.
pub proof fn application_order_is_total<P>(a: MigrationView<P>, b: MigrationView<P>)
    ensures
        applies_before(a, b) || applies_before(b, a),
        applies_before(a, a),
{
    text::text_order_is_total(a.name, b.name);
    text::text_order_is_total(a.name, a.name);
}

/// What is applied before something is applied before all that comes after it.
pub proof fn application_order_is_transitive<P>(
    a: MigrationView<P>,
    b: MigrationView<P>,
    c: MigrationView<P>,
)
    requires
        applies_before(a, b),
        applies_before(b, c),
    ensures
        applies_before(a, c),
{
    if a.ty == MigType::Repeatable && c.ty == MigType::Repeatable {
        text::text_order_is_transitive(a.name, b.name, c.name);
    }
}

fn applied_no_later<P>(a: &MigrationFile<P>, b: &MigrationFile<P>) -> (before: bool)
    ensures
        before == applies_before(a@, b@),
{
    match (a.ty, b.ty) {
        (MigType::Versioned, MigType::Versioned) => number_of(a.version) <= number_of(b.version),
        (MigType::Versioned, MigType::Repeatable) => true,
        (MigType::Repeatable, MigType::Versioned) => false,
        (MigType::Repeatable, MigType::Repeatable) => text_at_most(
            a.name.as_str(),
            b.name.as_str(),
        ),
    }
}

fn number_of(version: Option<u64>) -> (n: u64)
    ensures
        n == version_number(version),
{
    match version {
        Some(v) => v,
        None => 0,
    }
}

proof fn filter_is_empty<A>(s: Seq<A>, p: spec_fn(A) -> bool)
    requires
        forall|i: int| 0 <= i < s.len() ==> !p(#[trigger] s[i]),
    ensures
        s.filter(p) == Seq::<A>::empty(),
{
    s.lemma_all_neg_filter_empty(p);
}

/// Putting `file` in front of the first of `sorted` that it is applied no later
/// than gives a plan of `file` followed by the rest.
proof fn plan_with_one_more<P>(
    sorted: Seq<MigrationView<P>>,
    at: int,
    file: MigrationView<P>,
    rest: Seq<MigrationView<P>>,
)
    requires
        is_plan_of(sorted, rest),
        0 <= at <= sorted.len(),
        forall|i: int| 0 <= i < at ==> !applies_before(file, #[trigger] sorted[i]),
        at < sorted.len() ==> applies_before(file, sorted[at]),
    ensures
        is_plan_of(sorted.insert(at, file), seq![file] + rest),
{
    let all = sorted.insert(at, file);
    assert forall|i: int, j: int| 0 <= i < j < all.len() implies applies_before(
        #[trigger] all[i],
        #[trigger] all[j],
    ) by {
        if j < at {
            assert(applies_before(sorted[i], sorted[j]));
        } else if j == at {
            application_order_is_total(file, sorted[i]);
        } else if i < at {
            assert(applies_before(sorted[i], sorted[j - 1]));
        } else if i == at {
            if j - 1 > at {
                assert(applies_before(sorted[at], sorted[j - 1]));
                application_order_is_transitive(file, sorted[at], sorted[j - 1]);
            }
        } else {
            assert(applies_before(sorted[i - 1], sorted[j - 1]));
        }
    }
    assert forall|g: MigrationView<P>| #[trigger] of_rank(all, g) == of_rank(
        seq![file] + rest,
        g,
    ) by {
        let p = |f: MigrationView<P>| same_rank(f, g);
        let front = sorted.take(at);
        let back = sorted.skip(at);
        assert(all =~= front + (seq![file] + back));
        assert(sorted =~= front + back);
        Seq::filter_distributes_over_add(front, seq![file] + back, p);
        Seq::filter_distributes_over_add(seq![file], back, p);
        Seq::filter_distributes_over_add(front, back, p);
        Seq::filter_distributes_over_add(seq![file], rest, p);
        assert(of_rank(sorted, g) == of_rank(rest, g));
        if same_rank(file, g) {
            assert forall|i: int| 0 <= i < front.len() implies !p(#[trigger] front[i]) by {
                assert(front[i] == sorted[i]);
                if p(front[i]) {
                    application_order_is_transitive(file, g, sorted[i]);
                }
            }
            filter_is_empty(front, p);
            assert(Seq::empty() + (seq![file].filter(p) + back.filter(p)) =~= seq![file].filter(p)
                + (Seq::empty() + back.filter(p)));
        } else {
            assert forall|i: int| 0 <= i < seq![file].len() implies !p(#[trigger] seq![file][i]) by {
            }
            filter_is_empty(seq![file], p);
            assert(front.filter(p) + (Seq::empty() + back.filter(p)) =~= Seq::empty() + (
            front.filter(p) + back.filter(p)));
        }
    }
}

/// The order in which migrations are applied.
pub fn plan_migrations<P>(files: Vec<MigrationFile<P>>) -> (plan: Vec<MigrationFile<P>>)
    ensures
        is_plan_of(migration_views(plan@), migration_views(files@)),
        migration_views(plan@) == plan_of(migration_views(files@)),
{
    let ghost all = migration_views(files@);
    let mut left: Vec<MigrationFile<P>> = files;
    let mut plan: Vec<MigrationFile<P>> = Vec::new();
    proof {
        assert(all.skip(all.len() as int) =~= migration_views(plan@));
    }
    while left.len() > 0
        invariant
            left@.len() <= all.len(),
            migration_views(left@) == all.take(left@.len() as int),
            is_plan_of(migration_views(plan@), all.skip(left@.len() as int)),
        decreases left@.len(),
    {
        let ghost before = left@;
        match left.pop() {
            Some(file) => {
                let ghost view = file@;
                proof {
                    assert(migration_views(before)[before.len() - 1] == view);
                    assert(migration_views(left@) =~= all.take(left@.len() as int));
                }
                let mut at: usize = 0;
                while at < plan.len() && !applied_no_later(&file, &plan[at])
                    invariant
                        at <= plan@.len(),
                        view == file@,
                        forall|i: int|
                            0 <= i < at ==> !applies_before(
                                view,
                                #[trigger] migration_views(plan@)[i],
                            ),
                    decreases plan@.len() - at,
                {
                    at += 1;
                }
                let ghost sorted = migration_views(plan@);
                plan.insert(at, file);
                proof {
                    assert(migration_views(plan@) =~= sorted.insert(at as int, view));
                    plan_with_one_more(sorted, at as int, view, all.skip(before.len() as int));
                    assert(seq![view] + all.skip(before.len() as int) =~= all.skip(
                        left@.len() as int,
                    ));
                }
            },
            None => {},
        }
    }
    proof {
        assert(all.skip(0) =~= all);
        plan_is_the_plan(migration_views(plan@), all);
    }
    plan
}

/// The plan of `files`.
pub open spec fn plan_of<P>(files: Seq<MigrationView<P>>) -> Seq<MigrationView<P>> {
    choose|plan: Seq<MigrationView<P>>| is_plan_of(plan, files)
}

proof fn filter_from_the_front<A>(s: Seq<A>, p: spec_fn(A) -> bool)
    requires
        s.len() > 0,
    ensures
        s.filter(p) == if p(s[0]) {
            seq![s[0]] + s.skip(1).filter(p)
        } else {
            s.skip(1).filter(p)
        },
{
    let first = seq![s[0]];
    assert(s =~= first + s.skip(1));
    Seq::filter_distributes_over_add(first, s.skip(1), p);
    assert(first =~= Seq::<A>::empty().push(s[0]));
    Seq::<A>::empty().lemma_filter_push(s[0], p);
    assert(Seq::<A>::empty().filter(p) =~= Seq::empty());
    assert(Seq::<A>::empty() + s.skip(1).filter(p) =~= s.skip(1).filter(p));
    assert(Seq::<A>::empty().push(s[0]) =~= first);
}

/// The first migration of a plan is also the first one of any other plan.
proof fn plans_start_alike<P>(
    a: Seq<MigrationView<P>>,
    b: Seq<MigrationView<P>>,
    files: Seq<MigrationView<P>>,
)
    requires
        is_plan_of(a, files),
        is_plan_of(b, files),
        a.len() > 0,
    ensures
        b.len() > 0,
        a[0] == b[0],
{
    let rank_of_a = |f: MigrationView<P>| same_rank(f, a[0]);
    application_order_is_total(a[0], a[0]);
    filter_from_the_front(a, rank_of_a);
    assert(of_rank(a, a[0]) == of_rank(files, a[0]));
    assert(of_rank(b, a[0]) == of_rank(files, a[0]));
    assert(of_rank(b, a[0])[0] == a[0]);
    assert(b.filter(rank_of_a).contains(of_rank(b, a[0])[0]));
    b.lemma_filter_contains_rev(rank_of_a, a[0]);
    assert(b.contains(of_rank(b, a[0])[0]));
    let j = choose|j: int| 0 <= j < b.len() && b[j] == a[0];
    let rank_of_b = |f: MigrationView<P>| same_rank(f, b[0]);
    application_order_is_total(b[0], b[0]);
    filter_from_the_front(b, rank_of_b);
    assert(of_rank(b, b[0]) == of_rank(files, b[0]));
    assert(of_rank(a, b[0]) == of_rank(files, b[0]));
    assert(of_rank(a, b[0])[0] == b[0]);
    assert(a.filter(rank_of_b).contains(of_rank(a, b[0])[0]));
    a.lemma_filter_contains_rev(rank_of_b, b[0]);
    assert(a.contains(of_rank(a, b[0])[0]));
    let i = choose|i: int| 0 <= i < a.len() && a[i] == b[0];
    if j > 0 {
        assert(applies_before(b[0], b[j]));
    }
    if i > 0 {
        assert(applies_before(a[0], a[i]));
    }
    assert(same_rank(b[0], a[0]));
    filter_from_the_front(b, rank_of_a);
}

/// There is one plan: the order in which migrations are applied follows from
/// what was found.
pub proof fn plan_is_unique<P>(
    a: Seq<MigrationView<P>>,
    b: Seq<MigrationView<P>>,
    files: Seq<MigrationView<P>>,
)
    requires
        is_plan_of(a, files),
        is_plan_of(b, files),
    ensures
        a == b,
    decreases a.len(),
{
    if a.len() == 0 {
        if b.len() > 0 {
            plans_start_alike(b, a, files);
        }
        assert(a =~= b);
    } else {
        plans_start_alike(a, b, files);
        let rest_a = a.skip(1);
        let rest_b = b.skip(1);
        assert forall|i: int, j: int| 0 <= i < j < rest_a.len() implies applies_before(
            #[trigger] rest_a[i],
            #[trigger] rest_a[j],
        ) by {
            assert(applies_before(a[i + 1], a[j + 1]));
        }
        assert forall|i: int, j: int| 0 <= i < j < rest_b.len() implies applies_before(
            #[trigger] rest_b[i],
            #[trigger] rest_b[j],
        ) by {
            assert(applies_before(b[i + 1], b[j + 1]));
        }
        assert forall|g: MigrationView<P>| #[trigger] of_rank(rest_b, g) == of_rank(rest_a, g) by {
            let p = |f: MigrationView<P>| same_rank(f, g);
            filter_from_the_front(a, p);
            filter_from_the_front(b, p);
            assert(of_rank(a, g) == of_rank(files, g));
            assert(of_rank(b, g) == of_rank(files, g));
            if p(a[0]) {
                assert((seq![a[0]] + rest_a.filter(p)).skip(1) =~= rest_a.filter(p));
                assert((seq![b[0]] + rest_b.filter(p)).skip(1) =~= rest_b.filter(p));
            }
        }
        plan_is_unique(rest_a, rest_b, rest_a);
        assert(a =~= seq![a[0]] + rest_a);
        assert(b =~= seq![b[0]] + rest_b);
    }
}

/// What is a plan is the plan.
pub proof fn plan_is_the_plan<P>(plan: Seq<MigrationView<P>>, files: Seq<MigrationView<P>>)
    requires
        is_plan_of(plan, files),
    ensures
        plan == plan_of(files),
{
    plan_is_unique(plan, plan_of(files), files);
}

proof fn place_in_plan<P>(
    sorted: Seq<MigrationView<P>>,
    file: MigrationView<P>,
    from: int,
) -> (at: int)
    requires
        0 <= from <= sorted.len(),
        forall|i: int| 0 <= i < from ==> !applies_before(file, #[trigger] sorted[i]),
    ensures
        0 <= at <= sorted.len(),
        forall|i: int| 0 <= i < at ==> !applies_before(file, #[trigger] sorted[i]),
        at < sorted.len() ==> applies_before(file, sorted[at]),
    decreases sorted.len() - from,
{
    if from < sorted.len() && !applies_before(file, sorted[from]) {
        place_in_plan(sorted, file, from + 1)
    } else {
        from
    }
}

proof fn some_plan<P>(files: Seq<MigrationView<P>>) -> (plan: Seq<MigrationView<P>>)
    ensures
        is_plan_of(plan, files),
    decreases files.len(),
{
    if files.len() == 0 {
        files
    } else {
        let rest = some_plan(files.skip(1));
        let at = place_in_plan(rest, files[0], 0);
        plan_with_one_more(rest, at, files[0], files.skip(1));
        assert(seq![files[0]] + files.skip(1) =~= files);
        rest.insert(at, files[0])
    }
}

/// Whatever was found, there is a plan of it.
pub proof fn there_is_a_plan<P>(files: Seq<MigrationView<P>>)
    ensures
        is_plan_of(plan_of(files), files),
{
    let plan = some_plan(files);
    assert(is_plan_of(plan, files));
}

/// A plan applies each migration as often as it was found.
pub proof fn plan_keeps_every_migration<P>(
    plan: Seq<MigrationView<P>>,
    files: Seq<MigrationView<P>>,
)
    requires
        is_plan_of(plan, files),
    ensures
        plan.to_multiset() =~= files.to_multiset(),
{
    assert forall|file: MigrationView<P>|
        plan.to_multiset().count(file) == files.to_multiset().count(file) by {
        application_order_is_total(file, file);
        count_is_kept_by_filter(plan, file);
        count_is_kept_by_filter(files, file);
        assert(of_rank(plan, file) == of_rank(files, file));
    }
}

proof fn count_is_kept_by_filter<P>(files: Seq<MigrationView<P>>, file: MigrationView<P>)
    requires
        same_rank(file, file),
    ensures
        files.to_multiset().count(file) == of_rank(files, file).to_multiset().count(file),
    decreases files.len(),
{
    broadcast use vstd::seq_lib::group_to_multiset_ensures;

    let p = |f: MigrationView<P>| same_rank(f, file);
    if files.len() == 0 {
        assert(files.filter(p) =~= files);
    } else {
        let front = files.drop_last();
        let last = files[files.len() - 1];
        count_is_kept_by_filter(front, file);
        assert(files =~= front.push(last));
        front.lemma_filter_push(last, p);
    }
}

/// In a plan the versioned migrations come first, by ascending version, and the
/// repeatable ones follow, by ascending name.
pub proof fn plan_is_ordered_by_kind_version_and_name<P>(
    plan: Seq<MigrationView<P>>,
    files: Seq<MigrationView<P>>,
    i: int,
    j: int,
)
    requires
        is_plan_of(plan, files),
        0 <= i < j < plan.len(),
    ensures
        plan[j].ty == MigType::Versioned ==> plan[i].ty == MigType::Versioned && version_number(
            plan[i].version,
        ) <= version_number(plan[j].version),
        plan[i].ty == MigType::Repeatable ==> plan[j].ty == MigType::Repeatable && text::text_le(
            plan[i].name,
            plan[j].name,
        ),
{
    assert(applies_before(plan[i], plan[j]));
}

// ------------------------------------------------------------------ history

/// The query for whether a versioned migration was applied.
pub const VERSION_APPLIED_SQL: &'static str =
    "SELECT COUNT(*) FROM MIGRATIONS_HISTORY WHERE NAME = :1 AND TYPE = 'V'";

/// The query for the checksum that a repeatable migration was last applied with.
pub const REPEATABLE_CHECKSUM_SQL: &'static str =
    "SELECT CHECKSUM FROM MIGRATIONS_HISTORY WHERE NAME = :1 AND TYPE = 'R'";

/// Records a versioned migration.
pub const INSERT_VERSIONED_SQL: &'static str =
    "INSERT INTO MIGRATIONS_HISTORY (NAME, VERSION, TYPE, CHECKSUM, APPLIED_AT) VALUES (:1, :2, 'V', :3, :4)";

/// Forgets a repeatable migration.
pub const DELETE_REPEATABLE_SQL: &'static str =
    "DELETE FROM MIGRATIONS_HISTORY WHERE NAME = :1 AND TYPE = 'R'";

/// Records a repeatable migration.
pub const INSERT_REPEATABLE_SQL: &'static str =
    "INSERT INTO MIGRATIONS_HISTORY (NAME, VERSION, TYPE, CHECKSUM, APPLIED_AT) VALUES (:1, NULL, 'R', :2, :3)";

/// A checksum as the history table holds it: the same 64 bits, signed.
pub open spec fn stored_checksum(checksum: u64) -> i64 {
    checksum as i64
}

/// The checksum that a row of the history table holds, where none means zero.
pub open spec fn checksum_of_row(stored: Option<i64>) -> u64 {
    match stored {
        Some(n) => n as u64,
        None => 0,
    }
}

/// Whether the history shows that a repeatable migration was applied as it is
/// now: there is a row, and it holds the same checksum.
pub open spec fn is_current(row: Option<Option<i64>>, checksum: u64) -> bool {
    match row {
        Some(stored) => checksum_of_row(stored) == checksum,
        None => false,
    }
}

/// The row that records a versioned migration.
pub open spec fn versioned_row<P>(mig: MigrationView<P>, now: Timestamp) -> SqlCallView {
    SqlCallView {
        sql: INSERT_VERSIONED_SQL@,
        binds: seq![
            BindView::Text(mig.name),
            BindView::Int(version_number(mig.version) as i64),
            BindView::Int(stored_checksum(mig.checksum)),
            BindView::Time(now),
        ],
    }
}

/// The row that records a repeatable migration.
pub open spec fn repeatable_row<P>(mig: MigrationView<P>, now: Timestamp) -> SqlCallView {
    SqlCallView {
        sql: INSERT_REPEATABLE_SQL@,
        binds: seq![
            BindView::Text(mig.name),
            BindView::Int(stored_checksum(mig.checksum)),
            BindView::Time(now),
        ],
    }
}

/// Asks how often the history shows a versioned migration.
pub fn version_applied<P>(mig: &MigrationFile<P>) -> (call: SqlCall)
    ensures
        call@ == db::text_call(VERSION_APPLIED_SQL@, mig.name@),
{
    SqlCall::with_text(VERSION_APPLIED_SQL, mig.name.clone())
}

/// Asks for the checksum that the history shows of a repeatable migration.
pub fn repeatable_checksum<P>(mig: &MigrationFile<P>) -> (call: SqlCall)
    ensures
        call@ == db::text_call(REPEATABLE_CHECKSUM_SQL@, mig.name@),
{
    SqlCall::with_text(REPEATABLE_CHECKSUM_SQL, mig.name.clone())
}

/// Whether a repeatable migration is current, given the row that the history has
/// of it.
pub fn repeatable_current<P>(mig: &MigrationFile<P>, row: Option<Option<i64>>) -> (current: bool)
    ensures
        current == is_current(row, mig.checksum),
{
    match row {
        Some(stored) => {
            let existing: u64 = match stored {
                Some(n) => n as u64,
                None => 0,
            };
            existing == mig.checksum
        },
        None => false,
    }
}

/// The row that records a versioned migration.
pub fn insert_history_row<P>(mig: &MigrationFile<P>, now: Timestamp) -> (call: SqlCall)
    ensures
        call@ == versioned_row(mig@, now),
{
    let ver: i64 = number_of(mig.version) as i64;
    let mut binds: Vec<Bind> = Vec::new();
    binds.push(Bind::Text(mig.name.clone()));
    binds.push(Bind::Int(ver));
    binds.push(Bind::Int(mig.checksum as i64));
    binds.push(Bind::Time(now));
    let call = SqlCall { sql: INSERT_VERSIONED_SQL.to_owned(), binds };
    proof {
        assert(call@.binds =~= versioned_row(mig@, now).binds);
    }
    call
}

/// What replaces the row of a repeatable migration: the old one is deleted, as
/// far as that succeeds, and the new one is inserted.
pub fn upsert_history_row<P>(mig: &MigrationFile<P>, now: Timestamp) -> (calls: (SqlCall, SqlCall))
    ensures
        calls.0@ == db::text_call(DELETE_REPEATABLE_SQL@, mig.name@),
        calls.1@ == repeatable_row(mig@, now),
{
    let delete: SqlCall = SqlCall::with_text(DELETE_REPEATABLE_SQL, mig.name.clone());
    let mut binds: Vec<Bind> = Vec::new();
    binds.push(Bind::Text(mig.name.clone()));
    binds.push(Bind::Int(mig.checksum as i64));
    binds.push(Bind::Time(now));
    let insert = SqlCall { sql: INSERT_REPEATABLE_SQL.to_owned(), binds };
    proof {
        assert(insert@.binds =~= repeatable_row(mig@, now).binds);
    }
    (delete, insert)
}

/// A repeatable migration is current exactly as long as its checksum is the one
/// that was recorded: no checksum is lost in the history table.
pub proof fn recorded_checksum_tells_changes(recorded: u64, now: u64)
    ensures
        is_current(Some(Some(stored_checksum(recorded))), now) == (recorded == now),
{
    assert((recorded as i64) as u64 == recorded) by (bit_vector);
}

} // verus!
