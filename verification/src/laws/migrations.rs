//! Laws of migration files: their names, checksums, order and history.

use vstd::prelude::*;

use crate::checksum::fnv1a;
use crate::db::{BindView, SqlCallView, Timestamp};
use crate::laws::text;
use crate::migrations::{
    applies_before, is_current, migration_kind, of_rank, plan_of, repeatable_row, same_rank,
    stored_checksum, there_is_a_plan, version_number, versioned_row, MigType, MigrationView,
};
use crate::numbers::parse_u64;
use crate::protocol::{DirEntryView, ListingView, ReplyView, RequestView};
use crate::scan::{
    is_candidate, is_sql_extension, migration_of, scan_from, scan_next, scan_request, ScanView,
};
use crate::text::{find_from, find_from_is_first, reads_at, text_le, text_order_is_total};

verus! {

// -------------------------------------------------------------------- names

/// A name that starts with `V`, a text without underscore and two underscores is
/// that of a versioned migration exactly if the text is a number, which is then its
/// version, whatever follows.
pub proof fn number_before_two_underscores_is_the_version(t: Seq<char>, rest: Seq<char>)
    requires
        forall|i: int| 0 <= i < t.len() ==> #[trigger] t[i] != '_',
    ensures
        migration_kind(seq!['V'] + t + seq!['_', '_'] + rest) == match parse_u64(t) {
            Some(n) => Some((MigType::Versioned, Some(n))),
            None => None::<(MigType, Option<u64>)>,
        },
{
    let name = seq!['V'] + t + seq!['_', '_'] + rest;
    let two = seq!['_', '_'];
    let stripped = t + two + rest;
    assert(name.skip(1) =~= stripped);
    assert forall|at: int| 0 <= at < t.len() implies !#[trigger] reads_at(stripped, at, two) by {
        if reads_at(stripped, at, two) {
            assert(stripped.subrange(at, at + 2)[0] == '_');
            assert(t[at] == '_');
        }
    }
    text::search_finds_the_first_occurrence(t, two, rest);
    assert(stripped.take(t.len() as int) =~= t);
    if reads_at(name, 0, seq!['R', '_', '_']) {
        assert(name.subrange(0, 3)[0] == 'R');
    }
}

/// A name that starts with `R__` and ends in `.sql` is that of a repeatable
/// migration, whatever stands between.
pub proof fn r_in_front_and_sql_at_the_end_make_it_repeatable(between: Seq<char>)
    ensures
        migration_kind(seq!['R', '_', '_'] + between + seq!['.', 's', 'q', 'l']) == Some(
            (MigType::Repeatable, None::<u64>),
        ),
{
    let name = seq!['R', '_', '_'] + between + seq!['.', 's', 'q', 'l'];
    assert(name[0] == 'R');
    assert(name.subrange(0, 3) =~= seq!['R', '_', '_']);
    assert(name.subrange(name.len() - 4, name.len() as int) =~= seq!['.', 's', 'q', 'l']);
}

/// Every migration has a name of one of the two forms.
pub proof fn migrations_have_one_of_two_names(name: Seq<char>)
    ensures
        match migration_kind(name) {
            Some((MigType::Versioned, version)) => {
                &&& version is Some
                &&& name[0] == 'V'
                &&& exists|at: int|
                    1 <= at < name.len() - 1 && name[at] == '_' && name[at + 1] == '_' && parse_u64(
                        #[trigger] name.subrange(1, at),
                    ) == version
            },
            Some((MigType::Repeatable, version)) => {
                let n = name.len() as int;
                &&& version is None
                &&& n >= 7
                &&& name[0] == 'R' && name[1] == '_' && name[2] == '_'
                &&& name[n - 4] == '.' && name[n - 3] == 's' && name[n - 2] == 'q' && name[n - 1]
                    == 'l'
            },
            None => true,
        },
{
    let stripped = name.skip(1);
    let two = seq!['_', '_'];
    match migration_kind(name) {
        Some((MigType::Versioned, version)) => {
            let at = find_from(stripped, 0, two)->0;
            find_from_is_first(stripped, 0, two);
            assert(reads_at(stripped, at, two));
            let part = stripped.subrange(at, at + 2);
            assert(part[0] == '_' && part[1] == '_');
            assert(stripped.take(at) =~= name.subrange(1, at + 1));
        },
        Some((MigType::Repeatable, _)) => {
            let n = name.len() as int;
            let front = name.subrange(0, 3);
            let back = name.subrange(n - 4, n);
            assert(front[0] == 'R' && front[1] == '_' && front[2] == '_');
            assert(back[0] == '.' && back[1] == 's' && back[2] == 'q' && back[3] == 'l');
        },
        None => {},
    }
}

/// An extension is `sql` exactly if it is made of these three letters, each of them
/// large or small.
pub proof fn extension_is_sql_in_whatever_case(ext: Seq<char>)
    ensures
        is_sql_extension(Some(ext)) <==> ext.len() == 3 && (ext[0] == 's' || ext[0] == 'S') && (
        ext[1] == 'q' || ext[1] == 'Q') && (ext[2] == 'l' || ext[2] == 'L'),
        !is_sql_extension(None),
{
    let lower = ext.map_values(|c: char| crate::scan::ascii_lower(c));
    let sql = seq!['s', 'q', 'l'];
    assert(sql.len() == 3 && sql[0] == 's' && sql[1] == 'q' && sql[2] == 'l');
    if lower == sql {
        assert(lower[0] == 's' && lower[1] == 'q' && lower[2] == 'l');
    }
    if ext.len() == 3 && (ext[0] == 's' || ext[0] == 'S') && (ext[1] == 'q' || ext[1] == 'Q') && (
    ext[2] == 'l' || ext[2] == 'L') {
        assert(lower =~= sql);
    }
}

/// An entry is looked into exactly if it is a file with that extension whose name
/// is that of a migration.
pub proof fn files_of_migrations_are_looked_into<P>(entry: DirEntryView<P>)
    ensures
        is_candidate(entry) <==> entry.is_file && is_sql_extension(entry.extension)
            && migration_kind(entry.name) is Some,
{
}

// --------------------------------------------------------------- checksums

/// The checksum of no bytes is the offset basis; each further byte is mixed in by
/// exclusive or, and the outcome multiplied by the prime modulo two to the power
/// of 64.
pub proof fn checksum_goes_byte_by_byte(data: Seq<u8>, byte: u8)
    ensures
        fnv1a(Seq::empty()) == 0xcbf29ce484222325,
        fnv1a(data.push(byte)) == ((fnv1a(data) ^ (byte as u64)) * 0x100000001b3)
            % 0x1_0000_0000_0000_0000,
{
    let all = data.push(byte);
    assert(all.drop_last() =~= data);
    assert(all.last() == byte);
}

/// The history holds a checksum as the signed number with the same 64 bits.
pub proof fn checksum_is_stored_as_a_signed_number(checksum: u64)
    ensures
        checksum <= 0x7fff_ffff_ffff_ffff ==> stored_checksum(checksum) == checksum,
        checksum > 0x7fff_ffff_ffff_ffff ==> stored_checksum(checksum) == checksum
            - 0x1_0000_0000_0000_0000,
{
    assert(checksum <= 0x7fff_ffff_ffff_ffffu64 ==> (checksum as i64) == checksum) by (bit_vector);
    assert(checksum > 0x7fff_ffff_ffff_ffffu64 ==> (checksum as i64) == checksum
        - 0x1_0000_0000_0000_0000) by (bit_vector);
}

/// A repeatable migration is current exactly if the history has a row of it that
/// holds its checksum; a row without checksum counts as zero.
pub proof fn row_with_the_checksum_makes_it_current(n: i64, checksum: u64)
    ensures
        !is_current(None, checksum),
        is_current(Some(None), checksum) <==> checksum == 0,
        n >= 0 ==> (is_current(Some(Some(n)), checksum) <==> checksum == n),
        n < 0 ==> (is_current(Some(Some(n)), checksum) <==> checksum == n
            + 0x1_0000_0000_0000_0000),
{
    assert(n >= 0 ==> (n as u64) == n) by (bit_vector);
    assert(n < 0 ==> (n as u64) == n + 0x1_0000_0000_0000_0000) by (bit_vector);
}

// -------------------------------------------------------------------- order

/// Versioned migrations go before repeatable ones; of two versioned ones the lower
/// version goes first; of two repeatable ones the name that comes first.
pub proof fn migrations_are_ranked<P>(a: MigrationView<P>, b: MigrationView<P>)
    ensures
        a.ty == MigType::Versioned && b.ty == MigType::Repeatable ==> applies_before(a, b)
            && !applies_before(b, a),
        a.ty == MigType::Versioned && b.ty == MigType::Versioned ==> (match (
            a.version,
            b.version,
        ) {
            (Some(m), Some(n)) => applies_before(a, b) <==> m <= n,
            (None, _) => applies_before(a, b),
            (Some(m), None) => applies_before(a, b) <==> m == 0,
        }),
        a.ty == MigType::Repeatable && b.ty == MigType::Repeatable ==> (applies_before(a, b)
            <==> text_le(a.name, b.name)),
{
}

/// In the plan every versioned migration stands before every repeatable one, lower
/// versions stand before higher ones, and repeatable ones stand by their names.
pub proof fn plan_is_in_order<P>(files: Seq<MigrationView<P>>, i: int, j: int)
    requires
        0 <= i < j < plan_of(files).len(),
    ensures
        ({
            let a = plan_of(files)[i];
            let b = plan_of(files)[j];
            &&& !(a.ty == MigType::Repeatable && b.ty == MigType::Versioned)
            &&& a.ty == MigType::Repeatable && b.ty == MigType::Repeatable ==> text_le(
                a.name,
                b.name,
            )
            &&& a.ty == MigType::Versioned && b.ty == MigType::Versioned ==> (match (
                a.version,
                b.version,
            ) {
                (Some(m), Some(n)) => m <= n,
                _ => true,
            })
        }),
{
    there_is_a_plan(files);
    assert(applies_before(plan_of(files)[i], plan_of(files)[j]));
}

/// The plan holds the versioned migrations of one version as often and in the order
/// in which they were found.
pub proof fn plan_keeps_migrations_of_one_version<P>(files: Seq<MigrationView<P>>, version: u64)
    ensures
        ({
            let of_version = |f: MigrationView<P>|
                f.ty == MigType::Versioned && (match f.version {
                    Some(n) => n,
                    None => 0,
                }) == version;
            plan_of(files).filter(of_version) == files.filter(of_version)
        }),
{
    let of_version = |f: MigrationView<P>|
        f.ty == MigType::Versioned && (match f.version {
            Some(n) => n,
            None => 0,
        }) == version;
    if exists|g: MigrationView<P>| #[trigger] of_version(g) {
        let g = choose|g: MigrationView<P>| #[trigger] of_version(g);
        let same = |f: MigrationView<P>| same_rank(f, g);
        assert forall|f: MigrationView<P>| #[trigger] same(f) == of_version(f) by {}
        assert(same =~= of_version);
        there_is_a_plan(files);
        assert(of_rank(plan_of(files), g) == of_rank(files, g));
    } else {
        assert forall|i: int| 0 <= i < files.len() implies !of_version(#[trigger] files[i]) by {}
        assert forall|i: int| 0 <= i < plan_of(files).len() implies !of_version(
            #[trigger] plan_of(files)[i],
        ) by {}
        files.lemma_all_neg_filter_empty(of_version);
        plan_of(files).lemma_all_neg_filter_empty(of_version);
    }
}

/// The plan holds the repeatable migrations of one name as often and in the order
/// in which they were found.
pub proof fn plan_keeps_migrations_of_one_name<P>(files: Seq<MigrationView<P>>, name: Seq<char>)
    ensures
        ({
            let of_name = |f: MigrationView<P>| f.ty == MigType::Repeatable && f.name == name;
            plan_of(files).filter(of_name) == files.filter(of_name)
        }),
{
    let of_name = |f: MigrationView<P>| f.ty == MigType::Repeatable && f.name == name;
    if exists|g: MigrationView<P>| #[trigger] of_name(g) {
        let g = choose|g: MigrationView<P>| #[trigger] of_name(g);
        let same = |f: MigrationView<P>| same_rank(f, g);
        assert forall|f: MigrationView<P>| #[trigger] same(f) == of_name(f) by {
            text_order_is_total(f.name, g.name);
        }
        assert(same =~= of_name);
        there_is_a_plan(files);
        assert(of_rank(plan_of(files), g) == of_rank(files, g));
    } else {
        assert forall|i: int| 0 <= i < files.len() implies !of_name(#[trigger] files[i]) by {}
        assert forall|i: int| 0 <= i < plan_of(files).len() implies !of_name(
            #[trigger] plan_of(files)[i],
        ) by {}
        files.lemma_all_neg_filter_empty(of_name);
        plan_of(files).lemma_all_neg_filter_empty(of_name);
    }
}

// ------------------------------------------------------------------ history

/// A versioned migration is recorded by its name, its version, its checksum and the
/// time; a repeatable one by all of these but a version.
pub proof fn rows_hold_name_version_checksum_and_time<P>(mig: MigrationView<P>, now: Timestamp)
    ensures
        versioned_row(mig, now).sql
            == "INSERT INTO MIGRATIONS_HISTORY (NAME, VERSION, TYPE, CHECKSUM, APPLIED_AT) VALUES (:1, :2, 'V', :3, :4)"@,
        versioned_row(mig, now).binds.len() == 4,
        versioned_row(mig, now).binds[0] == BindView::Text(mig.name),
        mig.version matches Some(v) ==> (v <= 0x7fff_ffff_ffff_ffff ==> versioned_row(
            mig,
            now,
        ).binds[1] == BindView::Int(v as i64)),
        mig.version matches Some(v) ==> (v > 0x7fff_ffff_ffff_ffff ==> versioned_row(
            mig,
            now,
        ).binds[1] == BindView::Int((v - 0x1_0000_0000_0000_0000) as i64)),
        mig.version is None ==> versioned_row(mig, now).binds[1] == BindView::Int(0),
        versioned_row(mig, now).binds[2] == BindView::Int(stored_checksum(mig.checksum)),
        versioned_row(mig, now).binds[3] == BindView::Time(now),
        repeatable_row(mig, now) == (SqlCallView {
            sql: "INSERT INTO MIGRATIONS_HISTORY (NAME, VERSION, TYPE, CHECKSUM, APPLIED_AT) VALUES (:1, NULL, 'R', :2, :3)"@,
            binds: seq![
                BindView::Text(mig.name),
                BindView::Int(stored_checksum(mig.checksum)),
                BindView::Time(now),
            ],
        }),
{
    let v = version_number(mig.version);
    assert(v > 0x7fff_ffff_ffff_ffffu64 ==> (v as i64) == v - 0x1_0000_0000_0000_0000)
        by (bit_vector);
    assert(v <= 0x7fff_ffff_ffff_ffffu64 ==> (v as i64) == v) by (bit_vector);
}

// --------------------------------------------------------------------- walk

/// A walk first lists the directory; a directory that is none, or that cannot be
/// listed, ends it with a report.
pub proof fn walk_lists_the_directory<P>(
    dir: Seq<char>,
    error: Seq<char>,
    entries: Seq<Result<DirEntryView<P>, Seq<char>>>,
)
    ensures
        ({
            let walk = ScanView::<P>::List { dir };
            &&& scan_request(walk) == RequestView::<P>::ListDir(dir)
            &&& scan_next(walk, ReplyView::Listing(ListingView::NotADirectory)) == (
            ScanView::<P>::Failed { reason: "migrations dir '"@ + dir + "' is not a directory"@ })
            &&& scan_next(walk, ReplyView::Listing(ListingView::Failed(error))) == (
            ScanView::<P>::Failed { reason: "read_dir "@ + dir + " failed: "@ + error })
            &&& scan_next(walk, ReplyView::Listing(ListingView::Entries(entries))) == scan_from(
                entries,
                Seq::empty(),
            )
        }),
{
}

/// A walk passes over entries that hold no migration, ends at the first one that
/// could not be had, and is done where there is none left.
pub proof fn walk_stops_at_migrations_and_errors<P>(
    passed: Seq<DirEntryView<P>>,
    entry: DirEntryView<P>,
    error: Seq<char>,
    rest: Seq<Result<DirEntryView<P>, Seq<char>>>,
    found: Seq<MigrationView<P>>,
)
    requires
        forall|i: int| 0 <= i < passed.len() ==> !is_candidate(#[trigger] passed[i]),
        is_candidate(entry),
    ensures
        ({
            let over = Seq::new(
                passed.len(),
                |i: int| Ok::<DirEntryView<P>, Seq<char>>(passed[i]),
            );
            &&& scan_from(over, found) == (ScanView::Done { found })
            &&& scan_from(over + seq![Err::<DirEntryView<P>, Seq<char>>(error)] + rest, found) == (
            ScanView::<P>::Failed { reason: "read_dir entry error: "@ + error })
            &&& scan_from(over + seq![Ok::<DirEntryView<P>, Seq<char>>(entry)] + rest, found) == (
            ScanView::Read {
                entries: seq![Ok::<DirEntryView<P>, Seq<char>>(entry)] + rest,
                found,
            })
        }),
    decreases passed.len(),
{
    let over = Seq::new(passed.len(), |i: int| Ok::<DirEntryView<P>, Seq<char>>(passed[i]));
    let bad = seq![Err::<DirEntryView<P>, Seq<char>>(error)];
    let good = seq![Ok::<DirEntryView<P>, Seq<char>>(entry)];
    if passed.len() == 0 {
        assert(over =~= Seq::empty());
        assert((over + bad + rest)[0] == bad[0]);
        assert((over + good + rest)[0] == good[0]);
        assert(over + good + rest =~= good + rest);
    } else {
        let fewer = passed.skip(1);
        assert forall|i: int| 0 <= i < fewer.len() implies !is_candidate(#[trigger] fewer[i]) by {
            assert(fewer[i] == passed[i + 1]);
        }
        walk_stops_at_migrations_and_errors(fewer, entry, error, rest, found);
        let over_fewer = Seq::new(
            fewer.len(),
            |i: int| Ok::<DirEntryView<P>, Seq<char>>(fewer[i]),
        );
        assert(!is_candidate(passed[0]));
        assert(over.skip(1) =~= over_fewer);
        assert((over + bad + rest).skip(1) =~= over_fewer + bad + rest);
        assert((over + good + rest).skip(1) =~= over_fewer + good + rest);
        assert((over + bad + rest)[0] == over[0]);
        assert((over + good + rest)[0] == over[0]);
    }
}

/// At a file that holds a migration the walk asks for the file's bytes; with them
/// the migration is found, after those found before, and the walk goes on; if they
/// cannot be had, it ends with the report of that.
pub proof fn walk_reads_the_file_of_a_migration<P>(
    entry: DirEntryView<P>,
    rest: Seq<Result<DirEntryView<P>, Seq<char>>>,
    found: Seq<MigrationView<P>>,
    bytes: Seq<u8>,
    report: Seq<char>,
)
    ensures
        ({
            let walk = ScanView::Read {
                entries: seq![Ok::<DirEntryView<P>, Seq<char>>(entry)] + rest,
                found,
            };
            &&& scan_request(walk) == RequestView::ReadBytes(entry.path)
            &&& scan_next(walk, ReplyView::Bytes(Err(report))) == (ScanView::<P>::Failed {
                reason: report,
            })
            &&& migration_kind(entry.name) matches Some((ty, version)) ==> scan_next(
                walk,
                ReplyView::Bytes(Ok(bytes)),
            ) == scan_from(
                rest,
                found + seq![
                    (MigrationView {
                        ty,
                        version,
                        name: entry.name,
                        path: entry.path,
                        checksum: fnv1a(bytes),
                    }),
                ],
            )
            &&& scan_request(ScanView::<P>::Done { found }) == RequestView::<P>::Done
            &&& scan_request(ScanView::<P>::Failed { reason: report })
                == RequestView::<P>::Failed(report)
        }),
{
    let entries = seq![Ok::<DirEntryView<P>, Seq<char>>(entry)] + rest;
    assert(entries.skip(1) =~= rest);
    assert(entries[0] == Ok::<DirEntryView<P>, Seq<char>>(entry));
    let mig = migration_of(entry, bytes);
    assert(found.push(mig) =~= found + seq![mig]);
}

} // verus!
