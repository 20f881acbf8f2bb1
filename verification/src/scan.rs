//! Finding the migrations in a directory.

use vstd::pervasive::unreached;
use vstd::prelude::*;

use crate::checksum;
use crate::migrations;
use crate::migrations::{
    classify_migration_file, kind_of_name, migration_views, plan_migrations, MigrationFile,
    MigrationView,
};
use crate::protocol::{
    answers, entry_result_view, entry_views, DirEntry, DirEntryView, Entry, Listing, ListingView,
    Reply, ReplyView, Request, RequestView,
};
use crate::text::{chars_of, joined_text};

verus! {

/// An ASCII letter in lower case; any other character as it is.
pub open spec fn ascii_lower(c: char) -> char {
    if 'A' <= c <= 'Z' {
        (c as int + 32) as char
    } else {
        c
    }
}

/// Whether an extension is `sql`, in whatever case.
pub open spec fn is_sql_extension(extension: Option<Seq<char>>) -> bool {
    extension matches Some(ext) && ext.map_values(|c: char| ascii_lower(c)) == seq!['s', 'q', 'l']
}

/// Whether an extension is `sql`, in whatever case.
pub fn has_sql_extension(extension: &Option<String>) -> (sql: bool)
    ensures
        sql == is_sql_extension(crate::text::option_view(*extension)),
{
    match extension {
        Some(ext) => {
            let chars: Vec<char> = chars_of(ext.as_str());
            let ghost lower = chars@.map_values(|c: char| ascii_lower(c));
            let same: bool = chars.len() == 3 && (chars[0] == 's' || chars[0] == 'S') && (chars[1]
                == 'q' || chars[1] == 'Q') && (chars[2] == 'l' || chars[2] == 'L');
            proof {
                assert(seq!['s', 'q', 'l'].len() == 3);
                if same {
                    assert(lower =~= seq!['s', 'q', 'l']);
                } else if lower == seq!['s', 'q', 'l'] {
                    assert(lower[0] == 's' && lower[1] == 'q' && lower[2] == 'l');
                }
            }
            same
        },
        None => false,
    }
}

/// Whether an entry is a file that holds a migration, going by its names.
pub open spec fn is_candidate<P>(entry: DirEntryView<P>) -> bool {
    entry.is_file && is_sql_extension(entry.extension) && migrations::migration_kind(
        entry.name,
    ) is Some
}

fn candidate<P>(entry: &DirEntry<P>) -> (c: bool)
    ensures
        c == is_candidate(entry@),
{
    entry.is_file && has_sql_extension(&entry.extension) && kind_of_name(
        entry.name.as_str(),
    ).is_some()
}

/// The migration in a file with these bytes.
pub open spec fn migration_of<P>(entry: DirEntryView<P>, bytes: Seq<u8>) -> MigrationView<P> {
    let (ty, version) = migrations::migration_kind(entry.name)->0;
    MigrationView {
        ty,
        version,
        name: entry.name,
        path: entry.path,
        checksum: checksum::fnv1a(bytes),
    }
}

enum ScanPhase {
    List,
    Read,
    Done,
    Failed(String),
}

/// A walk through a directory, entry by entry, in the order of the listing.
pub struct DirectoryScan<P> {
    dir: String,
    entries: Vec<Entry<P>>,
    found: Vec<MigrationFile<P>>,
    phase: ScanPhase,
}

/// A walk through a directory.
pub ghost enum ScanView<P> {
    /// The listing is awaited.
    List { dir: Seq<char> },
    /// The bytes of the first entry's file are awaited.
    Read {
        entries: Seq<Result<DirEntryView<P>, Seq<char>>>,
        found: Seq<MigrationView<P>>,
    },
    /// All entries were looked at.
    Done { found: Seq<MigrationView<P>> },
    /// It failed.
    Failed { reason: Seq<char> },
}

impl<P> View for DirectoryScan<P> {
    type V = ScanView<P>;

    closed spec fn view(&self) -> ScanView<P> {
        match self.phase {
            ScanPhase::List => ScanView::List { dir: self.dir@ },
            ScanPhase::Read => ScanView::Read {
                entries: entry_views(self.entries@),
                found: migration_views(self.found@),
            },
            ScanPhase::Done => ScanView::Done { found: migration_views(self.found@) },
            ScanPhase::Failed(e) => ScanView::Failed { reason: e@ },
        }
    }
}

/// A walk that goes on with these entries: it stops at the first one that could
/// not be had, and pauses at the first file that holds a migration.
pub open spec fn scan_from<P>(
    entries: Seq<Result<DirEntryView<P>, Seq<char>>>,
    found: Seq<MigrationView<P>>,
) -> ScanView<P>
    decreases entries.len(),
{
    if entries.len() == 0 {
        ScanView::Done { found }
    } else {
        match entries[0] {
            Err(e) => ScanView::Failed { reason: "read_dir entry error: "@ + e },
            Ok(entry) => if is_candidate(entry) {
                ScanView::Read { entries, found }
            } else {
                scan_from(entries.skip(1), found)
            },
        }
    }
}

/// What a walk asks for.
pub open spec fn scan_request<P>(scan: ScanView<P>) -> RequestView<P> {
    match scan {
        ScanView::List { dir } => RequestView::ListDir(dir),
        ScanView::Read { entries, found } => RequestView::ReadBytes((entries[0]->Ok_0).path),
        ScanView::Done { found } => RequestView::Done,
        ScanView::Failed { reason } => RequestView::Failed(reason),
    }
}

/// A walk after a reply.
pub open spec fn scan_next<P>(scan: ScanView<P>, reply: ReplyView<P>) -> ScanView<P> {
    match (scan, reply) {
        (ScanView::List { dir }, ReplyView::Listing(listing)) => match listing {
            ListingView::NotADirectory => ScanView::Failed {
                reason: "migrations dir '"@ + dir + "' is not a directory"@,
            },
            ListingView::Failed(e) => ScanView::Failed {
                reason: "read_dir "@ + dir + " failed: "@ + e,
            },
            ListingView::Entries(entries) => scan_from(entries, Seq::empty()),
        },
        (ScanView::Read { entries, found }, ReplyView::Bytes(Ok(bytes))) => scan_from(
            entries.skip(1),
            found.push(migration_of(entries[0]->Ok_0, bytes)),
        ),
        (ScanView::Read { entries, found }, ReplyView::Bytes(Err(e))) => ScanView::Failed {
            reason: e,
        },
        _ => scan,
    }
}

impl<P> DirectoryScan<P> {
    #[verifier::type_invariant]
    spec fn pauses_at_a_candidate(self) -> bool {
        self.phase is Read ==> self.entries@.len() > 0 && self.entries@[0] is Ok && is_candidate(
            (self.entries@[0]->Ok_0)@,
        )
    }

    /// A walk through `dir`.
    pub fn new(dir: String) -> (scan: DirectoryScan<P>)
        ensures
            scan@ == (ScanView::<P>::List { dir: dir@ }),
    {
        DirectoryScan { dir, entries: Vec::new(), found: Vec::new(), phase: ScanPhase::List }
    }

    fn failed(dir: String, reason: String) -> (scan: DirectoryScan<P>)
        ensures
            scan@ == (ScanView::<P>::Failed { reason: reason@ }),
    {
        DirectoryScan {
            dir,
            entries: Vec::new(),
            found: Vec::new(),
            phase: ScanPhase::Failed(reason),
        }
    }

    fn go_on(dir: String, entries: Vec<Entry<P>>, found: Vec<MigrationFile<P>>) -> (scan:
        DirectoryScan<P>)
        ensures
            scan@ == scan_from(entry_views(entries@), migration_views(found@)),
    {
        let ghost all = entry_views(entries@);
        let mut entries: Vec<Entry<P>> = entries;
        #[verifier::loop_isolation(false)]
        while entries.len() > 0
            invariant
                scan_from(all, migration_views(found@)) == scan_from(
                    entry_views(entries@),
                    migration_views(found@),
                ),
            decreases entries@.len(),
        {
            let pause: bool = match &entries[0] {
                Ok(entry) => candidate(entry),
                Err(_) => false,
            };
            if pause {
                return DirectoryScan { dir, entries, found, phase: ScanPhase::Read };
            }
            let ghost before = entries@;
            let first: Entry<P> = entries.remove(0);
            proof {
                assert(entry_views(entries@) =~= entry_views(before).skip(1));
                assert(entry_views(before)[0] == entry_result_view(first));
            }
            if let Err(e) = first {
                return DirectoryScan::failed(
                    dir,
                    joined_text("read_dir entry error: ", e.as_str()),
                );
            }
        }
        DirectoryScan { dir, entries, found, phase: ScanPhase::Done }
    }

    /// What the walk asks for.
    pub fn request(&self) -> (request: Request<'_, P>)
        ensures
            request@ == scan_request(self@),
    {
        proof {
            use_type_invariant(self);
        }
        match &self.phase {
            ScanPhase::List => Request::ListDir(self.dir.as_str()),
            ScanPhase::Read => match &self.entries[0] {
                Ok(entry) => Request::ReadBytes(&entry.path),
                Err(_) => unreached(),
            },
            ScanPhase::Done => Request::Done,
            ScanPhase::Failed(e) => Request::Failed(e.as_str()),
        }
    }

    /// The walk after a reply to what it asked for.
    pub fn step(self, reply: Reply<P>) -> (after: DirectoryScan<P>)
        requires
            answers(reply@, scan_request(self@)),
        ensures
            after@ == scan_next(self@, reply@),
    {
        proof {
            use_type_invariant(&self);
        }
        let DirectoryScan { dir, entries, found, phase } = self;
        match (phase, reply) {
            (ScanPhase::List, Reply::Listing(listing)) => match listing {
                Listing::NotADirectory => {
                    let head: String = joined_text("migrations dir '", dir.as_str());
                    let reason: String = joined_text(head.as_str(), "' is not a directory");
                    DirectoryScan::failed(dir, reason)
                },
                Listing::Failed(e) => {
                    let head: String = joined_text("read_dir ", dir.as_str());
                    let front: String = joined_text(head.as_str(), " failed: ");
                    let reason: String = joined_text(front.as_str(), e.as_str());
                    DirectoryScan::failed(dir, reason)
                },
                Listing::Entries(listed) => {
                    let none: Vec<MigrationFile<P>> = Vec::new();
                    proof {
                        assert(migration_views(none@) =~= Seq::<MigrationView<P>>::empty());
                    }
                    DirectoryScan::go_on(dir, listed, none)
                },
            },
            (ScanPhase::Read, Reply::Bytes(content)) => {
                let ghost before = entries@;
                let mut entries: Vec<Entry<P>> = entries;
                let mut found: Vec<MigrationFile<P>> = found;
                let ghost known = migration_views(found@);
                let first: Entry<P> = entries.remove(0);
                proof {
                    assert(entry_views(entries@) =~= entry_views(before).skip(1));
                    assert(entry_views(before)[0] == entry_result_view(first));
                }
                match first {
                    Ok(entry) => match classify_migration_file(
                        entry.name.as_str(),
                        entry.path,
                        content,
                    ) {
                        Ok(Some(file)) => {
                            let ghost view = file@;
                            found.push(file);
                            proof {
                                assert(migration_views(found@) =~= known.push(view));
                            }
                            DirectoryScan::go_on(dir, entries, found)
                        },
                        Ok(None) => unreached(),
                        Err(e) => DirectoryScan::failed(dir, e),
                    },
                    Err(_) => unreached(),
                }
            },
            (phase, _) => DirectoryScan { dir, entries, found, phase },
        }
    }

    /// Whether all entries were looked at.
    pub fn is_done(&self) -> (done: bool)
        ensures
            done == (self@ is Done),
    {
        match &self.phase {
            ScanPhase::Done => true,
            _ => false,
        }
    }

    /// The migrations that were found, in the order in which they are applied.
    pub fn into_plan(self) -> (plan: Vec<MigrationFile<P>>)
        requires
            self@ is Done,
        ensures
            migration_views(plan@) == migrations::plan_of(self@->Done_found),
    {
        plan_migrations(self.found)
    }
}

// --------------------------------------------------------------------- laws

/// A walk after a series of replies.
pub open spec fn scan_after<P>(scan: ScanView<P>, replies: Seq<ReplyView<P>>) -> ScanView<P>
    decreases replies.len(),
{
    if replies.len() == 0 {
        scan
    } else {
        scan_after(scan_next(scan, replies[0]), replies.skip(1))
    }
}

/// The files of a directory that hold migrations.
pub open spec fn candidates<P>(entries: Seq<DirEntryView<P>>) -> Seq<DirEntryView<P>>
    decreases entries.len(),
{
    if entries.len() == 0 {
        Seq::empty()
    } else if is_candidate(entries[0]) {
        seq![entries[0]] + candidates(entries.skip(1))
    } else {
        candidates(entries.skip(1))
    }
}

/// A walk through a directory all of whose entries can be had and all of whose
/// files can be read finds the migrations of the files that hold some, each with
/// the checksum of its bytes, and asks for nothing else.
pub proof fn walk_finds_every_migration<P>(
    entries: Seq<DirEntryView<P>>,
    contents: Seq<Seq<u8>>,
    found: Seq<MigrationView<P>>,
)
    requires
        contents.len() == candidates(entries).len(),
    ensures
        scan_after(
            scan_from(
                entries.map_values(|e: DirEntryView<P>| Ok::<DirEntryView<P>, Seq<char>>(e)),
                found,
            ),
            contents.map_values(|b: Seq<u8>| ReplyView::<P>::Bytes(Ok(b))),
        ) == (ScanView::Done {
            found: found + Seq::new(
                contents.len(),
                |i: int| migration_of(candidates(entries)[i], contents[i]),
            ),
        }),
    decreases entries.len(),
{
    let ok = |e: DirEntryView<P>| Ok::<DirEntryView<P>, Seq<char>>(e);
    let read = |b: Seq<u8>| ReplyView::<P>::Bytes(Ok(b));
    let all = entries.map_values(ok);
    let replies = contents.map_values(read);
    if entries.len() == 0 {
        assert(found + Seq::new(
            contents.len(),
            |i: int| migration_of(candidates(entries)[i], contents[i]),
        ) =~= found);
    } else {
        let rest = entries.skip(1);
        assert(all.skip(1) =~= rest.map_values(ok));
        if is_candidate(entries[0]) {
            let later = contents.skip(1);
            let first = migration_of(entries[0], contents[0]);
            assert(candidates(entries).skip(1) =~= candidates(rest));
            walk_finds_every_migration(rest, later, found.push(first));
            assert(replies.skip(1) =~= later.map_values(read));
            assert(found.push(first) + Seq::new(
                later.len(),
                |i: int| migration_of(candidates(rest)[i], later[i]),
            ) =~= found + Seq::new(
                contents.len(),
                |i: int| migration_of(candidates(entries)[i], contents[i]),
            ));
        } else {
            walk_finds_every_migration(rest, contents, found);
        }
    }
}

} // verus!
