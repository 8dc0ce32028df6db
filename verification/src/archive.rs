//! The archive of the files that a commit changed: which files go into it,
//! how it is built, and under which key it is kept.

use vstd::prelude::*;
use vstd::string::StringExecFns;
use std::io::Cursor;
use std::io::Write;
use zip::write::SimpleFileOptions;
use zip::CompressionMethod;
use zip::ZipWriter;
use crate::diff::{ChangeKind, ChangedFile};

verus! {

/// The permission bits of every file in an archive: an ordinary file that its
/// owner may write and all may read.
pub const FILE_MODE: u32 = 0o644;

/// An archive could not be built.
#[derive(Debug)]
pub struct ArchiveError {
    pub message: String,
}

/// A zip archive that is being written into memory. Trusted: it holds a
/// `zip::ZipWriter` over a cursor, which is used through the functions below
/// and in no other way.
#[verifier::external_body]
pub struct ArchiveWriter {
    inner: ZipWriter<Cursor<Vec<u8>>>,
}

/// The entries that were written into an archive writer, in order: for each
/// its name, its permission bits and its content.
pub uninterp spec fn written(w: ArchiveWriter) -> Seq<(Seq<char>, u32, Seq<u8>)>;

/// Why the writer refuses to start an entry of this name and these
/// permission bits after the entries given: the text of its error, or `None`
/// where it starts the entry. It stands for `zip::ZipWriter::start_file`.
pub uninterp spec fn start_refusal(
    entries: Seq<(Seq<char>, u32, Seq<u8>)>,
    name: Seq<char>,
    mode: u32,
) -> Option<Seq<char>>;

/// Why the writer refuses these bytes as the content of the last of the
/// entries given, which was just started: the text of its error, or `None`
/// where it takes them. It stands for `write_all` of `zip::ZipWriter`.
pub uninterp spec fn write_refusal(entries: Seq<(Seq<char>, u32, Seq<u8>)>, bytes: Seq<u8>) -> Option<
    Seq<char>,
>;

/// What finishing the archive of these entries gives: its bytes, each entry
/// compressed by the deflate method, or the text of the writer's error. It
/// stands for `zip::ZipWriter::finish`.
pub uninterp spec fn finished(entries: Seq<(Seq<char>, u32, Seq<u8>)>) -> Result<
    Seq<u8>,
    Seq<char>,
>;

/// An entry of this name is among the entries.
pub open spec fn has_name(entries: Seq<(Seq<char>, u32, Seq<u8>)>, name: Seq<char>) -> bool {
    exists|k: int| 0 <= k < entries.len() && (#[trigger] entries[k]).0 == name
}

/// Trusted: `zip::ZipWriter::new` over an empty buffer. Nothing is written
/// yet.
#[verifier::external_body]
fn open_writer() -> (w: ArchiveWriter)
    ensures
        written(w) == Seq::<(Seq<char>, u32, Seq<u8>)>::empty(),
{
    ArchiveWriter { inner: ZipWriter::new(Cursor::new(Vec::new())) }
}

/// Trusted: `zip::ZipWriter::start_file` with the deflate method and the
/// given permission bits. Whether the writer starts the entry, and with which
/// error it refuses, depends on the entries written so far, the name and the
/// bits alone. Where it starts it, an entry of that name, still empty,
/// follows the entries written so far. A name that is in the archive already
/// is refused.
#[verifier::external_body]
fn begin_file(w: &mut ArchiveWriter, name: &str, mode: u32) -> (r: Result<(), ArchiveError>)
    ensures
        match r {
            Ok(()) => {
                &&& start_refusal(written(*old(w)), name@, mode) is None
                &&& written(*final(w)) == written(*old(w)).push((name@, mode, Seq::<u8>::empty()))
            },
            Err(e) => start_refusal(written(*old(w)), name@, mode) == Some(e.message@),
        },
        has_name(written(*old(w)), name@) ==> r is Err,
{
    let options = SimpleFileOptions::default().compression_method(
        CompressionMethod::Deflated,
    ).unix_permissions(mode);
    w.inner.start_file(name, options).map_err(|e| ArchiveError { message: e.to_string() })
}

/// Trusted: `write_all` of `zip::ZipWriter`, for the whole content of the
/// entry that was just started. Whether the writer takes the bytes, and with
/// which error it refuses, depends on the entries written so far and the
/// bytes alone. Where it takes them, they are the content of that entry.
#[verifier::external_body]
fn write_content(w: &mut ArchiveWriter, bytes: &Vec<u8>) -> (r: Result<(), ArchiveError>)
    requires
        written(*old(w)).len() > 0,
        written(*old(w)).last().2.len() == 0,
    ensures
        match r {
            Ok(()) => {
                &&& write_refusal(written(*old(w)), bytes@) is None
                &&& written(*final(w)) == written(*old(w)).drop_last().push(
                    (written(*old(w)).last().0, written(*old(w)).last().1, bytes@),
                )
            },
            Err(e) => write_refusal(written(*old(w)), bytes@) == Some(e.message@),
        },
{
    w.inner.write_all(bytes).map_err(|e| ArchiveError { message: e.to_string() })
}

/// Trusted: `zip::ZipWriter::finish`. The bytes of the archive, or the error
/// in their place, depend on the entries written alone.
#[verifier::external_body]
fn close_writer(w: ArchiveWriter) -> (r: Result<Vec<u8>, ArchiveError>)
    ensures
        outcome(r) == finished(written(w)),
{
    w.inner.finish().map(|c| c.into_inner()).map_err(|e| ArchiveError { message: e.to_string() })
}

/// A result as plain values: the bytes, or the text of the error.
pub open spec fn outcome(r: Result<Vec<u8>, ArchiveError>) -> Result<Seq<u8>, Seq<char>> {
    match r {
        Ok(bytes) => Ok(bytes@),
        Err(e) => Err(e.message@),
    }
}

/// Why the writer refuses a whole entry after the entries given: the error
/// with which it refuses to start it or, where it starts it, with which it
/// refuses its content; `None` where it takes the entry.
pub open spec fn entry_refusal(
    entries: Seq<(Seq<char>, u32, Seq<u8>)>,
    name: Seq<char>,
    mode: u32,
    content: Seq<u8>,
) -> Option<Seq<char>> {
    match start_refusal(entries, name, mode) {
        Some(text) => Some(text),
        None => write_refusal(entries.push((name, mode, Seq::<u8>::empty())), content),
    }
}

/// What comes of writing the entries `rest`, in order, after the entries
/// `done` and finishing the archive: the error of the first entry that the
/// writer refuses or, where it takes them all, what finishing gives.
pub open spec fn packed_after(
    done: Seq<(Seq<char>, u32, Seq<u8>)>,
    rest: Seq<(Seq<char>, u32, Seq<u8>)>,
) -> Result<Seq<u8>, Seq<char>>
    decreases rest.len(),
{
    if rest.len() == 0 {
        finished(done)
    } else {
        match entry_refusal(done, rest[0].0, rest[0].1, rest[0].2) {
            Some(text) => Err(text),
            None => packed_after(done.push(rest[0]), rest.drop_first()),
        }
    }
}

/// What comes of packing the entries into a new archive.
pub open spec fn packed(entries: Seq<(Seq<char>, u32, Seq<u8>)>) -> Result<Seq<u8>, Seq<char>> {
    packed_after(Seq::<(Seq<char>, u32, Seq<u8>)>::empty(), entries)
}

/// Two of the entries have the same name.
pub open spec fn has_repeated_name(entries: Seq<(Seq<char>, u32, Seq<u8>)>) -> bool {
    exists|i: int, j: int| 0 <= i < j < entries.len() && entries[i].0 == entries[j].0
}

fn add_entry(w: &mut ArchiveWriter, name: &str, content: &Vec<u8>) -> (r: Result<(), ArchiveError>)
    ensures
        match r {
            Ok(()) => {
                &&& entry_refusal(written(*old(w)), name@, FILE_MODE, content@) is None
                &&& written(*final(w)) == written(*old(w)).push((name@, FILE_MODE, content@))
            },
            Err(e) => entry_refusal(written(*old(w)), name@, FILE_MODE, content@) == Some(
                e.message@,
            ),
        },
        has_name(written(*old(w)), name@) ==> r is Err,
{
    match begin_file(w, name, FILE_MODE) {
        Ok(()) => {},
        Err(e) => {
            return Err(e);
        },
    }
    let r = write_content(w, content);
    proof {
        if r is Ok {
            let started = written(*old(w)).push((name@, FILE_MODE, Seq::<u8>::empty()));
            assert(started.drop_last() =~= written(*old(w)));
        }
    }
    r
}

/// The entries of an archive of these files: each with its name, the
/// permission bits of an ordinary file, and its content.
pub open spec fn entries_of(files: Seq<(String, Vec<u8>)>) -> Seq<(Seq<char>, u32, Seq<u8>)> {
    files.map_values(|f: (String, Vec<u8>)| (f.0@, FILE_MODE, f.1@))
}

/// Builds a zip archive with one entry for each file, in the order given.
/// For no file at all no archive is made, and that is a success: `Ok(None)`.
/// Else the files are handed to the archive writer one by one, and the
/// archive is finished: the result is the error of the first file that the
/// writer refuses or, where it takes them all, what finishing gives. So an
/// archive that comes back is the archive of exactly these entries, and
/// files of which two have the same name come to an error.
pub fn create_zip(files: &[(String, Vec<u8>)]) -> (r: Result<Option<Vec<u8>>, ArchiveError>)
    ensures
        files.len() == 0 ==> r matches Ok(None),
        files.len() > 0 ==> match r {
            Ok(Some(bytes)) => {
                &&& packed(entries_of(files@)) == Ok::<Seq<u8>, Seq<char>>(bytes@)
                &&& finished(entries_of(files@)) == Ok::<Seq<u8>, Seq<char>>(bytes@)
            },
            Ok(None) => false,
            Err(e) => packed(entries_of(files@)) == Err::<Seq<u8>, Seq<char>>(e.message@),
        },
        has_repeated_name(entries_of(files@)) ==> r is Err,
{
    if files.len() == 0 {
        return Ok(None);
    }
    let ghost all = entries_of(files@);
    let mut w = open_writer();
    let mut i: usize = 0;
    proof {
        assert(all.take(0) =~= Seq::<(Seq<char>, u32, Seq<u8>)>::empty());
        assert(all.skip(0) =~= all);
    }
    while i < files.len()
        invariant
            i <= files.len(),
            all == entries_of(files@),
            written(w) == all.take(i as int),
            packed(all) == packed_after(all.take(i as int), all.skip(i as int)),
            forall|a: int, b: int| 0 <= a < b < i ==> all[a].0 != all[b].0,
        decreases files.len() - i,
    {
        let file = &files[i];
        proof {
            assert(all.skip(i as int)[0] == all[i as int]);
            assert(all[i as int] == (file.0@, FILE_MODE, file.1@));
            assert(all.skip(i as int).drop_first() =~= all.skip(i + 1));
            assert(all.take(i as int).push(all[i as int]) =~= all.take(i + 1));
        }
        match add_entry(&mut w, file.0.as_str(), &file.1) {
            Ok(()) => {},
            Err(e) => {
                return Err(e);
            },
        }
        proof {
            assert forall|a: int, b: int| 0 <= a < b < i + 1 implies all[a].0 != all[b].0 by {
                if b == i && all[a].0 == all[b].0 {
                    assert(all.take(i as int)[a].0 == file.0@);
                    assert(has_name(all.take(i as int), file.0@));
                }
            }
        }
        i += 1;
    }
    proof {
        assert(all.take(i as int) =~= all);
        assert(all.skip(i as int).len() == 0);
    }
    match close_writer(w) {
        Ok(bytes) => Ok(Some(bytes)),
        Err(e) => Err(e),
    }
}

/// The entries whose content was resolved, in order; the others are left out.
pub open spec fn resolved(entries: Seq<(String, Option<Vec<u8>>)>) -> Seq<(Seq<char>, u32, Seq<u8>)>
    decreases entries.len(),
{
    if entries.len() == 0 {
        Seq::<(Seq<char>, u32, Seq<u8>)>::empty()
    } else {
        let before = resolved(entries.drop_last());
        match entries.last().1 {
            Some(content) => before.push((entries.last().0@, FILE_MODE, content@)),
            None => before,
        }
    }
}

/// Builds the archive of a commit's files. An entry without content (a file
/// that could not be read) is skipped. Where no entry has content, no archive
/// is made, and that is a success: `Ok(None)`. Else the entries that have
/// content are handed to the archive writer one by one, and the archive is
/// finished: the result is the error of the first entry that the writer
/// refuses or, where it takes them all, what finishing gives. So an archive
/// that comes back is the archive of exactly the entries that have content.
pub fn build_archive(entries: &[(String, Option<Vec<u8>>)]) -> (r: Result<
    Option<Vec<u8>>,
    ArchiveError,
>)
    ensures
        resolved(entries@).len() == 0 ==> r matches Ok(None),
        resolved(entries@).len() > 0 ==> match r {
            Ok(Some(bytes)) => {
                &&& packed(resolved(entries@)) == Ok::<Seq<u8>, Seq<char>>(bytes@)
                &&& finished(resolved(entries@)) == Ok::<Seq<u8>, Seq<char>>(bytes@)
            },
            Ok(None) => false,
            Err(e) => packed(resolved(entries@)) == Err::<Seq<u8>, Seq<char>>(e.message@),
        },
{
    let ghost all = resolved(entries@);
    let mut w = open_writer();
    let mut packed: usize = 0;
    let mut i: usize = 0;
    proof {
        assert(entries@.take(0) =~= Seq::<(String, Option<Vec<u8>>)>::empty());
        assert(all.skip(0) =~= all);
    }
    while i < entries.len()
        invariant
            i <= entries.len(),
            packed <= i,
            packed == written(w).len(),
            packed <= all.len(),
            all == resolved(entries@),
            written(w) == resolved(entries@.take(i as int)),
            self::packed(all) == packed_after(written(w), all.skip(packed as int)),
        decreases entries.len() - i,
    {
        let entry = &entries[i];
        proof {
            assert(entries@.take(i + 1).drop_last() =~= entries@.take(i as int));
            assert(entries@.take(i + 1).last() == *entry);
            lemma_resolved_prefix(entries@, i + 1);
        }
        match &entry.1 {
            Some(content) => {
                proof {
                    let next = (entry.0@, FILE_MODE, content@);
                    assert(resolved(entries@.take(i + 1)) == written(w).push(next));
                    assert(all.take(packed + 1)[packed as int] == next);
                    assert(all.skip(packed as int)[0] == next);
                    assert(all.skip(packed as int).drop_first() =~= all.skip(packed + 1));
                }
                match add_entry(&mut w, entry.0.as_str(), content) {
                    Ok(()) => {},
                    Err(e) => {
                        return Err(e);
                    },
                }
                packed += 1;
            },
            None => {},
        }
        i += 1;
    }
    proof {
        assert(entries@.take(i as int) =~= entries@);
        assert(all.skip(packed as int).len() == 0);
    }
    if packed == 0 {
        Ok(None)
    } else {
        match close_writer(w) {
            Ok(bytes) => Ok(Some(bytes)),
            Err(e) => Err(e),
        }
    }
}

/// The resolved entries of a prefix are a prefix of the resolved entries of
/// the whole.
pub proof fn lemma_resolved_prefix(entries: Seq<(String, Option<Vec<u8>>)>, i: int)
    requires
        0 <= i <= entries.len(),
    ensures
        resolved(entries.take(i)).len() <= resolved(entries).len(),
        resolved(entries.take(i)) == resolved(entries).take(resolved(entries.take(i)).len() as int),
    decreases entries.len() - i,
{
    if i == entries.len() {
        assert(entries.take(i) =~= entries);
        assert(resolved(entries).take(resolved(entries).len() as int) =~= resolved(entries));
    } else {
        lemma_resolved_prefix(entries, i + 1);
        assert(entries.take(i + 1).drop_last() =~= entries.take(i));
        let shorter = resolved(entries.take(i));
        let longer = resolved(entries.take(i + 1));
        assert(shorter =~= longer.take(shorter.len() as int));
        assert(longer.take(shorter.len() as int) =~= resolved(entries).take(
            longer.len() as int,
        ).take(shorter.len() as int));
        assert(resolved(entries).take(longer.len() as int).take(shorter.len() as int)
            =~= resolved(entries).take(shorter.len() as int));
    }
}

/// The paths of the files whose content goes into the archive: all but the
/// deleted ones.
pub open spec fn archived_paths(files: Seq<ChangedFile>) -> Seq<Seq<char>>
    decreases files.len(),
{
    if files.len() == 0 {
        Seq::<Seq<char>>::empty()
    } else if files.last().kind == ChangeKind::Deleted {
        archived_paths(files.drop_last())
    } else {
        archived_paths(files.drop_last()).push(files.last().path@)
    }
}

/// The paths whose content is to be read from the commit's tree.
pub fn paths_to_archive(files: &Vec<ChangedFile>) -> (r: Vec<String>)
    ensures
        r@.map_values(|s: String| s@) == archived_paths(files@),
{
    let mut r: Vec<String> = Vec::new();
    let mut i: usize = 0;
    assert(files@.take(0) =~= Seq::<ChangedFile>::empty());
    assert(r@.map_values(|s: String| s@) =~= Seq::<Seq<char>>::empty());
    while i < files.len()
        invariant
            i <= files.len(),
            r@.map_values(|s: String| s@) == archived_paths(files@.take(i as int)),
        decreases files.len() - i,
    {
        assert(files@.take(i + 1).drop_last() =~= files@.take(i as int));
        assert(files@.take(i + 1).last() == files[i as int]);
        match files[i].kind {
            ChangeKind::Deleted => {},
            _ => {
                let ghost before = r@;
                let p = files[i].path.clone();
                r.push(p);
                assert(r@.map_values(|s: String| s@) =~= before.map_values(|s: String| s@).push(
                    p@,
                ));
            },
        }
        i += 1;
    }
    assert(files@.take(i as int) =~= files@);
    r
}

/// A commit that only deleted files has nothing to archive.
pub proof fn lemma_deletions_archive_nothing(files: Seq<ChangedFile>)
    requires
        forall|k: int| 0 <= k < files.len() ==> (#[trigger] files[k]).kind == ChangeKind::Deleted,
    ensures
        archived_paths(files).len() == 0,
    decreases files.len(),
{
    if files.len() > 0 {
        assert forall|k: int| 0 <= k < files.drop_last().len() implies (
        #[trigger] files.drop_last()[k]).kind == ChangeKind::Deleted by {
            assert(files.drop_last()[k] == files[k]);
        }
        lemma_deletions_archive_nothing(files.drop_last());
    }
}

/// Entries of which none has content resolve to nothing, so that no archive
/// is made of them.
pub proof fn lemma_nothing_resolved(entries: Seq<(String, Option<Vec<u8>>)>)
    requires
        forall|k: int| 0 <= k < entries.len() ==> (#[trigger] entries[k]).1 is None,
    ensures
        resolved(entries).len() == 0,
    decreases entries.len(),
{
    if entries.len() > 0 {
        assert forall|k: int| 0 <= k < entries.drop_last().len() implies (
        #[trigger] entries.drop_last()[k]).1 is None by {
            assert(entries.drop_last()[k] == entries[k]);
        }
        lemma_nothing_resolved(entries.drop_last());
    }
}

/// The key of a commit's archive in the blob store.
pub open spec fn key_of(repository_id: Seq<char>, sha: Seq<char>) -> Seq<char> {
    "commits/"@ + repository_id + "/"@ + sha + ".zip"@
}

pub fn archive_key(repository_id: &str, sha: &str) -> (key: String)
    ensures
        key@ == key_of(repository_id@, sha@),
{
    let mut key = "commits/".to_owned();
    key.append(repository_id);
    key.append("/");
    key.append(sha);
    key.append(".zip");
    key
}

} // verus!
