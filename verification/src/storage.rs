//! The two documents that the bot keeps on disk, and how a save replaces one of
//! them. Saves of one document share the file written aside, so they are made one
//! at a time, under the lock of the document; `save_laws` says what that is worth.
use vstd::prelude::*;
use vstd::string::StringExecFns;

verus! {

/// The file of the users.
pub const USERS_FILE: &'static str = "users.json";

/// The file of the finished downloads.
pub const LOG_FILE: &'static str = "download_log.json";

/// A document on disk.
#[derive(Clone, Copy, PartialEq, Eq, Structural)]
pub enum Document {
    Users,
    Logs,
}

impl Document {
    /// Where the document lies.
    pub open spec fn spec_path(self) -> Seq<char> {
        match self {
            Document::Users => USERS_FILE@,
            Document::Logs => LOG_FILE@,
        }
    }

    /// Where the document lies.
    pub fn path(&self) -> (r: &'static str)
        ensures
            r@ == self.spec_path(),
    {
        match self {
            Document::Users => USERS_FILE,
            Document::Logs => LOG_FILE,
        }
    }
}

/// Where the next contents of a file are written first.
pub open spec fn temporary(path: Seq<char>) -> Seq<char> {
    path + ".tmp"@
}

/// Where the next contents of a file are written first.
pub fn temporary_path(path: &str) -> (r: String)
    ensures
        r@ == temporary(path@),
{
    path.to_owned().concat(".tmp")
}

/// Contents of files by path.
pub type Files = Map<Seq<char>, Seq<char>>;

/// The files after `data` has been written to `path`.
pub open spec fn written(files: Files, path: Seq<char>, data: Seq<char>) -> Files {
    files.insert(path, data)
}

/// The files after `from` has taken the place of `to`.
pub open spec fn renamed(files: Files, from: Seq<char>, to: Seq<char>) -> Files {
    files.remove(from).insert(to, files[from])
}

/// Both hold the same at `path`, or nothing.
pub open spec fn same_at(a: Files, b: Files, path: Seq<char>) -> bool {
    a.contains_key(path) == b.contains_key(path) && (a.contains_key(path) ==> a[path] == b[path])
}

/// One save, with nobody else at the file or at the one written aside, replaces
/// the file at once: it is written aside and then renamed. However the writing
/// ends, a failure or a crash included, the file still holds what it held; after
/// the renaming it holds all of the new contents. No other file is touched but
/// the one written aside, which is gone in the end.
pub proof fn law_replaced_at_once(files: Files, path: Seq<char>, data: Seq<char>, torn: Files)
    requires
        forall|p: Seq<char>| p != temporary(path) ==> #[trigger] same_at(torn, files, p),
    ensures
        same_at(torn, files, path),
        ({
            let aside = written(files, temporary(path), data);
            let after = renamed(aside, temporary(path), path);
            &&& same_at(aside, files, path)
            &&& after.contains_key(path) && after[path] == data
            &&& !after.contains_key(temporary(path))
            &&& forall|p: Seq<char>|
                p != path && p != temporary(path) ==> #[trigger] same_at(after, files, p)
        }),
{
    reveal_strlit(".tmp");
    assert(temporary(path).len() == path.len() + 4);
}

/// The documents never get in each other's way, nor do the files written aside.
pub proof fn law_documents_apart()
    ensures
        USERS_FILE@ != LOG_FILE@,
        temporary(USERS_FILE@) != temporary(LOG_FILE@),
        temporary(USERS_FILE@) != LOG_FILE@,
        temporary(LOG_FILE@) != USERS_FILE@,
{
    reveal_strlit("users.json");
    reveal_strlit("download_log.json");
    reveal_strlit(".tmp");
    assert(temporary(USERS_FILE@).len() == 14);
    assert(temporary(LOG_FILE@).len() == 21);
}

/// Where the documents lie, and that a file is written aside under its own path
/// with an ending, so that no two files are written aside to one place.
pub proof fn law_places(a: Seq<char>, b: Seq<char>)
    ensures
        Document::Users.spec_path() == "users.json"@,
        Document::Logs.spec_path() == "download_log.json"@,
        temporary(a) == a + ".tmp"@,
        temporary(a) == temporary(b) ==> a == b,
{
    reveal_strlit(".tmp");
    if temporary(a) == temporary(b) {
        assert(temporary(a).take(temporary(a).len() - 4) == a);
        assert(temporary(b).take(temporary(b).len() - 4) == b);
    }
}

} // verus!
