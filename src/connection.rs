use vstd::prelude::*;

verus! {

/// Open the store for reading and writing.
pub const SQLITE_OPEN_READ_WRITE: i32 = 0x2;

/// Create the store's file where it does not exist.
pub const SQLITE_OPEN_CREATE: i32 = 0x4;

/// Serialise every use of a connection.
pub const SQLITE_OPEN_FULL_MUTEX: i32 = 0x10000;

/// Share one cache among the connections to the same file.
pub const SQLITE_OPEN_SHARED_CACHE: i32 = 0x20000;

/// How to open connections to the embedded store: the path of its file and,
/// where given, the open flags.
pub struct SqliteConnectionManager {
    path: String,
    flags: Option<i32>,
}

impl View for SqliteConnectionManager {
    type V = (Seq<char>, Option<i32>);

    closed spec fn view(&self) -> (Seq<char>, Option<i32>) {
        (self.path@, self.flags)
    }
}

impl SqliteConnectionManager {
    /// Connections to the file at `path`, opened with `flags`.
    pub fn new_with_flags(path: &str, flags: i32) -> (r: SqliteConnectionManager)
        ensures
            r@ == (path@, Some(flags)),
    {
        SqliteConnectionManager { path: path.to_owned(), flags: Some(flags) }
    }

    /// Connections to the file at `path`, opened with the store's default
    /// flags.
    pub fn new(path: &str) -> (r: SqliteConnectionManager)
        ensures
            r@ == (path@, None::<i32>),
    {
        SqliteConnectionManager { path: path.to_owned(), flags: None }
    }

    /// The path of the store's file.
    pub fn path(&self) -> (r: &str)
        ensures
            r@ == self@.0,
    {
        self.path.as_str()
    }

    /// The open flags, where they were given.
    pub fn flags(&self) -> (r: Option<i32>)
        ensures
            r == self@.1,
    {
        self.flags
    }
}

} // verus!
