//! The persistence gateway: classifies document contents into a project, the
//! empty-store signal, or a failure, and derives the on-disk document path.
//!
//! Reading and writing the file itself is the embedding application's part;
//! the gateway works on the document contents it was handed.

use crate::codec::sp_parse_document;
use crate::project::Project;
use crate::text::chars_of;
use vstd::prelude::*;

verus! {

/// How opening a store can fail.
#[derive(Clone, Copy, Debug, PartialEq, Eq, Structural)]
pub enum Error {
    /// The document exists but has zero bytes: the empty-store signal, not a
    /// parse failure.  `open_or_create` consumes it to fall back to a fresh
    /// project.
    FileIsZero,
    /// No document exists at the derived path.
    NotFound,
    /// The document exists but does not hold a well-formed project.
    Deserialize,
}

impl Error {
    /// Whether this is the empty-store signal.
    pub fn is_file_is_zero(&self) -> (r: bool)
        ensures
            r == (*self is FileIsZero),
    {
        match self {
            Error::FileIsZero => true,
            _ => false,
        }
    }

    /// Whether this says that no document exists.
    pub fn is_not_found(&self) -> (r: bool)
        ensures
            r == (*self is NotFound),
    {
        match self {
            Error::NotFound => true,
            _ => false,
        }
    }

    /// A sentence describing the failure, for the embedding application to
    /// show.
    pub fn describe(&self) -> (r: String)
        ensures
            r@ == match *self {
                Error::FileIsZero => "file is zero"@,
                Error::NotFound => "no store document was found"@,
                Error::Deserialize => "the store document is malformed"@,
            },
    {
        match self {
            Error::FileIsZero => "file is zero".to_owned(),
            Error::NotFound => "no store document was found".to_owned(),
            Error::Deserialize => "the store document is malformed".to_owned(),
        }
    }
}

/// The document path for a project rooted at `dir`: a fixed hidden
/// subdirectory holding a single data file.
pub fn db_path(dir: &str) -> (r: String)
    ensures
        r@ == dir@ + "/.code_pulse/db.json"@,
{
    let mut s = dir.to_owned();
    s.append("/.code_pulse/db.json");
    s
}

/// Whether a project value is structurally sound: ids positive, no larger
/// than the counter, and strictly increasing.  Everything the library hands
/// out satisfies this; a caller that edits the fields by hand can re-check.
pub fn check_wf(p: &Project) -> (r: bool)
    ensures
        r == p@.wf(),
{
    let mut i: usize = 0;
    while i < p.issues.len()
        invariant
            i <= p@.issues.len(),
            forall|a: int|
                0 <= a < i ==> 1 <= (#[trigger] p@.issues[a]).0 <= p@.current_id,
            forall|a: int, b: int|
                0 <= a < b < i ==> (#[trigger] p@.issues[a]).0 < (#[trigger] p@.issues[b]).0,
        decreases p@.issues.len() - i,
    {
        let id = p.issues[i].0;
        proof {
            assert(p@.issues[i as int].0 == id);
        }
        if id < 1 || id > p.current_id {
            return false;
        }
        if i > 0 {
            let prev = p.issues[i - 1].0;
            proof {
                assert(p@.issues[i - 1].0 == prev);
            }
            if prev >= id {
                return false;
            }
        }
        proof {
            assert forall|a: int, b: int| 0 <= a < b < i + 1 implies (#[trigger] p@.issues[a]).0 < (
            #[trigger] p@.issues[b]).0 by {
                if b == i && a < i - 1 {
                    assert(p@.issues[a].0 < p@.issues[i - 1].0);
                }
            }
        }
        i += 1;
    }
    true
}

/// Builds a fresh project value in memory only; nothing touches the disk
/// until the document from a save is written out.
pub fn create_new(name: &str, path: &str) -> (r: Project)
    ensures
        r@ == Project::fresh(name@, path@, r@.created_at),
        r@.wf(),
{
    Project::new(name, path)
}

/// Opens a store from the document contents the caller read: `None` for a
/// missing document.  The three outcomes of the protocol: a project, the
/// empty-store signal for a zero-byte document, and a failure for anything
/// that does not parse back to a sound project.
pub fn load(doc: Option<&str>) -> (r: Result<Project, Error>)
    ensures
        match doc {
            None => r == Err::<Project, Error>(Error::NotFound),
            Some(d) => {
                if d@.len() == 0 {
                    r == Err::<Project, Error>(Error::FileIsZero)
                } else {
                    match sp_parse_document(d@) {
                        Some(pv) => if pv.wf() {
                            match r {
                                Ok(p) => p@ == pv,
                                Err(_) => false,
                            }
                        } else {
                            r == Err::<Project, Error>(Error::Deserialize)
                        },
                        None => r == Err::<Project, Error>(Error::Deserialize),
                    }
                }
            },
        },
        (r matches Ok(p) ==> p@.wf()),
{
    let d = match doc {
        None => {
            return Err(Error::NotFound);
        },
        Some(d) => d,
    };
    if d.is_empty() {
        return Err(Error::FileIsZero);
    }
    let chars = chars_of(d);
    match crate::codec::parse_document(&chars) {
        Some(p) => {
            if check_wf(&p) {
                Ok(p)
            } else {
                Err(Error::Deserialize)
            }
        },
        None => Err(Error::Deserialize),
    }
}

/// Opens a store from the document contents, or falls back to a fresh
/// project named `name` at `path` when the document is missing or empty.
/// Any other failure propagates unchanged.
pub fn open_or_create(doc: Option<&str>, name: &str, path: &str) -> (r: Result<Project, Error>)
    ensures
        match doc {
            None => (match r {
                Ok(p) => p@ == Project::fresh(name@, path@, p@.created_at),
                Err(_) => false,
            }),
            Some(d) => {
                if d@.len() == 0 {
                    match r {
                        Ok(p) => p@ == Project::fresh(name@, path@, p@.created_at),
                        Err(_) => false,
                    }
                } else {
                    match sp_parse_document(d@) {
                        Some(pv) => if pv.wf() {
                            match r {
                                Ok(p) => p@ == pv,
                                Err(_) => false,
                            }
                        } else {
                            r == Err::<Project, Error>(Error::Deserialize)
                        },
                        None => r == Err::<Project, Error>(Error::Deserialize),
                    }
                }
            },
        },
        (r matches Ok(p) ==> p@.wf()),
{
    match load(doc) {
        Ok(p) => Ok(p),
        Err(e) => {
            if e.is_file_is_zero() || e.is_not_found() {
                Ok(Project::new(name, path))
            } else {
                Err(e)
            }
        },
    }
}

} // verus!
