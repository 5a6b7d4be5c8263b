//! Unpacking a downloaded zip archive, one entry at a time: which
//! directory to create, or which file to write and with what content.

use std::io::{Cursor, Read};
use vstd::prelude::*;
use zip::ZipArchive;
use crate::text::chars_of;

verus! {

#[verifier::external_type_specification]
#[verifier::external_body]
#[verifier::reject_recursive_types(T)]
pub struct ExCursor<T>(Cursor<T>);

#[verifier::external_type_specification]
#[verifier::external_body]
#[verifier::reject_recursive_types(R)]
pub struct ExZipArchive<R>(ZipArchive<R>);

/// The bytes that an archive of the `zip` crate reads its entries from.
pub uninterp spec fn zip_bytes(archive: ZipArchive<Cursor<Vec<u8>>>) -> Seq<u8>;

/// `zip::ZipArchive::new` reads the central directory of these bytes.
pub uninterp spec fn zip_opens(data: Seq<u8>) -> bool;

/// The number of entries that `ZipArchive::len` gives for an archive
/// opened on these bytes.
pub uninterp spec fn zip_entry_count(data: Seq<u8>) -> nat;

/// The name of entry `i` of the archive in these bytes, as
/// `ZipArchive::by_index_decrypt` then `ZipFile::name` give it; `None` when
/// the entry cannot be opened.
pub uninterp spec fn zip_entry_name_of(data: Seq<u8>, i: nat) -> Option<Seq<char>>;

/// The uncompressed content of entry `i` of the archive in these bytes, as
/// `ZipArchive::by_index_decrypt` then reading the entry to its end give it;
/// `None` when the entry cannot be opened or read.
pub uninterp spec fn zip_entry_content_of(data: Seq<u8>, i: nat) -> Option<Seq<u8>>;

/// `ZipArchive::new` on the bytes: the archive, or the message of the `zip`
/// crate's error (the message is not stated).
#[verifier::external_body]
fn zip_open(data: Vec<u8>) -> (r: Result<ZipArchive<Cursor<Vec<u8>>>, String>)
    ensures
        r is Ok <==> zip_opens(data@),
        r matches Ok(a) ==> zip_bytes(a) == data@,
{
    ZipArchive::new(Cursor::new(data)).map_err(|e| e.to_string())
}

/// `ZipArchive::len`: the number of entries.
#[verifier::external_body]
fn zip_len(archive: &ZipArchive<Cursor<Vec<u8>>>) -> (n: usize)
    ensures
        n == zip_entry_count(zip_bytes(*archive)),
{
    archive.len()
}

/// `ZipArchive::by_index_decrypt` with an empty password, then
/// `ZipFile::name`. On an entry that is not encrypted the password is
/// dropped and this is what `by_index` does, except that an entry which
/// `by_index` would unwrap into a panic gives an error here. An encrypted
/// entry is opened with the empty password instead of being refused. Error
/// messages are those of the `zip` crate and are not stated.
#[verifier::external_body]
fn zip_entry_name(archive: &mut ZipArchive<Cursor<Vec<u8>>>, i: usize) -> (r: Result<String, String>)
    ensures
        zip_bytes(*final(archive)) == zip_bytes(*old(archive)),
        r is Ok <==> zip_entry_name_of(zip_bytes(*old(archive)), i as nat) is Some,
        r matches Ok(name) ==> name@ == zip_entry_name_of(zip_bytes(*old(archive)), i as nat)->0,
{
    match archive.by_index_decrypt(i, &[]) {
        Ok(Ok(entry)) => Ok(entry.name().to_string()),
        Ok(Err(e)) => Err(e.to_string()),
        Err(e) => Err(e.to_string()),
    }
}

/// `ZipArchive::by_index_decrypt` with an empty password, as for
/// `zip_entry_name`, then `Read::read_to_end` on the entry: its whole
/// uncompressed content. Error messages are not stated.
#[verifier::external_body]
fn zip_entry_content(archive: &mut ZipArchive<Cursor<Vec<u8>>>, i: usize) -> (r: Result<Vec<u8>, String>)
    ensures
        zip_bytes(*final(archive)) == zip_bytes(*old(archive)),
        r is Ok <==> zip_entry_content_of(zip_bytes(*old(archive)), i as nat) is Some,
        r matches Ok(content) ==> content@ == zip_entry_content_of(zip_bytes(*old(archive)), i as nat)->0,
{
    match archive.by_index_decrypt(i, &[]) {
        Ok(Ok(mut entry)) => {
            let mut content = Vec::new();
            entry.read_to_end(&mut content).map(|_| content).map_err(|e| e.to_string())
        },
        Ok(Err(e)) => Err(e.to_string()),
        Err(e) => Err(e.to_string()),
    }
}

/// An entry of a zip archive whose name ends with `/` is a directory.
pub open spec fn is_directory_entry_spec(name: Seq<char>) -> bool {
    name.len() > 0 && name.last() == '/'
}

/// Whether the zip entry called `name` is a directory, to be created,
/// rather than a file, to be written.
pub fn is_directory_entry(name: &str) -> (dir: bool)
    ensures
        dir == is_directory_entry_spec(name@),
{
    let chars = chars_of(name);
    chars.len() > 0 && chars[chars.len() - 1] == '/'
}

/// Where the entry called `name` goes under the directory `parent`, as a
/// Unix `PathBuf::push` joins them: an absolute name stands for itself;
/// otherwise a `/` separates the two unless `parent` is empty or ends with one.
pub open spec fn entry_path(parent: Seq<char>, name: Seq<char>) -> Seq<char> {
    if name.len() > 0 && name[0] == '/' {
        name
    } else if parent.len() > 0 && parent.last() != '/' {
        parent + "/"@ + name
    } else {
        parent + name
    }
}

/// One entry to unpack: a directory to create at `path`, or a file to
/// write at `path` with `content` (empty for a directory).
pub struct UnzipStep {
    pub path: String,
    pub is_dir: bool,
    pub content: Vec<u8>,
}

/// Where the entry called `name` goes under `parent`.
pub fn join_entry_path(parent: &str, name: &str) -> (path: String)
    ensures
        path@ == entry_path(parent@, name@),
{
    let pc = chars_of(parent);
    let nc = chars_of(name);
    proof {
        reveal_strlit("/");
    }
    if nc.len() > 0 && nc[0] == '/' {
        String::from_str(name)
    } else if pc.len() > 0 && pc[pc.len() - 1] != '/' {
        let mut path = String::from_str(parent);
        path.append("/");
        path.append(name);
        path
    } else {
        let mut path = String::from_str(parent);
        path.append(name);
        path
    }
}

/// What unpacking entry `i` of the archive in `data` into `parent` does:
/// `None` when the entry cannot be opened, or, for a file, read; otherwise
/// the path, whether it is a directory, and the content to write (a
/// directory's content is not read).
pub open spec fn unzip_step_of(parent: Seq<char>, data: Seq<u8>, i: nat) -> Option<(Seq<char>, bool, Seq<u8>)> {
    match zip_entry_name_of(data, i) {
        None => None,
        Some(name) => if is_directory_entry_spec(name) {
            Some((entry_path(parent, name), true, Seq::<u8>::empty()))
        } else {
            match zip_entry_content_of(data, i) {
                None => None,
                Some(content) => Some((entry_path(parent, name), false, content)),
            }
        },
    }
}

/// Unpacking an entry succeeds when its name can be read and, unless the
/// name ends with `/`, its content too. An entry is a directory exactly when
/// its name ends with `/`, whatever its content; a directory's content is
/// empty and a file's is the entry's content; the path joins `parent` and
/// the name as a Unix `PathBuf::push` does.
pub proof fn lemma_unzip_step_meaning(parent: Seq<char>, data: Seq<u8>, i: nat)
    ensures
        unzip_step_of(parent, data, i) is Some <==> (zip_entry_name_of(data, i) matches Some(name)
            && ((name.len() > 0 && name[name.len() - 1] == '/') || zip_entry_content_of(data, i) is Some)),
        unzip_step_of(parent, data, i) matches Some(step) ==> {
            let name = zip_entry_name_of(data, i)->0;
            &&& step.1 == (name.len() > 0 && name[name.len() - 1] == '/')
            &&& step.1 ==> step.2.len() == 0
            &&& !step.1 ==> zip_entry_content_of(data, i) == Some(step.2)
            &&& step.0 == if name.len() > 0 && name[0] == '/' {
                name
            } else if parent.len() > 0 && parent[parent.len() - 1] != '/' {
                parent + seq!['/'] + name
            } else {
                parent + name
            }
        },
{
    reveal_strlit("/");
    assert("/"@ =~= seq!['/']);
}

/// An archive being unpacked into a directory.
pub struct Unzipper {
    archive: ZipArchive<Cursor<Vec<u8>>>,
    parent: String,
}

impl Unzipper {
    /// The bytes of the archive.
    pub closed spec fn data(self) -> Seq<u8> {
        zip_bytes(self.archive)
    }

    /// The directory the archive is unpacked into.
    pub closed spec fn parent(self) -> Seq<char> {
        self.parent@
    }

    /// Opens the archive whose bytes are `data` for unpacking into `parent`,
    /// or gives the error of an archive that cannot be read.
    pub fn open(parent: &str, data: Vec<u8>) -> (r: Result<Unzipper, String>)
        ensures
            r is Ok <==> zip_opens(data@),
            r matches Ok(u) ==> u.data() == data@ && u.parent() == parent@,
    {
        match zip_open(data) {
            Ok(archive) => Ok(Unzipper { archive, parent: String::from_str(parent) }),
            Err(e) => Err(e),
        }
    }

    /// The number of entries of the archive.
    pub fn len(&self) -> (n: usize)
        ensures
            n == zip_entry_count(self.data()),
    {
        zip_len(&self.archive)
    }

    /// What unpacking entry `i` does, or the error of an entry that cannot
    /// be opened or read. A directory entry's content is not read.
    pub fn step(&mut self, i: usize) -> (r: Result<UnzipStep, String>)
        ensures
            final(self).data() == old(self).data(),
            final(self).parent() == old(self).parent(),
            r is Ok <==> unzip_step_of(old(self).parent(), old(self).data(), i as nat) is Some,
            r matches Ok(step) ==> {
                let expected = unzip_step_of(old(self).parent(), old(self).data(), i as nat)->0;
                &&& step.path@ == expected.0
                &&& step.is_dir == expected.1
                &&& step.content@ == expected.2
            },
    {
        let name = match zip_entry_name(&mut self.archive, i) {
            Ok(name) => name,
            Err(e) => return Err(e),
        };
        let path = join_entry_path(self.parent.as_str(), name.as_str());
        if is_directory_entry(name.as_str()) {
            Ok(UnzipStep { path, is_dir: true, content: Vec::new() })
        } else {
            match zip_entry_content(&mut self.archive, i) {
                Ok(content) => Ok(UnzipStep { path, is_dir: false, content }),
                Err(e) => Err(e),
            }
        }
    }
}

} // verus!
