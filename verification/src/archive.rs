//! A zip archive held in memory, read as a small file system: its entry
//! names in directory order, and the bytes stored under a name.
use crate::text::{ends_with, has_suffix, optional_view, views};
use std::io::{Cursor, Read};
use vstd::prelude::*;
use zip::result::ZipError;
use zip::ZipArchive;

verus! {

/// `zip::ZipArchive`, carried through as it is.
#[verifier::external_type_specification]
#[verifier::external_body]
#[verifier::reject_recursive_types(R)]
pub struct ExZipArchive<R>(ZipArchive<R>);

/// `std::io::Cursor`, the reader that the archive is opened over.
#[verifier::external_type_specification]
#[verifier::external_body]
#[verifier::reject_recursive_types(T)]
pub struct ExCursor<T>(Cursor<T>);

/// What an archive holds under a name.
pub enum Entry {
    /// The directory has no entry of that name.
    Absent,
    /// There is an entry, but its data cannot be read back: unsupported or
    /// damaged compression, a failed checksum.
    Unreadable,
    /// The entry's bytes, decompressed.
    Content(Seq<u8>),
}

/// Why an archive operation failed.
#[derive(Clone, Copy, Debug, PartialEq, Eq, Structural)]
pub enum ArchiveError {
    /// The buffer is no valid archive, or an entry's data cannot be read.
    Corrupt,
    /// The archive has no entry of the name asked for.
    NotFound,
}

/// The directory that `zip::ZipArchive::new` reads from a buffer on a
/// machine whose addresses are `word_bits` wide: for each entry, in
/// directory order, its name where the name can be decoded. `None` where
/// the buffer is refused; the reader bounds the size of a directory by the
/// width of an address.
pub uninterp spec fn zip_directory(bytes: Seq<u8>, word_bits: nat) -> Option<
    Seq<Option<Seq<char>>>,
>;

/// The directory of a buffer on the machine that runs the code.
pub open spec fn directory_of(bytes: Seq<u8>) -> Option<Seq<Option<Seq<char>>>> {
    zip_directory(bytes, usize::BITS as nat)
}

/// What `zip::ZipArchive::by_name`, read to its end, yields for a name in the
/// archive made from a buffer.
pub uninterp spec fn zip_entry(bytes: Seq<u8>, name: Seq<char>) -> Entry;

/// The buffer that an opened archive was made from.
pub uninterp spec fn archive_source(archive: ZipArchive<Cursor<&[u8]>>) -> Seq<u8>;

/// The names of a directory listing, in order.
pub open spec fn optional_views(names: Seq<Option<String>>) -> Seq<Option<Seq<char>>> {
    names.map_values(|n: Option<String>| optional_view(n))
}

/// The decodable names of a directory, in directory order.
pub open spec fn decoded_names(directory: Seq<Option<Seq<char>>>) -> Seq<Seq<char>>
    decreases directory.len(),
{
    if directory.len() == 0 {
        seq![]
    } else {
        let before = decoded_names(directory.drop_last());
        match directory.last() {
            Some(name) => before.push(name),
            None => before,
        }
    }
}

/// Those of `names` that end with `suffix`, in the same order.
pub open spec fn names_with_suffix(names: Seq<Seq<char>>, suffix: Seq<char>) -> Seq<Seq<char>>
    decreases names.len(),
{
    if names.len() == 0 {
        seq![]
    } else {
        let before = names_with_suffix(names.drop_last(), suffix);
        if has_suffix(names.last(), suffix) {
            before.push(names.last())
        } else {
            before
        }
    }
}

/// The entry names of the archive held in `bytes`, or `None` where `bytes`
/// is no archive.
pub open spec fn archive_names(bytes: Seq<u8>) -> Option<Seq<Seq<char>>> {
    match directory_of(bytes) {
        Some(directory) => Some(decoded_names(directory)),
        None => None,
    }
}

/// What opening an entry comes to, as a result.
pub open spec fn read_outcome(entry: Entry) -> Result<Seq<u8>, ArchiveError> {
    match entry {
        Entry::Absent => Err(ArchiveError::NotFound),
        Entry::Unreadable => Err(ArchiveError::Corrupt),
        Entry::Content(bytes) => Ok(bytes),
    }
}

/// The bytes of an opened entry, if it could be read.
pub open spec fn bytes_view(read: Result<Vec<u8>, ArchiveError>) -> Result<Seq<u8>, ArchiveError> {
    match read {
        Ok(bytes) => Ok(bytes@),
        Err(e) => Err(e),
    }
}

/// An opened archive over a borrowed buffer.
pub struct Archive<'a> {
    inner: ZipArchive<Cursor<&'a [u8]>>,
}

impl<'a> Archive<'a> {
    /// The buffer that the archive was opened over.
    pub closed spec fn source(&self) -> Seq<u8> {
        archive_source(self.inner)
    }

    /// Opens the archive held in `buffer`.
    pub fn new(buffer: &'a [u8]) -> (r: Result<Archive<'a>, ArchiveError>)
        ensures
            match r {
                Ok(archive) => archive.source() == buffer@ && directory_of(buffer@) is Some,
                Err(e) => e == ArchiveError::Corrupt && directory_of(buffer@) is None,
            },
    {
        match open_zip(buffer) {
            Some(inner) => Ok(Archive { inner }),
            None => Err(ArchiveError::Corrupt),
        }
    }

    /// The names of the entries, in directory order.
    pub fn list_names(&self) -> (r: Vec<String>)
        ensures
            Some(views(r@)) == archive_names(self.source()),
    {
        let listing = zip_file_names(&self.inner);
        let mut names: Vec<String> = Vec::new();
        let mut i: usize = 0;
        while i < listing.len()
            invariant
                i <= listing.len(),
                views(names@) == decoded_names(optional_views(listing@).take(i as int)),
            decreases listing.len() - i,
        {
            proof {
                let directory = optional_views(listing@);
                assert(directory.take(i + 1).drop_last() == directory.take(i as int));
            }
            match &listing[i] {
                Some(name) => {
                    names.push(name.clone());
                },
                None => {},
            }
            i += 1;
        }
        proof {
            let directory = optional_views(listing@);
            assert(directory.take(listing.len() as int) == directory);
        }
        names
    }

    /// The names of the entries that end with `suffix`, in directory order.
    pub fn filter_by_suffix(&self, suffix: &str) -> (r: Vec<String>)
        ensures
            archive_names(self.source()) matches Some(names) && views(r@) == names_with_suffix(
                names,
                suffix@,
            ),
    {
        let all = self.list_names();
        let mut matching: Vec<String> = Vec::new();
        let mut i: usize = 0;
        while i < all.len()
            invariant
                i <= all.len(),
                views(matching@) == names_with_suffix(views(all@).take(i as int), suffix@),
            decreases all.len() - i,
        {
            proof {
                let names = views(all@);
                assert(names.take(i + 1).drop_last() == names.take(i as int));
            }
            if ends_with(all[i].as_str(), suffix) {
                matching.push(all[i].clone());
            }
            i += 1;
        }
        proof {
            let names = views(all@);
            assert(names.take(all.len() as int) == names);
        }
        matching
    }

    /// Opens the entry stored under `name` and reads it to its end. Entries
    /// can be opened in any order and any number of times.
    pub fn open(&mut self, name: &str) -> (r: Result<Vec<u8>, ArchiveError>)
        ensures
            final(self).source() == old(self).source(),
            bytes_view(r) == read_outcome(zip_entry(old(self).source(), name@)),
    {
        read_zip_entry(&mut self.inner, name)
    }
}

/// Calls `zip::ZipArchive::new` on a cursor over the buffer. The archive
/// opens exactly where the buffer has a directory, and remembers the buffer.
#[verifier::external_body]
fn open_zip<'a>(buffer: &'a [u8]) -> (r: Option<ZipArchive<Cursor<&'a [u8]>>>)
    ensures
        r is Some <==> zip_directory(buffer@, usize::BITS as nat) is Some,
        r matches Some(archive) ==> archive_source(archive) == buffer@,
{
    ZipArchive::new(Cursor::new(buffer)).ok()
}

/// Calls `zip::ZipArchive::file_names`, which walks the directory in its
/// stored order and decodes each name; a name that does not decode is `None`.
#[verifier::external_body]
fn zip_file_names(archive: &ZipArchive<Cursor<&[u8]>>) -> (r: Vec<Option<String>>)
    ensures
        zip_directory(archive_source(*archive), usize::BITS as nat) == Some(optional_views(r@)),
{
    archive.file_names().map(|name| name.ok().map(|n| n.into_owned())).collect()
}

/// Calls `zip::ZipArchive::by_name` and reads the entry to its end. A name
/// missing from the directory is the crate's `ZipError::FileNotFound` and
/// comes back as `NotFound`; every other failure of the lookup or of the read
/// comes back as `Corrupt`. The archive still stands for the same buffer.
#[verifier::external_body]
fn read_zip_entry(archive: &mut ZipArchive<Cursor<&[u8]>>, name: &str) -> (r: Result<
    Vec<u8>,
    ArchiveError,
>)
    ensures
        archive_source(*final(archive)) == archive_source(*old(archive)),
        bytes_view(r) == read_outcome(zip_entry(archive_source(*old(archive)), name@)),
{
    let mut file = match archive.by_name(name) {
        Ok(file) => file,
        Err(ZipError::FileNotFound) => return Err(ArchiveError::NotFound),
        Err(_) => return Err(ArchiveError::Corrupt),
    };
    let mut bytes = Vec::new();
    match file.read_to_end(&mut bytes) {
        Ok(_) => Ok(bytes),
        Err(_) => Err(ArchiveError::Corrupt),
    }
}

} // verus!
