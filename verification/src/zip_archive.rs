//! Listing the entries of a ZIP archive held in memory, through the `zip` crate.
use vstd::prelude::*;

use std::io::{Cursor, Read};
use zip::result::ZipError;
use zip::ZipArchive;

use crate::plugin_marketplace::ZipEntryInfo;

verus! {

#[verifier::external_type_specification]
#[verifier::external_body]
#[verifier::reject_recursive_types(T)]
pub struct ExCursor<T>(std::io::Cursor<T>);

#[verifier::external_type_specification]
#[verifier::external_body]
#[verifier::reject_recursive_types(R)]
pub struct ExZipArchive<R>(zip::ZipArchive<R>);

#[verifier::external_type_specification]
#[verifier::external_body]
pub struct ExZipError(zip::result::ZipError);

/// The entries that `zip::ZipArchive::new` finds in the central directory of
/// `bytes`, in order: each the entry's name and whether it is a directory, or
/// `None` where the entry cannot be opened or its name cannot be read. `None`
/// where `bytes` hold no ZIP archive that the crate can read.
pub uninterp spec fn zip_archive_of(bytes: Seq<u8>) -> Option<Seq<Option<(Seq<char>, bool)>>>;

/// The entries an opened archive holds, as `zip_archive_of` lists them.
pub uninterp spec fn zip_archive_entries(archive: ZipArchive<Cursor<Vec<u8>>>) -> Seq<
    Option<(Seq<char>, bool)>,
>;

/// The contents that reading each entry of the archive in `bytes` gives, in
/// order (`ZipArchive::by_index`, then `Read::read_to_end`), `None` where the
/// entry cannot be opened or read.
pub uninterp spec fn zip_contents_of(bytes: Seq<u8>) -> Seq<Option<Seq<u8>>>;

/// The contents an opened archive gives for its entries, as `zip_contents_of`
/// lists them.
pub uninterp spec fn zip_archive_data(archive: ZipArchive<Cursor<Vec<u8>>>) -> Seq<Option<Seq<u8>>>;

/// `ZipArchive::new` on a copy of `bytes`: an archive exactly where the bytes
/// hold one, listing the entries and contents that `zip_archive_of` and
/// `zip_contents_of` name, one of each per entry.
#[verifier::external_body]
fn open_zip_archive(bytes: &[u8]) -> (res: Result<ZipArchive<Cursor<Vec<u8>>>, ZipError>)
    ensures
        res is Ok <==> zip_archive_of(bytes@) is Some,
        res matches Ok(a) ==> zip_archive_of(bytes@) == Some(zip_archive_entries(a)),
        res matches Ok(a) ==> zip_archive_data(a) == zip_contents_of(bytes@),
        res matches Ok(a) ==> zip_archive_data(a).len() == zip_archive_entries(a).len(),
{
    ZipArchive::new(Cursor::new(bytes.to_vec()))
}

/// `ZipArchive::len`: the number of entries (each listed once by name and once
/// by contents).
#[verifier::external_body]
fn zip_archive_len(archive: &ZipArchive<Cursor<Vec<u8>>>) -> (n: usize)
    ensures
        n == zip_archive_entries(*archive).len(),
        n == zip_archive_data(*archive).len(),
{
    archive.len()
}

/// `ZipArchive::by_index`, then `ZipFile::name` and `ZipFile::is_dir`: the
/// entry at `index`, or an error exactly where it cannot be opened or its
/// name cannot be read. The entries the archive lists do not change.
#[verifier::external_body]
fn zip_archive_entry(archive: &mut ZipArchive<Cursor<Vec<u8>>>, index: usize) -> (res: Result<
    ZipEntryInfo,
    ZipError,
>)
    requires
        index < zip_archive_entries(*old(archive)).len(),
    ensures
        zip_archive_entries(*final(archive)) == zip_archive_entries(*old(archive)),
        zip_archive_data(*final(archive)) == zip_archive_data(*old(archive)),
        res is Ok <==> zip_archive_entries(*old(archive))[index as int] is Some,
        res matches Ok(e) ==> zip_archive_entries(*old(archive))[index as int] == Some(
            (e.name@, e.is_dir),
        ),
{
    let file = archive.by_index(index)?;
    let name = file.name()?.into_owned();
    Ok(ZipEntryInfo { name, is_dir: file.is_dir() })
}

/// `ZipArchive::by_index`, then `Read::read_to_end`: the contents of the
/// entry at `index`, or an error exactly where it cannot be opened or read.
/// What the archive lists does not change.
#[verifier::external_body]
fn zip_archive_entry_data(archive: &mut ZipArchive<Cursor<Vec<u8>>>, index: usize) -> (res: Result<
    Vec<u8>,
    ZipError,
>)
    requires
        index < zip_archive_data(*old(archive)).len(),
    ensures
        zip_archive_entries(*final(archive)) == zip_archive_entries(*old(archive)),
        zip_archive_data(*final(archive)) == zip_archive_data(*old(archive)),
        res is Ok <==> zip_archive_data(*old(archive))[index as int] is Some,
        res matches Ok(v) ==> zip_archive_data(*old(archive))[index as int] == Some(v@),
{
    let mut file = archive.by_index(index)?;
    let mut contents = Vec::new();
    file.read_to_end(&mut contents)?;
    Ok(contents)
}

/// Why the entries of an archive could not be listed or read.
#[derive(Clone, Copy, Debug, PartialEq, Eq)]
pub enum ZipReadError {
    /// The bytes hold no readable ZIP archive.
    Unreadable,
    /// The entry at this index does not exist, cannot be opened, or its name
    /// or contents cannot be read.
    Entry(usize),
}

/// Each listed entry as a name and a directory flag.
pub open spec fn entry_views(v: Seq<ZipEntryInfo>) -> Seq<Option<(Seq<char>, bool)>> {
    v.map_values(|e: ZipEntryInfo| Some((e.name@, e.is_dir)))
}

/// Every entry could be read.
pub open spec fn all_entries_read(es: Seq<Option<(Seq<char>, bool)>>) -> bool {
    forall|i: int| 0 <= i < es.len() ==> #[trigger] es[i] is Some
}

/// Entry `k` is the first that could not be read.
pub open spec fn first_unread_entry(es: Seq<Option<(Seq<char>, bool)>>, k: int) -> bool {
    &&& 0 <= k < es.len()
    &&& es[k] is None
    &&& forall|i: int| 0 <= i < k ==> #[trigger] es[i] is Some
}

/// The entries of the archive that `bytes` hold, in order: an error where
/// the bytes hold no archive, or at the first entry that cannot be read.
pub fn zip_entry_list(bytes: &[u8]) -> (res: Result<Vec<ZipEntryInfo>, ZipReadError>)
    ensures
        res matches Err(ZipReadError::Unreadable) <==> zip_archive_of(bytes@) is None,
        res is Ok <==> (zip_archive_of(bytes@) matches Some(es) && all_entries_read(es)),
        res matches Ok(v) ==> zip_archive_of(bytes@) == Some(entry_views(v@)),
        res matches Err(ZipReadError::Entry(k)) ==> (zip_archive_of(bytes@) matches Some(es)
            && first_unread_entry(es, k as int)),
{
    let mut archive = match open_zip_archive(bytes) {
        Ok(a) => a,
        Err(_) => {
            return Err(ZipReadError::Unreadable);
        },
    };
    let ghost es = zip_archive_entries(archive);
    let n = zip_archive_len(&archive);
    let mut entries: Vec<ZipEntryInfo> = Vec::new();
    let mut i: usize = 0;
    while i < n
        invariant
            zip_archive_of(bytes@) == Some(es),
            zip_archive_entries(archive) == es,
            n == es.len(),
            i <= n,
            entry_views(entries@) == es.take(i as int),
        decreases n - i,
    {
        match zip_archive_entry(&mut archive, i) {
            Ok(e) => {
                let ghost prev = entries@;
                entries.push(e);
                assert(entry_views(entries@) =~= entry_views(prev).push(es[i as int]));
                assert(es.take(i + 1) =~= es.take(i as int).push(es[i as int]));
            },
            Err(_) => {
                assert forall|j: int| 0 <= j < i implies #[trigger] es[j] is Some by {
                    assert(es.take(i as int)[j] == entry_views(entries@)[j]);
                }
                return Err(ZipReadError::Entry(i));
            },
        }
        i = i + 1;
    }
    assert(es.take(n as int) =~= es);
    assert forall|j: int| 0 <= j < es.len() implies #[trigger] es[j] is Some by {
        assert(es[j] == entry_views(entries@)[j]);
    }
    Ok(entries)
}

/// Opens the archive that `bytes` hold, to read the contents of its entries:
/// an error exactly where the bytes hold no archive.
pub fn open_zip(bytes: &[u8]) -> (res: Result<ZipArchive<Cursor<Vec<u8>>>, ZipReadError>)
    ensures
        res is Ok <==> zip_archive_of(bytes@) is Some,
        res matches Err(e) ==> e == ZipReadError::Unreadable,
        res matches Ok(a) ==> zip_archive_of(bytes@) == Some(zip_archive_entries(a))
            && zip_archive_data(a) == zip_contents_of(bytes@),
{
    match open_zip_archive(bytes) {
        Ok(a) => Ok(a),
        Err(_) => Err(ZipReadError::Unreadable),
    }
}

/// The contents of entry `index` of an opened archive: an error exactly where
/// there is no such entry or it cannot be read. The archive still lists the
/// same entries and contents.
pub fn zip_entry_contents(archive: &mut ZipArchive<Cursor<Vec<u8>>>, index: usize) -> (res: Result<
    Vec<u8>,
    ZipReadError,
>)
    ensures
        zip_archive_entries(*final(archive)) == zip_archive_entries(*old(archive)),
        zip_archive_data(*final(archive)) == zip_archive_data(*old(archive)),
        res is Ok <==> (index < zip_archive_data(*old(archive)).len()
            && zip_archive_data(*old(archive))[index as int] is Some),
        res matches Ok(v) ==> zip_archive_data(*old(archive))[index as int] == Some(v@),
        res matches Err(e) ==> e == ZipReadError::Entry(index),
{
    if index >= zip_archive_len(archive) {
        return Err(ZipReadError::Entry(index));
    }
    match zip_archive_entry_data(archive, index) {
        Ok(v) => Ok(v),
        Err(_) => Err(ZipReadError::Entry(index)),
    }
}

} // verus!
