//! ZIP archives, as far as the generators look into them: which entries an
//! archive has, how large each is, and what is in one.
//!
//! The archive is read by the `zip` crate from bytes in memory. What this
//! module states of the crate's functions is trusted, not proved.

use vstd::prelude::*;

verus! {

#[verifier::external_type_specification]
#[verifier::external_body]
#[verifier::reject_recursive_types(R)]
pub struct ExZipArchive<R>(zip::ZipArchive<R>);

#[verifier::external_type_specification]
#[verifier::external_body]
#[verifier::reject_recursive_types(T)]
pub struct ExCursor<T>(std::io::Cursor<T>);

/// One entry of an archive's directory.
pub ghost struct EntryView {
    /// The entry's name.
    pub name: Seq<char>,
    /// The size of the entry's content when unpacked, as the directory says.
    pub size: u64,
    /// Whether the entry can be opened for reading without a password.
    pub opens: bool,
    /// The entry's content, where it can be opened and read to its end.
    pub content: Option<Seq<u8>>,
}

/// The directory of the archive that the `zip` crate reads from `data`, or
/// `None` where it reads none.
pub uninterp spec fn directory_of(data: Seq<u8>) -> Option<Seq<EntryView>>;

/// The directory of an open archive, in the order of its central directory.
pub uninterp spec fn entries_of(archive: zip::ZipArchive<std::io::Cursor<Vec<u8>>>) -> Seq<
    EntryView,
>;

/// The place of the last entry named `name`, if there is one.
pub open spec fn last_named(entries: Seq<EntryView>, name: Seq<char>) -> Option<int>
    decreases entries.len(),
{
    if entries.len() == 0 {
        None
    } else if entries.last().name == name {
        Some(entries.len() - 1)
    } else {
        last_named(entries.drop_last(), name)
    }
}

/// A directory gives no content for an entry that does not open.
pub open spec fn coherent(entries: Seq<EntryView>) -> bool {
    forall|i: int|
        0 <= i < entries.len() && !(#[trigger] entries[i]).opens ==> entries[i].content is None
}

/// Calls `ZipArchive::new` on a cursor over `data`. Trusted: that whether an
/// archive is read, and which directory it has, depends on the bytes alone;
/// and that only an entry that opens has content to read.
#[verifier::external_body]
pub(crate) fn open_archive(data: Vec<u8>) -> (opened: Option<
    zip::ZipArchive<std::io::Cursor<Vec<u8>>>,
>)
    ensures
        match opened {
            Some(archive) => directory_of(data@) == Some(entries_of(archive)) && coherent(
                entries_of(archive),
            ),
            None => directory_of(data@) is None,
        },
{
    zip::ZipArchive::new(std::io::Cursor::new(data)).ok()
}

/// Calls `ZipArchive::len`. Trusted: that it is the number of entries of the
/// directory.
#[verifier::external_body]
pub(crate) fn archive_len(archive: &zip::ZipArchive<std::io::Cursor<Vec<u8>>>) -> (n: usize)
    ensures
        n == entries_of(*archive).len(),
{
    archive.len()
}

/// Calls `ZipArchive::by_index_decrypt` with the empty password and then
/// `ZipFile::name` and `ZipFile::size`. Trusted: that the call gives a file
/// exactly for an entry of the directory that opens, that name and size are
/// those of the directory, and that the directory stays as it is.
#[verifier::external_body]
pub(crate) fn entry_info(
    archive: &mut zip::ZipArchive<std::io::Cursor<Vec<u8>>>,
    index: usize,
) -> (info: Option<(String, u64)>)
    ensures
        entries_of(*final(archive)) == entries_of(*old(archive)),
        info is Some <==> index < entries_of(*old(archive)).len() && entries_of(
            *old(archive),
        )[index as int].opens,
        info matches Some(pair) ==> pair.0@ == entries_of(*old(archive))[index as int].name
            && pair.1 == entries_of(*old(archive))[index as int].size,
{
    let file = archive.by_index_decrypt(index, b"").ok()?.ok()?;
    Some((file.name().to_string(), file.size()))
}

/// Calls `ZipArchive::by_index_decrypt` with the empty password and reads
/// the entry to its end. Trusted: that the result is the entry's content
/// where the entry opens and reads, nothing else, and that the directory
/// stays as it is.
#[verifier::external_body]
pub(crate) fn entry_bytes(
    archive: &mut zip::ZipArchive<std::io::Cursor<Vec<u8>>>,
    index: usize,
) -> (bytes: Option<Vec<u8>>)
    ensures
        entries_of(*final(archive)) == entries_of(*old(archive)),
        index >= entries_of(*old(archive)).len() ==> bytes is None,
        index < entries_of(*old(archive)).len() ==> crate::model::bytes_view(bytes)
            == entries_of(*old(archive))[index as int].content,
{
    let mut file = archive.by_index_decrypt(index, b"").ok()?.ok()?;
    let mut data = Vec::new();
    std::io::Read::read_to_end(&mut file, &mut data).ok()?;
    Some(data)
}

/// Whether a lookup by `name` finds an entry that opens.
pub open spec fn opens_by_name(entries: Seq<EntryView>, name: Seq<char>) -> bool {
    match last_named(entries, name) {
        Some(i) => entries[i].opens,
        None => false,
    }
}

/// The content that a lookup by `name` gives.
pub open spec fn content_named(entries: Seq<EntryView>, name: Seq<char>) -> Option<Seq<u8>> {
    match last_named(entries, name) {
        Some(i) => entries[i].content,
        None => None,
    }
}

/// What a lookup by name gave: nothing, an entry that could not be read to
/// its end, or the content of an entry.
pub enum Found {
    Nothing,
    Unreadable,
    Content(Vec<u8>),
}

/// Calls `ZipArchive::by_name_decrypt` with the empty password and reads the
/// entry that it gives to its end. Trusted: that of several entries with one
/// name the crate takes the last, that the lookup gives an entry exactly
/// where that one opens, that what is read is its content, and that the
/// directory stays as it is.
#[verifier::external_body]
pub(crate) fn entry_by_name(
    archive: &mut zip::ZipArchive<std::io::Cursor<Vec<u8>>>,
    name: &str,
) -> (found: Found)
    ensures
        entries_of(*final(archive)) == entries_of(*old(archive)),
        found is Nothing <==> !opens_by_name(entries_of(*old(archive)), name@),
        found matches Found::Content(bytes) ==> content_named(entries_of(*old(archive)), name@)
            == Some(bytes@),
        found is Unreadable ==> content_named(entries_of(*old(archive)), name@) is None,
{
    let Ok(Ok(mut file)) = archive.by_name_decrypt(name, b"") else {
        return Found::Nothing;
    };
    let mut data = Vec::new();
    match std::io::Read::read_to_end(&mut file, &mut data) {
        Ok(_) => Found::Content(data),
        Err(_) => Found::Unreadable,
    }
}

/// What [`last_named`] finds is an entry of that name, and the last.
pub proof fn lemma_last_named(entries: Seq<EntryView>, name: Seq<char>)
    ensures
        match last_named(entries, name) {
            Some(i) => {
                &&& 0 <= i < entries.len()
                &&& entries[i].name == name
                &&& forall|j: int| i < j < entries.len() ==> (#[trigger] entries[j]).name != name
            },
            None => forall|j: int| 0 <= j < entries.len() ==> (#[trigger] entries[j]).name != name,
        },
    decreases entries.len(),
{
    if entries.len() > 0 && entries.last().name != name {
        let earlier = entries.drop_last();
        lemma_last_named(earlier, name);
        assert(forall|j: int| 0 <= j < earlier.len() ==> earlier[j] == entries[j]);
    }
}

/// Reads the content of the entry that a lookup by `name` gives.
pub(crate) fn read_by_name(
    archive: &mut zip::ZipArchive<std::io::Cursor<Vec<u8>>>,
    name: &str,
) -> (bytes: Option<Vec<u8>>)
    requires
        coherent(entries_of(*old(archive))),
    ensures
        entries_of(*final(archive)) == entries_of(*old(archive)),
        crate::model::bytes_view(bytes) == content_named(entries_of(*old(archive)), name@),
{
    proof {
        lemma_last_named(entries_of(*archive), name@);
    }
    match entry_by_name(archive, name) {
        Found::Content(bytes) => Some(bytes),
        Found::Unreadable => None,
        Found::Nothing => None,
    }
}

/// The place of the first entry that meets `wanted`, if one does.
pub open spec fn first_where(entries: Seq<EntryView>, wanted: spec_fn(EntryView) -> bool) -> Option<
    int,
>
    decreases entries.len(),
{
    if entries.len() == 0 {
        None
    } else {
        match first_where(entries.drop_last(), wanted) {
            Some(i) => Some(i),
            None => if wanted(entries.last()) {
                Some(entries.len() - 1)
            } else {
                None
            },
        }
    }
}

/// The place of the largest entry that meets `wanted`, if one of them is
/// not empty: of several largest ones the first.
pub open spec fn largest_where(
    entries: Seq<EntryView>,
    wanted: spec_fn(EntryView) -> bool,
) -> Option<int>
    decreases entries.len(),
{
    if entries.len() == 0 {
        None
    } else {
        let before = largest_where(entries.drop_last(), wanted);
        let bound = match before {
            Some(i) => entries[i].size,
            None => 0,
        };
        if wanted(entries.last()) && entries.last().size > bound {
            Some(entries.len() - 1)
        } else {
            before
        }
    }
}

/// What [`first_where`] finds is the first entry that meets `wanted`.
pub proof fn lemma_first_where(entries: Seq<EntryView>, wanted: spec_fn(EntryView) -> bool)
    ensures
        match first_where(entries, wanted) {
            Some(i) => {
                &&& 0 <= i < entries.len()
                &&& wanted(entries[i])
                &&& forall|j: int| 0 <= j < i ==> !wanted(#[trigger] entries[j])
            },
            None => forall|j: int| 0 <= j < entries.len() ==> !wanted(#[trigger] entries[j]),
        },
    decreases entries.len(),
{
    if entries.len() > 0 {
        let earlier = entries.drop_last();
        lemma_first_where(earlier, wanted);
        assert(forall|j: int| 0 <= j < earlier.len() ==> earlier[j] == entries[j]);
    }
}

/// What [`largest_where`] finds meets `wanted`, is not empty, is at least as
/// large as every entry that meets `wanted`, and larger than each of them
/// before it. It finds nothing only where every such entry is empty.
pub proof fn lemma_largest_where(entries: Seq<EntryView>, wanted: spec_fn(EntryView) -> bool)
    ensures
        match largest_where(entries, wanted) {
            Some(i) => {
                &&& 0 <= i < entries.len()
                &&& wanted(entries[i])
                &&& entries[i].size > 0
                &&& forall|j: int|
                    0 <= j < entries.len() && wanted(#[trigger] entries[j]) ==> entries[j].size
                        <= entries[i].size
                &&& forall|j: int|
                    0 <= j < i && wanted(#[trigger] entries[j]) ==> entries[j].size
                        < entries[i].size
            },
            None => forall|j: int|
                0 <= j < entries.len() && wanted(#[trigger] entries[j]) ==> entries[j].size == 0,
        },
    decreases entries.len(),
{
    if entries.len() > 0 {
        let earlier = entries.drop_last();
        lemma_largest_where(earlier, wanted);
        assert(forall|j: int| 0 <= j < earlier.len() ==> earlier[j] == entries[j]);
    }
}

/// The content that a lookup by the name of entry `i` gives: that of the
/// last entry with the same name.
pub open spec fn content_by_name_of(entries: Seq<EntryView>, i: int) -> Option<Seq<u8>> {
    match last_named(entries, entries[i].name) {
        Some(j) => entries[j].content,
        None => None,
    }
}

} // verus!
