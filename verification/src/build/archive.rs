//! The archive: named byte contents in a fixed order, and its bytes.

use vstd::prelude::*;
use vstd::string::StringExecFns;
use crate::build::error::{BuildError, BuildErrorView};
use crate::build::header::{
    declared_size, gnu_header_block, header_bytes, is_plain_path, is_stored_name,
    lemma_header_block_declares, lemma_header_block_fields, stored_name, tar_name_field, zeros,
    BLOCK_SIZE,
};
use crate::build::tar_helpers::make_header;
use crate::text::same_text;

verus! {

/// Permission bits of every entry: read and write for the owner, read for
/// everyone else.
pub const ENTRY_MODE: u32 = 0o644;

/// Length of the run of zero bytes that ends an archive.
pub const TERMINATION_SIZE: usize = 1024;

/// Why a path is refused that an entry of the archive has already.
pub const TAKEN_CAUSE: &'static str = "the path is already in the archive";

/// One entry of an archive: a path, the bytes stored under it, and the
/// permission bits.
pub struct ArchiveEntry {
    path: String,
    content: Vec<u8>,
    mode: u32,
    header: Vec<u8>,
}

/// Model of an [`ArchiveEntry`].
pub struct ArchiveEntryView {
    pub path: Seq<char>,
    pub content: Seq<u8>,
    pub mode: u32,
}

impl ArchiveEntryView {
    /// The archive format can hold the entry: its path has a stored name,
    /// and the length of its content is a size.
    pub open spec fn representable(self) -> bool {
        &&& tar_name_field(self.path) matches Some(name)
        &&& is_stored_name(name)
        &&& self.content.len() <= u64::MAX
    }

    /// The header block of the entry: its declared size is the length of
    /// its content.
    pub open spec fn header(self) -> Seq<u8> {
        gnu_header_block(tar_name_field(self.path).unwrap(), self.content.len() as u64, self.mode)
    }

    /// The bytes of the entry in an archive: header, content, and zeros up
    /// to the next multiple of the block size.
    pub open spec fn bytes(self) -> Seq<u8> {
        self.header() + self.content + zeros(padding_of(self.content.len()))
    }
}

/// How many zero bytes follow a content of `len` bytes.
pub open spec fn padding_of(len: nat) -> nat {
    ((BLOCK_SIZE - len % (BLOCK_SIZE as nat)) % (BLOCK_SIZE as int)) as nat
}

/// The paths of the entries, in their order.
pub open spec fn paths_of(entries: Seq<ArchiveEntryView>) -> Seq<Seq<char>> {
    entries.map_values(|e: ArchiveEntryView| e.path)
}

/// No two entries have the same path.
pub open spec fn paths_unique(entries: Seq<ArchiveEntryView>) -> bool {
    forall|i: int, j: int|
        0 <= i < j < entries.len() ==> (#[trigger] entries[i]).path != (#[trigger] entries[j]).path
}

/// The bytes of the entries, one after the other.
pub open spec fn entries_bytes(entries: Seq<ArchiveEntryView>) -> Seq<u8>
    decreases entries.len(),
{
    if entries.len() == 0 {
        Seq::empty()
    } else {
        entries_bytes(entries.drop_last()) + entries.last().bytes()
    }
}

/// The bytes of an archive of these entries: the entries in order, then the
/// termination.
pub open spec fn archive_bytes(entries: Seq<ArchiveEntryView>) -> Seq<u8> {
    entries_bytes(entries) + zeros(TERMINATION_SIZE as nat)
}

impl View for ArchiveEntry {
    type V = ArchiveEntryView;

    closed spec fn view(&self) -> ArchiveEntryView {
        ArchiveEntryView { path: self.path@, content: self.content@, mode: self.mode }
    }
}

impl DeepView for ArchiveEntry {
    type V = ArchiveEntryView;

    open spec fn deep_view(&self) -> ArchiveEntryView {
        self.view()
    }
}

impl ArchiveEntry {
    #[verifier::type_invariant]
    spec fn holds_its_header(self) -> bool {
        &&& self@.representable()
        &&& self.header@ == self@.header()
    }

    /// An entry for `content` under `path`; fails exactly where no header
    /// can be made for the path.
    pub fn new(path: &str, content: Vec<u8>, mode: u32) -> (r: Result<ArchiveEntry, BuildError>)
        ensures
            match tar_name_field(path@) {
                Some(_) => r matches Ok(e) && e@ == (ArchiveEntryView {
                    path: path@,
                    content: content@,
                    mode,
                }) && e@.representable(),
                None => r matches Err(e) && e@ matches BuildErrorView::Archive { path: p, .. }
                    && p == path@,
            },
            is_plain_path(path@) ==> r is Ok,
    {
        let size = content.len() as u64;
        match make_header(path, size, mode) {
            Ok(h) => {
                let header = header_bytes(&h);
                Ok(ArchiveEntry { path: String::from_str(path), content, mode, header })
            },
            Err(e) => Err(e),
        }
    }

    /// The path the entry is stored under.
    pub fn path(&self) -> (p: &str)
        ensures
            p@ == self@.path,
    {
        self.path.as_str()
    }

    /// The bytes stored under the path.
    pub fn content(&self) -> (c: &Vec<u8>)
        ensures
            c@ == self@.content,
    {
        &self.content
    }

    /// The permission bits.
    pub fn mode(&self) -> (m: u32)
        ensures
            m == self@.mode,
    {
        self.mode
    }

    /// The 512 bytes of the entry's header.
    pub fn header(&self) -> (h: &Vec<u8>)
        ensures
            h@ == self@.header(),
            self@.representable(),
    {
        proof {
            use_type_invariant(self);
        }
        &self.header
    }

    /// Appends the entry's bytes to `out`: header, content, padding.
    pub fn write_to(&self, out: &mut Vec<u8>)
        ensures
            final(out)@ == old(out)@ + self@.bytes(),
    {
        proof {
            use_type_invariant(self);
        }
        out.extend_from_slice(self.header.as_slice());
        out.extend_from_slice(self.content.as_slice());
        let rest = self.content.len() % BLOCK_SIZE;
        let padding = if rest == 0 {
            0
        } else {
            BLOCK_SIZE - rest
        };
        let ghost before = out@;
        let mut i: usize = 0;
        while i < padding
            invariant
                i <= padding,
                out@ == before + zeros(i as nat),
            decreases padding - i,
        {
            out.push(0u8);
            i += 1;
        }
    }
}

/// Whether one of the entries has the path `path`.
pub fn holds_path(entries: &Vec<ArchiveEntry>, path: &str) -> (held: bool)
    ensures
        held == paths_of(entries.deep_view()).contains(path@),
{
    let mut i: usize = 0;
    while i < entries.len()
        invariant
            i <= entries.len(),
            forall|k: int| 0 <= k < i ==> paths_of(entries.deep_view())[k] != path@,
        decreases entries.len() - i,
    {
        if same_text(entries[i].path(), path) {
            assert(paths_of(entries.deep_view())[i as int] == path@);
            return true;
        }
        i += 1;
    }
    false
}

/// An entry whose path none of the entries has keeps their paths unique.
pub proof fn lemma_new_path_keeps_unique(entries: Seq<ArchiveEntryView>, entry: ArchiveEntryView)
    requires
        paths_unique(entries),
        !paths_of(entries).contains(entry.path),
    ensures
        paths_unique(entries.push(entry)),
        paths_of(entries.push(entry)) == paths_of(entries).push(entry.path),
{
    let all = entries.push(entry);
    assert forall|i: int, j: int| 0 <= i < j < all.len() implies (#[trigger] all[i]).path != (
    #[trigger] all[j]).path by {
        if j == entries.len() {
            assert(paths_of(entries)[i] == entries[i].path);
        }
    }
    assert(paths_of(all) =~= paths_of(entries).push(entry.path));
}

/// An archive under construction: entries in the order they were appended,
/// no two of them under the same path as long as it is filled from an empty
/// archive.
pub struct Archive {
    entries: Vec<ArchiveEntry>,
}

impl View for Archive {
    type V = Seq<ArchiveEntryView>;

    closed spec fn view(&self) -> Seq<ArchiveEntryView> {
        self.entries.deep_view()
    }
}

impl Archive {
    /// An archive without entries.
    pub fn new() -> (a: Archive)
        ensures
            a@ == Seq::<ArchiveEntryView>::empty(),
    {
        let a = Archive { entries: Vec::new() };
        a
    }

    /// The number of entries.
    pub fn len(&self) -> (n: usize)
        ensures
            n == self@.len(),
    {
        self.entries.len()
    }

    /// The entry at position `index`.
    pub fn entry(&self, index: usize) -> (e: &ArchiveEntry)
        requires
            index < self@.len(),
        ensures
            e@ == self@[index as int],
            e@.representable(),
    {
        let e = &self.entries[index];
        proof {
            use_type_invariant(e);
        }
        e
    }

    /// Whether an entry of the archive has the path `path`.
    pub fn holds(&self, path: &str) -> (held: bool)
        ensures
            held == paths_of(self@).contains(path@),
    {
        holds_path(&self.entries, path)
    }

    /// Puts `entry` behind the entries that are there, unless one of them
    /// has its path already: then the archive stays as it was, and the error
    /// names the path.
    pub fn push(&mut self, entry: ArchiveEntry) -> (r: Result<(), BuildError>)
        ensures
            if paths_of(old(self)@).contains(entry@.path) {
                r matches Err(e) && e@ matches BuildErrorView::Archive { path: p, .. } && p
                    == entry@.path && final(self)@ == old(self)@
            } else {
                r is Ok && final(self)@ == old(self)@.push(entry@)
            },
            paths_unique(old(self)@) ==> paths_unique(final(self)@),
    {
        if self.holds(entry.path()) {
            Err(
                BuildError::Archive {
                    path: String::from_str(entry.path()),
                    cause: String::from_str(TAKEN_CAUSE),
                },
            )
        } else {
            proof {
                if paths_unique(self@) {
                    lemma_new_path_keeps_unique(self@, entry@);
                }
            }
            self.entries.push(entry);
            Ok(())
        }
    }

    /// Puts `entries`, in their order, behind the entries that are there.
    pub(crate) fn extend(&mut self, entries: Vec<ArchiveEntry>)
        requires
            paths_unique(old(self)@) ==> paths_unique(old(self)@ + entries.deep_view()),
        ensures
            final(self)@ == old(self)@ + entries.deep_view(),
            paths_unique(old(self)@) ==> paths_unique(final(self)@),
    {
        let mut entries = entries;
        let ghost added = entries.deep_view();
        self.entries.append(&mut entries);
        assert(self@ =~= old(self)@ + added);
    }

    /// Appends `content` under `path` with the permission bits `mode`. Where
    /// no header can be made for the path, or an entry has the path already,
    /// the archive stays as it was, and the error names the path.
    pub fn append(&mut self, path: &str, content: Vec<u8>, mode: u32) -> (r: Result<(), BuildError>)
        ensures
            if tar_name_field(path@) is Some && !paths_of(old(self)@).contains(path@) {
                r is Ok && final(self)@ == old(self)@.push(
                    ArchiveEntryView { path: path@, content: content@, mode },
                )
            } else {
                r matches Err(e) && e@ matches BuildErrorView::Archive { path: p, .. } && p
                    == path@ && final(self)@ == old(self)@
            },
            is_plain_path(path@) && !paths_of(old(self)@).contains(path@) ==> r is Ok,
            paths_unique(old(self)@) ==> paths_unique(final(self)@),
    {
        match ArchiveEntry::new(path, content, mode) {
            Ok(entry) => self.push(entry),
            Err(e) => Err(e),
        }
    }

    /// The bytes of the archive: every entry in order, then the termination.
    /// Every entry of an archive can stand in it.
    pub fn to_bytes(&self) -> (bytes: Vec<u8>)
        ensures
            bytes@ == archive_bytes(self@),
            all_representable(self@),
    {
        let mut bytes: Vec<u8> = Vec::new();
        let mut i: usize = 0;
        while i < self.entries.len()
            invariant
                i <= self.entries.len(),
                bytes@ == entries_bytes(self@.take(i as int)),
                forall|k: int| 0 <= k < i ==> (#[trigger] self@[k]).representable(),
            decreases self.entries.len() - i,
        {
            assert(self@.take(i as int + 1).drop_last() == self@.take(i as int));
            let entry = &self.entries[i];
            proof {
                use_type_invariant(entry);
            }
            entry.write_to(&mut bytes);
            i += 1;
        }
        assert(self@.take(i as int) == self@);
        let ghost before = bytes@;
        let mut k: usize = 0;
        while k < TERMINATION_SIZE
            invariant
                k <= TERMINATION_SIZE,
                bytes@ == before + zeros(k as nat),
            decreases TERMINATION_SIZE - k,
        {
            bytes.push(0u8);
            k += 1;
        }
        bytes
    }
}

/// Where the entry at `index` starts in the bytes of the entries.
pub open spec fn entry_offset(entries: Seq<ArchiveEntryView>, index: int) -> nat {
    entries_bytes(entries.take(index)).len()
}

/// Every entry can stand in an archive.
pub open spec fn all_representable(entries: Seq<ArchiveEntryView>) -> bool {
    forall|i: int| 0 <= i < entries.len() ==> (#[trigger] entries[i]).representable()
}

/// The bytes of an entry are its header block, then its content, then
/// zeros; together a whole number of blocks. The header declares the length
/// of the content as the entry's size.
pub proof fn lemma_entry_layout(entry: ArchiveEntryView)
    requires
        entry.representable(),
    ensures
        entry.header().len() == BLOCK_SIZE,
        entry.bytes().len() % (BLOCK_SIZE as nat) == 0,
        entry.bytes().len() == BLOCK_SIZE + entry.content.len() + padding_of(entry.content.len()),
        entry.bytes().subrange(0, BLOCK_SIZE as int) == entry.header(),
        entry.bytes().subrange(BLOCK_SIZE as int, BLOCK_SIZE + entry.content.len())
            == entry.content,
        declared_size(entry.header()) == entry.content.len(),
        stored_name(entry.header()) == tar_name_field(entry.path).unwrap(),
{
    let name = tar_name_field(entry.path).unwrap();
    lemma_header_block_fields(name, entry.content.len() as u64, entry.mode);
    lemma_header_block_declares(name, entry.content.len() as u64, entry.mode);
    assert(entry.bytes().subrange(BLOCK_SIZE as int, BLOCK_SIZE + entry.content.len())
        =~= entry.content);
}

/// In the bytes of an archive every entry stands whole at its offset, and
/// the offsets follow the order of the entries: an entry starts where the
/// entries before it end, on a block boundary.
pub proof fn lemma_archive_layout(entries: Seq<ArchiveEntryView>, index: int)
    requires
        all_representable(entries),
        0 <= index < entries.len(),
    ensures
        entry_offset(entries, index) % (BLOCK_SIZE as nat) == 0,
        entry_offset(entries, index) + entries[index].bytes().len() <= entries_bytes(entries).len(),
        archive_bytes(entries).subrange(
            entry_offset(entries, index) as int,
            (entry_offset(entries, index) + entries[index].bytes().len()) as int,
        ) == entries[index].bytes(),
        index + 1 < entries.len() ==> entry_offset(entries, index + 1) == entry_offset(
            entries,
            index,
        ) + entries[index].bytes().len(),
    decreases entries.len(),
{
    let offset = entry_offset(entries, index);
    let rest = entries.drop_last();
    lemma_entries_bytes_blocks(entries.take(index));
    if index == entries.len() - 1 {
        assert(entries.take(index) == rest);
        assert(entries_bytes(entries) == entries_bytes(rest) + entries[index].bytes());
        assert(archive_bytes(entries).subrange(
            offset as int,
            (offset + entries[index].bytes().len()) as int,
        ) =~= entries[index].bytes());
    } else {
        assert(rest.take(index) == entries.take(index));
        assert(rest[index] == entries[index]);
        lemma_archive_layout(rest, index);
        assert(entries_bytes(entries) == entries_bytes(rest) + entries.last().bytes());
        assert(archive_bytes(entries).subrange(
            offset as int,
            (offset + entries[index].bytes().len()) as int,
        ) =~= archive_bytes(rest).subrange(
            offset as int,
            (offset + entries[index].bytes().len()) as int,
        ));
        assert(entries.take(index + 1).drop_last() == entries.take(index));
    }
}

/// The bytes of representable entries are a whole number of blocks.
pub proof fn lemma_entries_bytes_blocks(entries: Seq<ArchiveEntryView>)
    requires
        all_representable(entries),
    ensures
        entries_bytes(entries).len() % (BLOCK_SIZE as nat) == 0,
        archive_bytes(entries).len() % (BLOCK_SIZE as nat) == 0,
    decreases entries.len(),
{
    if entries.len() > 0 {
        lemma_entries_bytes_blocks(entries.drop_last());
        lemma_entry_layout(entries.last());
    }
}

/// An archive is its entries in order and nothing else: archives of the
/// same entries have the same bytes, and one more entry only adds bytes
/// behind those of the entries before it.
pub proof fn lemma_archive_grows_at_the_end(entries: Seq<ArchiveEntryView>, entry: ArchiveEntryView)
    ensures
        entries_bytes(entries.push(entry)) == entries_bytes(entries) + entry.bytes(),
        entries_bytes(entries.push(entry)).subrange(0, entries_bytes(entries).len() as int)
            == entries_bytes(entries),
{
    assert(entries.push(entry).drop_last() == entries);
    assert((entries_bytes(entries) + entry.bytes()).subrange(
        0,
        entries_bytes(entries).len() as int,
    ) =~= entries_bytes(entries));
}

} // verus!
