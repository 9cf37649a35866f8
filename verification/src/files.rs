//! File mappings: which file goes where in the package, written as
//! `<source-path>:<dest-path>`.

use vstd::prelude::*;
use vstd::string::*;

use crate::error::{AppError, ErrorKind, ErrorView};
use crate::text::{
    count_of, join_with, lemma_count_none_means_absent, lemma_count_of_none,
    lemma_first_index_is, lemma_join_of_split, lemma_split_len,
    lemma_split_pieces_hold_no_separator, split, split_at_char,
};

verus! {

/// The mode of an executable file: a regular file that its owner may write
/// and that everyone may read and execute.
pub const EXECUTABLE_MODE: u32 = 0o100755;

/// What a packaged file is, by the flag that named it.
#[derive(Debug, Clone, Copy, PartialEq, Eq, Structural)]
pub enum FileKind {
    Executable,
    Config,
    Doc,
    Plain,
}

/// One file of the package: where it is read, where it is installed, what it
/// is, and the mode it is given. Without a mode the file keeps the one it has
/// where it is read.
#[derive(Debug, Clone, PartialEq, Eq)]
pub struct FileEntry {
    pub source: String,
    pub dest: String,
    pub kind: FileKind,
    pub mode: Option<u32>,
}

/// The mathematical value of a [`FileEntry`].
pub struct FileView {
    pub source: Seq<char>,
    pub dest: Seq<char>,
    pub kind: FileKind,
    pub mode: Option<u32>,
}

impl FileView {
    /// Both paths are there, neither holds a colon, and the mode is the one
    /// that the kind gives.
    pub open spec fn wf(self) -> bool {
        &&& self.source.len() > 0
        &&& self.dest.len() > 0
        &&& count_of(self.source, ':') == 0
        &&& count_of(self.dest, ':') == 0
        &&& self.mode == default_mode(self.kind)
    }
}

impl View for FileEntry {
    type V = FileView;

    open spec fn view(&self) -> FileView {
        FileView { source: self.source@, dest: self.dest@, kind: self.kind, mode: self.mode }
    }
}

/// The mode that a file of the given kind gets: executables are made
/// executable, every other file keeps the mode it has.
pub open spec fn default_mode(kind: FileKind) -> Option<u32> {
    if kind == FileKind::Executable {
        Some(EXECUTABLE_MODE)
    } else {
        None
    }
}

/// The error for a value that is no file mapping.
pub open spec fn file_mapping_error(raw: Seq<char>) -> ErrorView {
    ErrorView {
        kind: ErrorKind::InvalidFileMapping,
        cause: "invalid file argument:"@ + raw
            + " it needs to be of the form <source-path>:<dest-path>"@,
    }
}

/// The file entry that `raw` stands for under flag family `kind`: `raw` cut at
/// its colons must give exactly two pieces, neither of them empty.
pub open spec fn file_mapping_of(raw: Seq<char>, kind: FileKind) -> Result<FileView, ErrorView> {
    let parts = split_at_char(raw, ':');
    if parts.len() == 2 && parts[0].len() > 0 && parts[1].len() > 0 {
        Ok(FileView { source: parts[0], dest: parts[1], kind, mode: default_mode(kind) })
    } else {
        Err(file_mapping_error(raw))
    }
}

/// What `file_mapping_of` yields is well formed.
pub proof fn lemma_file_mapping_of_wf(raw: Seq<char>, kind: FileKind)
    ensures
        file_mapping_of(raw, kind) matches Ok(entry) ==> entry.wf(),
{
    if file_mapping_of(raw, kind) is Ok {
        let parts = split_at_char(raw, ':');
        lemma_split_pieces_hold_no_separator(raw, ':');
        lemma_count_of_none(parts[0], ':');
        lemma_count_of_none(parts[1], ':');
    }
}

/// The mode for a file of the given kind.
pub fn mode_for(kind: FileKind) -> (mode: Option<u32>)
    ensures
        mode == default_mode(kind),
{
    match kind {
        FileKind::Executable => Some(EXECUTABLE_MODE),
        _ => None,
    }
}

/// Reads one `<source-path>:<dest-path>` value of flag family `kind`.
///
/// Fails with `InvalidFileMapping`, and a message that quotes the value and
/// the expected form, unless the value has exactly one colon with something
/// on both sides of it.
pub fn parse_file_mapping(raw: &str, kind: FileKind) -> (r: Result<FileEntry, AppError>)
    ensures
        match file_mapping_of(raw@, kind) {
            Ok(entry) => r is Ok && r->Ok_0@ == entry && entry.wf(),
            Err(e) => r is Err && r->Err_0@ == e,
        },
{
    proof {
        lemma_file_mapping_of_wf(raw@, kind);
    }
    let mut parts = split(raw, ':');
    let ghost pieces = split_at_char(raw@, ':');
    assert(parts@.len() == pieces.len());
    if parts.len() == 2 {
        assert(parts@[0]@ == pieces[0] && parts@[1]@ == pieces[1]);
        let dest = parts.pop().unwrap();
        let source = parts.pop().unwrap();
        if source.as_str().unicode_len() > 0 && dest.as_str().unicode_len() > 0 {
            return Ok(FileEntry { source, dest, kind, mode: mode_for(kind) });
        }
    }
    Err(
        AppError::new(
            ErrorKind::InvalidFileMapping,
            String::from_str("invalid file argument:").concat(raw).concat(
                " it needs to be of the form <source-path>:<dest-path>",
            ),
        ),
    )
}

/// A value with no colon, or with more than one, is no file mapping.
pub proof fn law_colon_count_must_be_one(raw: Seq<char>, kind: FileKind)
    requires
        count_of(raw, ':') != 1,
    ensures
        file_mapping_of(raw, kind) == Err::<FileView, ErrorView>(file_mapping_error(raw)),
{
    lemma_split_len(raw, ':');
}

/// Two non-empty paths without a colon, written with one colon between them,
/// are a file mapping that holds both paths as they were written.
pub proof fn law_one_colon_keeps_both_parts(source: Seq<char>, dest: Seq<char>, kind: FileKind)
    requires
        source.len() > 0,
        dest.len() > 0,
        count_of(source, ':') == 0,
        count_of(dest, ':') == 0,
    ensures
        file_mapping_of(source + seq![':'] + dest, kind) == Ok::<FileView, ErrorView>(
            FileView { source, dest, kind, mode: default_mode(kind) },
        ),
{
    let raw = source + seq![':'] + dest;
    lemma_count_none_means_absent(source, ':');
    lemma_count_none_means_absent(dest, ':');
    assert forall|j: int| 0 <= j < source.len() implies raw[j] != ':' by {
        assert(raw[j] == source[j]);
    }
    lemma_first_index_is(raw, ':', source.len() as int);
    assert(raw.take(source.len() as int) == source);
    assert(raw.skip(source.len() as int + 1) == dest);
    lemma_first_index_is(dest, ':', dest.len() as int);
    assert(split_at_char(dest, ':') == seq![dest]);
    assert(split_at_char(raw, ':') == seq![source, dest]);
}

/// A value that is a file mapping has exactly one colon, and its two paths,
/// written with a colon between them, are the value again.
pub proof fn law_file_mapping_is_verbatim(raw: Seq<char>, kind: FileKind)
    requires
        file_mapping_of(raw, kind) is Ok,
    ensures
        count_of(raw, ':') == 1,
        file_mapping_of(raw, kind)->Ok_0.source + seq![':'] + file_mapping_of(raw, kind)->Ok_0.dest
            == raw,
{
    lemma_split_len(raw, ':');
    lemma_join_of_split(raw, ':');
    let parts = split_at_char(raw, ':');
    assert(parts.drop_first().len() == 1);
    assert(join_with(parts.drop_first(), ':') == parts[1]);
}

} // verus!
