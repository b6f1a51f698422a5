//! Results that describe an edit or a finding. The substrate only hands
//! them out: the client applies an edit itself and, if the analysis is to
//! see it, feeds it back as a change.

use vstd::prelude::*;
use relative_path::RelativePathBuf;
use crate::base::{FileId, FilePosition, SourceRootId, TextRange, TextUnit};

verus! {

/// `relative_path::RelativePathBuf`: an owned relative path. The substrate
/// carries such a path through and never looks inside.
#[verifier::external_type_specification]
#[verifier::external_body]
pub struct ExRelativePathBuf(RelativePathBuf);

/// One replacement: the text of `delete` gives way to `insert`.
#[derive(Debug)]
pub struct AtomTextEdit {
    pub delete: TextRange,
    pub insert: String,
}

/// Mathematical model of an [`AtomTextEdit`].
pub struct AtomModel {
    pub delete: TextRange,
    pub insert: Seq<char>,
}

impl View for AtomTextEdit {
    type V = AtomModel;

    open spec fn view(&self) -> AtomModel {
        AtomModel { delete: self.delete, insert: self.insert@ }
    }
}

/// The models of a sequence of replacements.
pub open spec fn atom_models(atoms: Seq<AtomTextEdit>) -> Seq<AtomModel> {
    Seq::new(atoms.len(), |i: int| atoms[i]@)
}

/// An edit of one text: replacements, in the order in which they were
/// added.
#[derive(Debug)]
pub struct TextEdit {
    atoms: Vec<AtomTextEdit>,
}

impl View for TextEdit {
    type V = Seq<AtomModel>;

    closed spec fn view(&self) -> Seq<AtomModel> {
        atom_models(self.atoms@)
    }
}

impl TextEdit {
    /// The edit that changes nothing.
    pub fn new() -> (edit: TextEdit)
        ensures
            edit@ == Seq::<AtomModel>::empty(),
    {
        let edit = TextEdit { atoms: Vec::new() };
        assert(edit@ =~= Seq::<AtomModel>::empty());
        edit
    }

    /// Adds the replacement of the text of `range` by `text`.
    pub fn replace(&mut self, range: TextRange, text: String)
        ensures
            final(self)@ == old(self)@.push(AtomModel { delete: range, insert: text@ }),
    {
        self.atoms.push(AtomTextEdit { delete: range, insert: text });
        assert(self@ =~= old(self)@.push(AtomModel { delete: range, insert: text@ }));
    }

    /// Adds the removal of the text of `range`.
    pub fn delete(&mut self, range: TextRange)
        ensures
            final(self)@ == old(self)@.push(AtomModel { delete: range, insert: Seq::empty() }),
    {
        self.replace(range, String::new());
    }

    /// Adds the insertion of `text` at `offset`.
    pub fn insert(&mut self, offset: TextUnit, text: String)
        ensures
            final(self)@.len() == old(self)@.len() + 1,
            final(self)@.drop_last() == old(self)@,
            final(self)@.last().insert == text@,
            final(self)@.last().delete.spec_start() == offset,
            final(self)@.last().delete.spec_end() == offset,
    {
        self.replace(TextRange::from_to(offset, offset), text);
        assert(self@.drop_last() =~= old(self)@);
    }

    /// The number of replacements.
    pub fn len(&self) -> (n: usize)
        ensures
            n == self@.len(),
    {
        self.atoms.len()
    }

    /// The replacements, in order.
    pub fn into_atoms(self) -> (atoms: Vec<AtomTextEdit>)
        ensures
            atom_models(atoms@) == self@,
    {
        self.atoms
    }
}

/// An edit of one text as a syntax-only helper proposes it: what to call
/// it, the edit, and where the cursor should go afterwards.
#[derive(Debug)]
pub struct LocalEdit {
    pub label: String,
    pub edit: TextEdit,
    pub cursor_position: Option<TextUnit>,
}

/// An edit of the text of one file.
#[derive(Debug)]
pub struct SourceFileEdit {
    pub file_id: FileId,
    pub edit: TextEdit,
}

/// An operation on the file system.
#[derive(Debug)]
pub enum FileSystemEdit {
    CreateFile { source_root: SourceRootId, path: RelativePathBuf },
    MoveFile { src: FileId, dst_source_root: SourceRootId, dst_path: RelativePathBuf },
}

/// A recommended change of the sources: edits of texts, operations on the
/// file system, and where the cursor should go afterwards.
#[derive(Debug)]
pub struct SourceChange {
    pub label: String,
    pub source_file_edits: Vec<SourceFileEdit>,
    pub file_system_edits: Vec<FileSystemEdit>,
    pub cursor_position: Option<FilePosition>,
}

impl SourceChange {
    /// The change that makes the edit `edit` to the file `file_id` and
    /// nothing else; the cursor goes where the edit wants it, in that file.
    pub fn from_local_edit(file_id: FileId, edit: LocalEdit) -> (change: SourceChange)
        ensures
            change.label == edit.label,
            change.source_file_edits@.len() == 1,
            change.source_file_edits@[0].file_id == file_id,
            change.source_file_edits@[0].edit == edit.edit,
            change.file_system_edits@.len() == 0,
            change.cursor_position == match edit.cursor_position {
                Some(offset) => Some(FilePosition { file_id, offset }),
                None => None,
            },
    {
        let cursor_position = match edit.cursor_position {
            Some(offset) => Some(FilePosition { file_id, offset }),
            None => None,
        };
        let mut source_file_edits: Vec<SourceFileEdit> = Vec::new();
        source_file_edits.push(SourceFileEdit { file_id, edit: edit.edit });
        SourceChange {
            label: edit.label,
            source_file_edits,
            file_system_edits: Vec::new(),
            cursor_position,
        }
    }

    /// The change that a helper proposes for the file `file_id`, if it
    /// proposes one.
    pub fn from_optional_edit(file_id: FileId, edit: Option<LocalEdit>) -> (change: Option<
        SourceChange,
    >)
        ensures
            change is Some == edit is Some,
            change is Some ==> {
                &&& change->0.label == edit->0.label
                &&& change->0.source_file_edits@.len() == 1
                &&& change->0.source_file_edits@[0].file_id == file_id
                &&& change->0.source_file_edits@[0].edit == edit->0.edit
                &&& change->0.file_system_edits@.len() == 0
                &&& change->0.cursor_position == match edit->0.cursor_position {
                    Some(offset) => Some(FilePosition { file_id, offset }),
                    None => None,
                }
            },
    {
        match edit {
            Some(edit) => Some(SourceChange::from_local_edit(file_id, edit)),
            None => None,
        }
    }
}

/// How grave a finding is.
#[derive(Clone, Copy, Debug, PartialEq, Eq, Structural)]
pub enum Severity {
    Error,
    WeakWarning,
}

/// A finding about a file: what is wrong, where, how it could be fixed,
/// and how grave it is.
#[derive(Debug)]
pub struct Diagnostic {
    pub message: String,
    pub range: TextRange,
    pub fix: Option<SourceChange>,
    pub severity: Severity,
}

/// A result together with the range of the source that it covers.
#[derive(Debug)]
pub struct RangeInfo<T> {
    pub range: TextRange,
    pub info: T,
}

impl<T> RangeInfo<T> {
    /// `info`, for the range `range`.
    pub fn new(range: TextRange, info: T) -> (r: RangeInfo<T>)
        ensures
            r.range == range,
            r.info == info,
    {
        RangeInfo { range, info }
    }
}

/// The documentation of an item.
#[derive(Debug)]
pub struct Documentation(pub String);

/// The signature of a call, and the parameter that the cursor is at.
#[derive(Debug)]
pub struct CallInfo {
    pub label: String,
    pub doc: Option<Documentation>,
    pub parameters: Vec<String>,
    pub active_parameter: Option<usize>,
}

} // verus!
