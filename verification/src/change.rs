//! The change protocol: a batch of edits to the project's inputs, and what
//! applying one means.

use vstd::prelude::*;
use crate::base::{CrateId, FileId, SourceRootId};

verus! {

/// An edge of the project graph: crate `from` depends on crate `to`.
#[derive(Clone, Copy, Debug, PartialEq, Eq, Structural)]
pub struct CrateDep {
    pub from: CrateId,
    pub to: CrateId,
}

/// Mathematical model of a [`CrateGraph`]: the root file of each crate, by
/// crate id, and the dependency edges in the order in which they were added.
pub struct CrateGraphModel {
    pub roots: Seq<FileId>,
    pub deps: Seq<CrateDep>,
}

/// The project graph: the crates of the project, each with its root file,
/// and the dependencies between them. A crate's id is its position among the
/// roots.
#[derive(Debug)]
pub struct CrateGraph {
    roots: Vec<FileId>,
    deps: Vec<CrateDep>,
}

impl View for CrateGraph {
    type V = CrateGraphModel;

    closed spec fn view(&self) -> CrateGraphModel {
        CrateGraphModel { roots: self.roots@, deps: self.deps@ }
    }
}

impl CrateGraphModel {
    /// The graph without crates.
    pub open spec fn empty() -> CrateGraphModel {
        CrateGraphModel { roots: Seq::empty(), deps: Seq::empty() }
    }

    /// The graph names the crate `id`.
    pub open spec fn has_crate(self, id: CrateId) -> bool {
        id.0 < self.roots.len()
    }
}

impl CrateGraph {
    /// The graph without crates.
    pub fn new() -> (graph: CrateGraph)
        ensures
            graph@ == CrateGraphModel::empty(),
    {
        CrateGraph { roots: Vec::new(), deps: Vec::new() }
    }

    /// Adds a crate with root file `file_id` and returns its id; `None`, and
    /// no change, when no further id is left.
    pub fn add_crate_root(&mut self, file_id: FileId) -> (id: Option<CrateId>)
        ensures
            match id {
                Some(id) => id.0 == old(self)@.roots.len() && final(self)@ == (CrateGraphModel {
                    roots: old(self)@.roots.push(file_id),
                    ..old(self)@
                }),
                None => old(self)@.roots.len() >= u32::MAX && final(self)@ == old(self)@,
            },
    {
        let n = self.roots.len();
        if n >= u32::MAX as usize {
            return None;
        }
        self.roots.push(file_id);
        Some(CrateId(n as u32))
    }

    /// Records that crate `from` depends on crate `to`. Returns whether the
    /// edge was added: it is when the graph names both crates.
    pub fn add_dep(&mut self, from: CrateId, to: CrateId) -> (added: bool)
        ensures
            added == (old(self)@.has_crate(from) && old(self)@.has_crate(to)),
            added ==> final(self)@ == (CrateGraphModel {
                deps: old(self)@.deps.push(CrateDep { from, to }),
                ..old(self)@
            }),
            !added ==> final(self)@ == old(self)@,
    {
        if (from.0 as usize) < self.roots.len() && (to.0 as usize) < self.roots.len() {
            self.deps.push(CrateDep { from, to });
            true
        } else {
            false
        }
    }

    /// The crates that crate `id` depends on, in the order in which the
    /// edges were added.
    pub fn dependencies(&self, id: CrateId) -> (found: Vec<CrateId>)
        ensures
            found@ == dependencies_of(self@, id),
    {
        let mut found: Vec<CrateId> = Vec::new();
        let ghost from_id = |d: CrateDep| d.from == id;
        let ghost target = |d: CrateDep| d.to;
        let mut i: usize = 0;
        proof {
            reveal(Seq::filter);
            assert(self.deps@.take(0) =~= Seq::empty());
            assert(self.deps@.take(0).filter(from_id).map_values(target) =~= found@);
        }
        while i < self.deps.len()
            invariant
                i <= self.deps@.len(),
                from_id == (|d: CrateDep| d.from == id),
                target == (|d: CrateDep| d.to),
                found@ == self.deps@.take(i as int).filter(from_id).map_values(target),
            decreases self.deps@.len() - i,
        {
            let dep = self.deps[i];
            proof {
                reveal(Seq::filter);
                let seen = self.deps@.take(i as int);
                assert(self.deps@.take(i + 1).drop_last() =~= seen);
                assert(self.deps@.take(i + 1).last() == dep);
                if from_id(dep) {
                    assert(seen.filter(from_id).push(dep).map_values(target) =~= seen.filter(
                        from_id,
                    ).map_values(target).push(dep.to));
                }
            }
            if dep.from == id {
                found.push(dep.to);
            }
            i = i + 1;
        }
        assert(self.deps@.take(i as int) =~= self.deps@);
        found
    }

    /// The root file of crate `id`, if the graph names that crate.
    pub fn crate_root(&self, id: CrateId) -> (root: Option<FileId>)
        ensures
            root == crate_root_of(self@, id),
    {
        if (id.0 as usize) < self.roots.len() {
            Some(self.roots[id.0 as usize])
        } else {
            None
        }
    }
}

/// The crates that crate `id` depends on in `graph`, in the order in which
/// the edges were added.
pub open spec fn dependencies_of(graph: CrateGraphModel, id: CrateId) -> Seq<CrateId> {
    graph.deps.filter(|d: CrateDep| d.from == id).map_values(|d: CrateDep| d.to)
}

/// The root file of crate `id` in `graph`, if the graph names that crate.
pub open spec fn crate_root_of(graph: CrateGraphModel, id: CrateId) -> Option<FileId> {
    if graph.has_crate(id) {
        Some(graph.roots[id.0 as int])
    } else {
        None
    }
}

/// A file of a library: its id, the source root it belongs to, and its text.
/// Once added it stays as it is.
#[derive(Debug)]
pub struct LibraryData {
    pub file_id: FileId,
    pub root: SourceRootId,
    pub text: String,
}

/// One operation of a change.
#[derive(Debug)]
pub enum ChangeOp {
    /// Adds a workspace file, or replaces the one with this id.
    AddFile { file_id: FileId, root: SourceRootId, text: String },
    /// Removes a workspace file.
    RemoveFile { file_id: FileId },
    /// Gives a workspace file a new text.
    ChangeFile { file_id: FileId, text: String },
    /// Adds a library file under an id that no file has yet.
    AddLibrary { file_id: FileId, root: SourceRootId, text: String },
    /// Replaces the project graph.
    SetCrateGraph { graph: CrateGraph },
}

/// Mathematical model of a [`ChangeOp`].
pub enum OpModel {
    AddFile { file: u32, root: SourceRootId, text: Seq<char> },
    RemoveFile { file: u32 },
    ChangeFile { file: u32, text: Seq<char> },
    AddLibrary { file: u32, root: SourceRootId, text: Seq<char> },
    SetCrateGraph { graph: CrateGraphModel },
}

impl View for ChangeOp {
    type V = OpModel;

    open spec fn view(&self) -> OpModel {
        match self {
            ChangeOp::AddFile { file_id, root, text } => OpModel::AddFile {
                file: file_id.0,
                root: *root,
                text: text@,
            },
            ChangeOp::RemoveFile { file_id } => OpModel::RemoveFile { file: file_id.0 },
            ChangeOp::ChangeFile { file_id, text } => OpModel::ChangeFile {
                file: file_id.0,
                text: text@,
            },
            ChangeOp::AddLibrary { file_id, root, text } => OpModel::AddLibrary {
                file: file_id.0,
                root: *root,
                text: text@,
            },
            ChangeOp::SetCrateGraph { graph } => OpModel::SetCrateGraph { graph: graph@ },
        }
    }
}

/// What the project knows of a file.
pub struct FileModel {
    pub text: Seq<char>,
    pub root: SourceRootId,
    pub library: bool,
}

/// The text of each of the files `files`.
pub open spec fn file_texts(files: Map<u32, FileModel>) -> Map<u32, Seq<char>> {
    Map::new(|id: u32| files.contains_key(id), |id: u32| files[id].text)
}

/// The files `other` have every library file of `files`, as it is there.
pub open spec fn library_kept(files: Map<u32, FileModel>, other: Map<u32, FileModel>) -> bool {
    forall|id: u32|
        #![trigger other.contains_key(id)]
        #![trigger files.contains_key(id)]
        files.contains_key(id) && files[id].library ==> other.contains_key(id) && other[id]
            == files[id]
}

/// The inputs of the project: its files, by id, and its graph.
pub struct ProjectModel {
    pub files: Map<u32, FileModel>,
    pub graph: CrateGraphModel,
}

impl ProjectModel {
    /// The project without files and crates.
    pub open spec fn empty() -> ProjectModel {
        ProjectModel { files: Map::empty(), graph: CrateGraphModel::empty() }
    }

    /// The file `id` is a workspace file of the project.
    pub open spec fn has_workspace_file(self, id: u32) -> bool {
        self.files.contains_key(id) && !self.files[id].library
    }

    /// The file `id` is a library file of the project.
    pub open spec fn has_library_file(self, id: u32) -> bool {
        self.files.contains_key(id) && self.files[id].library
    }

    /// The text of each file.
    pub open spec fn texts(self) -> Map<u32, Seq<char>> {
        file_texts(self.files)
    }

    /// The project after one operation. An operation on a workspace file
    /// leaves library files alone: where its file is a library file, nothing
    /// changes. A text for a file that the project does not have changes
    /// nothing, and so does a library file under an id that is taken.
    pub open spec fn apply_op(self, op: OpModel) -> ProjectModel {
        match op {
            OpModel::AddFile { file, root, text } => if self.has_library_file(file) {
                self
            } else {
                ProjectModel {
                    files: self.files.insert(file, FileModel { text, root, library: false }),
                    ..self
                }
            },
            OpModel::RemoveFile { file } => if self.has_workspace_file(file) {
                ProjectModel { files: self.files.remove(file), ..self }
            } else {
                self
            },
            OpModel::ChangeFile { file, text } => if self.has_workspace_file(file) {
                ProjectModel {
                    files: self.files.insert(file, FileModel { text, ..self.files[file] }),
                    ..self
                }
            } else {
                self
            },
            OpModel::AddLibrary { file, root, text } => if self.files.contains_key(file) {
                self
            } else {
                ProjectModel {
                    files: self.files.insert(file, FileModel { text, root, library: true }),
                    ..self
                }
            },
            OpModel::SetCrateGraph { graph } => ProjectModel { graph, ..self },
        }
    }

    /// The project after the operations `ops`, applied in order.
    pub open spec fn apply(self, ops: Seq<OpModel>) -> ProjectModel
        decreases ops.len(),
    {
        if ops.len() == 0 {
            self
        } else {
            self.apply(ops.drop_last()).apply_op(ops.last())
        }
    }
}

/// The models of a sequence of operations.
pub open spec fn op_models(ops: Seq<ChangeOp>) -> Seq<OpModel> {
    Seq::new(ops.len(), |i: int| ops[i]@)
}

/// A batch of operations on the project's inputs, applied as one.
#[derive(Debug)]
pub struct AnalysisChange {
    ops: Vec<ChangeOp>,
}

impl View for AnalysisChange {
    type V = Seq<OpModel>;

    closed spec fn view(&self) -> Seq<OpModel> {
        op_models(self.ops@)
    }
}

impl AnalysisChange {
    /// The change without operations.
    pub fn new() -> (change: AnalysisChange)
        ensures
            change@ == Seq::<OpModel>::empty(),
    {
        let change = AnalysisChange { ops: Vec::new() };
        assert(change@ =~= Seq::<OpModel>::empty());
        change
    }

    /// Appends one operation.
    fn push(&mut self, op: ChangeOp)
        ensures
            final(self)@ == old(self)@.push(op@),
    {
        self.ops.push(op);
        assert(self@ =~= old(self)@.push(op@));
    }

    /// Adds the workspace file `file_id` with `text` to the source root
    /// `root`.
    pub fn add_file(&mut self, root: SourceRootId, file_id: FileId, text: String)
        ensures
            final(self)@ == old(self)@.push(OpModel::AddFile { file: file_id.0, root, text: text@ }),
    {
        self.push(ChangeOp::AddFile { file_id, root, text });
    }

    /// Gives the workspace file `file_id` the text `new_text`.
    pub fn change_file(&mut self, file_id: FileId, new_text: String)
        ensures
            final(self)@ == old(self)@.push(
                OpModel::ChangeFile { file: file_id.0, text: new_text@ },
            ),
    {
        self.push(ChangeOp::ChangeFile { file_id, text: new_text });
    }

    /// Removes the workspace file `file_id`.
    pub fn remove_file(&mut self, file_id: FileId)
        ensures
            final(self)@ == old(self)@.push(OpModel::RemoveFile { file: file_id.0 }),
    {
        self.push(ChangeOp::RemoveFile { file_id });
    }

    /// Adds a library file.
    pub fn add_library(&mut self, data: LibraryData)
        ensures
            final(self)@ == old(self)@.push(
                OpModel::AddLibrary { file: data.file_id.0, root: data.root, text: data.text@ },
            ),
    {
        self.push(ChangeOp::AddLibrary { file_id: data.file_id, root: data.root, text: data.text });
    }

    /// Replaces the project graph by `graph`.
    pub fn set_crate_graph(&mut self, graph: CrateGraph)
        ensures
            final(self)@ == old(self)@.push(OpModel::SetCrateGraph { graph: graph@ }),
    {
        self.push(ChangeOp::SetCrateGraph { graph });
    }

    /// Hands out the operations, in order.
    pub fn into_ops(self) -> (ops: Vec<ChangeOp>)
        ensures
            op_models(ops@) == self@,
    {
        self.ops
    }
}

/// An operation never changes what the project knows of a library file.
pub proof fn lemma_library_files_stay(project: ProjectModel, op: OpModel)
    ensures
        library_kept(project.files, project.apply_op(op).files),
{
}

/// A change never changes what the project knows of a library file.
pub proof fn lemma_libraries_are_immutable(project: ProjectModel, ops: Seq<OpModel>)
    ensures
        library_kept(project.files, project.apply(ops).files),
    decreases ops.len(),
{
    if ops.len() > 0 {
        lemma_libraries_are_immutable(project, ops.drop_last());
        lemma_library_files_stay(project.apply(ops.drop_last()), ops.last());
    }
}

} // verus!
