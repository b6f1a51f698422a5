//! Incremental, cancelable query substrate for an interactive code-analysis
//! backend.
//!
//! A host owns the database: the project's files and graph, a revision
//! counter, and a memo table of the values that a pass derives from the
//! files. A change is a batch of operations on the inputs; applying one
//! moves the database to the next revision. Queries are asked through
//! snapshots, at once or step by step; a snapshot taken before a change gets
//! the stale signal at the next checkpoint of every query, and ever after.
//!
//! What a query yields is the value that a computation from scratch over
//! the current inputs yields, whatever the memo table holds: that is the
//! contract of [`Database::compute`] and [`Database::advance`], and the
//! module [`laws`] states what follows from it.

pub mod base;
pub mod cache;
pub mod change;
pub mod db;
pub mod edit;
pub mod host;
pub mod inv;
pub mod laws;
pub mod pass;
pub mod query;
pub mod task;

pub use crate::base::{
    Cancelable, Canceled, CrateId, FileId, FilePosition, FileRange, SourceRootId, TextRange,
    TextUnit,
};
pub use crate::change::{AnalysisChange, CrateGraph, LibraryData};
pub use crate::db::Database;
pub use crate::edit::{
    AtomTextEdit, CallInfo, Diagnostic, Documentation, FileSystemEdit, LocalEdit, RangeInfo,
    Severity, SourceChange, SourceFileEdit, TextEdit,
};
pub use crate::host::{Analysis, AnalysisHost};
pub use crate::pass::{QueryKey, Step};
pub use crate::query::{FileSymbol, NavigationTarget, Query, SymbolKind};
pub use crate::task::{Progress, Task};
