use ra_ide_api::{
    AnalysisChange, AnalysisHost, AtomTextEdit, CallInfo, Database, Diagnostic, Documentation,
    FileId, FilePosition, FileRange, FileSystemEdit, LocalEdit, QueryKey, RangeInfo, Severity,
    SourceChange, SourceFileEdit, SourceRootId, Step, TextEdit, TextRange,
};
use relative_path::RelativePathBuf;

#[test]
fn text_range_from_to() {
    let range = TextRange::from_to(3, 8);
    assert_eq!(range.start(), 3);
    assert_eq!(range.end(), 8);
    assert_eq!(range.len(), 5);
    let empty = TextRange::from_to(4, 4);
    assert_eq!(empty.len(), 0);
    assert_eq!(TextRange::from_to(0, u32::MAX).len(), u32::MAX);
    assert_eq!(range, TextRange::from_to(3, 8));
    assert_ne!(range, TextRange::from_to(3, 9));
}

#[test]
fn text_range_offset_len() {
    assert_eq!(TextRange::offset_len(3, 5), Some(TextRange::from_to(3, 8)));
    assert_eq!(TextRange::offset_len(7, 0), Some(TextRange::from_to(7, 7)));
    assert_eq!(
        TextRange::offset_len(u32::MAX - 1, 1),
        Some(TextRange::from_to(u32::MAX - 1, u32::MAX))
    );
    assert_eq!(TextRange::offset_len(u32::MAX, 1), None);
    assert_eq!(TextRange::offset_len(1, u32::MAX), None);
}

#[test]
fn text_range_contains_inclusive() {
    let range = TextRange::from_to(3, 8);
    assert!(!range.contains_inclusive(2));
    assert!(range.contains_inclusive(3));
    assert!(range.contains_inclusive(5));
    assert!(range.contains_inclusive(8));
    assert!(!range.contains_inclusive(9));
}

#[test]
fn text_edit_collects_replacements_in_order() {
    let mut edit = TextEdit::new();
    assert_eq!(edit.len(), 0);
    edit.replace(TextRange::from_to(1, 4), "abc".to_string());
    edit.delete(TextRange::from_to(6, 9));
    edit.insert(12, "xyz".to_string());
    assert_eq!(edit.len(), 3);
    let atoms = edit.into_atoms();
    assert_eq!(atoms.len(), 3);
    assert_eq!(atoms[0].delete, TextRange::from_to(1, 4));
    assert_eq!(atoms[0].insert, "abc");
    assert_eq!(atoms[1].delete, TextRange::from_to(6, 9));
    assert_eq!(atoms[1].insert, "");
    assert_eq!(atoms[2].delete, TextRange::from_to(12, 12));
    assert_eq!(atoms[2].insert, "xyz");
}

fn join_lines_edit(cursor: Option<u32>) -> LocalEdit {
    let mut edit = TextEdit::new();
    edit.replace(TextRange::from_to(5, 7), " ".to_string());
    LocalEdit { label: "join lines".to_string(), edit, cursor_position: cursor }
}

#[test]
fn source_change_from_local_edit() {
    let change = SourceChange::from_local_edit(FileId(3), join_lines_edit(Some(6)));
    assert_eq!(change.label, "join lines");
    assert_eq!(change.source_file_edits.len(), 1);
    assert_eq!(change.source_file_edits[0].file_id, FileId(3));
    assert!(change.file_system_edits.is_empty());
    assert_eq!(
        change.cursor_position,
        Some(FilePosition { file_id: FileId(3), offset: 6 })
    );
    let SourceChange { mut source_file_edits, .. } = change;
    let atoms = source_file_edits.pop().unwrap().edit.into_atoms();
    assert_eq!(atoms.len(), 1);
    assert_eq!(atoms[0].delete, TextRange::from_to(5, 7));
    assert_eq!(atoms[0].insert, " ");
}

#[test]
fn source_change_without_a_cursor() {
    let change = SourceChange::from_local_edit(FileId(0), join_lines_edit(None));
    assert_eq!(change.cursor_position, None);
    assert_eq!(change.source_file_edits.len(), 1);
    assert_eq!(change.source_file_edits[0].file_id, FileId(0));
}

#[test]
fn source_change_from_optional_edit() {
    assert!(SourceChange::from_optional_edit(FileId(1), None).is_none());
    let change = SourceChange::from_optional_edit(FileId(1), Some(join_lines_edit(Some(2))));
    let change = change.unwrap();
    assert_eq!(change.label, "join lines");
    assert_eq!(
        change.cursor_position,
        Some(FilePosition { file_id: FileId(1), offset: 2 })
    );
    assert_eq!(change.source_file_edits[0].edit.len(), 1);
}

#[test]
fn range_info_new() {
    let info = RangeInfo::new(TextRange::from_to(1, 2), vec![7, 8]);
    assert_eq!(info.range, TextRange::from_to(1, 2));
    assert_eq!(info.info, vec![7, 8]);
}

#[test]
fn file_system_edits_carry_their_paths() {
    let create = FileSystemEdit::CreateFile {
        source_root: SourceRootId(2),
        path: RelativePathBuf::from("foo/bar.rs"),
    };
    let mv = FileSystemEdit::MoveFile {
        src: FileId(4),
        dst_source_root: SourceRootId(2),
        dst_path: RelativePathBuf::from("foo/baz.rs"),
    };
    match create {
        FileSystemEdit::CreateFile { source_root, path } => {
            assert_eq!(source_root, SourceRootId(2));
            assert_eq!(path.as_str(), "foo/bar.rs");
        }
        FileSystemEdit::MoveFile { .. } => panic!("a file is created"),
    }
    match mv {
        FileSystemEdit::MoveFile { src, dst_source_root, dst_path } => {
            assert_eq!(src, FileId(4));
            assert_eq!(dst_source_root, SourceRootId(2));
            assert_eq!(dst_path.file_name(), Some("baz.rs"));
        }
        FileSystemEdit::CreateFile { .. } => panic!("a file is moved"),
    }
}

#[test]
fn values_of_findings() {
    let fix = SourceChange {
        label: "fix".to_string(),
        source_file_edits: vec![SourceFileEdit { file_id: FileId(1), edit: TextEdit::new() }],
        file_system_edits: vec![FileSystemEdit::CreateFile {
            source_root: SourceRootId(0),
            path: RelativePathBuf::from("m.rs"),
        }],
        cursor_position: None,
    };
    let diagnostic = Diagnostic {
        message: "unresolved module".to_string(),
        range: TextRange::from_to(0, 6),
        fix: Some(fix),
        severity: Severity::Error,
    };
    assert_eq!(diagnostic.severity, Severity::Error);
    assert_ne!(diagnostic.severity, Severity::WeakWarning);
    assert_eq!(diagnostic.fix.unwrap().file_system_edits.len(), 1);
    let call = CallInfo {
        label: "fn f(a: u32, b: u32)".to_string(),
        doc: Some(Documentation("adds".to_string())),
        parameters: vec!["a".to_string(), "b".to_string()],
        active_parameter: Some(1),
    };
    assert_eq!(call.parameters[call.active_parameter.unwrap()], "b");
    assert_eq!(call.doc.unwrap().0, "adds");
    let range = FileRange { file_id: FileId(1), range: TextRange::from_to(2, 3) };
    assert_eq!(range, FileRange { file_id: FileId(1), range: TextRange::from_to(2, 3) });
    let atom = AtomTextEdit { delete: TextRange::from_to(0, 0), insert: "x".to_string() };
    assert_eq!(atom.insert, "x");
}

fn no_pass(_: QueryKey, _: &Vec<String>) -> Step {
    Step::Done(String::new())
}

type Db = Database<fn(QueryKey, &Vec<String>) -> Step>;

const FILES: u32 = 4;

/// Where `name` occurs in the files 1 to `FILES`.
fn find_all_refs(db: &Db, name: &str) -> Vec<(FileId, TextRange)> {
    let mut refs = Vec::new();
    for id in 1..=FILES {
        if let Some(text) = db.get_input(FileId(id)) {
            for (at, _) in text.match_indices(name) {
                let range = TextRange::from_to(at as u32, (at + name.len()) as u32);
                refs.push((FileId(id), range));
            }
        }
    }
    refs
}

/// The change that renames `name` to `new_name` wherever it occurs.
fn rename(db: &Db, name: &str, new_name: &str) -> Option<SourceChange> {
    let refs = find_all_refs(db, name);
    if refs.is_empty() {
        return None;
    }
    let mut edits: Vec<SourceFileEdit> = Vec::new();
    for (file_id, range) in refs {
        if edits.last().map(|e| e.file_id) != Some(file_id) {
            edits.push(SourceFileEdit { file_id, edit: TextEdit::new() });
        }
        edits.last_mut().unwrap().edit.replace(range, new_name.to_string());
    }
    Some(SourceChange {
        label: "rename".to_string(),
        source_file_edits: edits,
        file_system_edits: Vec::new(),
        cursor_position: None,
    })
}

#[test]
fn rename_across_three_files() {
    let mut host: AnalysisHost<fn(QueryKey, &Vec<String>) -> Step> = AnalysisHost::new(no_pass);
    let mut change = AnalysisChange::new();
    change.add_file(SourceRootId(0), FileId(1), "fn foo() {}".to_string());
    change.add_file(SourceRootId(0), FileId(2), "fn main() { foo() }".to_string());
    change.add_file(SourceRootId(0), FileId(3), "use a::foo;".to_string());
    change.add_file(SourceRootId(0), FileId(4), "fn other() {}".to_string());
    host.apply_change(change);

    let s = host.analysis();
    let before = s.with_db(&host, |db| find_all_refs(db, "foo")).unwrap();
    assert_eq!(
        before,
        vec![
            (FileId(1), TextRange::from_to(3, 6)),
            (FileId(2), TextRange::from_to(12, 15)),
            (FileId(3), TextRange::from_to(7, 10)),
        ]
    );
    let change = s.with_db(&host, |db| rename(db, "foo", "bar")).unwrap().unwrap();
    let touched: Vec<FileId> = change.source_file_edits.iter().map(|e| e.file_id).collect();
    assert_eq!(touched, vec![FileId(1), FileId(2), FileId(3)]);
    assert!(change.file_system_edits.is_empty());

    // The client applies the edits and feeds the new texts back.
    let mut feedback = AnalysisChange::new();
    for SourceFileEdit { file_id, edit } in change.source_file_edits {
        let mut text = s.file_text(&host, file_id).unwrap().unwrap();
        let mut atoms = edit.into_atoms();
        atoms.sort_by_key(|a| a.delete.start());
        for atom in atoms.iter().rev() {
            let (start, end) = (atom.delete.start() as usize, atom.delete.end() as usize);
            text.replace_range(start..end, &atom.insert);
        }
        feedback.change_file(file_id, text);
    }
    host.apply_change(feedback);

    assert!(s.with_db(&host, |db| find_all_refs(db, "bar")).is_err());
    let s = host.analysis();
    let after = s.with_db(&host, |db| find_all_refs(db, "bar")).unwrap();
    assert_eq!(after, before);
    assert!(s.with_db(&host, |db| find_all_refs(db, "foo")).unwrap().is_empty());
    assert_eq!(s.file_text(&host, FileId(2)), Ok(Some("fn main() { bar() }".to_string())));
    assert_eq!(s.file_text(&host, FileId(4)), Ok(Some("fn other() {}".to_string())));
    assert!(s.with_db(&host, |db| rename(db, "nowhere", "x")).unwrap().is_none());
}
