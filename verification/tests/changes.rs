use ra_ide_api::change::ChangeOp;
use ra_ide_api::{AnalysisChange, CrateGraph, CrateId, FileId, LibraryData, SourceRootId};

#[test]
fn change_records_its_operations_in_order() {
    let mut graph = CrateGraph::new();
    graph.add_crate_root(FileId(1));
    let mut change = AnalysisChange::new();
    change.add_file(SourceRootId(2), FileId(1), "one".to_string());
    change.change_file(FileId(1), "uno".to_string());
    change.remove_file(FileId(3));
    change.add_library(LibraryData {
        file_id: FileId(9),
        root: SourceRootId(4),
        text: "lib".to_string(),
    });
    change.set_crate_graph(graph);
    let ops = change.into_ops();
    assert_eq!(ops.len(), 5);
    match &ops[0] {
        ChangeOp::AddFile { file_id, root, text } => {
            assert_eq!((*file_id, *root, text.as_str()), (FileId(1), SourceRootId(2), "one"));
        }
        _ => panic!("the first operation adds a file"),
    }
    match &ops[1] {
        ChangeOp::ChangeFile { file_id, text } => {
            assert_eq!((*file_id, text.as_str()), (FileId(1), "uno"));
        }
        _ => panic!("the second operation changes a file"),
    }
    match &ops[2] {
        ChangeOp::RemoveFile { file_id } => assert_eq!(*file_id, FileId(3)),
        _ => panic!("the third operation removes a file"),
    }
    match &ops[3] {
        ChangeOp::AddLibrary { file_id, root, text } => {
            assert_eq!((*file_id, *root, text.as_str()), (FileId(9), SourceRootId(4), "lib"));
        }
        _ => panic!("the fourth operation adds a library file"),
    }
    match &ops[4] {
        ChangeOp::SetCrateGraph { graph } => {
            assert_eq!(graph.crate_root(CrateId(0)), Some(FileId(1)));
        }
        _ => panic!("the fifth operation sets the graph"),
    }
}

#[test]
fn empty_change_has_no_operations() {
    assert!(AnalysisChange::new().into_ops().is_empty());
}

#[test]
fn crate_graph_numbers_crates_in_order() {
    let mut graph = CrateGraph::new();
    assert_eq!(graph.crate_root(CrateId(0)), None);
    assert_eq!(graph.add_crate_root(FileId(10)), Some(CrateId(0)));
    assert_eq!(graph.add_crate_root(FileId(20)), Some(CrateId(1)));
    assert_eq!(graph.add_crate_root(FileId(10)), Some(CrateId(2)));
    assert_eq!(graph.crate_root(CrateId(0)), Some(FileId(10)));
    assert_eq!(graph.crate_root(CrateId(1)), Some(FileId(20)));
    assert_eq!(graph.crate_root(CrateId(2)), Some(FileId(10)));
    assert_eq!(graph.crate_root(CrateId(3)), None);
    assert_eq!(graph.crate_root(CrateId(u32::MAX)), None);
}

#[test]
fn crate_graph_takes_edges_between_its_crates_only() {
    let mut graph = CrateGraph::new();
    assert!(!graph.add_dep(CrateId(0), CrateId(0)));
    graph.add_crate_root(FileId(1));
    graph.add_crate_root(FileId(2));
    assert!(graph.add_dep(CrateId(0), CrateId(1)));
    assert!(graph.add_dep(CrateId(1), CrateId(0)));
    assert!(!graph.add_dep(CrateId(0), CrateId(2)));
    assert!(!graph.add_dep(CrateId(2), CrateId(0)));
    assert_eq!(graph.dependencies(CrateId(0)), vec![CrateId(1)]);
    assert_eq!(graph.dependencies(CrateId(1)), vec![CrateId(0)]);
    assert_eq!(graph.dependencies(CrateId(2)), Vec::<CrateId>::new());
}
