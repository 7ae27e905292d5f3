use paper_master::ingest::{
    derive_title, file_name_of, health_message, plan_ingestion, success_message, IngestError,
    IngestPlan, Selection,
};

#[test]
fn file_name_is_last_component() {
    assert_eq!(
        file_name_of(&String::from("/a/b/c.pdf")),
        Some(String::from("c.pdf"))
    );
    assert_eq!(
        file_name_of(&String::from("C:\\x\\y.pdf")),
        Some(String::from("y.pdf"))
    );
    assert_eq!(
        file_name_of(&String::from("bare.pdf")),
        Some(String::from("bare.pdf"))
    );
    assert_eq!(file_name_of(&String::from("/a/b/")), None);
    assert_eq!(file_name_of(&String::from("")), None);
}

#[test]
fn title_is_the_stem() {
    assert_eq!(derive_title(&String::from("paper_1.pdf")), "paper_1");
    assert_eq!(derive_title(&String::from("archive.tar.gz")), "archive.tar");
    assert_eq!(derive_title(&String::from("noext")), "noext");
    assert_eq!(derive_title(&String::from(".pdf")), ".pdf");
    assert_eq!(derive_title(&String::from("a.")), "a");
    assert_eq!(derive_title(&String::from("")), "Untitled");
}

#[test]
fn cancellation_is_a_quiet_no_op() {
    let taken: Vec<String> = Vec::new();
    let plan = plan_ingestion(&Selection::Cancelled, &String::from("/data/papers"), &taken);
    assert!(matches!(plan, IngestPlan::NoFileSelected));
}

#[test]
fn url_selection_is_unsupported() {
    let taken: Vec<String> = Vec::new();
    let plan = plan_ingestion(
        &Selection::Url(String::from("https://example.org/paper.pdf")),
        &String::from("/data/papers"),
        &taken,
    );
    match plan {
        IngestPlan::Rejected(e) => assert_eq!(e, IngestError::UnsupportedSource),
        _ => panic!("a URL selection must be rejected"),
    }
}

#[test]
fn unnameable_source_is_invalid_input() {
    let taken: Vec<String> = Vec::new();
    let plan = plan_ingestion(
        &Selection::Local(String::from("/src/dir/")),
        &String::from("/data/papers"),
        &taken,
    );
    match plan {
        IngestPlan::Rejected(e) => assert_eq!(e, IngestError::InvalidInput),
        _ => panic!("a source without a file name must be rejected"),
    }
}

#[test]
fn local_selection_plans_copy_and_record() {
    let taken = vec![String::from("paper.pdf")];
    let plan = plan_ingestion(
        &Selection::Local(String::from("/src/paper.pdf")),
        &String::from("/data/papers"),
        &taken,
    );
    match plan {
        IngestPlan::Store { dest_name, dest_path, title } => {
            assert_eq!(dest_name, "paper_1.pdf");
            assert_eq!(dest_path, "/data/papers/paper_1.pdf");
            assert_eq!(title, "paper_1");
        }
        _ => panic!("a nameable local selection must plan a store"),
    }
}

#[test]
fn error_messages() {
    assert_eq!(
        IngestError::UnsupportedSource.message(),
        "URL selection not supported"
    );
    assert_eq!(IngestError::InvalidInput.message(), "Invalid file name");
    assert_eq!(IngestError::StorageInit.message(), "Failed to prepare storage");
    assert_eq!(IngestError::Copy.message(), "Copy failed");
    assert_eq!(IngestError::StorageWrite.message(), "Database insert failed");
    assert_eq!(
        IngestError::StorageRead.message(),
        "Failed to read from database"
    );
}

#[test]
fn success_message_names_the_title() {
    assert_eq!(
        success_message(&String::from("paper_1")),
        "Paper added successfully: paper_1"
    );
}

#[test]
fn health_message_reports_the_count() {
    assert_eq!(health_message(0), "Database connected. Papers stored: 0");
    assert_eq!(health_message(12), "Database connected. Papers stored: 12");
}
