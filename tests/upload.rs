use document_upload::description::FormatError;
use document_upload::tally::{failure_notice, UploadTally};
use document_upload::upload::{
    DocumentUpload, Phase, UploadAction, UploadError, UploadEvent, DESCRIPTION_FILE,
};

fn upload_file(a: &UploadAction) -> Option<(String, String, String)> {
    match a {
        UploadAction::UploadFile { file, name, parent } => {
            Some((file.clone(), name.clone(), parent.clone()))
        }
        _ => None,
    }
}

fn begin(text: &str) -> (DocumentUpload, UploadAction) {
    let mut u = DocumentUpload::new();
    assert!(matches!(u.pending_action(), UploadAction::ReadDescription));
    let a = u.step(UploadEvent::DescriptionRead(text.to_string()));
    (u, a)
}

#[test]
fn end_to_end_one_folder() {
    let (mut u, a) = begin("Name: Report\nCategory: Finance");
    match a {
        UploadAction::CreateContainer { name } => assert_eq!(name, "Report"),
        _ => panic!("expected a container creation"),
    }
    let a = u.step(UploadEvent::ContainerCreated("c1".to_string()));
    assert!(matches!(a, UploadAction::ListFolder));
    let listing = vec![
        "a.pdf".to_string(),
        DESCRIPTION_FILE.to_string(),
        "b.pdf".to_string(),
    ];
    let a = u.step(UploadEvent::FolderListed(listing));
    assert_eq!(
        upload_file(&a),
        Some(("a.pdf".to_string(), "Report".to_string(), "c1".to_string()))
    );
    let a = u.step(UploadEvent::FileUploaded(true));
    assert_eq!(
        upload_file(&a),
        Some(("b.pdf".to_string(), "Report".to_string(), "c1".to_string()))
    );
    let a = u.step(UploadEvent::FileUploaded(true));
    match a {
        UploadAction::Finish { container } => assert_eq!(container, "c1"),
        _ => panic!("expected the upload to finish"),
    }
    assert_eq!(u.phase(), Phase::Done);

    let mut t = UploadTally::new();
    t.record("doc1".to_string(), true);
    assert_eq!(t.uploaded(), 1);
    assert!(t.failed().is_empty());
    let notices = t.notices();
    assert_eq!(notices.len(), 1);
    assert_eq!(notices[0].summary, "Upload summary");
    assert_eq!(notices[0].body, "1 document uploaded");
}

#[test]
fn counts_one_upload_per_file() {
    let (mut u, _) = begin("N: doc\nC: cat");
    u.step(UploadEvent::ContainerCreated("id".to_string()));
    let names: Vec<String> = (0..5).map(|i| format!("f{}", i)).collect();
    let mut a = u.step(UploadEvent::FolderListed(names.clone()));
    let mut uploaded = Vec::new();
    while let Some((file, name, parent)) = upload_file(&a) {
        assert_eq!(name, "doc");
        assert_eq!(parent, "id");
        uploaded.push(file);
        a = u.step(UploadEvent::FileUploaded(true));
    }
    assert_eq!(uploaded, names);
    assert!(matches!(a, UploadAction::Finish { .. }));
}

#[test]
fn folder_with_only_description_is_done_after_listing() {
    let (mut u, _) = begin("N: doc\nC: cat");
    u.step(UploadEvent::ContainerCreated("id".to_string()));
    let a = u.step(UploadEvent::FolderListed(vec![DESCRIPTION_FILE.to_string()]));
    assert!(matches!(a, UploadAction::Finish { .. }));
}

#[test]
fn refused_upload_stops_the_folder() {
    let (mut u, a) = begin("N: doc\nC: cat");
    assert!(matches!(a, UploadAction::CreateContainer { .. }));
    u.step(UploadEvent::ContainerCreated("id".to_string()));
    let files = vec!["x".to_string(), "y".to_string(), "z".to_string()];
    u.step(UploadEvent::FolderListed(files));
    u.step(UploadEvent::FileUploaded(true));
    let a = u.step(UploadEvent::FileUploaded(false));
    assert!(matches!(a, UploadAction::Fail { error: UploadError::Remote }));
    let a = u.step(UploadEvent::FileUploaded(true));
    assert!(matches!(a, UploadAction::Fail { error: UploadError::Remote }));
    assert_eq!(u.phase(), Phase::Failed(UploadError::Remote));
}

#[test]
fn malformed_description_fails_with_format_error() {
    let (u, a) = begin("Name Report\nCategory: Finance");
    assert!(matches!(
        a,
        UploadAction::Fail { error: UploadError::Format(FormatError::MalformedNameLine) }
    ));
    assert_eq!(u.phase(), Phase::Failed(UploadError::Format(FormatError::MalformedNameLine)));
}

#[test]
fn unreadable_files_fail_with_io_error() {
    let mut u = DocumentUpload::new();
    let a = u.step(UploadEvent::DescriptionUnreadable);
    assert!(matches!(a, UploadAction::Fail { error: UploadError::Io }));

    let (mut u, _) = begin("N: d\nC: c");
    u.step(UploadEvent::ContainerCreated("id".to_string()));
    let a = u.step(UploadEvent::FolderUnreadable);
    assert!(matches!(a, UploadAction::Fail { error: UploadError::Io }));

    let (mut u, _) = begin("N: d\nC: c");
    u.step(UploadEvent::ContainerCreated("id".to_string()));
    u.step(UploadEvent::FolderListed(vec!["f".to_string()]));
    let a = u.step(UploadEvent::FileUnreadable);
    assert!(matches!(a, UploadAction::Fail { error: UploadError::Io }));
}

#[test]
fn refused_container_fails_with_remote_error() {
    let (mut u, _) = begin("N: d\nC: c");
    let a = u.step(UploadEvent::ContainerRefused);
    assert!(matches!(a, UploadAction::Fail { error: UploadError::Remote }));
}

#[test]
fn out_of_turn_event_is_ignored() {
    let mut u = DocumentUpload::new();
    let a = u.step(UploadEvent::FileUploaded(true));
    assert!(matches!(a, UploadAction::ReadDescription));
    assert_eq!(u.phase(), Phase::ReadingDescription);
}

#[test]
fn empty_round_reports_zero() {
    let t = UploadTally::new();
    assert_eq!(t.uploaded(), 0);
    let notices = t.notices();
    assert_eq!(notices.len(), 1);
    assert_eq!(notices[0].summary, "Upload summary");
    assert_eq!(notices[0].body, "0 document uploaded");
}

#[test]
fn round_with_failures() {
    let mut t = UploadTally::new();
    t.record("/a".to_string(), false);
    t.record("/b".to_string(), true);
    t.record("/c".to_string(), false);
    for _ in 0..9 {
        t.record("/ok".to_string(), true);
    }
    assert_eq!(t.uploaded(), 10);
    assert_eq!(t.failed(), &vec!["/a".to_string(), "/c".to_string()]);
    let notices = t.notices();
    assert_eq!(notices.len(), 3);
    assert_eq!(notices[0].summary, "Upload failed");
    assert_eq!(notices[0].body, "Failed to upload document /a");
    assert_eq!(notices[1].body, "Failed to upload document /c");
    assert_eq!(notices[2].body, "10 document uploaded");
    assert_eq!(t.summary_notice().body, "10 document uploaded");
}

#[test]
fn failure_notice_names_the_folder() {
    let n = failure_notice("/home/u/doc1");
    assert_eq!(n.summary, "Upload failed");
    assert_eq!(n.body, "Failed to upload document /home/u/doc1");
}
