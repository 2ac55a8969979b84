use pixma::bridge::escl::{job_location, scanner_capabilities_xml, scanner_status_xml, JobBoard};

fn formatted_status(state: &str, job_id: Option<&str>) -> String {
    let jobs_xml = match (state, job_id) {
        ("Processing", Some(id)) => format!(
            r#"
  <scan:Jobs>
    <scan:JobInfo>
      <pwg:JobUri>/eSCL/ScanJobs/{id}</pwg:JobUri>
      <pwg:JobUuid>{id}</pwg:JobUuid>
      <scan:Age>0</scan:Age>
      <pwg:JobState>Processing</pwg:JobState>
      <pwg:ImagesCompleted>0</pwg:ImagesCompleted>
    </scan:JobInfo>
  </scan:Jobs>"#
        ),
        _ => String::new(),
    };
    format!(
        r#"<?xml version="1.0" encoding="UTF-8"?>
<scan:ScannerStatus xmlns:scan="http://schemas.hp.com/imaging/escl/2011/05/03"
                    xmlns:pwg="http://www.pwg.org/schemas/2010/12/sm">
  <pwg:Version>2.0</pwg:Version>
  <pwg:State>{state}</pwg:State>{jobs_xml}
</scan:ScannerStatus>"#
    )
}

#[test]
fn status_documents() {
    for (state, id) in [("Idle", None), ("Idle", Some("j1")), ("Processing", Some("abc")), ("Processing", None)] {
        assert_eq!(scanner_status_xml(state, id), formatted_status(state, id));
    }
}

#[test]
fn capabilities_document_carries_uuid() {
    let xml = scanner_capabilities_xml("1234-uuid");
    assert!(xml.contains("<scan:UUID>1234-uuid</scan:UUID>"));
    assert!(xml.starts_with("<?xml version=\"1.0\" encoding=\"UTF-8\"?>\n<scan:ScannerCapabilities"));
    assert!(xml.ends_with("</scan:ScannerCapabilities>"));
    assert!(xml.contains("<scan:ColorMode>Grayscale8</scan:ColorMode>"));
    assert_eq!(job_location("j-9"), "/eSCL/ScanJobs/j-9");
}

#[test]
fn jobs_serve_each_document_once() {
    let mut b = JobBoard::new();
    assert!(!b.is_scanning());
    b.start_job("a");
    assert!(b.is_scanning());
    assert_eq!(b.status_xml(), formatted_status("Processing", Some("a")));
    b.finish_job("a", Some(vec![1, 2, 3]));
    assert!(!b.is_scanning());
    assert_eq!(b.status_xml(), formatted_status("Idle", None));
    b.start_job("b");
    b.finish_job("b", None);
    assert_eq!(b.take_document("b"), None);
    b.finish_job("c", Some(vec![9]));
    b.finish_job("c", Some(vec![8]));
    assert_eq!(b.take_document("a"), Some(vec![1, 2, 3]));
    assert_eq!(b.take_document("a"), None);
    assert_eq!(b.take_document("c"), Some(vec![8]));
    assert_eq!(b.take_document("c"), None);
}
