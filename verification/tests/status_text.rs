use internotes::note::Status;

#[test]
fn a_status_is_written_under_its_name() {
    assert_eq!(Status::Active.as_str(), "Active");
    assert_eq!(Status::Archived.as_str(), "Archived");
    assert_eq!(Status::Completed.as_str(), "Completed");
}

#[test]
fn a_status_is_read_whatever_the_case() {
    assert_eq!(Status::from_text("Active"), Some(Status::Active));
    assert_eq!(Status::from_text("active"), Some(Status::Active));
    assert_eq!(Status::from_text("ACTIVE"), Some(Status::Active));
    assert_eq!(Status::from_text("aRcHiVeD"), Some(Status::Archived));
    assert_eq!(Status::from_text("Completed"), Some(Status::Completed));
}

#[test]
fn a_text_that_names_no_status_is_not_read() {
    assert_eq!(Status::from_text(""), None);
    assert_eq!(Status::from_text("Activ"), None);
    assert_eq!(Status::from_text("Active "), None);
    assert_eq!(Status::from_text("Actives"), None);
    assert_eq!(Status::from_text("Done"), None);
    assert_eq!(Status::from_text("\u{212A}"), None);
    assert_eq!(Status::from_text("act\u{131}ve"), None);
}

#[test]
fn every_status_is_read_back_from_its_name() {
    for status in [Status::Active, Status::Archived, Status::Completed] {
        assert_eq!(Status::from_text(status.as_str()), Some(status));
    }
}
