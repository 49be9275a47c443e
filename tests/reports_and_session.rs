use radiology_worklist::dates::{Date, TimeOfDay};
use radiology_worklist::report::{
    compose_report, new_report, stow_body, stow_content_type, uid_from_uuid, ReportAuthor, SubmissionTime,
};
use radiology_worklist::session::{login, report_action_offered, Authorized, Credentials, Route};
use radiology_worklist::study::{StudyDetails, StudyRecord};

fn details(uid: &str, manufacturer: Option<&str>) -> StudyDetails {
    StudyDetails {
        study: StudyRecord {
            patient_id: "ID100".to_string(),
            patient_name: "SMITH^JOHN".to_string(),
            accession_number: "A77".to_string(),
            modalities: vec!["CT".to_string()],
            description: None,
            source_ae: None,
            study_date: Date { year: 2024, month: 6, day: 1 },
            study_time: TimeOfDay { hour: 8, minute: 5, second: 9 },
            study_instance_uid: uid.to_string(),
        },
        study_id: Some("S1".to_string()),
        patient_birth_date: None,
        patient_sex: Some("M".to_string()),
        manufacturer: manufacturer.map(|m| m.to_string()),
        referring_physician_name: None,
    }
}

fn author() -> ReportAuthor {
    ReportAuthor { organization: "General Hospital".to_string(), observer_name: "DOE^ALEX".to_string() }
}

fn now() -> SubmissionTime {
    SubmissionTime { date: Date { year: 2024, month: 6, day: 10 }, time: TimeOfDay { hour: 14, minute: 3, second: 0 } }
}

fn is_uuid_oid(s: &str) -> bool {
    let Some(rest) = s.strip_prefix("2.25.") else { return false };
    !rest.is_empty() && rest.chars().all(|c| c.is_ascii_digit()) && (rest == "0" || !rest.starts_with('0'))
}

#[test]
fn report_keeps_study_uid_and_text() {
    let doc = compose_report(&details("1.2.840.X", Some("ACME")), "Normal study.", &author(), 5, 6, now());
    assert_eq!(doc.study_instance_uid, "1.2.840.X");
    assert_eq!(doc.text_value, "Normal study.");
    assert_eq!(doc.value_type, "TEXT");
    assert_eq!(doc.modality, "SR");
    assert_eq!(doc.sop_class_uid, "1.2.840.10008.5.1.4.1.1.88.11");
    assert_eq!(doc.completion_flag, "COMPLETE");
    assert_eq!(doc.verification_flag, "VERIFIED");
    assert_eq!(doc.manufacturer, "ACME");
}

#[test]
fn report_copies_dates_and_stamps() {
    let doc = compose_report(&details("1.2", None), "x", &author(), 5, 6, now());
    assert_eq!(doc.study_date, "20240601");
    assert_eq!(doc.study_time, "080509");
    assert_eq!(doc.content_date, "20240610");
    assert_eq!(doc.content_time, "140300");
    assert_eq!(doc.verifying_observer.verification_datetime, "20240610140300");
    assert_eq!(doc.verifying_observer.organization, "General Hospital");
    assert_eq!(doc.patient_name, "SMITH^JOHN");
    assert_eq!(doc.patient_sex, "M");
    assert_eq!(doc.study_id, "S1");
}

#[test]
fn missing_manufacturer_gives_empty_element() {
    let doc = compose_report(&details("1.2", None), "x", &author(), 1, 2, now());
    assert_eq!(doc.manufacturer, "");
    assert_eq!(doc.patient_birth_date, "");
    assert_eq!(doc.referring_physician_name, "");
}

#[test]
fn uids_are_decimal_under_2_25() {
    assert_eq!(uid_from_uuid(0), "2.25.0");
    assert_eq!(uid_from_uuid(1234567890), "2.25.1234567890");
    assert_eq!(uid_from_uuid(u128::MAX), "2.25.340282366920938463463374607431768211455");
    let doc = compose_report(&details("1.2", None), "x", &author(), 10, 11, now());
    assert_eq!(doc.sop_instance_uid, "2.25.10");
    assert_eq!(doc.series_instance_uid, "2.25.11");
}

#[test]
fn fresh_reports_get_distinct_valid_uids() {
    let a = new_report(&details("1.2", None), "x", &author(), now());
    let b = new_report(&details("1.2", None), "x", &author(), now());
    for uid in [&a.sop_instance_uid, &a.series_instance_uid, &b.sop_instance_uid, &b.series_instance_uid] {
        assert!(is_uuid_oid(uid), "{}", uid);
    }
    assert_ne!(a.sop_instance_uid, a.series_instance_uid);
    assert_ne!(a.sop_instance_uid, b.sop_instance_uid);
    assert_ne!(a.series_instance_uid, b.series_instance_uid);
    assert_eq!(a.study_instance_uid, "1.2");
}

#[test]
fn submission_body_wraps_one_array() {
    let body = stow_body("{\"0040A160\":{\"vr\":\"UT\",\"Value\":[\"Normal study.\"]}}");
    assert_eq!(
        body,
        "\r\n--myboundary\r\nContent-Type: application/dicom+json\r\n\r\n[{\"0040A160\":{\"vr\":\"UT\",\"Value\":[\"Normal study.\"]}}]\r\n--myboundary--"
    );
    assert_eq!(body.matches('[').count(), 2);
    assert_eq!(stow_content_type(), "multipart/related; type=\"application/dicom+json\"; boundary=myboundary");
}

fn creds(u: &str, p: &str) -> Credentials {
    Credentials { username: u.to_string(), password: p.to_string() }
}

#[test]
fn login_gate() {
    let doctor = creds("doc", "pw1");
    let radiologist = creds("rad", "pw2");
    let r = login(&creds("doc", "pw1"), &doctor, &radiologist);
    assert!(r.authorized && !r.privileged);
    let r = login(&creds("rad", "pw2"), &doctor, &radiologist);
    assert!(r.authorized && r.privileged);
    let r = login(&creds("rad", "pw1"), &doctor, &radiologist);
    assert!(!r.authorized && !r.privileged);
    let session = Authorized::new();
    assert!(!session.inner);
    assert!(session.after_login(login(&creds("rad", "pw2"), &doctor, &radiologist)).inner);
    assert!(!session.after_login(login(&creds("doc", "pw1"), &doctor, &radiologist)).inner);
    assert!(!session.reduce(true).reduce(false).inner);
}

#[test]
fn routes() {
    assert!(matches!(Route::recognize("/"), Route::Login));
    assert!(matches!(Route::recognize("/login"), Route::Login));
    assert!(matches!(Route::recognize("/search"), Route::Search));
    match Route::recognize("/reporting/1.2.840.X") {
        Route::Reporting { uid } => assert_eq!(uid, "1.2.840.X"),
        other => panic!("{:?}", other),
    }
    assert!(matches!(Route::recognize("/reporting/"), Route::NotFound));
    assert!(matches!(Route::recognize("/reporting/a/b"), Route::NotFound));
    assert!(matches!(Route::recognize("/elsewhere"), Route::NotFound));
    assert_eq!(Route::Reporting { uid: "9.8".to_string() }.path(), "/reporting/9.8");
    assert_eq!(Route::Search.path(), "/search");
}

#[test]
fn report_action_needs_privilege_and_no_report_yet() {
    let d = details("1.2", None);
    assert!(report_action_offered(&Authorized { inner: true }, &d.study));
    assert!(!report_action_offered(&Authorized { inner: false }, &d.study));
    let mut reported = details("1.3", None).study;
    reported.modalities.push("SR".to_string());
    assert!(!report_action_offered(&Authorized { inner: true }, &reported));
}
