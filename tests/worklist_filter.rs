use radiology_worklist::dates::{Date, TimeOfDay};
use radiology_worklist::filter::{filter, study_matches_filters, AbsentPolicy, ClientFilters};
use radiology_worklist::study::StudyRecord;

fn study(uid: &str, id: &str, name: &str, modalities: &[&str], description: Option<&str>) -> StudyRecord {
    StudyRecord {
        patient_id: id.to_string(),
        patient_name: name.to_string(),
        accession_number: format!("ACC-{}", uid),
        modalities: modalities.iter().map(|m| m.to_string()).collect(),
        description: description.map(|d| d.to_string()),
        source_ae: Some("CT_SCANNER1".to_string()),
        study_date: Date { year: 2024, month: 6, day: 1 },
        study_time: TimeOfDay { hour: 9, minute: 30, second: 0 },
        study_instance_uid: uid.to_string(),
    }
}

fn uids(studies: &[StudyRecord]) -> Vec<String> {
    studies.iter().map(|s| s.study_instance_uid.clone()).collect()
}

fn sample() -> Vec<StudyRecord> {
    vec![
        study("1.1", "ID100", "SMITH^JOHN", &["CT"], Some("CHEST CT")),
        study("1.2", "ID200", "DOE^JANE", &["CTA"], Some("ANGIO")),
        study("1.3", "ID101", "SMITHERS^ANN", &["MR", "SR"], None),
    ]
}

#[test]
fn modality_filter_is_exact_membership() {
    let studies = vec![study("a", "1", "X", &["CT"], None), study("b", "2", "Y", &["CTA"], None)];
    let mut f = ClientFilters::new();
    f.modality = "CT".to_string();
    assert_eq!(uids(&filter(&studies, &f)), vec!["a".to_string()]);
}

#[test]
fn modality_filter_is_upper_cased() {
    let mut f = ClientFilters::new();
    f.modality = "ct".to_string();
    assert_eq!(uids(&filter(&sample(), &f)), vec!["1.1".to_string()]);
}

#[test]
fn empty_filters_keep_every_study() {
    let studies = sample();
    let f = ClientFilters::new();
    assert_eq!(uids(&filter(&studies, &f)), uids(&studies));
}

#[test]
fn empty_filters_keep_studies_without_description() {
    let studies = sample();
    let mut f = ClientFilters::new();
    f.absent = AbsentPolicy::Exclude;
    assert!(study_matches_filters(&studies[2], &f));
}

#[test]
fn patient_id_filter_is_case_sensitive_substring() {
    let mut f = ClientFilters::new();
    f.patient_id = "ID10".to_string();
    assert_eq!(uids(&filter(&sample(), &f)), vec!["1.1".to_string(), "1.3".to_string()]);
    f.patient_id = "id10".to_string();
    assert!(filter(&sample(), &f).is_empty());
}

#[test]
fn patient_name_filter_ignores_case() {
    let mut f = ClientFilters::new();
    f.patient_name = "Smith".to_string();
    assert_eq!(uids(&filter(&sample(), &f)), vec!["1.1".to_string(), "1.3".to_string()]);
}

#[test]
fn accession_filter_is_substring() {
    let mut f = ClientFilters::new();
    f.accession_number = "ACC-1.2".to_string();
    assert_eq!(uids(&filter(&sample(), &f)), vec!["1.2".to_string()]);
}

#[test]
fn description_filter_upper_cases_and_excludes_absent() {
    let mut f = ClientFilters::new();
    f.description = "chest".to_string();
    assert_eq!(uids(&filter(&sample(), &f)), vec!["1.1".to_string()]);
    f.description = "A".to_string();
    assert_eq!(uids(&filter(&sample(), &f)), vec!["1.2".to_string()]);
}

#[test]
fn description_filter_can_include_absent() {
    let mut f = ClientFilters::new();
    f.description = "A".to_string();
    f.absent = AbsentPolicy::Include;
    assert_eq!(uids(&filter(&sample(), &f)), vec!["1.2".to_string(), "1.3".to_string()]);
}

#[test]
fn source_ae_filter_excludes_absent() {
    let mut studies = sample();
    studies[1].source_ae = None;
    let mut f = ClientFilters::new();
    f.source_ae = "scanner".to_string();
    assert_eq!(uids(&filter(&studies, &f)), vec!["1.1".to_string(), "1.3".to_string()]);
}

#[test]
fn filters_combine_by_and() {
    let mut f = ClientFilters::new();
    f.patient_name = "smith".to_string();
    f.modality = "MR".to_string();
    assert_eq!(uids(&filter(&sample(), &f)), vec!["1.3".to_string()]);
}

#[test]
fn filter_output_is_subset_of_input() {
    let studies = sample();
    let mut f = ClientFilters::new();
    f.patient_id = "ID".to_string();
    f.source_ae = "CT".to_string();
    let out = filter(&studies, &f);
    let all = uids(&studies);
    assert_eq!(out.len(), 3);
    for s in &out {
        assert!(all.contains(&s.study_instance_uid));
    }
}

#[test]
fn filter_on_empty_list() {
    let mut f = ClientFilters::new();
    f.patient_id = "ID".to_string();
    assert!(filter(&Vec::new(), &f).is_empty());
}

#[test]
fn display_forms_of_name_and_modalities() {
    let s = study("9", "ID9", " SMITH^JOHN^ ", &["CT", "SR", "MR"], None);
    assert_eq!(s.display_name(), "SMITH JOHN");
    assert_eq!(s.modalities_text(), "CT, SR, MR");
    let single = study("8", "ID8", "DOE", &["US"], None);
    assert_eq!(single.display_name(), "DOE");
    assert_eq!(single.modalities_text(), "US");
    let none = study("7", "ID7", "", &[], None);
    assert_eq!(none.modalities_text(), "");
}
