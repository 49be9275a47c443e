use radiology_worklist::dates::{relative_range_start, Date, RangeShortcut};
use radiology_worklist::query::{
    classify_response, first_result, study_details_query, DateRangeError, FetchFilters, QueryOutcome,
    QuerySequencer,
};

fn d(year: i32, month: u32, day: u32) -> Date {
    Date { year, month, day }
}

#[test]
fn one_week_shortcut_from_june_tenth() {
    let today = d(2024, 6, 10);
    let mut f = FetchFilters::new(today);
    assert_eq!(f.apply_relative_range(RangeShortcut::from_label("1W"), today), Ok(()));
    assert_eq!(f.start_date, d(2024, 6, 3));
    assert_eq!(f.end_date, d(2024, 6, 10));
}

#[test]
fn day_shortcuts_cross_month_and_year() {
    assert_eq!(relative_range_start(d(2024, 3, 1), RangeShortcut::OneDay), Some(d(2024, 2, 29)));
    assert_eq!(relative_range_start(d(2024, 1, 2), RangeShortcut::ThreeDays), Some(d(2023, 12, 30)));
}

#[test]
fn month_shortcuts_clamp_to_month_end() {
    assert_eq!(relative_range_start(d(2024, 3, 31), RangeShortcut::OneMonth), Some(d(2024, 2, 29)));
    assert_eq!(relative_range_start(d(2024, 2, 29), RangeShortcut::OneYear), Some(d(2023, 2, 28)));
}

#[test]
fn any_shortcut_reaches_epoch_floor() {
    assert_eq!(relative_range_start(d(2024, 6, 10), RangeShortcut::Any), Some(d(1990, 1, 1)));
    assert_eq!(RangeShortcut::from_label("whatever"), RangeShortcut::Any);
    assert_eq!(RangeShortcut::from_label("1Y"), RangeShortcut::OneYear);
}

#[test]
fn shortcut_before_year_one_is_refused() {
    assert_eq!(relative_range_start(d(1, 1, 1), RangeShortcut::OneDay), None);
    let today = d(1, 1, 1);
    let mut f = FetchFilters::new(today);
    assert_eq!(f.apply_relative_range(RangeShortcut::OneMonth, today), Err(DateRangeError::OutOfRange));
    assert_eq!(f.start_date, today);
}

#[test]
fn explicit_range_is_checked() {
    let today = d(2024, 6, 10);
    let mut f = FetchFilters::new(today);
    assert_eq!(f.set_explicit_range(d(2024, 6, 1), d(2024, 6, 11), today), Err(DateRangeError::EndAfterToday));
    assert_eq!(f.set_explicit_range(d(2024, 6, 5), d(2024, 6, 4), today), Err(DateRangeError::StartAfterEnd));
    assert_eq!(f.set_explicit_range(d(2024, 6, 1), d(2024, 6, 9), today), Ok(()));
    assert_eq!(f.start_date, d(2024, 6, 1));
    assert_eq!(f.end_date, d(2024, 6, 9));
}

#[test]
fn query_for_one_day_and_ct() {
    let day = d(2024, 6, 1);
    let mut f = FetchFilters::new(day);
    f.toggle_modality("CT");
    let q = f.study_query("http://pacs.example/rs");
    assert_eq!(
        q,
        "http://pacs.example/rs/studies?StudyDate=20240601-20240601&ModalitiesInStudy=CT&includefield=StudyDescription&includefield=SourceApplicationEntityTitle"
    );
    assert!(q.contains("StudyDate=20240601-20240601&ModalitiesInStudy=CT"));
}

#[test]
fn no_content_answer_means_no_results() {
    let outcome: QueryOutcome<u32> = classify_response(Some(204), None);
    assert!(matches!(outcome, QueryOutcome::NoResults));
}

#[test]
fn query_without_modalities_is_unrestricted() {
    let f = FetchFilters::new(d(2023, 12, 31));
    assert_eq!(
        f.study_query(""),
        "/studies?StudyDate=20231231-20231231&includefield=StudyDescription&includefield=SourceApplicationEntityTitle"
    );
}

#[test]
fn toggling_twice_and_selecting_all() {
    let mut f = FetchFilters::new(d(2024, 6, 1));
    f.toggle_modality("MR");
    f.toggle_modality("CT");
    f.toggle_modality("MR");
    assert_eq!(f.selected_modalities(), vec!["CT".to_string()]);
    f.toggle_modality("MG");
    assert_eq!(f.selected_modalities(), vec!["CT".to_string(), "MG".to_string()]);
    f.select_all_modalities();
    assert!(f.selected_modalities().is_empty());
    assert_eq!(f.modalities.len(), 10);
}

#[test]
fn new_filters_list_standard_codes_unselected() {
    let f = FetchFilters::new(d(2024, 6, 1));
    let codes: Vec<&str> = f.modalities.iter().map(|m| m.code.as_str()).collect();
    assert_eq!(codes, vec!["CR", "DR", "CT", "PT", "MR", "US", "XA", "NM", "OT"]);
    assert!(f.modalities.iter().all(|m| !m.selected));
}

#[test]
fn response_classification() {
    assert!(matches!(classify_response::<u32>(None, None), QueryOutcome::TransportError));
    assert!(matches!(classify_response::<u32>(Some(500), None), QueryOutcome::ServerError(500)));
    assert!(matches!(classify_response::<u32>(Some(200), None), QueryOutcome::ParseError));
    assert!(matches!(classify_response::<u32>(Some(200), Some(vec![])), QueryOutcome::NoResults));
    match classify_response(Some(200), Some(vec![7u32, 8])) {
        QueryOutcome::Found(v) => assert_eq!(v, vec![7, 8]),
        _ => panic!("expected studies"),
    }
}

#[test]
fn first_result_takes_index_zero() {
    assert_eq!(first_result(QueryOutcome::Found(vec![3u32, 4, 5])).ok(), Some(3));
    assert!(matches!(first_result::<u32>(QueryOutcome::NoResults), Err(QueryOutcome::NoResults)));
}

#[test]
fn details_query_text() {
    assert_eq!(
        study_details_query("http://a/rs", "1.2.3"),
        "http://a/rs/studies?StudyInstanceUID=1.2.3&includefield=StudyID&includefield=PatientBirthDate&includefield=PatientSex&includefield=Manufacturer"
    );
}

#[test]
fn stale_answers_are_dropped() {
    let mut seq = QuerySequencer::new();
    let first = seq.issue();
    let second = seq.issue();
    assert_eq!((first, second), (1, 2));
    assert!(!seq.is_current(first));
    assert!(seq.is_current(second));
}

#[test]
fn month_shortcut_crosses_year() {
    assert_eq!(relative_range_start(d(2024, 1, 31), RangeShortcut::OneMonth), Some(d(2023, 12, 31)));
    assert_eq!(relative_range_start(d(2000, 2, 29), RangeShortcut::OneYear), Some(d(1999, 2, 28)));
}

#[test]
fn any_shortcut_before_epoch_floor_is_refused() {
    let today = d(1985, 5, 5);
    let mut f = FetchFilters::new(today);
    assert_eq!(f.apply_relative_range(RangeShortcut::Any, today), Err(DateRangeError::StartAfterEnd));
    assert_eq!((f.start_date, f.end_date), (today, today));
}

#[test]
fn shortcut_moves_end_to_today() {
    let mut f = FetchFilters::new(d(2024, 6, 1));
    let today = d(2024, 6, 10);
    assert_eq!(f.apply_relative_range(RangeShortcut::ThreeDays, today), Ok(()));
    assert_eq!((f.start_date, f.end_date), (d(2024, 6, 7), today));
}
