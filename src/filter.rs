//! The worklist filter engine: six per-column predicates over the studies
//! of the current query result, combined by logical AND.

use vstd::prelude::*;
use crate::study::{StudyRecord, StudyView, contains_code, studies_view};
use crate::text::{contains, is_substring, lowercase, upper_of, lower_of, uppercase};

verus! {

/// What a column filter on an optional attribute (description, source AE)
/// does with a study that lacks the attribute, while the filter is not empty.
#[derive(Clone, Copy, Debug, PartialEq, Eq, Structural)]
pub enum AbsentPolicy {
    /// A study without the attribute is left out.
    Exclude,
    /// A study without the attribute is kept.
    Include,
}

/// The free-text column filters of the worklist. An empty filter places no
/// constraint on its column.
#[derive(Debug)]
pub struct ClientFilters {
    /// Case-sensitive substring of the patient ID.
    pub patient_id: String,
    /// Substring of the patient name, both sides lower-cased.
    pub patient_name: String,
    /// Case-sensitive substring of the accession number.
    pub accession_number: String,
    /// One of the study's modality codes, after upper-casing the filter.
    pub modality: String,
    /// Substring of the description, after upper-casing the filter.
    pub description: String,
    /// Substring of the source AE title, after upper-casing the filter.
    pub source_ae: String,
    pub absent: AbsentPolicy,
}

/// The case-folded forms of the filters that need them.
pub struct FilterKeys {
    pub patient_name: Seq<char>,
    pub modality: Seq<char>,
    pub description: Seq<char>,
    pub source_ae: Seq<char>,
}

/// The case-folded filter texts, computed once per filtering pass.
#[derive(Debug)]
pub struct FoldedFilters {
    pub patient_name: String,
    pub modality: String,
    pub description: String,
    pub source_ae: String,
}

impl FoldedFilters {
    pub open spec fn keys(self) -> FilterKeys {
        FilterKeys {
            patient_name: self.patient_name@,
            modality: self.modality@,
            description: self.description@,
            source_ae: self.source_ae@,
        }
    }

    /// Folds the filters that compare case-insensitively or upper-cased.
    pub fn from_filters(f: &ClientFilters) -> (r: FoldedFilters)
        ensures
            r.keys() == f.spec_keys(),
    {
        FoldedFilters {
            patient_name: lowercase(f.patient_name.as_str()),
            modality: uppercase(f.modality.as_str()),
            description: uppercase(f.description.as_str()),
            source_ae: uppercase(f.source_ae.as_str()),
        }
    }
}

/// An optional attribute against a folded filter key.
pub open spec fn optional_matches(value: Option<Seq<char>>, key: Seq<char>, absent: AbsentPolicy) -> bool {
    match value {
        Some(v) => is_substring(key, v),
        None => absent == AbsentPolicy::Include,
    }
}

/// The study passes every column filter, given the folded filter keys and
/// the lower-cased patient name of the study.
pub open spec fn matches_with_keys(
    s: StudyView,
    f: ClientFilters,
    k: FilterKeys,
    name_lower: Seq<char>,
) -> bool {
    &&& (f.patient_id@.len() == 0 || is_substring(f.patient_id@, s.patient_id))
    &&& (f.patient_name@.len() == 0 || is_substring(k.patient_name, name_lower))
    &&& (f.accession_number@.len() == 0 || is_substring(f.accession_number@, s.accession_number))
    &&& (f.modality@.len() == 0 || s.modalities.contains(k.modality))
    &&& (f.description@.len() == 0 || optional_matches(s.description, k.description, f.absent))
    &&& (f.source_ae@.len() == 0 || optional_matches(s.source_ae, k.source_ae, f.absent))
}

/// The study passes every column filter.
pub open spec fn study_matches(s: StudyView, f: ClientFilters) -> bool {
    matches_with_keys(s, f, f.spec_keys(), lower_of(s.patient_name))
}

/// The studies that pass every column filter, in input order.
pub open spec fn filtered(studies: Seq<StudyView>, f: ClientFilters) -> Seq<StudyView> {
    studies.filter(|s: StudyView| study_matches(s, f))
}

impl ClientFilters {
    /// Filters that place no constraint on any column.
    pub fn new() -> (r: ClientFilters)
        ensures
            r.is_empty(),
            r.absent == AbsentPolicy::Exclude,
    {
        ClientFilters {
            patient_id: String::new(),
            patient_name: String::new(),
            accession_number: String::new(),
            modality: String::new(),
            description: String::new(),
            source_ae: String::new(),
            absent: AbsentPolicy::Exclude,
        }
    }

    /// Every column filter is the empty string.
    pub open spec fn is_empty(self) -> bool {
        &&& self.patient_id@.len() == 0
        &&& self.patient_name@.len() == 0
        &&& self.accession_number@.len() == 0
        &&& self.modality@.len() == 0
        &&& self.description@.len() == 0
        &&& self.source_ae@.len() == 0
    }

    pub open spec fn spec_keys(self) -> FilterKeys {
        FilterKeys {
            patient_name: lower_of(self.patient_name@),
            modality: upper_of(self.modality@),
            description: upper_of(self.description@),
            source_ae: upper_of(self.source_ae@),
        }
    }
}

fn optional_matches_exec(value: &Option<String>, key: &String, absent: AbsentPolicy) -> (r: bool)
    ensures
        r == optional_matches(crate::study::optional_view(*value), key@, absent),
{
    match value {
        Some(v) => contains(v.as_str(), key.as_str()),
        None => match absent {
            AbsentPolicy::Include => true,
            AbsentPolicy::Exclude => false,
        },
    }
}

/// Applies the column filters to one study, given the folded filter texts
/// and the study's lower-cased patient name.
pub fn matches_folded(
    study: &StudyRecord,
    f: &ClientFilters,
    keys: &FoldedFilters,
    name_lower: &String,
) -> (r: bool)
    ensures
        r == matches_with_keys(study@, *f, keys.keys(), name_lower@),
{
    (f.patient_id.unicode_len() == 0 || contains(study.patient_id.as_str(), f.patient_id.as_str()))
        && (f.patient_name.unicode_len() == 0 || contains(
        name_lower.as_str(),
        keys.patient_name.as_str(),
    )) && (f.accession_number.unicode_len() == 0 || contains(
        study.accession_number.as_str(),
        f.accession_number.as_str(),
    )) && (f.modality.unicode_len() == 0 || contains_code(&study.modalities, keys.modality.as_str())) && (
    f.description.unicode_len() == 0 || optional_matches_exec(
        &study.description,
        &keys.description,
        f.absent,
    )) && (f.source_ae.unicode_len() == 0 || optional_matches_exec(
        &study.source_ae,
        &keys.source_ae,
        f.absent,
    ))
}

/// Whether one study passes every column filter.
pub fn study_matches_filters(study: &StudyRecord, f: &ClientFilters) -> (r: bool)
    ensures
        r == study_matches(study@, *f),
{
    let keys = FoldedFilters::from_filters(f);
    let name_lower = lowercase(study.patient_name.as_str());
    matches_folded(study, f, &keys, &name_lower)
}

/// The studies that pass every column filter, in input order.
pub fn filter(studies: &Vec<StudyRecord>, f: &ClientFilters) -> (r: Vec<StudyRecord>)
    ensures
        studies_view(r@) == filtered(studies_view(studies@), *f),
{
    let keys = FoldedFilters::from_filters(f);
    let ghost pred = |s: StudyView| study_matches(s, *f);
    let mut out: Vec<StudyRecord> = Vec::new();
    let mut i: usize = 0;
    while i < studies.len()
        invariant
            i <= studies@.len(),
            keys.keys() == f.spec_keys(),
            pred == (|s: StudyView| study_matches(s, *f)),
            studies_view(out@) == studies_view(studies@).subrange(0, i as int).filter(pred),
        decreases studies@.len() - i,
    {
        let ghost before = studies_view(studies@).subrange(0, i as int);
        let ghost after = studies_view(studies@).subrange(0, i + 1);
        assert(after.drop_last() =~= before);
        assert(after.last() == studies@[i as int]@);
        reveal(Seq::filter);
        let name_lower = lowercase(studies[i].patient_name.as_str());
        if matches_folded(&studies[i], f, &keys, &name_lower) {
            out.push(studies[i].duplicate());
            assert(studies_view(out@) =~= after.filter(pred));
        } else {
            assert(studies_view(out@) =~= after.filter(pred));
        }
        i = i + 1;
    }
    assert(studies_view(studies@).subrange(0, studies@.len() as int) =~= studies_view(studies@));
    out
}

/// Filtering never invents rows: every study it returns is one of the input.
pub proof fn lemma_filter_subset(studies: Seq<StudyView>, f: ClientFilters)
    ensures
        forall|i: int|
            0 <= i < filtered(studies, f).len() ==> studies.contains(#[trigger] filtered(studies, f)[i]),
{
    let pred = |s: StudyView| study_matches(s, f);
    assert forall|i: int| 0 <= i < filtered(studies, f).len() implies studies.contains(
        #[trigger] filtered(studies, f)[i],
    ) by {
        assert(studies.filter(pred).contains(studies.filter(pred)[i]));
        studies.lemma_filter_contains_rev(pred, studies.filter(pred)[i]);
    }
}

/// Filters that are all empty keep every study, in order, whatever the
/// policy for absent attributes.
pub proof fn lemma_empty_filters_keep_all(studies: Seq<StudyView>, f: ClientFilters)
    requires
        f.is_empty(),
    ensures
        filtered(studies, f) == studies,
    decreases studies.len(),
{
    reveal(Seq::filter);
    if studies.len() > 0 {
        lemma_empty_filters_keep_all(studies.drop_last(), f);
        assert(studies.drop_last().push(studies.last()) =~= studies);
    }
}

/// A non-empty modality filter keeps a study only where one of its modality
/// codes equals the upper-cased filter exactly.
pub proof fn lemma_modality_exact(s: StudyView, f: ClientFilters)
    requires
        f.modality@.len() > 0,
        study_matches(s, f),
    ensures
        s.modalities.contains(upper_of(f.modality@)),
{
}

} // verus!
