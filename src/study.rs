//! The worklist's unit of work: one study as the archive describes it.

use vstd::prelude::*;
use crate::dates::{Date, TimeOfDay};
use crate::text::{char_text, chars_of, same_text, trim_of, trimmed};

verus! {

/// One study of a worklist query result.
///
/// `study_instance_uid` is the key of the study within one result set and
/// the link between the worklist and the reporting screen.
#[derive(Debug)]
pub struct StudyRecord {
    pub patient_id: String,
    /// The name as the archive stores it, components separated by `^`.
    pub patient_name: String,
    pub accession_number: String,
    pub modalities: Vec<String>,
    pub description: Option<String>,
    pub source_ae: Option<String>,
    pub study_date: Date,
    pub study_time: TimeOfDay,
    pub study_instance_uid: String,
}

/// A study fetched on its own for reporting, with the attributes that the
/// report copies besides those of the worklist.
#[derive(Debug)]
pub struct StudyDetails {
    pub study: StudyRecord,
    pub study_id: Option<String>,
    pub patient_birth_date: Option<String>,
    pub patient_sex: Option<String>,
    pub manufacturer: Option<String>,
    pub referring_physician_name: Option<String>,
}

pub fn copy_optional(v: &Option<String>) -> (r: Option<String>)
    ensures
        r == *v,
{
    match v {
        Some(s) => Some(s.clone()),
        None => None,
    }
}

pub fn copy_strings(v: &Vec<String>) -> (r: Vec<String>)
    ensures
        r@ == v@,
{
    let mut out: Vec<String> = Vec::new();
    let mut i: usize = 0;
    while i < v.len()
        invariant
            i <= v@.len(),
            out@ == v@.subrange(0, i as int),
        decreases v@.len() - i,
    {
        out.push(v[i].clone());
        i = i + 1;
        assert(out@ =~= v@.subrange(0, i as int));
    }
    assert(out@ =~= v@);
    out
}

/// A study's attributes as mathematical values.
pub struct StudyView {
    pub patient_id: Seq<char>,
    pub patient_name: Seq<char>,
    pub accession_number: Seq<char>,
    pub modalities: Seq<Seq<char>>,
    pub description: Option<Seq<char>>,
    pub source_ae: Option<Seq<char>>,
    pub study_date: Date,
    pub study_time: TimeOfDay,
    pub study_instance_uid: Seq<char>,
}

pub open spec fn optional_view(v: Option<String>) -> Option<Seq<char>> {
    match v {
        Some(s) => Some(s@),
        None => None,
    }
}

pub open spec fn strings_view(v: Seq<String>) -> Seq<Seq<char>> {
    v.map_values(|s: String| s@)
}

impl View for StudyRecord {
    type V = StudyView;

    open spec fn view(&self) -> StudyView {
        StudyView {
            patient_id: self.patient_id@,
            patient_name: self.patient_name@,
            accession_number: self.accession_number@,
            modalities: strings_view(self.modalities@),
            description: optional_view(self.description),
            source_ae: optional_view(self.source_ae),
            study_date: self.study_date,
            study_time: self.study_time,
            study_instance_uid: self.study_instance_uid@,
        }
    }
}

/// The views of a list of studies, in order.
pub open spec fn studies_view(v: Seq<StudyRecord>) -> Seq<StudyView> {
    v.map_values(|s: StudyRecord| s@)
}

/// The name with each `^` component separator turned into a space.
pub open spec fn caret_to_space(s: Seq<char>) -> Seq<char> {
    s.map_values(|c: char| if c == '^' { ' ' } else { c })
}

/// The codes joined by `", "`.
pub open spec fn joined(codes: Seq<Seq<char>>) -> Seq<char>
    decreases codes.len(),
{
    if codes.len() == 0 {
        Seq::empty()
    } else if codes.len() == 1 {
        codes[0]
    } else {
        joined(codes.drop_last()) + ", "@ + codes.last()
    }
}

/// Whether `code` is one of `codes`.
pub fn contains_code(codes: &Vec<String>, code: &str) -> (r: bool)
    ensures
        r == strings_view(codes@).contains(code@),
{
    let ghost view = strings_view(codes@);
    let mut i: usize = 0;
    while i < codes.len()
        invariant
            view == strings_view(codes@),
            i <= codes@.len(),
            forall|k: int| 0 <= k < i ==> view[k] != code@,
        decreases codes@.len() - i,
    {
        if same_text(codes[i].as_str(), code) {
            assert(view[i as int] == code@);
            return true;
        }
        i = i + 1;
    }
    false
}

/// Replaces each `^` of a person name by a space.
pub fn spaced_name(raw: &str) -> (r: String)
    ensures
        r@ == caret_to_space(raw@),
{
    let chars = chars_of(raw);
    let mut out = String::new();
    let mut i: usize = 0;
    while i < chars.len()
        invariant
            chars@ == raw@,
            i <= chars@.len(),
            out@ == caret_to_space(raw@.subrange(0, i as int)),
        decreases chars@.len() - i,
    {
        let c = if chars[i] == '^' {
            ' '
        } else {
            chars[i]
        };
        let piece = char_text(c);
        out.append(piece.as_str());
        i = i + 1;
        assert(out@ =~= caret_to_space(raw@.subrange(0, i as int)));
    }
    assert(raw@.subrange(0, raw@.len() as int) =~= raw@);
    out
}

impl StudyRecord {
    /// The patient name as the worklist shows it: components separated by
    /// spaces, without surrounding white space.
    pub fn display_name(&self) -> (r: String)
        ensures
            r@ == trim_of(caret_to_space(self.patient_name@)),
    {
        let spaced = spaced_name(self.patient_name.as_str());
        trimmed(spaced.as_str())
    }

    /// The modality codes as the worklist shows them, separated by `", "`.
    pub fn modalities_text(&self) -> (r: String)
        ensures
            r@ == joined(strings_view(self.modalities@)),
    {
        let ghost codes = strings_view(self.modalities@);
        let mut out = String::new();
        let mut i: usize = 0;
        while i < self.modalities.len()
            invariant
                codes == strings_view(self.modalities@),
                i <= self.modalities@.len(),
                out@ == joined(codes.subrange(0, i as int)),
            decreases self.modalities@.len() - i,
        {
            let ghost prefix = codes.subrange(0, i + 1);
            assert(prefix.drop_last() =~= codes.subrange(0, i as int));
            if i > 0 {
                out.append(", ");
            }
            out.append(self.modalities[i].as_str());
            proof {
                if i == 0 {
                    assert(out@ =~= joined(prefix));
                } else {
                    assert(out@ =~= joined(prefix));
                }
            }
            i = i + 1;
        }
        assert(codes.subrange(0, codes.len() as int) =~= codes);
        out
    }

    /// A field-by-field copy.
    pub fn duplicate(&self) -> (r: StudyRecord)
        ensures
            r@ == self@,
    {
        StudyRecord {
            patient_id: self.patient_id.clone(),
            patient_name: self.patient_name.clone(),
            accession_number: self.accession_number.clone(),
            modalities: copy_strings(&self.modalities),
            description: copy_optional(&self.description),
            source_ae: copy_optional(&self.source_ae),
            study_date: self.study_date,
            study_time: self.study_time,
            study_instance_uid: self.study_instance_uid.clone(),
        }
    }
}

} // verus!
