//! The report composer: builds a Basic Text Structured Report for a study
//! from the study's attributes and the radiologist's free text, and frames
//! its DICOM-JSON form for a STOW-RS submission.

use vstd::prelude::*;
use crate::dates::{Date, TimeOfDay};
use crate::query::{append_da, da_text};
use crate::study::{StudyDetails, copy_optional};
use crate::text::{append_decimal, append_fixed_digits, decimal, fixed_digits, is_digit};

verus! {

/// The moment a report is submitted, as the local clock gives it.
#[derive(Clone, Copy, Debug, PartialEq, Eq, Structural)]
pub struct SubmissionTime {
    pub date: Date,
    pub time: TimeOfDay,
}

impl SubmissionTime {
    pub open spec fn wf(self) -> bool {
        self.date.wf() && self.time.wf()
    }
}

/// Who verifies the reports that this front-end submits.
#[derive(Debug)]
pub struct ReportAuthor {
    pub organization: String,
    pub observer_name: String,
}

/// The one item of the verifying-observer sequence.
#[derive(Debug)]
pub struct VerifyingObserver {
    pub organization: String,
    pub observer_name: String,
    /// A DICOM DT value, `YYYYMMDDHHMMSS`.
    pub verification_datetime: String,
}

/// A Basic Text Structured Report, one field per data element. Attributes
/// that the source study lacks are present with an empty value.
#[derive(Debug)]
pub struct ReportDocument {
    pub sop_class_uid: String,
    pub sop_instance_uid: String,
    pub series_instance_uid: String,
    pub study_instance_uid: String,
    pub modality: String,
    pub series_number: String,
    pub instance_number: String,
    pub patient_name: String,
    pub patient_id: String,
    pub accession_number: String,
    pub study_date: String,
    pub study_time: String,
    pub patient_birth_date: String,
    pub patient_sex: String,
    pub referring_physician_name: String,
    pub manufacturer: String,
    pub study_id: String,
    pub content_date: String,
    pub content_time: String,
    pub verifying_observer: VerifyingObserver,
    pub completion_flag: String,
    pub verification_flag: String,
    pub value_type: String,
    pub text_value: String,
}

/// A time in the `HHMMSS` form of a DICOM TM value.
pub open spec fn tm_text(t: TimeOfDay) -> Seq<char> {
    fixed_digits(t.hour as nat, 2) + fixed_digits(t.minute as nat, 2) + fixed_digits(
        t.second as nat,
        2,
    )
}

/// A UID under the `2.25` root, whose remaining arc is the decimal value of
/// a UUID.
pub open spec fn uuid_uid(value: nat) -> Seq<char> {
    "2.25."@ + decimal(value)
}

/// The text of an optional attribute, empty where it is absent.
pub open spec fn or_empty(v: Option<String>) -> Seq<char> {
    match v {
        Some(s) => s@,
        None => Seq::empty(),
    }
}

/// A syntactically valid OID arc: digits only, without a leading zero
/// unless it is `0` itself.
pub open spec fn is_oid_arc(s: Seq<char>) -> bool {
    &&& s.len() >= 1
    &&& forall|i: int| 0 <= i < s.len() ==> is_digit(#[trigger] s[i])
    &&& (s.len() > 1 ==> s[0] != '0')
}

/// The report that `compose_report` builds.
pub open spec fn composed(
    d: StudyDetails,
    text: Seq<char>,
    author: ReportAuthor,
    sop_uuid: nat,
    series_uuid: nat,
    now: SubmissionTime,
    r: ReportDocument,
) -> bool {
    &&& r.sop_class_uid@ == "1.2.840.10008.5.1.4.1.1.88.11"@
    &&& r.sop_instance_uid@ == uuid_uid(sop_uuid)
    &&& r.series_instance_uid@ == uuid_uid(series_uuid)
    &&& r.study_instance_uid@ == d.study.study_instance_uid@
    &&& r.modality@ == "SR"@
    &&& r.series_number@ == "1"@
    &&& r.instance_number@ == "1"@
    &&& r.patient_name@ == d.study.patient_name@
    &&& r.patient_id@ == d.study.patient_id@
    &&& r.accession_number@ == d.study.accession_number@
    &&& r.study_date@ == da_text(d.study.study_date)
    &&& r.study_time@ == tm_text(d.study.study_time)
    &&& r.patient_birth_date@ == or_empty(d.patient_birth_date)
    &&& r.patient_sex@ == or_empty(d.patient_sex)
    &&& r.referring_physician_name@ == or_empty(d.referring_physician_name)
    &&& r.manufacturer@ == or_empty(d.manufacturer)
    &&& r.study_id@ == or_empty(d.study_id)
    &&& r.content_date@ == da_text(now.date)
    &&& r.content_time@ == tm_text(now.time)
    &&& r.verifying_observer.organization@ == author.organization@
    &&& r.verifying_observer.observer_name@ == author.observer_name@
    &&& r.verifying_observer.verification_datetime@ == da_text(now.date) + tm_text(now.time)
    &&& r.completion_flag@ == "COMPLETE"@
    &&& r.verification_flag@ == "VERIFIED"@
    &&& r.value_type@ == "TEXT"@
    &&& r.text_value@ == text
}

fn append_tm(out: &mut String, t: TimeOfDay)
    ensures
        final(out)@ == old(out)@ + tm_text(t),
{
    append_fixed_digits(out, t.hour as u128, 2);
    append_fixed_digits(out, t.minute as u128, 2);
    append_fixed_digits(out, t.second as u128, 2);
    assert(final(out)@ =~= old(out)@ + tm_text(t));
}

fn text_of(s: &str) -> (r: String)
    ensures
        r@ == s@,
{
    let mut out = String::new();
    out.append(s);
    assert(out@ =~= s@);
    out
}

fn text_or_empty(v: &Option<String>) -> (r: String)
    ensures
        r@ == or_empty(*v),
{
    match copy_optional(v) {
        Some(s) => s,
        None => String::new(),
    }
}

/// The UID under the `2.25` root that a UUID's value names.
pub fn uid_from_uuid(value: u128) -> (r: String)
    ensures
        r@ == uuid_uid(value as nat),
{
    let mut out = text_of("2.25.");
    append_decimal(&mut out, value);
    out
}

/// Builds the report for a study. `sop_uuid` and `series_uuid` are the
/// UUIDs that the new instance and series UIDs derive from; `now` is the
/// time of submission.
pub fn compose_report(
    details: &StudyDetails,
    report_text: &str,
    author: &ReportAuthor,
    sop_uuid: u128,
    series_uuid: u128,
    now: SubmissionTime,
) -> (r: ReportDocument)
    requires
        details.study.study_date.wf(),
        now.date.wf(),
    ensures
        composed(*details, report_text@, *author, sop_uuid as nat, series_uuid as nat, now, r),
{
    let mut study_date = String::new();
    append_da(&mut study_date, details.study.study_date);
    let mut study_time = String::new();
    append_tm(&mut study_time, details.study.study_time);
    let mut content_date = String::new();
    append_da(&mut content_date, now.date);
    let mut content_time = String::new();
    append_tm(&mut content_time, now.time);
    let mut verified_at = String::new();
    append_da(&mut verified_at, now.date);
    append_tm(&mut verified_at, now.time);
    proof {
        assert(verified_at@ =~= da_text(now.date) + tm_text(now.time));
    }
    ReportDocument {
        sop_class_uid: text_of("1.2.840.10008.5.1.4.1.1.88.11"),
        sop_instance_uid: uid_from_uuid(sop_uuid),
        series_instance_uid: uid_from_uuid(series_uuid),
        study_instance_uid: details.study.study_instance_uid.clone(),
        modality: text_of("SR"),
        series_number: text_of("1"),
        instance_number: text_of("1"),
        patient_name: details.study.patient_name.clone(),
        patient_id: details.study.patient_id.clone(),
        accession_number: details.study.accession_number.clone(),
        study_date,
        study_time,
        patient_birth_date: text_or_empty(&details.patient_birth_date),
        patient_sex: text_or_empty(&details.patient_sex),
        referring_physician_name: text_or_empty(&details.referring_physician_name),
        manufacturer: text_or_empty(&details.manufacturer),
        study_id: text_or_empty(&details.study_id),
        content_date,
        content_time,
        verifying_observer: VerifyingObserver {
            organization: author.organization.clone(),
            observer_name: author.observer_name.clone(),
            verification_datetime: verified_at,
        },
        completion_flag: text_of("COMPLETE"),
        verification_flag: text_of("VERIFIED"),
        value_type: text_of("TEXT"),
        text_value: text_of(report_text),
    }
}

/// Relies on uuid's `Uuid::new_v4` and `Uuid::as_u128`: a random version-4
/// UUID as an integer.
#[verifier::external_body]
fn random_uuid() -> (r: u128) {
    uuid::Uuid::new_v4().as_u128()
}

/// Builds the report for a study with freshly drawn UUIDs behind its
/// instance and series UIDs, which differ from each other.
pub fn new_report(
    details: &StudyDetails,
    report_text: &str,
    author: &ReportAuthor,
    now: SubmissionTime,
) -> (r: ReportDocument)
    requires
        details.study.study_date.wf(),
        now.date.wf(),
    ensures
        exists|a: nat, b: nat|
            a != b && #[trigger] composed(*details, report_text@, *author, a, b, now, r),
        r.sop_instance_uid@ != r.series_instance_uid@,
{
    let sop_uuid = random_uuid();
    let mut series_uuid = random_uuid();
    if series_uuid == sop_uuid {
        series_uuid = if sop_uuid == u128::MAX {
            sop_uuid - 1
        } else {
            sop_uuid + 1
        };
    }
    let r = compose_report(details, report_text, author, sop_uuid, series_uuid, now);
    proof {
        lemma_uuid_uids_distinct(sop_uuid as nat, series_uuid as nat);
    }
    r
}

/// A UID made from a UUID is a valid OID under the `2.25` root.
pub proof fn lemma_uuid_uid_is_oid(value: nat)
    ensures
        uuid_uid(value).subrange(0, 5) == "2.25."@,
        is_oid_arc(uuid_uid(value).subrange(5, uuid_uid(value).len() as int)),
{
    reveal_strlit("2.25.");
    crate::text::lemma_decimal_shape(value);
    assert(uuid_uid(value).subrange(0, 5) =~= "2.25."@);
    assert(uuid_uid(value).subrange(5, uuid_uid(value).len() as int) =~= decimal(value));
    if decimal(value).len() > 1 {
        if value == 0 {
            assert(decimal(0) =~= seq!['0']);
        }
    }
}

/// Two different UUIDs give two different UIDs.
pub proof fn lemma_uuid_uids_distinct(a: nat, b: nat)
    requires
        a != b,
    ensures
        uuid_uid(a) != uuid_uid(b),
{
    if uuid_uid(a) == uuid_uid(b) {
        let n = "2.25."@.len() as int;
        assert(decimal(a) =~= uuid_uid(a).subrange(n, uuid_uid(a).len() as int));
        assert(decimal(b) =~= uuid_uid(b).subrange(n, uuid_uid(b).len() as int));
        crate::text::lemma_decimal_injective(a, b);
    }
}

/// The report keeps the study's instance UID, and leaves no attribute out
/// where the study lacks it: each is present and empty instead.
pub proof fn lemma_report_links_study(
    d: StudyDetails,
    text: Seq<char>,
    author: ReportAuthor,
    sop_uuid: nat,
    series_uuid: nat,
    now: SubmissionTime,
    r: ReportDocument,
)
    requires
        composed(d, text, author, sop_uuid, series_uuid, now, r),
    ensures
        r.study_instance_uid@ == d.study.study_instance_uid@,
        d.manufacturer is None ==> r.manufacturer@.len() == 0,
        d.patient_birth_date is None ==> r.patient_birth_date@.len() == 0,
        d.referring_physician_name is None ==> r.referring_physician_name@.len() == 0,
{
}

/// The boundary of the multipart body of a submission.
pub open spec fn stow_body_text(json_object: Seq<char>) -> Seq<char> {
    "\r\n--myboundary\r\nContent-Type: application/dicom+json\r\n\r\n["@ + json_object
        + "]\r\n--myboundary--"@
}

/// The single-part `multipart/related` body that carries one DICOM-JSON
/// object, inside a JSON array, to the archive.
pub fn stow_body(json_object: &str) -> (r: String)
    ensures
        r@ == stow_body_text(json_object@),
{
    let mut out = String::new();
    out.append("\r\n--myboundary\r\nContent-Type: application/dicom+json\r\n\r\n[");
    out.append(json_object);
    out.append("]\r\n--myboundary--");
    assert(out@ =~= stow_body_text(json_object@));
    out
}

/// The `Content-Type` header that goes with `stow_body`.
pub fn stow_content_type() -> (r: String)
    ensures
        r@ == "multipart/related; type=\"application/dicom+json\"; boundary=myboundary"@,
{
    text_of("multipart/related; type=\"application/dicom+json\"; boundary=myboundary")
}

} // verus!
