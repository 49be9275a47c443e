//! The server-side side of the worklist: the query parameters that the date
//! and modality bar maintains, the QIDO-RS query texts built from them, the
//! reading of a response's status, and the sequencing of queries in flight.

use vstd::prelude::*;
use crate::dates::{Date, RangeShortcut, relative_range_start, relative_range_start_spec};
use crate::text::{append_fixed_digits, fixed_digits, same_text};

verus! {

/// One modality code of the selection bar and whether it is selected.
#[derive(Debug)]
pub struct ModalityChoice {
    pub code: String,
    pub selected: bool,
}

/// The parameters of the server-side study query.
///
/// No modality selected means no restriction on modality.
#[derive(Debug)]
pub struct FetchFilters {
    pub start_date: Date,
    pub end_date: Date,
    pub modalities: Vec<ModalityChoice>,
}

/// Why a change of the date range was refused.
#[derive(Clone, Copy, Debug, PartialEq, Eq, Structural)]
pub enum DateRangeError {
    /// The end of the range lies after today.
    EndAfterToday,
    /// The start of the range lies after its end.
    StartAfterEnd,
    /// The shortcut reaches outside the four-digit years.
    OutOfRange,
}

/// The codes of the bar, in order.
pub open spec fn codes_of(choices: Seq<ModalityChoice>) -> Seq<Seq<char>> {
    choices.map_values(|c: ModalityChoice| c.code@)
}

/// The flags of the bar, in order.
pub open spec fn flags_of(choices: Seq<ModalityChoice>) -> Seq<bool> {
    choices.map_values(|c: ModalityChoice| c.selected)
}

/// The selected codes, in the order of the bar.
pub open spec fn selected_codes(choices: Seq<ModalityChoice>) -> Seq<Seq<char>>
    decreases choices.len(),
{
    if choices.len() == 0 {
        Seq::empty()
    } else {
        let rest = selected_codes(choices.drop_last());
        if choices.last().selected {
            rest.push(choices.last().code@)
        } else {
            rest
        }
    }
}

/// A date in the `YYYYMMDD` form of a DICOM DA value.
pub open spec fn da_text(d: Date) -> Seq<char> {
    fixed_digits(d.year as nat, 4) + fixed_digits(d.month as nat, 2) + fixed_digits(
        d.day as nat,
        2,
    )
}

/// One `ModalitiesInStudy` parameter per code, in order.
pub open spec fn modality_params(codes: Seq<Seq<char>>) -> Seq<char>
    decreases codes.len(),
{
    if codes.len() == 0 {
        Seq::empty()
    } else {
        modality_params(codes.drop_last()) + "&ModalitiesInStudy="@ + codes.last()
    }
}

/// The worklist query for the given parameters under an archive root.
pub open spec fn study_query_text(root: Seq<char>, f: FetchFilters) -> Seq<char> {
    root + "/studies?StudyDate="@ + da_text(f.start_date) + "-"@ + da_text(f.end_date)
        + modality_params(selected_codes(f.modalities@))
        + "&includefield=StudyDescription&includefield=SourceApplicationEntityTitle"@
}

/// The query for one study with the attributes that reporting needs.
pub open spec fn study_details_query_text(root: Seq<char>, uid: Seq<char>) -> Seq<char> {
    root + "/studies?StudyInstanceUID="@ + uid
        + "&includefield=StudyID&includefield=PatientBirthDate&includefield=PatientSex&includefield=Manufacturer"@
}

/// No code occurs twice in the bar.
pub open spec fn codes_unique(choices: Seq<ModalityChoice>) -> bool {
    forall|i: int, j: int|
        0 <= i < j < choices.len() ==> #[trigger] choices[i].code@ != #[trigger] choices[j].code@
}

pub fn append_da(out: &mut String, d: Date)
    requires
        d.wf(),
    ensures
        final(out)@ == old(out)@ + da_text(d),
{
    append_fixed_digits(out, d.year as u128, 4);
    append_fixed_digits(out, d.month as u128, 2);
    append_fixed_digits(out, d.day as u128, 2);
    assert(final(out)@ =~= old(out)@ + da_text(d));
}

impl FetchFilters {
    /// Dates valid and in order, and each modality code listed once.
    pub open spec fn wf(self) -> bool {
        &&& self.start_date.wf()
        &&& self.end_date.wf()
        &&& self.start_date.spec_le(self.end_date)
        &&& codes_unique(self.modalities@)
    }

    /// Today to today, with the standard modality codes and none selected.
    pub fn new(today: Date) -> (r: FetchFilters)
        requires
            today.wf(),
        ensures
            r.wf(),
            r.start_date == today,
            r.end_date == today,
            codes_of(r.modalities@) == seq![
                "CR"@,
                "DR"@,
                "CT"@,
                "PT"@,
                "MR"@,
                "US"@,
                "XA"@,
                "NM"@,
                "OT"@,
            ],
            forall|i: int| 0 <= i < r.modalities@.len() ==> !(#[trigger] r.modalities@[i]).selected,
    {
        let mut modalities: Vec<ModalityChoice> = Vec::new();
        modalities.push(ModalityChoice { code: "CR".to_string(), selected: false });
        modalities.push(ModalityChoice { code: "DR".to_string(), selected: false });
        modalities.push(ModalityChoice { code: "CT".to_string(), selected: false });
        modalities.push(ModalityChoice { code: "PT".to_string(), selected: false });
        modalities.push(ModalityChoice { code: "MR".to_string(), selected: false });
        modalities.push(ModalityChoice { code: "US".to_string(), selected: false });
        modalities.push(ModalityChoice { code: "XA".to_string(), selected: false });
        modalities.push(ModalityChoice { code: "NM".to_string(), selected: false });
        modalities.push(ModalityChoice { code: "OT".to_string(), selected: false });
        proof {
            reveal_strlit("CR");
            reveal_strlit("DR");
            reveal_strlit("CT");
            reveal_strlit("PT");
            reveal_strlit("MR");
            reveal_strlit("US");
            reveal_strlit("XA");
            reveal_strlit("NM");
            reveal_strlit("OT");
        }
        let r = FetchFilters { start_date: today, end_date: today, modalities };
        assert(codes_of(r.modalities@) =~= seq![
            "CR"@,
            "DR"@,
            "CT"@,
            "PT"@,
            "MR"@,
            "US"@,
            "XA"@,
            "NM"@,
            "OT"@,
        ]);
        assert(r.start_date.spec_le(r.end_date));
        assert(codes_unique(r.modalities@)) by {
            assert forall|i: int, j: int| 0 <= i < j < r.modalities@.len() implies #[trigger] r.modalities@[i].code@
                != #[trigger] r.modalities@[j].code@ by {
                assert(codes_of(r.modalities@)[i] == r.modalities@[i].code@);
                assert(codes_of(r.modalities@)[j] == r.modalities@[j].code@);
                if r.modalities@[i].code@ == r.modalities@[j].code@ {
                    assert(r.modalities@[i].code@[0] == r.modalities@[j].code@[0]);
                    assert(r.modalities@[i].code@[1] == r.modalities@[j].code@[1]);
                }
            }
        }
        r
    }

    /// Sets the range that a shortcut selects: it ends today and starts the
    /// shortcut's span earlier, or on the epoch floor for `Any`.
    pub fn apply_relative_range(&mut self, s: RangeShortcut, today: Date) -> (r: Result<
        (),
        DateRangeError,
    >)
        requires
            old(self).wf(),
            today.wf(),
        ensures
            final(self).modalities == old(self).modalities,
            match relative_range_start_spec(today, s) {
                Some(start) => if start.spec_le(today) {
                    r is Ok && final(self).start_date == start && final(self).end_date == today
                } else {
                    r == Err::<(), DateRangeError>(DateRangeError::StartAfterEnd) && *final(self)
                        == *old(self)
                },
                None => r == Err::<(), DateRangeError>(DateRangeError::OutOfRange) && *final(self)
                    == *old(self),
            },
            final(self).wf(),
    {
        let start = relative_range_start(today, s);
        match start {
            Some(d) => {
                if d.is_on_or_before(&today) {
                    self.start_date = d;
                    self.end_date = today;
                    Ok(())
                } else {
                    Err(DateRangeError::StartAfterEnd)
                }
            },
            None => Err(DateRangeError::OutOfRange),
        }
    }

    /// Sets a range entered by hand. The end may not lie after today, nor
    /// the start after the end.
    pub fn set_explicit_range(&mut self, start: Date, end: Date, today: Date) -> (r: Result<
        (),
        DateRangeError,
    >)
        requires
            old(self).wf(),
            start.wf(),
            end.wf(),
        ensures
            final(self).modalities == old(self).modalities,
            !end.spec_le(today) ==> r == Err::<(), DateRangeError>(DateRangeError::EndAfterToday)
                && *final(self) == *old(self),
            end.spec_le(today) && !start.spec_le(end) ==> r == Err::<(), DateRangeError>(
                DateRangeError::StartAfterEnd,
            ) && *final(self) == *old(self),
            end.spec_le(today) && start.spec_le(end) ==> r is Ok && final(self).start_date == start
                && final(self).end_date == end,
            final(self).wf(),
    {
        if !end.is_on_or_before(&today) {
            Err(DateRangeError::EndAfterToday)
        } else if !start.is_on_or_before(&end) {
            Err(DateRangeError::StartAfterEnd)
        } else {
            self.start_date = start;
            self.end_date = end;
            Ok(())
        }
    }

    /// Flips the selection of `code`; a code not on the bar is added, selected.
    pub fn toggle_modality(&mut self, code: &str)
        requires
            old(self).wf(),
        ensures
            final(self).wf(),
            final(self).start_date == old(self).start_date,
            final(self).end_date == old(self).end_date,
            codes_of(old(self).modalities@).contains(code@) ==> {
                &&& codes_of(final(self).modalities@) == codes_of(old(self).modalities@)
                &&& forall|i: int|
                    0 <= i < old(self).modalities@.len() ==> (#[trigger] final(self).modalities@[i]).selected
                        == (if old(self).modalities@[i].code@ == code@ {
                        !old(self).modalities@[i].selected
                    } else {
                        old(self).modalities@[i].selected
                    })
            },
            !codes_of(old(self).modalities@).contains(code@) ==> {
                &&& codes_of(final(self).modalities@) == codes_of(old(self).modalities@).push(code@)
                &&& flags_of(final(self).modalities@) == flags_of(old(self).modalities@).push(true)
            },
    {
        let ghost before = self.modalities@;
        let mut i: usize = 0;
        while i < self.modalities.len()
            invariant
                self.modalities@ == before,
                self.start_date == old(self).start_date,
                self.end_date == old(self).end_date,
                old(self).wf(),
                old(self).modalities@ == before,
                i <= before.len(),
                forall|k: int| 0 <= k < i ==> before[k].code@ != code@,
            decreases before.len() - i,
        {
            if same_text(self.modalities[i].code.as_str(), code) {
                let flipped = !self.modalities[i].selected;
                let code_copy = self.modalities[i].code.clone();
                self.modalities.set(i, ModalityChoice { code: code_copy, selected: flipped });
                proof {
                    assert(codes_of(before)[i as int] == code@);
                    assert(codes_of(self.modalities@) =~= codes_of(before));
                    assert forall|k: int| 0 <= k < before.len() && k != i implies before[k].code@
                        != code@ by {
                        if k > i {
                            assert(before[i as int].code@ == code@);
                        }
                    }
                }
                return;
            }
            i = i + 1;
        }
        proof {
            assert forall|k: int| 0 <= k < codes_of(before).len() implies codes_of(before)[k]
                != code@ by {
                assert(codes_of(before)[k] == before[k].code@);
            }
        }
        self.modalities.push(ModalityChoice { code: code.to_string(), selected: true });
        assert(codes_of(self.modalities@) =~= codes_of(before).push(code@));
        assert(flags_of(self.modalities@) =~= flags_of(before).push(true));
        assert(codes_unique(self.modalities@)) by {
            assert forall|a: int, b: int| 0 <= a < b < self.modalities@.len() implies #[trigger] self.modalities@[a].code@
                != #[trigger] self.modalities@[b].code@ by {
                if b == before.len() {
                    assert(self.modalities@[a] == before[a]);
                } else {
                    assert(self.modalities@[a] == before[a]);
                    assert(self.modalities@[b] == before[b]);
                }
            }
        }
    }

    /// Clears the selection: the query no longer restricts modality.
    pub fn select_all_modalities(&mut self)
        requires
            old(self).wf(),
        ensures
            final(self).wf(),
            final(self).start_date == old(self).start_date,
            final(self).end_date == old(self).end_date,
            codes_of(final(self).modalities@) == codes_of(old(self).modalities@),
            forall|i: int| 0 <= i < final(self).modalities@.len() ==> !(#[trigger] final(self).modalities@[i]).selected,
            selected_codes(final(self).modalities@) == Seq::<Seq<char>>::empty(),
    {
        let ghost before = self.modalities@;
        let mut i: usize = 0;
        while i < self.modalities.len()
            invariant
                self.modalities@.len() == before.len(),
                self.start_date == old(self).start_date,
                self.end_date == old(self).end_date,
                old(self).wf(),
                old(self).modalities@ == before,
                i <= before.len(),
                forall|k: int| 0 <= k < before.len() ==> (#[trigger] self.modalities@[k]).code == before[k].code,
                forall|k: int| 0 <= k < i ==> !(#[trigger] self.modalities@[k]).selected,
            decreases before.len() - i,
        {
            let code_copy = self.modalities[i].code.clone();
            self.modalities.set(i, ModalityChoice { code: code_copy, selected: false });
            i = i + 1;
        }
        assert(codes_of(self.modalities@) =~= codes_of(before));
        assert(codes_unique(self.modalities@)) by {
            assert forall|a: int, b: int| 0 <= a < b < self.modalities@.len() implies #[trigger] self.modalities@[a].code@
                != #[trigger] self.modalities@[b].code@ by {
                assert(self.modalities@[a].code == before[a].code);
                assert(self.modalities@[b].code == before[b].code);
            }
        }
        proof {
            lemma_none_selected(self.modalities@);
        }
    }

    /// The selected codes, in the order of the bar.
    pub fn selected_modalities(&self) -> (r: Vec<String>)
        ensures
            crate::study::strings_view(r@) == selected_codes(self.modalities@),
    {
        let mut out: Vec<String> = Vec::new();
        let mut i: usize = 0;
        while i < self.modalities.len()
            invariant
                i <= self.modalities@.len(),
                crate::study::strings_view(out@) == selected_codes(
                    self.modalities@.subrange(0, i as int),
                ),
            decreases self.modalities@.len() - i,
        {
            let ghost prefix = self.modalities@.subrange(0, i + 1);
            assert(prefix.drop_last() =~= self.modalities@.subrange(0, i as int));
            if self.modalities[i].selected {
                out.push(self.modalities[i].code.clone());
            }
            assert(crate::study::strings_view(out@) =~= selected_codes(prefix));
            i = i + 1;
        }
        assert(self.modalities@.subrange(0, self.modalities@.len() as int) =~= self.modalities@);
        out
    }

    /// The worklist query for these parameters under the archive root.
    pub fn study_query(&self, root: &str) -> (r: String)
        requires
            self.wf(),
        ensures
            r@ == study_query_text(root@, *self),
    {
        let mut out = String::new();
        out.append(root);
        out.append("/studies?StudyDate=");
        append_da(&mut out, self.start_date);
        out.append("-");
        append_da(&mut out, self.end_date);
        let mut i: usize = 0;
        while i < self.modalities.len()
            invariant
                i <= self.modalities@.len(),
                out@ == root@ + "/studies?StudyDate="@ + da_text(self.start_date) + "-"@ + da_text(
                    self.end_date,
                ) + modality_params(selected_codes(self.modalities@.subrange(0, i as int))),
            decreases self.modalities@.len() - i,
        {
            let ghost prefix = self.modalities@.subrange(0, i + 1);
            assert(prefix.drop_last() =~= self.modalities@.subrange(0, i as int));
            if self.modalities[i].selected {
                out.append("&ModalitiesInStudy=");
                out.append(self.modalities[i].code.as_str());
                assert(selected_codes(prefix).drop_last() =~= selected_codes(prefix.drop_last()));
            }
            proof {
                let base = root@ + "/studies?StudyDate="@ + da_text(self.start_date) + "-"@
                    + da_text(self.end_date);
                if self.modalities@[i as int].selected {
                    assert(out@ =~= base + modality_params(selected_codes(prefix)));
                } else {
                    assert(out@ =~= base + modality_params(selected_codes(prefix)));
                }
            }
            i = i + 1;
        }
        out.append("&includefield=StudyDescription&includefield=SourceApplicationEntityTitle");
        assert(self.modalities@.subrange(0, self.modalities@.len() as int) =~= self.modalities@);
        assert(out@ =~= study_query_text(root@, *self));
        out
    }
}

proof fn lemma_none_selected(choices: Seq<ModalityChoice>)
    requires
        forall|i: int| 0 <= i < choices.len() ==> !(#[trigger] choices[i]).selected,
    ensures
        selected_codes(choices) == Seq::<Seq<char>>::empty(),
    decreases choices.len(),
{
    if choices.len() > 0 {
        lemma_none_selected(choices.drop_last());
    }
}

/// The query for one study, by its instance UID, with the attributes that
/// the report copies.
pub fn study_details_query(root: &str, uid: &str) -> (r: String)
    ensures
        r@ == study_details_query_text(root@, uid@),
{
    let mut out = String::new();
    out.append(root);
    out.append("/studies?StudyInstanceUID=");
    out.append(uid);
    out.append(
        "&includefield=StudyID&includefield=PatientBirthDate&includefield=PatientSex&includefield=Manufacturer",
    );
    assert(out@ =~= study_details_query_text(root@, uid@));
    out
}

/// What a study query came to.
#[derive(Debug)]
pub enum QueryOutcome<T> {
    /// The archive answered with one or more studies.
    Found(Vec<T>),
    /// The query succeeded and matched nothing.
    NoResults,
    /// The archive answered with another status than 200 or 204.
    ServerError(u16),
    /// The request could not be completed.
    TransportError,
    /// The body of a 200 answer could not be read as DICOM-JSON studies.
    ParseError,
}

/// Reads the answer to a query: `status` is `None` where no answer came, and
/// `parsed` holds the studies read from the body of a 200 answer, or `None`
/// where the body could not be read.
pub fn classify_response<T>(status: Option<u16>, parsed: Option<Vec<T>>) -> (r: QueryOutcome<T>)
    ensures
        status is None ==> r is TransportError,
        status == Some(204u16) ==> r is NoResults,
        status is Some && status != Some(200u16) && status != Some(204u16) ==> r
            == QueryOutcome::<T>::ServerError(status->0),
        status == Some(200u16) ==> match parsed {
            None => r is ParseError,
            Some(v) => if v@.len() == 0 {
                r is NoResults
            } else {
                r == QueryOutcome::Found(v)
            },
        },
{
    match status {
        None => QueryOutcome::TransportError,
        Some(code) => {
            if code == 204 {
                QueryOutcome::NoResults
            } else if code != 200 {
                QueryOutcome::ServerError(code)
            } else {
                match parsed {
                    None => QueryOutcome::ParseError,
                    Some(v) => {
                        if v.len() == 0 {
                            QueryOutcome::NoResults
                        } else {
                            QueryOutcome::Found(v)
                        }
                    },
                }
            }
        },
    }
}

/// The first of the studies that a query by instance UID found.
pub fn first_result<T>(outcome: QueryOutcome<T>) -> (r: Result<T, QueryOutcome<T>>)
    ensures
        match outcome {
            QueryOutcome::Found(v) => if v@.len() > 0 {
                r == Ok::<T, QueryOutcome<T>>(v@[0])
            } else {
                r == Err::<T, QueryOutcome<T>>(QueryOutcome::NoResults)
            },
            _ => r == Err::<T, QueryOutcome<T>>(outcome),
        },
{
    match outcome {
        QueryOutcome::Found(mut v) => {
            if v.len() > 0 {
                Ok(v.swap_remove(0))
            } else {
                Err(QueryOutcome::NoResults)
            }
        },
        other => Err(other),
    }
}

/// Hands out increasing numbers to the queries it dispatches, so that an
/// answer to a query that a later one superseded can be recognised and
/// dropped.
#[derive(Debug)]
pub struct QuerySequencer {
    pub last_issued: u64,
}

impl QuerySequencer {
    pub fn new() -> (r: QuerySequencer)
        ensures
            r.last_issued == 0,
    {
        QuerySequencer { last_issued: 0 }
    }

    /// The number of a new query, above every number issued before.
    pub fn issue(&mut self) -> (r: u64)
        requires
            old(self).last_issued < u64::MAX,
        ensures
            r == old(self).last_issued + 1,
            final(self).last_issued == r,
    {
        self.last_issued = self.last_issued + 1;
        self.last_issued
    }

    /// Whether the answer to query `seq` is still wanted: only the latest
    /// query's is.
    pub fn is_current(&self, seq: u64) -> (r: bool)
        ensures
            r == (seq == self.last_issued),
    {
        seq == self.last_issued
    }
}

} // verus!
