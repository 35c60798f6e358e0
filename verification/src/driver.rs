//! The decisions of one pass over a stream of records.
//!
//! Reading and writing belong to the caller. It hands each record, in the
//! order read, to [`Search::step`] and forwards the record, whole and as it
//! was read, when the answer is [`Action::Forward`].

use crate::evaluate::{decide, decision};
use crate::filter::Filter;
use crate::record::record_fields;
use crate::selection::{positions_fit, Selection};
use csv::ByteRecord;
use vstd::prelude::*;

verus! {

/// Where a pass stands.
#[derive(Clone, Copy, Debug, PartialEq, Eq, Structural)]
pub enum Phase {
    /// The next record is the header row.
    AwaitingHeader,
    /// Every further record is a data row.
    Streaming,
}

/// What the caller does with the record it has just handed over.
#[derive(Clone, Copy, Debug, PartialEq, Eq, Structural)]
pub enum Action {
    /// Write the whole record to the output, unchanged.
    Forward,
    /// Write nothing.
    Skip,
}

/// One pass: the filter, the selection and the inversion flag, all fixed when
/// the pass is made, and the phase it is in.
#[derive(Debug)]
pub struct Search<'a> {
    filter: Filter<'a>,
    selection: Selection,
    invert_match: bool,
    phase: Phase,
}

/// Whether a record with these fields is forwarded when it arrives in
/// `phase`: the header row always, a data row by the decision on it.
pub open spec fn forwards(
    phase: Phase,
    filter: &Filter,
    selection: Seq<usize>,
    invert_match: bool,
    fields: Seq<Seq<u8>>,
) -> bool {
    phase == Phase::AwaitingHeader || decision(filter, selection, fields, invert_match)
}

/// The rows that a pass forwards, in order, when it starts in `phase` and is
/// handed `rows` one after the other.
pub open spec fn forwarded(
    phase: Phase,
    filter: &Filter,
    selection: Seq<usize>,
    invert_match: bool,
    rows: Seq<Seq<Seq<u8>>>,
) -> Seq<Seq<Seq<u8>>>
    decreases rows.len(),
{
    if rows.len() == 0 {
        Seq::empty()
    } else {
        let rest = forwarded(Phase::Streaming, filter, selection, invert_match, rows.skip(1));
        if forwards(phase, filter, selection, invert_match, rows[0]) {
            seq![rows[0]] + rest
        } else {
            rest
        }
    }
}

impl<'a> Search<'a> {
    /// The filter of the pass.
    pub closed spec fn filter(&self) -> Filter<'a> {
        self.filter
    }

    /// The selected positions.
    pub closed spec fn selection(&self) -> Seq<usize> {
        self.selection@
    }

    /// Whether decisions are negated.
    pub closed spec fn invert_match(&self) -> bool {
        self.invert_match
    }

    /// The phase the pass is in.
    pub closed spec fn phase(&self) -> Phase {
        self.phase
    }

    /// What the pass answers to a record with these fields, as it stands.
    pub open spec fn answer(&self, fields: Seq<Seq<u8>>) -> Action {
        if forwards(
            self.phase(),
            &self.filter(),
            self.selection(),
            self.invert_match(),
            fields,
        ) {
            Action::Forward
        } else {
            Action::Skip
        }
    }

    /// Whether `step` can take a record with these fields: a header row
    /// always, a data row when it has every selected position.
    pub open spec fn admits(&self, fields: Seq<Seq<u8>>) -> bool {
        self.phase() == Phase::AwaitingHeader || positions_fit(self.selection(), fields.len())
    }

    /// A pass at its start. With `headers` the first record is awaited as the
    /// header row; without, every record is a data row.
    pub fn new(
        filter: Filter<'a>,
        selection: Selection,
        invert_match: bool,
        headers: bool,
    ) -> (r: Search<'a>)
        ensures
            r.filter() == filter,
            r.selection() == selection@,
            r.invert_match() == invert_match,
            r.phase() == if headers {
                Phase::AwaitingHeader
            } else {
                Phase::Streaming
            },
    {
        let phase = if headers {
            Phase::AwaitingHeader
        } else {
            Phase::Streaming
        };
        Search { filter, selection, invert_match, phase }
    }

    /// The phase the pass is in.
    pub fn current_phase(&self) -> (p: Phase)
        ensures
            p == self.phase(),
    {
        self.phase
    }

    /// Whether `step` can take this record.
    pub fn accepts_record(&self, record: &ByteRecord) -> (ok: bool)
        ensures
            ok == self.admits(record_fields(*record)),
    {
        match self.phase {
            Phase::AwaitingHeader => true,
            Phase::Streaming => self.selection.fits(record.len()),
        }
    }

    /// Takes the next record of the input and says what to do with it.
    ///
    /// The header row is forwarded without being looked at. A data row is
    /// forwarded exactly when the decision on it is `true`. After any record
    /// the pass is streaming; nothing else of it changes.
    pub fn step(&mut self, record: &ByteRecord) -> (action: Action)
        requires
            old(self).admits(record_fields(*record)),
        ensures
            final(self).phase() == Phase::Streaming,
            final(self).filter() == old(self).filter(),
            final(self).selection() == old(self).selection(),
            final(self).invert_match() == old(self).invert_match(),
            action == old(self).answer(record_fields(*record)),
    {
        match self.phase {
            Phase::AwaitingHeader => {
                self.phase = Phase::Streaming;
                Action::Forward
            },
            Phase::Streaming => {
                if decide(&self.filter, &self.selection, record, self.invert_match) {
                    Action::Forward
                } else {
                    Action::Skip
                }
            },
        }
    }

    /// As `step`, for a caller that does not know whether the record is wide
    /// enough for the selection: where it is not, `None`, and the pass is
    /// left as it was.
    pub fn try_step(&mut self, record: &ByteRecord) -> (action: Option<Action>)
        ensures
            final(self).filter() == old(self).filter(),
            final(self).selection() == old(self).selection(),
            final(self).invert_match() == old(self).invert_match(),
            old(self).admits(record_fields(*record)) ==> {
                &&& final(self).phase() == Phase::Streaming
                &&& action == Some(old(self).answer(record_fields(*record)))
            },
            !old(self).admits(record_fields(*record)) ==> {
                &&& final(self).phase() == old(self).phase()
                &&& action.is_none()
            },
    {
        if self.accepts_record(record) {
            Some(self.step(record))
        } else {
            None
        }
    }
}

/// The header row is forwarded exactly once and before any data row,
/// whatever the filter would say of it: a pass that awaits a header forwards
/// the first row, and then what a streaming pass forwards of the rest.
pub proof fn lemma_header_forwarded_first(
    filter: &Filter,
    selection: Seq<usize>,
    invert_match: bool,
    rows: Seq<Seq<Seq<u8>>>,
)
    requires
        rows.len() > 0,
    ensures
        forwarded(Phase::AwaitingHeader, filter, selection, invert_match, rows) == seq![rows[0]]
            + forwarded(Phase::Streaming, filter, selection, invert_match, rows.skip(1)),
        forwarded(Phase::AwaitingHeader, filter, selection, invert_match, rows)[0] == rows[0],
        forwarded(Phase::AwaitingHeader, filter, selection, invert_match, rows).len() == 1
            + forwarded(Phase::Streaming, filter, selection, invert_match, rows.skip(1)).len(),
{
}

/// Forwarded rows are input rows, whole and in the order read, whichever
/// fields were looked at: row `j` of the output is row `source[j]` of the
/// input, every field of it, and `source` rises strictly.
pub proof fn lemma_forwarded_rows_are_input_rows(
    phase: Phase,
    filter: &Filter,
    selection: Seq<usize>,
    invert_match: bool,
    rows: Seq<Seq<Seq<u8>>>,
) -> (source: Seq<int>)
    ensures
        source.len() == forwarded(phase, filter, selection, invert_match, rows).len(),
        source.len() <= rows.len(),
        forall|j: int|
            0 <= j < source.len() ==> 0 <= #[trigger] source[j] < rows.len() && forwarded(
                phase,
                filter,
                selection,
                invert_match,
                rows,
            )[j] == rows[source[j]],
        forall|i: int, j: int| 0 <= i < j < source.len() ==> source[i] < source[j],
    decreases rows.len(),
{
    if rows.len() == 0 {
        Seq::empty()
    } else {
        let rest = lemma_forwarded_rows_are_input_rows(
            Phase::Streaming,
            filter,
            selection,
            invert_match,
            rows.skip(1),
        );
        let shifted = Seq::new(rest.len(), |j: int| rest[j] + 1);
        if forwards(phase, filter, selection, invert_match, rows[0]) {
            seq![0int] + shifted
        } else {
            shifted
        }
    }
}

} // verus!
