//! What comes of statements.
use crate::semantic::classify::Classification;
use crate::tds::tokens::{
    row_view, rows_view, ResultSet, ResultSetView, SqlError, SqlErrorView,
};
use crate::text::{lemma_views_empty, lemma_views_push, opt_view, str_eq, views};
use vstd::prelude::*;

verus! {

broadcast use {lemma_views_push, lemma_views_empty};

/// A change of the session that a client brought about.
#[derive(Debug)]
pub struct StateChange {
    pub property: String,
    pub old_value: String,
    pub new_value: String,
}

/// What comes of a request.
#[derive(Debug)]
pub struct Outcome {
    pub classification: Classification,
    pub risk_tags: Vec<String>,
    pub result_sets: Vec<ResultSet>,
    pub messages: Vec<String>,
    pub error: Option<SqlError>,
    pub state_changes: Vec<StateChange>,
    pub payload_candidate: Option<PayloadCandidate>,
    pub honey_object: Option<String>,
}

/// Material that a client handed over.
#[derive(Debug)]
pub struct PayloadCandidate {
    pub kind: String,
    pub bytes: Vec<u8>,
}

/// The model of a [`StateChange`].
pub struct StateChangeView {
    pub property: Seq<char>,
    pub old_value: Seq<char>,
    pub new_value: Seq<char>,
}

/// The model of an [`Outcome`].
pub struct OutcomeView {
    pub classification: Classification,
    pub risk_tags: Seq<Seq<char>>,
    pub result_sets: Seq<ResultSetView>,
    pub messages: Seq<Seq<char>>,
    pub error: Option<SqlErrorView>,
    pub state_changes: Seq<StateChangeView>,
    pub payload_candidate: Option<PayloadCandidateView>,
    pub honey_object: Option<Seq<char>>,
}

/// The model of a [`PayloadCandidate`].
pub struct PayloadCandidateView {
    pub kind: Seq<char>,
    pub bytes: Seq<u8>,
}

impl View for StateChange {
    type V = StateChangeView;

    open spec fn view(&self) -> StateChangeView {
        StateChangeView {
            property: self.property@,
            old_value: self.old_value@,
            new_value: self.new_value@,
        }
    }
}

impl View for PayloadCandidate {
    type V = PayloadCandidateView;

    open spec fn view(&self) -> PayloadCandidateView {
        PayloadCandidateView { kind: self.kind@, bytes: self.bytes@ }
    }
}

impl View for Outcome {
    type V = OutcomeView;

    open spec fn view(&self) -> OutcomeView {
        OutcomeView {
            classification: self.classification,
            risk_tags: views(self.risk_tags@),
            result_sets: views(self.result_sets@),
            messages: views(self.messages@),
            error: opt_view(self.error),
            state_changes: views(self.state_changes@),
            payload_candidate: opt_view(self.payload_candidate),
            honey_object: opt_view(self.honey_object),
        }
    }
}

/// An outcome with nothing in it yet.
pub open spec fn no_outcome(classification: Classification) -> OutcomeView {
    OutcomeView {
        classification,
        risk_tags: classification.tags(),
        result_sets: seq![],
        messages: seq![],
        error: None,
        state_changes: seq![],
        payload_candidate: None,
        honey_object: None,
    }
}

impl OutcomeView {
    /// The outcome with one table more.
    pub open spec fn with_table(self, table: ResultSetView) -> OutcomeView {
        OutcomeView { result_sets: self.result_sets.push(table), ..self }
    }

    /// The outcome with one message more.
    pub open spec fn with_message(self, message: Seq<char>) -> OutcomeView {
        OutcomeView { messages: self.messages.push(message), ..self }
    }

    /// The outcome with an error.
    pub open spec fn with_error(self, number: u32, state: u8, class: u8, message: Seq<char>) -> OutcomeView {
        OutcomeView { error: Some(SqlErrorView { number, state, class, message }), ..self }
    }

    /// The outcome with a note that a property of the session changed, where it did.
    pub open spec fn with_change(
        self,
        property: Seq<char>,
        old_value: Seq<char>,
        new_value: Seq<char>,
    ) -> OutcomeView {
        if old_value == new_value {
            self
        } else {
            OutcomeView {
                state_changes: self.state_changes.push(
                    StateChangeView { property, old_value, new_value },
                ),
                ..self
            }
        }
    }
}

impl Outcome {
    /// An outcome with nothing in it yet.
    pub fn empty(classification: Classification) -> (outcome: Outcome)
        ensures
            outcome@ == no_outcome(classification),
    {
        let tags = classification.risk_tags();
        let mut risk_tags: Vec<String> = Vec::new();
        let mut i: usize = 0;
        while i < tags.len()
            invariant
                i <= tags@.len(),
                views(risk_tags@) == views(tags@).take(i as int),
            decreases tags.len() - i,
        {
            risk_tags.push(tags[i].to_owned());
            i += 1;
            assert(views(risk_tags@) =~= views(tags@).take(i as int));
        }
        assert(views(risk_tags@) =~= views(tags@));
        Outcome {
            classification,
            risk_tags,
            result_sets: Vec::new(),
            messages: Vec::new(),
            error: None,
            state_changes: Vec::new(),
            payload_candidate: None,
            honey_object: None,
        }
    }

    pub(crate) fn add_table(&mut self, table: ResultSet)
        ensures
            final(self)@ == old(self)@.with_table(table@),
    {
        self.result_sets.push(table);
    }

    pub(crate) fn add_message(&mut self, message: String)
        ensures
            final(self)@ == old(self)@.with_message(message@),
    {
        self.messages.push(message);
    }

    pub(crate) fn fail(&mut self, number: u32, state: u8, class: u8, message: String)
        ensures
            final(self)@ == old(self)@.with_error(number, state, class, message@),
    {
        self.error = Some(SqlError { number, state, class, message });
    }

    pub(crate) fn change(&mut self, property: &str, old_value: &str, new_value: &str)
        ensures
            final(self)@ == old(self)@.with_change(property@, old_value@, new_value@),
    {
        if !str_eq(old_value, new_value) {
            self.state_changes.push(
                StateChange {
                    property: property.to_owned(),
                    old_value: old_value.to_owned(),
                    new_value: new_value.to_owned(),
                },
            );
        }
    }
}

// ---------------------------------------------------------------------------
// Tables

/// Rows of one cell each.
pub open spec fn one_cell_rows(cells: Seq<Seq<char>>) -> Seq<Seq<Option<Seq<char>>>> {
    Seq::new(cells.len(), |i: int| seq![Some(cells[i])])
}

/// Rows of a cell each and one that is the same in all of them.
pub open spec fn two_cell_rows(cells: Seq<Seq<char>>, second: Seq<char>) -> Seq<
    Seq<Option<Seq<char>>>,
> {
    Seq::new(cells.len(), |i: int| seq![Some(cells[i]), Some(second)])
}

/// A table with one column.
pub open spec fn list_table(column: Seq<char>, cells: Seq<Seq<char>>) -> ResultSetView {
    ResultSetView { columns: seq![column], rows: one_cell_rows(cells) }
}

/// A table with two columns, of which the second holds the same in each row.
pub open spec fn pair_table(
    column: Seq<char>,
    other: Seq<char>,
    cells: Seq<Seq<char>>,
    second: Seq<char>,
) -> ResultSetView {
    ResultSetView { columns: seq![column, other], rows: two_cell_rows(cells, second) }
}

/// Cells that all hold something.
pub open spec fn filled(cells: Seq<Seq<char>>) -> Seq<Option<Seq<char>>> {
    Seq::new(cells.len(), |i: int| Some(cells[i]))
}

/// A table with one row.
pub open spec fn row_table(columns: Seq<Seq<char>>, cells: Seq<Seq<char>>) -> ResultSetView {
    ResultSetView { columns, rows: seq![filled(cells)] }
}

pub(crate) fn list_of(column: &str, cells: &Vec<String>) -> (table: ResultSet)
    ensures
        table@ == list_table(column@, views(cells@)),
{
    let mut columns: Vec<String> = Vec::new();
    columns.push(column.to_owned());
    let mut rows: Vec<Vec<Option<String>>> = Vec::new();
    let mut i: usize = 0;
    while i < cells.len()
        invariant
            i <= cells@.len(),
            rows@.len() == i,
            forall|j: int|
                0 <= j < i ==> row_view((#[trigger] rows@[j])@) == seq![Some(cells@[j]@)],
        decreases cells.len() - i,
    {
        let mut row: Vec<Option<String>> = Vec::new();
        row.push(Some(cells[i].clone()));
        assert(row_view(row@) =~= seq![Some(cells@[i as int]@)]);
        rows.push(row);
        i += 1;
    }
    assert(rows_view(rows@) =~= one_cell_rows(views(cells@)));
    assert(views(columns@) =~= seq![column@]);
    ResultSet { columns, rows }
}

pub(crate) fn pairs_of(column: &str, other: &str, cells: &Vec<String>, second: &str) -> (table:
    ResultSet)
    ensures
        table@ == pair_table(column@, other@, views(cells@), second@),
{
    let mut columns: Vec<String> = Vec::new();
    columns.push(column.to_owned());
    columns.push(other.to_owned());
    let mut rows: Vec<Vec<Option<String>>> = Vec::new();
    let mut i: usize = 0;
    while i < cells.len()
        invariant
            i <= cells@.len(),
            rows@.len() == i,
            forall|j: int|
                0 <= j < i ==> row_view((#[trigger] rows@[j])@) == seq![
                    Some(cells@[j]@),
                    Some(second@),
                ],
        decreases cells.len() - i,
    {
        let mut row: Vec<Option<String>> = Vec::new();
        row.push(Some(cells[i].clone()));
        row.push(Some(second.to_owned()));
        assert(row_view(row@) =~= seq![Some(cells@[i as int]@), Some(second@)]);
        rows.push(row);
        i += 1;
    }
    assert(rows_view(rows@) =~= two_cell_rows(views(cells@), second@));
    assert(views(columns@) =~= seq![column@, other@]);
    ResultSet { columns, rows }
}

pub(crate) fn row_of(columns: Vec<String>, cells: &Vec<String>) -> (table: ResultSet)
    ensures
        table@ == row_table(views(columns@), views(cells@)),
{
    let mut row: Vec<Option<String>> = Vec::new();
    let mut i: usize = 0;
    while i < cells.len()
        invariant
            i <= cells@.len(),
            row@.len() == i,
            forall|j: int| 0 <= j < i ==> opt_view(#[trigger] row@[j]) == Some(cells@[j]@),
        decreases cells.len() - i,
    {
        row.push(Some(cells[i].clone()));
        i += 1;
    }
    assert(row_view(row@) =~= filled(views(cells@)));
    let mut rows: Vec<Vec<Option<String>>> = Vec::new();
    rows.push(row);
    assert(rows_view(rows@) =~= seq![filled(views(cells@))]);
    ResultSet { columns, rows }
}

} // verus!
