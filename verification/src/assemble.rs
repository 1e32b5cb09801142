//! From rows to records: each row is completed by the page count that its
//! book's own page states, and the records keep the order of the rows
//! whatever the order in which the pages arrive.

use crate::book::{BookView, GoodreadsBook};
use crate::pages::{document_pages, extract_pages_from_url};
use crate::scan::{Row, RowView, page_markup, rows_view, scan};
use crate::text::copy_texts;
use crate::title::{parsed, parsed_is_well_formed, split};
use vstd::prelude::*;

verus! {

/// How the fetch of a book's own page ended.
#[derive(Clone, Debug, PartialEq, Eq)]
pub enum Fetched {
    /// The page arrived; this is its text.
    Page(String),
    /// The page could not be had.
    Failed,
}

/// Why a row gave no record.
#[derive(Clone, Copy, Debug, PartialEq, Eq)]
pub enum RowError {
    /// The fetch of the book's own page failed.
    DetailFetchFailed,
    /// The book's own page was not fetched, or its fetch has not ended.
    DetailNotFetched,
}

/// Why a search gave nothing at all.
#[derive(Clone, Copy, Debug, PartialEq, Eq)]
pub enum SearchError {
    /// The fetch of the page of results failed.
    ResultsFetchFailed,
}

/// Where a row stands.
#[derive(Clone, Copy, Debug, PartialEq, Eq)]
pub enum Slot {
    /// The fetch of its page has not begun.
    Waiting,
    /// The fetch of its page is under way.
    InFlight,
    /// Its page arrived and states this page count.
    Pages(u64),
    /// The fetch of its page failed.
    Failed,
}

/// The record of a row whose book has `pages` pages: title and series as
/// the row's text reads, and the rest as the row has it.
pub open spec fn record_of(row: RowView, pages: nat) -> BookView {
    BookView {
        title: parsed(row.title_series).0,
        authors: row.authors,
        pages,
        series: parsed(row.title_series).1,
        url: row.url,
        cover_image: row.cover,
    }
}

/// The record of a well-formed row is well-formed.
pub proof fn record_is_well_formed(row: RowView, pages: nat)
    requires
        row.wf(),
    ensures
        record_of(row, pages).wf(),
{
    parsed_is_well_formed(row.title_series);
}

/// What a row gives in the end: its record, or why there is none.
pub open spec fn outcome_of(row: RowView, slot: Slot) -> Result<BookView, RowError> {
    match slot {
        Slot::Pages(pages) => Ok(record_of(row, pages as nat)),
        Slot::Failed => Err(RowError::DetailFetchFailed),
        _ => Err(RowError::DetailNotFetched),
    }
}

/// Where a row stands once the fetch of its page has ended.
pub open spec fn slot_after(fetched: Fetched) -> Slot {
    match fetched {
        Fetched::Page(document) => Slot::Pages(document_pages(document@) as u64),
        Fetched::Failed => Slot::Failed,
    }
}

/// What a result stands for.
pub open spec fn result_view(result: Result<GoodreadsBook, RowError>) -> Result<
    BookView,
    RowError,
> {
    match result {
        Ok(book) => Ok(book@),
        Err(error) => Err(error),
    }
}

/// How many of the slots are in flight.
pub open spec fn in_flight(slots: Seq<Slot>) -> nat
    decreases slots.len(),
{
    if slots.len() == 0 {
        0
    } else if slots.last() == Slot::InFlight {
        in_flight(slots.drop_last()) + 1
    } else {
        in_flight(slots.drop_last())
    }
}

/// What an `Assembly` stands for: the rows, where each stands, how many
/// fetches may be under way at once, and how many have been started.
pub ghost struct AssemblyView {
    pub rows: Seq<RowView>,
    pub slots: Seq<Slot>,
    pub limit: nat,
    pub started: nat,
}

impl AssemblyView {
    /// Each row has its slot; the fetches are started in the order of the
    /// rows; and no more are under way than the limit.
    pub open spec fn wf(self) -> bool {
        &&& self.slots.len() == self.rows.len()
        &&& self.started <= self.slots.len()
        &&& forall|i: int|
            0 <= i < self.slots.len() ==> (i < self.started <==> #[trigger] self.slots[i]
                != Slot::Waiting)
        &&& in_flight(self.slots) <= self.limit
    }

    /// Whether a fetch may be started now.
    pub open spec fn may_start(self) -> bool {
        self.started < self.slots.len() && in_flight(self.slots) < self.limit
    }

    /// Whether every row's fetch has ended.
    pub open spec fn is_complete(self) -> bool {
        self.started == self.slots.len() && in_flight(self.slots) == 0
    }

    /// Whether nothing is left to do: no fetch is under way and none may be
    /// started. With a limit above 0 that is when every row's fetch has
    /// ended; a limit of 0 lets no fetch start at all.
    pub open spec fn is_done(self) -> bool {
        !self.may_start() && in_flight(self.slots) == 0
    }

    /// The state once the fetch of the next row has been started.
    pub open spec fn start(self) -> AssemblyView {
        AssemblyView {
            slots: self.slots.update(self.started as int, Slot::InFlight),
            started: self.started + 1,
            ..self
        }
    }

    /// Whether the end of the fetch for the row at `index` is awaited.
    pub open spec fn awaits(self, index: int) -> bool {
        0 <= index < self.slots.len() && self.slots[index] == Slot::InFlight
    }

    /// The state once the fetch for the row at `index` has ended with
    /// `slot`; the state itself where no such end is awaited.
    pub open spec fn record(self, index: int, slot: Slot) -> AssemblyView {
        if self.awaits(index) {
            AssemblyView { slots: self.slots.update(index, slot), ..self }
        } else {
            self
        }
    }

    /// How many steps are left at most: two for each row whose fetch has
    /// not begun, its start and its end, and one for each fetch under way.
    pub open spec fn steps_left(self) -> nat {
        (2 * (self.slots.len() - self.started) + in_flight(self.slots)) as nat
    }

    /// What the rows give, row by row.
    pub open spec fn outcomes(self) -> Seq<Result<BookView, RowError>> {
        Seq::new(self.rows.len(), |i: int| outcome_of(self.rows[i], self.slots[i]))
    }
}

/// Putting one slot in the place of another changes the number in flight by
/// what the two slots count.
pub proof fn in_flight_after_update(slots: Seq<Slot>, index: int, slot: Slot)
    requires
        0 <= index < slots.len(),
    ensures
        in_flight(slots.update(index, slot)) + (if slots[index] == Slot::InFlight {
            1nat
        } else {
            0nat
        }) == in_flight(slots) + (if slot == Slot::InFlight {
            1nat
        } else {
            0nat
        }),
    decreases slots.len(),
{
    let after = slots.update(index, slot);
    if index == slots.len() - 1 {
        assert(after.drop_last() == slots.drop_last());
    } else {
        in_flight_after_update(slots.drop_last(), index, slot);
        assert(after.drop_last() == slots.drop_last().update(index, slot));
    }
}

/// Where no slot is in flight, none is counted, and the other way round.
pub proof fn in_flight_counts(slots: Seq<Slot>)
    ensures
        in_flight(slots) <= slots.len(),
        in_flight(slots) == 0 <==> forall|i: int|
            0 <= i < slots.len() ==> #[trigger] slots[i] != Slot::InFlight,
    decreases slots.len(),
{
    if slots.len() > 0 {
        in_flight_counts(slots.drop_last());
        if in_flight(slots) == 0 {
            assert forall|i: int| 0 <= i < slots.len() implies #[trigger] slots[i]
                != Slot::InFlight by {
                if i < slots.len() - 1 {
                    assert(slots.drop_last()[i] == slots[i]);
                }
            }
        } else if slots.last() != Slot::InFlight {
            let i = choose|i: int|
                0 <= i < slots.len() - 1 && #[trigger] slots.drop_last()[i] == Slot::InFlight;
            assert(slots[i] == Slot::InFlight);
        }
    }
}

/// Each step leaves the state well-formed and one step less to do, and
/// where nothing is left to do under a limit above 0, no step is left.
pub proof fn steps_get_fewer(state: AssemblyView, index: int, slot: Slot)
    requires
        state.wf(),
        slot != Slot::Waiting,
        slot != Slot::InFlight,
    ensures
        state.may_start() ==> state.start().wf() && state.start().steps_left() + 1
            == state.steps_left(),
        state.awaits(index) ==> state.record(index, slot).wf() && state.record(
            index,
            slot,
        ).steps_left() + 1 == state.steps_left(),
        state.is_done() && state.limit > 0 ==> state.steps_left() == 0 && state.is_complete(),
{
    if state.may_start() {
        in_flight_after_update(state.slots, state.started as int, Slot::InFlight);
    }
    if state.awaits(index) {
        in_flight_after_update(state.slots, index, slot);
    }
}

/// The ends of two fetches may be recorded in either order: the state is
/// the same.
pub proof fn recording_commutes(
    state: AssemblyView,
    first: int,
    first_slot: Slot,
    second: int,
    second_slot: Slot,
)
    requires
        first != second,
        first_slot != Slot::InFlight,
        second_slot != Slot::InFlight,
    ensures
        state.record(first, first_slot).record(second, second_slot) == state.record(
            second,
            second_slot,
        ).record(first, first_slot),
{
    let one = state.record(first, first_slot).record(second, second_slot);
    let other = state.record(second, second_slot).record(first, first_slot);
    assert(one.slots =~= other.slots);
}

/// When every fetch has ended, each row has its record or the failure of
/// its fetch, at the row's own position.
pub proof fn complete_outcomes(state: AssemblyView, index: int)
    requires
        state.wf(),
        state.is_complete(),
        0 <= index < state.rows.len(),
    ensures
        state.outcomes().len() == state.rows.len(),
        state.outcomes()[index] != Err::<BookView, RowError>(RowError::DetailNotFetched),
        state.outcomes()[index] matches Ok(book) ==> book.url == state.rows[index].url,
{
    in_flight_counts(state.slots);
    assert(state.slots[index] != Slot::Waiting);
    assert(state.slots[index] != Slot::InFlight);
}

/// What is to be done next.
#[derive(Clone, Debug, PartialEq, Eq)]
pub enum Action {
    /// Fetch the page at `url` for the row at `index`, and record its end.
    Fetch { index: usize, url: String },
    /// Await the end of a fetch that is under way, and record it.
    Wait,
    /// Nothing is left to do.
    Done,
}

/// What a page's fetch gives: the page count that the page states, or the
/// failure of the fetch.
pub fn enrich(fetched: Fetched) -> (pages: Result<u64, RowError>)
    ensures
        match fetched {
            Fetched::Page(document) => pages == Ok::<u64, RowError>(
                document_pages(document@) as u64,
            ),
            Fetched::Failed => pages == Err::<u64, RowError>(RowError::DetailFetchFailed),
        },
{
    match fetched {
        Fetched::Page(document) => Ok(extract_pages_from_url(document)),
        Fetched::Failed => Err(RowError::DetailFetchFailed),
    }
}

/// The record of a row whose book has `pages` pages.
pub fn book_from(row: &Row, pages: u64) -> (book: GoodreadsBook)
    ensures
        book@ == record_of(row@, pages as nat),
        row@.wf() ==> book@.wf(),
{
    proof {
        if row@.wf() {
            record_is_well_formed(row@, pages as nat);
        }
    }
    let (title, series) = split(row.raw_title_series_text.as_str());
    let cover = match &row.cover_url {
        Some(cover) => Some(cover.clone()),
        None => None,
    };
    GoodreadsBook::new(
        title,
        copy_texts(&row.author_names),
        pages,
        series,
        row.detail_url.clone(),
        cover,
    )
}

/// The rows of one search on their way to records.
pub struct Assembly {
    rows: Vec<Row>,
    slots: Vec<Slot>,
    limit: usize,
    started: usize,
    flying: usize,
}

impl View for Assembly {
    type V = AssemblyView;

    closed spec fn view(&self) -> AssemblyView {
        AssemblyView {
            rows: rows_view(self.rows@),
            slots: self.slots@,
            limit: self.limit as nat,
            started: self.started as nat,
        }
    }
}

impl Assembly {
    /// Whether the state is well-formed and the count of fetches under way
    /// is the one that is kept.
    pub closed spec fn wf(&self) -> bool {
        &&& self@.wf()
        &&& self.flying == in_flight(self.slots@)
    }

    /// A well-formed assembly stands for a well-formed state.
    pub proof fn state_is_well_formed(&self)
        requires
            self.wf(),
        ensures
            self@.wf(),
    {
    }

    /// The rows, none of them fetched yet, with at most `limit` fetches
    /// under way at once.
    pub fn new(rows: Vec<Row>, limit: usize) -> (assembly: Self)
        ensures
            assembly.wf(),
            assembly@.wf(),
            assembly@.rows == rows_view(rows@),
            assembly@.slots == Seq::new(rows.len() as nat, |i: int| Slot::Waiting),
            assembly@.limit == limit,
            assembly@.started == 0,
            in_flight(assembly@.slots) == 0,
    {
        let mut slots: Vec<Slot> = Vec::new();
        let mut i: usize = 0;
        while i < rows.len()
            invariant
                i <= rows.len(),
                slots.len() == i,
                forall|k: int| 0 <= k < i ==> slots[k] == Slot::Waiting,
                in_flight(slots@) == 0,
            decreases rows.len() - i,
        {
            let ghost before = slots@;
            slots.push(Slot::Waiting);
            assert(slots@.drop_last() == before);
            i += 1;
        }
        assert(slots@ =~= Seq::new(rows.len() as nat, |i: int| Slot::Waiting));
        Assembly { rows, slots, limit, started: 0, flying: 0 }
    }

    /// The rows of the page of results that a search's first fetch brought,
    /// none of them fetched yet; the search fails as a whole where that
    /// fetch failed.
    pub fn begin(results: Fetched, limit: usize) -> (begun: Result<Self, SearchError>)
        ensures
            match results {
                Fetched::Page(document) => {
                    &&& begun matches Ok(assembly)
                    &&& assembly.wf()
                    &&& assembly@.wf()
                    &&& assembly@.rows == page_markup(document@).rows()
                    &&& assembly@.slots == Seq::new(assembly@.rows.len(), |i: int| Slot::Waiting)
                    &&& assembly@.limit == limit
                    &&& assembly@.started == 0
                    &&& in_flight(assembly@.slots) == 0
                    &&& forall|i: int|
                        0 <= i < assembly@.rows.len() ==> (#[trigger] assembly@.rows[i]).wf()
                },
                Fetched::Failed => begun matches Err(SearchError::ResultsFetchFailed),
            },
    {
        match results {
            Fetched::Page(document) => {
                let rows = scan(document.as_str());
                assert forall|i: int| 0 <= i < rows.len() implies (#[trigger] rows_view(
                    rows@,
                )[i]).wf() by {
                    assert(rows[i]@.wf());
                }
                Ok(Assembly::new(rows, limit))
            },
            Fetched::Failed => Err(SearchError::ResultsFetchFailed),
        }
    }

    /// The number of rows.
    pub fn len(&self) -> (len: usize)
        requires
            self.wf(),
        ensures
            len == self@.rows.len(),
    {
        self.rows.len()
    }

    /// Whether every row's fetch has ended.
    pub fn is_complete(&self) -> (complete: bool)
        requires
            self.wf(),
        ensures
            complete == self@.is_complete(),
    {
        self.started == self.slots.len() && self.flying == 0
    }

    /// What is to be done next. A fetch is started for the next row in
    /// order while fewer than the limit are under way; with a limit of 0
    /// none is ever started.
    pub fn next_action(&mut self) -> (action: Action)
        requires
            old(self).wf(),
        ensures
            final(self).wf(),
            final(self)@.wf(),
            match action {
                Action::Fetch { index, url } => {
                    &&& old(self)@.may_start()
                    &&& index == old(self)@.started
                    &&& url@ == old(self)@.rows[index as int].url
                    &&& final(self)@ == old(self)@.start()
                },
                Action::Wait => {
                    &&& !old(self)@.may_start()
                    &&& in_flight(old(self)@.slots) > 0
                    &&& final(self)@ == old(self)@
                },
                Action::Done => {
                    &&& old(self)@.is_done()
                    &&& old(self)@.limit > 0 ==> old(self)@.is_complete()
                    &&& final(self)@ == old(self)@
                },
            },
    {
        if self.started < self.slots.len() && self.flying < self.limit {
            let index = self.started;
            proof {
                in_flight_after_update(self.slots@, index as int, Slot::InFlight);
            }
            self.slots[index] = Slot::InFlight;
            self.started = index + 1;
            self.flying = self.flying + 1;
            let url = self.rows[index].detail_url.clone();
            Action::Fetch { index, url }
        } else if self.flying > 0 {
            Action::Wait
        } else {
            Action::Done
        }
    }

    /// Records how the fetch for the row at `index` ended. The answer says
    /// whether that end was awaited; where it was not, nothing changes.
    pub fn record(&mut self, index: usize, fetched: Fetched) -> (awaited: bool)
        requires
            old(self).wf(),
        ensures
            final(self).wf(),
            final(self)@.wf(),
            awaited == old(self)@.awaits(index as int),
            final(self)@ == old(self)@.record(index as int, slot_after(fetched)),
    {
        if index >= self.slots.len() {
            return false;
        }
        match self.slots[index] {
            Slot::InFlight => {},
            _ => {
                return false;
            },
        }
        let slot = match enrich(fetched) {
            Ok(pages) => Slot::Pages(pages),
            Err(_) => Slot::Failed,
        };
        proof {
            in_flight_after_update(self.slots@, index as int, slot);
        }
        self.slots[index] = slot;
        self.flying = self.flying - 1;
        true
    }

    /// What the rows give, in the order of the rows: for each its record,
    /// or why there is none.
    pub fn finish(&self) -> (results: Vec<Result<GoodreadsBook, RowError>>)
        requires
            self.wf(),
        ensures
            results.len() == self@.rows.len(),
            forall|i: int|
                0 <= i < results.len() ==> result_view(#[trigger] results[i]) == self@.outcomes()[i],
    {
        let mut results: Vec<Result<GoodreadsBook, RowError>> = Vec::new();
        let mut i: usize = 0;
        while i < self.rows.len()
            invariant
                self.wf(),
                i <= self.rows.len(),
                results.len() == i,
                forall|k: int|
                    0 <= k < i ==> result_view(#[trigger] results[k]) == self@.outcomes()[k],
            decreases self.rows.len() - i,
        {
            let result = match self.slots[i] {
                Slot::Pages(pages) => Ok(book_from(&self.rows[i], pages)),
                Slot::Failed => Err(RowError::DetailFetchFailed),
                _ => Err(RowError::DetailNotFetched),
            };
            results.push(result);
            i += 1;
        }
        results
    }
}

} // verus!
