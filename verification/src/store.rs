//! The two read queries of the meal repository, answered from the rows
//! that the store handed back.
//!
//! The store itself is reached elsewhere. What it returned arrives here as
//! a [`StoreReply`]; these functions select from it the record of one date,
//! or the records of an inclusive range of dates in ascending order.

use crate::meal::{Meal, MealView};
use crate::text::{
    lemma_text_le_is_total_order, text_at_most, text_between, text_equal, text_le,
};
use vstd::prelude::*;
use vstd::seq_lib::group_to_multiset_ensures;

verus! {

/// What the store returned for a query.
#[derive(Clone, Debug, PartialEq, Eq)]
pub enum StoreReply {
    /// The query ran; these are its rows, in the order the store gave them.
    Rows(Vec<Meal>),
    /// The store could not be reached or the query could not be run.
    Failure,
}

/// What is asked of the store.
#[derive(Clone, Debug, PartialEq, Eq)]
pub enum Query {
    /// The record of one date.
    Day(String),
    /// The records of the dates from the first to the second, both included.
    Range(String, String),
}

/// The mathematical value of a [`Query`].
pub enum QueryView {
    Day(Seq<char>),
    Range(Seq<char>, Seq<char>),
}

impl View for Query {
    type V = QueryView;

    open spec fn view(&self) -> QueryView {
        match self {
            Query::Day(date) => QueryView::Day(date@),
            Query::Range(start, end) => QueryView::Range(start@, end@),
        }
    }
}

/// The statement that selects the rows of one date, `?1`.
pub const DAY_STATEMENT: &'static str = "SELECT * FROM meals WHERE date=?1";

/// The statement that selects the rows of the dates from `?1` to `?2`.
pub const RANGE_STATEMENT: &'static str = "SELECT * FROM meals WHERE date BETWEEN ?1 AND ?2";

/// The statement of a query.
pub open spec fn statement_text(query: QueryView) -> Seq<char> {
    match query {
        QueryView::Day(_) => DAY_STATEMENT@,
        QueryView::Range(_, _) => RANGE_STATEMENT@,
    }
}

/// The values of the parameters of a query, in their order.
pub open spec fn parameter_texts(query: QueryView) -> Seq<Seq<char>> {
    match query {
        QueryView::Day(date) => seq![date],
        QueryView::Range(start, end) => seq![start, end],
    }
}

impl Query {
    /// The statement that puts this query to the table `meals`, whose
    /// columns are the fields of a [`Meal`] in their order.
    pub fn statement(&self) -> (sql: &'static str)
        ensures
            sql@ == statement_text(self@),
    {
        match self {
            Query::Day(_) => DAY_STATEMENT,
            Query::Range(_, _) => RANGE_STATEMENT,
        }
    }

    /// The values to bind to the parameters of the statement, in their order.
    pub fn parameters(&self) -> (values: Vec<String>)
        ensures
            values@.map_values(|v: String| v@) == parameter_texts(self@),
    {
        let mut values: Vec<String> = Vec::new();
        match self {
            Query::Day(date) => {
                values.push(date.clone());
            },
            Query::Range(start, end) => {
                values.push(start.clone());
                values.push(end.clone());
            },
        }
        assert(values@.map_values(|v: String| v@) =~= parameter_texts(self@));
        values
    }
}

/// Why a lookup has no record to give.
#[derive(Clone, Copy, Debug, PartialEq, Eq, Structural)]
pub enum StoreError {
    /// No row matches.
    RecordNotFound,
    /// The store could not be reached or the query could not be run.
    StorageError,
}

/// The values of the rows, in order.
pub open spec fn meal_views(rows: Seq<Meal>) -> Seq<MealView> {
    rows.map_values(|m: Meal| m@)
}

/// The first of the rows that is on `date`, if there is one.
pub open spec fn first_on(rows: Seq<MealView>, date: Seq<char>) -> Option<MealView>
    decreases rows.len(),
{
    if rows.len() == 0 {
        None
    } else if rows.first().date == date {
        Some(rows.first())
    } else {
        first_on(rows.drop_first(), date)
    }
}

/// What a lookup of `date` gives for a reply of the store.
pub open spec fn found_meal(reply: StoreReply, date: Seq<char>) -> Result<MealView, StoreError> {
    match reply {
        StoreReply::Failure => Err(StoreError::StorageError),
        StoreReply::Rows(rows) => match first_on(meal_views(rows@), date) {
            Some(m) => Ok(m),
            None => Err(StoreError::RecordNotFound),
        },
    }
}

/// The rows whose date lies in `start ..= end`, in their given order.
pub open spec fn rows_between(rows: Seq<MealView>, start: Seq<char>, end: Seq<char>) -> Seq<
    MealView,
> {
    rows.filter(|m: MealView| text_between(m.date, start, end))
}

/// `m` put into `sorted` behind the last row whose date is at most its own.
pub open spec fn insert_by_date(sorted: Seq<MealView>, m: MealView) -> Seq<MealView>
    decreases sorted.len(),
{
    if sorted.len() == 0 {
        seq![m]
    } else if text_le(sorted.last().date, m.date) {
        sorted.push(m)
    } else {
        insert_by_date(sorted.drop_last(), m).push(sorted.last())
    }
}

/// The rows in ascending order of date; rows of one date keep their order.
pub open spec fn sorted_by_date(rows: Seq<MealView>) -> Seq<MealView>
    decreases rows.len(),
{
    if rows.len() == 0 {
        rows
    } else {
        insert_by_date(sorted_by_date(rows.drop_last()), rows.last())
    }
}

/// The rows whose date lies in `start ..= end`, in ascending order of date.
pub open spec fn meals_between(rows: Seq<MealView>, start: Seq<char>, end: Seq<char>) -> Seq<
    MealView,
> {
    sorted_by_date(rows_between(rows, start, end))
}

/// What a lookup of the range `start ..= end` gives for a reply of the store.
pub open spec fn found_meals(reply: StoreReply, start: Seq<char>, end: Seq<char>) -> Result<
    Seq<MealView>,
    StoreError,
> {
    match reply {
        StoreReply::Failure => Err(StoreError::StorageError),
        StoreReply::Rows(rows) => Ok(meals_between(meal_views(rows@), start, end)),
    }
}

/// No row comes before one of an earlier date.
pub open spec fn is_ascending(rows: Seq<MealView>) -> bool {
    forall|i: int, j: int| 0 <= i <= j < rows.len() ==> text_le(rows[i].date, rows[j].date)
}

/// A lookup finds a row exactly where some row is on the date, and then
/// the one before which no row is on that date.
pub proof fn lemma_first_on_is_the_first(rows: Seq<MealView>, date: Seq<char>)
    ensures
        match first_on(rows, date) {
            Some(m) => exists|i: int|
                0 <= i < rows.len() && #[trigger] rows[i] == m && m.date == date && forall|j: int|
                    0 <= j < i ==> rows[j].date != date,
            None => forall|i: int| 0 <= i < rows.len() ==> rows[i].date != date,
        },
    decreases rows.len(),
{
    if rows.len() > 0 && rows.first().date != date {
        let rest = rows.drop_first();
        lemma_first_on_is_the_first(rest, date);
        match first_on(rest, date) {
            Some(m) => {
                let k = choose|k: int|
                    0 <= k < rest.len() && #[trigger] rest[k] == m && forall|j: int|
                        0 <= j < k ==> rest[j].date != date;
                assert(rows[k + 1] == m);
                assert forall|j: int| 0 <= j < k + 1 implies rows[j].date != date by {
                    if j > 0 {
                        assert(rest[j - 1].date != date);
                    }
                }
            },
            None => {
                assert forall|i: int| 0 <= i < rows.len() implies rows[i].date != date by {
                    if i > 0 {
                        assert(rest[i - 1].date != date);
                    }
                }
            },
        }
    } else if rows.len() > 0 {
        assert(rows[0] == rows.first());
    }
}

/// A lookup passes over rows that are not on the date.
proof fn lemma_first_on_skips(rows: Seq<MealView>, date: Seq<char>, upto: int)
    requires
        0 <= upto <= rows.len(),
        forall|j: int| 0 <= j < upto ==> rows[j].date != date,
    ensures
        first_on(rows, date) == first_on(rows.skip(upto), date),
    decreases upto,
{
    if upto > 0 {
        lemma_first_on_skips(rows.drop_first(), date, upto - 1);
        assert(rows.drop_first().skip(upto - 1) =~= rows.skip(upto));
    } else {
        assert(rows.skip(0) =~= rows);
    }
}

/// Inserting by date adds the one row and loses none.
pub proof fn lemma_insert_by_date_adds_one(sorted: Seq<MealView>, m: MealView)
    ensures
        insert_by_date(sorted, m).to_multiset() == sorted.to_multiset().insert(m),
    decreases sorted.len(),
{
    broadcast use group_to_multiset_ensures;

    if sorted.len() == 0 {
        assert(seq![m] =~= sorted.push(m));
    } else if text_le(sorted.last().date, m.date) {
    } else {
        let front = sorted.drop_last();
        lemma_insert_by_date_adds_one(front, m);
        assert(front.push(sorted.last()) =~= sorted);
        assert(front.to_multiset().insert(m).insert(sorted.last()) =~= front.to_multiset().insert(
            sorted.last(),
        ).insert(m));
    }
}

/// Inserting by date into ascending rows gives ascending rows.
pub proof fn lemma_insert_by_date_keeps_order(sorted: Seq<MealView>, m: MealView)
    requires
        is_ascending(sorted),
    ensures
        is_ascending(insert_by_date(sorted, m)),
    decreases sorted.len(),
{
    broadcast use group_to_multiset_ensures;

    let out = insert_by_date(sorted, m);
    if sorted.len() == 0 {
        lemma_text_le_is_total_order(m.date, m.date, m.date);
    } else if text_le(sorted.last().date, m.date) {
        assert forall|i: int, j: int| 0 <= i <= j < out.len() implies text_le(
            out[i].date,
            out[j].date,
        ) by {
            if j < sorted.len() {
            } else if i < sorted.len() {
                assert(text_le(sorted[i].date, sorted.last().date));
                lemma_text_le_is_total_order(sorted[i].date, sorted.last().date, m.date);
            } else {
                lemma_text_le_is_total_order(m.date, m.date, m.date);
            }
        }
    } else {
        let front = sorted.drop_last();
        let last = sorted.last();
        let inner = insert_by_date(front, m);
        assert(is_ascending(front)) by {
            assert forall|i: int, j: int| 0 <= i <= j < front.len() implies text_le(
                front[i].date,
                front[j].date,
            ) by {
                assert(text_le(sorted[i].date, sorted[j].date));
            }
        }
        lemma_insert_by_date_keeps_order(front, m);
        lemma_insert_by_date_adds_one(front, m);
        assert forall|i: int, j: int| 0 <= i <= j < out.len() implies text_le(
            out[i].date,
            out[j].date,
        ) by {
            if j < inner.len() {
                assert(text_le(inner[i].date, inner[j].date));
            } else if i < inner.len() {
                let x = inner[i];
                assert(inner.contains(x));
                assert(inner.to_multiset().count(x) > 0);
                if x == m {
                    lemma_text_le_is_total_order(last.date, m.date, m.date);
                } else {
                    assert(front.to_multiset().count(x) > 0);
                    assert(front.contains(x));
                    let k = choose|k: int| 0 <= k < front.len() && front[k] == x;
                    assert(text_le(sorted[k].date, sorted[sorted.len() - 1].date));
                }
            } else {
                lemma_text_le_is_total_order(last.date, last.date, last.date);
            }
        }
    }
}

/// Sorting by date gives ascending rows, the same rows as many times each.
pub proof fn lemma_sorted_by_date_is_ordered_permutation(rows: Seq<MealView>)
    ensures
        is_ascending(sorted_by_date(rows)),
        sorted_by_date(rows).to_multiset() == rows.to_multiset(),
        sorted_by_date(rows).len() == rows.len(),
    decreases rows.len(),
{
    broadcast use group_to_multiset_ensures;

    if rows.len() > 0 {
        let front = rows.drop_last();
        lemma_sorted_by_date_is_ordered_permutation(front);
        lemma_insert_by_date_keeps_order(sorted_by_date(front), rows.last());
        lemma_insert_by_date_adds_one(sorted_by_date(front), rows.last());
        assert(front.push(rows.last()) =~= rows);
    }
    sorted_by_date(rows).to_multiset_ensures();
    rows.to_multiset_ensures();
}

/// Rows that are ascending already are left as they are.
pub proof fn lemma_sorting_keeps_ascending_rows(rows: Seq<MealView>)
    requires
        is_ascending(rows),
    ensures
        sorted_by_date(rows) == rows,
    decreases rows.len(),
{
    if rows.len() > 0 {
        let front = rows.drop_last();
        assert(is_ascending(front)) by {
            assert forall|i: int, j: int| 0 <= i <= j < front.len() implies text_le(
                front[i].date,
                front[j].date,
            ) by {
                assert(text_le(rows[i].date, rows[j].date));
            }
        }
        lemma_sorting_keeps_ascending_rows(front);
        if front.len() > 0 {
            assert(text_le(rows[front.len() - 1].date, rows[rows.len() - 1].date));
        }
        assert(front.push(rows.last()) =~= rows);
        assert(seq![rows.last()] =~= Seq::<MealView>::empty().push(rows.last()));
    }
}

/// A range lookup returns the rows of the range and no others, each as
/// often as the store holds it, in ascending order of date.
pub proof fn lemma_meals_between_are_the_rows_in_range(
    rows: Seq<MealView>,
    start: Seq<char>,
    end: Seq<char>,
)
    ensures
        is_ascending(meals_between(rows, start, end)),
        meals_between(rows, start, end).to_multiset() == rows_between(
            rows,
            start,
            end,
        ).to_multiset(),
        forall|m: MealView| #[trigger]
            meals_between(rows, start, end).contains(m) <==> rows.contains(m) && text_between(
                m.date,
                start,
                end,
            ),
{
    broadcast use group_to_multiset_ensures;

    let pred = |m: MealView| text_between(m.date, start, end);
    let kept = rows_between(rows, start, end);
    let out = meals_between(rows, start, end);
    lemma_sorted_by_date_is_ordered_permutation(kept);
    assert forall|m: MealView| #[trigger] out.contains(m) <==> rows.contains(m) && text_between(
        m.date,
        start,
        end,
    ) by {
        assert(out.contains(m) <==> kept.contains(m)) by {
            assert(out.to_multiset().count(m) == kept.to_multiset().count(m));
        }
        if kept.contains(m) {
            rows.lemma_filter_contains_rev(pred, m);
        }
        if rows.contains(m) && pred(m) {
            let i = choose|i: int| 0 <= i < rows.len() && rows[i] == m;
            rows.lemma_filter_contains(pred, i);
        }
    }
}

/// Where `m` goes in `sorted`: behind the row before `at`, whose date is at
/// most its own, and before the rows from `at` on, which are all later.
proof fn lemma_insert_by_date_position(sorted: Seq<MealView>, m: MealView, at: int)
    requires
        0 <= at <= sorted.len(),
        at > 0 ==> text_le(sorted[at - 1].date, m.date),
        forall|k: int| at <= k < sorted.len() ==> !text_le(sorted[k].date, m.date),
    ensures
        insert_by_date(sorted, m) == sorted.insert(at, m),
    decreases sorted.len() - at,
{
    if sorted.len() == 0 {
        assert(seq![m] =~= sorted.insert(at, m));
    } else if at == sorted.len() {
        assert(sorted.push(m) =~= sorted.insert(at, m));
    } else {
        let front = sorted.drop_last();
        lemma_insert_by_date_position(front, m, at);
        assert(front.insert(at, m).push(sorted.last()) =~= sorted.insert(at, m));
    }
}

/// Puts `meal` into `sorted` behind the last row whose date is at most its own.
fn insert_in_date_order(sorted: &mut Vec<Meal>, meal: Meal)
    ensures
        meal_views(final(sorted)@) == insert_by_date(meal_views(old(sorted)@), meal@),
{
    let mut at: usize = sorted.len();
    while at > 0 && !text_at_most(sorted[at - 1].date.as_str(), meal.date.as_str())
        invariant
            at <= sorted.len(),
            *sorted == *old(sorted),
            forall|k: int|
                at <= k < sorted.len() ==> !text_le(
                    #[trigger] meal_views(sorted@)[k].date,
                    meal@.date,
                ),
        decreases at,
    {
        at -= 1;
    }
    proof {
        lemma_insert_by_date_position(meal_views(sorted@), meal@, at as int);
    }
    sorted.insert(at, meal);
    assert(meal_views(sorted@) =~= meal_views(old(sorted)@).insert(at as int, meal@));
}

/// The record of `target_date`.
///
/// Where the store holds several rows of that date, the first of them in
/// the order it gave them is returned. No such row is `RecordNotFound`; a
/// reply that reports a failure is `StorageError`.
pub fn get_meal(reply: &StoreReply, target_date: &str) -> (r: Result<Meal, StoreError>)
    ensures
        found_meal(*reply, target_date@) == match r {
            Ok(meal) => Ok(meal@),
            Err(e) => Err(e),
        },
{
    match reply {
        StoreReply::Failure => Err(StoreError::StorageError),
        StoreReply::Rows(rows) => {
            let mut i: usize = 0;
            while i < rows.len()
                invariant
                    i <= rows.len(),
                    *reply == StoreReply::Rows(*rows),
                    forall|j: int| 0 <= j < i ==> meal_views(rows@)[j].date != target_date@,
                decreases rows.len() - i,
            {
                if text_equal(rows[i].date.as_str(), target_date) {
                    proof {
                        lemma_first_on_skips(meal_views(rows@), target_date@, i as int);
                    }
                    return Ok(rows[i].duplicate());
                }
                i += 1;
            }
            proof {
                lemma_first_on_skips(meal_views(rows@), target_date@, i as int);
            }
            Err(StoreError::RecordNotFound)
        },
    }
}

/// The records whose date lies in `start_date ..= end_date`, in ascending
/// order of date; records of one date keep the order the store gave them.
///
/// Dates are compared as texts, which for dates written `YYYY-MM-DD` is the
/// order of the calendar. No matching row is no error: the list is empty.
pub fn get_multi_meals(reply: &StoreReply, start_date: &str, end_date: &str) -> (r: Result<
    Vec<Meal>,
    StoreError,
>)
    ensures
        found_meals(*reply, start_date@, end_date@) == match r {
            Ok(found) => Ok(meal_views(found@)),
            Err(e) => Err(e),
        },
{
    match reply {
        StoreReply::Failure => Err(StoreError::StorageError),
        StoreReply::Rows(rows) => {
            let mut found: Vec<Meal> = Vec::new();
            let mut i: usize = 0;
            proof {
                reveal(Seq::filter);
                assert(meal_views(rows@.take(0)) =~= Seq::<MealView>::empty());
            }
            while i < rows.len()
                invariant
                    i <= rows.len(),
                    *reply == StoreReply::Rows(*rows),
                    meal_views(found@) == meals_between(
                        meal_views(rows@.take(i as int)),
                        start_date@,
                        end_date@,
                    ),
                decreases rows.len() - i,
            {
                let row = &rows[i];
                let in_range = text_at_most(start_date, row.date.as_str()) && text_at_most(
                    row.date.as_str(),
                    end_date,
                );
                proof {
                    reveal(Seq::filter);
                    let before = meal_views(rows@.take(i as int));
                    let upto = meal_views(rows@.take(i + 1));
                    assert(upto.drop_last() =~= before);
                    assert(upto.last() == row@);
                    let kept = rows_between(before, start_date@, end_date@);
                    if in_range {
                        assert(rows_between(upto, start_date@, end_date@) == kept.push(row@));
                        assert(kept.push(row@).drop_last() =~= kept);
                    } else {
                        assert(rows_between(upto, start_date@, end_date@) == kept);
                    }
                }
                if in_range {
                    insert_in_date_order(&mut found, row.duplicate());
                }
                i += 1;
            }
            assert(rows@.take(i as int) =~= rows@);
            Ok(found)
        },
    }
}

} // verus!
