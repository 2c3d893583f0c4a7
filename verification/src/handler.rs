//! The handling of a request, from its date parameter to its response.
//!
//! A request is handled in two steps with the store between them. The
//! first step decides from the date parameter what is to be asked of the
//! store, or answers at once where the parameter is refused. The second
//! turns what the store returned into the response.
//!
//! A failure of the store is answered like a missing record, with status
//! 404. A week without records is no error: its answer is an empty array
//! with status 200. A date that passes the format check and is no day of
//! the calendar, such as `2024-02-30`, is looked up like any other on the
//! day path and refused with status 400 on the week path, which has to
//! compute with it.

use crate::calendar::{compute_week, iso_text, week_texts, CalendarDate};
use crate::render::{error_text, meal_list_text, meal_text, render_error, render_meal, render_meals};
use crate::meal::{Meal, MealView};
use crate::store::{
    first_on, found_meal, found_meals, get_meal, get_multi_meals, is_ascending,
    lemma_first_on_is_the_first, lemma_meals_between_are_the_rows_in_range, meal_views,
    meals_between, Query, QueryView, StoreReply,
};
use crate::text::text_between;
use crate::validate::{is_date_format, DateValidator};
use vstd::prelude::*;

verus! {

/// The status of a found record or list.
pub const STATUS_OK: u16 = 200;

/// The status of a refused date parameter.
pub const STATUS_BAD_REQUEST: u16 = 400;

/// The status of a missing record and of a failure of the store.
pub const STATUS_NOT_FOUND: u16 = 404;

/// The content type of every response.
pub const JSON_CONTENT_TYPE: &'static str = "application/json; charset=utf-8";

/// The message for a refused date parameter.
pub const INVALID_DATE_FORMAT: &'static str = "Invalid date format";

/// The message for a day without a record.
pub const MEAL_NOT_FOUND: &'static str = "Meal not found";

/// The message for a week that could not be read.
pub const MEALS_NOT_FOUND: &'static str = "Meals not found";

/// A response: its status, its content type and its body.
#[derive(Clone, Debug, PartialEq, Eq)]
pub struct Response {
    pub status: u16,
    pub content_type: String,
    pub body: String,
}

/// The mathematical value of a [`Response`].
pub struct ResponseView {
    pub status: int,
    pub content_type: Seq<char>,
    pub body: Seq<char>,
}

impl View for Response {
    type V = ResponseView;

    open spec fn view(&self) -> ResponseView {
        ResponseView {
            status: self.status as int,
            content_type: self.content_type@,
            body: self.body@,
        }
    }
}

/// What the first step of a request came to.
#[derive(Clone, Debug, PartialEq, Eq)]
pub enum Step {
    /// The request is answered without the store.
    Respond(Response),
    /// The store is to be asked; its reply goes to [`respond`].
    Ask(Query),
}

/// The mathematical value of a [`Step`].
pub enum StepView {
    Respond(ResponseView),
    Ask(QueryView),
}

impl View for Step {
    type V = StepView;

    open spec fn view(&self) -> StepView {
        match self {
            Step::Respond(response) => StepView::Respond(response@),
            Step::Ask(query) => StepView::Ask(query@),
        }
    }
}

/// The text of a date parameter, where there is one.
pub open spec fn text_of(date_param: Option<&str>) -> Option<Seq<char>> {
    match date_param {
        Some(date) => Some(date@),
        None => None,
    }
}

/// The response with a JSON body.
pub open spec fn json_response(status: int, body: Seq<char>) -> ResponseView {
    ResponseView { status, content_type: JSON_CONTENT_TYPE@, body }
}

/// The response for an error: the status and the message in an object.
pub open spec fn error_response_view(status: int, message: Seq<char>) -> ResponseView {
    json_response(status, error_text(message))
}

/// The first step for a target date that needs no further check of its
/// format: on the day path the lookup of that date, on the week path the
/// lookup of its window, or the refusal of a date that has none.
pub open spec fn process_step(target_date: Seq<char>, is_week: bool) -> StepView {
    if is_week {
        match week_texts(target_date) {
            Some((start, end)) => StepView::Ask(QueryView::Range(start, end)),
            None => StepView::Respond(
                error_response_view(STATUS_BAD_REQUEST as int, INVALID_DATE_FORMAT@),
            ),
        }
    } else {
        StepView::Ask(QueryView::Day(target_date))
    }
}

/// The first step of a request: a date parameter is checked for its format
/// and refused or processed; without one, today's date is processed
/// unchecked.
pub open spec fn request_step(date_param: Option<Seq<char>>, today: Seq<char>, is_week: bool)
    -> StepView {
    match date_param {
        Some(date) => if is_date_format(date) {
            process_step(date, is_week)
        } else {
            StepView::Respond(
                error_response_view(STATUS_BAD_REQUEST as int, INVALID_DATE_FORMAT@),
            )
        },
        None => process_step(today, is_week),
    }
}

/// The response to a query, given what the store returned for it.
pub open spec fn response_to(query: QueryView, reply: StoreReply) -> ResponseView {
    match query {
        QueryView::Day(date) => match found_meal(reply, date) {
            Ok(meal) => json_response(STATUS_OK as int, meal_text(meal)),
            Err(_) => error_response_view(STATUS_NOT_FOUND as int, MEAL_NOT_FOUND@),
        },
        QueryView::Range(start, end) => match found_meals(reply, start, end) {
            Ok(meals) => json_response(STATUS_OK as int, meal_list_text(meals)),
            Err(_) => error_response_view(STATUS_NOT_FOUND as int, MEALS_NOT_FOUND@),
        },
    }
}

/// The response to a request, where the store returns `store(query)` for
/// a query.
pub open spec fn request_answer(
    date_param: Option<Seq<char>>,
    today: Seq<char>,
    is_week: bool,
    store: spec_fn(QueryView) -> StoreReply,
) -> ResponseView {
    match request_step(date_param, today, is_week) {
        StepView::Respond(response) => response,
        StepView::Ask(query) => response_to(query, store(query)),
    }
}

/// Today's text is handled alike whether it comes as the date parameter
/// or stands in for a missing one: it has the format of a date, or it is
/// a text on the week path that both ways refuse.
pub open spec fn today_is_handled_alike(today: Seq<char>, is_week: bool) -> bool {
    is_date_format(today) || (is_week && week_texts(today) is None)
}

/// A request without a date parameter is answered as one that names
/// today's date.
///
/// This holds of every text for today that has the format of a date, and
/// of no other but those that the week path refuses anyway. A text such
/// as `+10000-01-01` parts the two on the day path: it is looked up where
/// the parameter is missing and refused where it is given.
pub proof fn lemma_no_parameter_means_today(
    today: Seq<char>,
    is_week: bool,
    store: spec_fn(QueryView) -> StoreReply,
)
    ensures
        today_is_handled_alike(today, is_week) <==> request_step(None, today, is_week)
            == request_step(Some(today), today, is_week),
        today_is_handled_alike(today, is_week) ==> request_answer(None, today, is_week, store)
            == request_answer(Some(today), today, is_week, store),
{
}

/// A date parameter that has not the format of a date is answered with
/// status 400 and never reaches the store.
pub proof fn lemma_refused_parameter_is_answered_at_once(
    date: Seq<char>,
    today: Seq<char>,
    is_week: bool,
)
    ensures
        !is_date_format(date) ==> request_step(Some(date), today, is_week) == StepView::Respond(
            error_response_view(400, INVALID_DATE_FORMAT@),
        ),
{
}

/// A day of which the store holds a record is answered with status 200
/// and the object of the first such record.
pub proof fn lemma_day_with_a_record(rows: Vec<Meal>, date: Seq<char>, at: int)
    requires
        0 <= at < rows.len(),
        rows[at]@.date == date,
        forall|j: int| 0 <= j < at ==> rows[j]@.date != date,
    ensures
        response_to(QueryView::Day(date), StoreReply::Rows(rows)) == json_response(
            200,
            meal_text(rows[at]@),
        ),
{
    let views = meal_views(rows@);
    lemma_first_on_is_the_first(views, date);
    assert(views[at].date == date);
    match first_on(views, date) {
        Some(m) => {
            let i = choose|i: int|
                0 <= i < views.len() && #[trigger] views[i] == m && m.date == date && forall|j: int|
                    0 <= j < i ==> views[j].date != date;
            assert(views[i].date == date);
            if i < at {
                assert(rows[i]@.date != date);
            }
        },
        None => {},
    }
}

/// A day of which the store holds no record is answered with status 404.
pub proof fn lemma_day_without_a_record(rows: Vec<Meal>, date: Seq<char>)
    requires
        forall|j: int| 0 <= j < rows.len() ==> rows[j]@.date != date,
    ensures
        response_to(QueryView::Day(date), StoreReply::Rows(rows)) == error_response_view(
            404,
            MEAL_NOT_FOUND@,
        ),
{
    let views = meal_views(rows@);
    lemma_first_on_is_the_first(views, date);
    match first_on(views, date) {
        Some(m) => {
            let i = choose|i: int| 0 <= i < views.len() && #[trigger] views[i] == m && m.date == date;
            assert(rows[i]@.date != date);
        },
        None => {},
    }
}

/// A week is answered with status 200 and the array of the records that
/// the store holds of its days, no others, in ascending order of date.
pub proof fn lemma_week_lists_its_records(rows: Vec<Meal>, start: Seq<char>, end: Seq<char>)
    ensures
        ({
            let listed = meals_between(meal_views(rows@), start, end);
            &&& response_to(QueryView::Range(start, end), StoreReply::Rows(rows)) == json_response(
                200,
                meal_list_text(listed),
            )
            &&& is_ascending(listed)
            &&& forall|m: MealView| #[trigger]
                listed.contains(m) <==> meal_views(rows@).contains(m) && text_between(
                    m.date,
                    start,
                    end,
                )
        }),
{
    lemma_meals_between_are_the_rows_in_range(meal_views(rows@), start, end);
}

/// A week of whose days the store holds no record is answered with
/// status 200 and the empty array.
pub proof fn lemma_week_without_records(rows: Vec<Meal>, start: Seq<char>, end: Seq<char>)
    requires
        forall|j: int| 0 <= j < rows.len() ==> !text_between(rows[j]@.date, start, end),
    ensures
        response_to(QueryView::Range(start, end), StoreReply::Rows(rows)) == json_response(
            200,
            "[]"@,
        ),
{
    let views = meal_views(rows@);
    let listed = meals_between(views, start, end);
    lemma_meals_between_are_the_rows_in_range(views, start, end);
    if listed.len() > 0 {
        let m = listed[0];
        assert(listed.contains(m));
        assert(views.contains(m));
        let j = choose|j: int| 0 <= j < views.len() && views[j] == m;
        assert(!text_between(rows[j]@.date, start, end));
    }
    reveal_strlit("[]");
    reveal_strlit("[");
    reveal_strlit("]");
    assert(meal_list_text(listed) =~= "[]"@);
}

/// A failure of the store is answered like a missing record, with
/// status 404 on either path.
pub proof fn lemma_failure_of_the_store(query: QueryView)
    ensures
        response_to(query, StoreReply::Failure) == error_response_view(
            404,
            match query {
                QueryView::Day(_) => MEAL_NOT_FOUND@,
                QueryView::Range(_, _) => MEALS_NOT_FOUND@,
            },
        ),
{
}

/// The response with the given status and body, as JSON.
fn json_response_of(status: u16, body: String) -> (response: Response)
    ensures
        response@ == json_response(status as int, body@),
{
    Response { status, content_type: String::from_str(JSON_CONTENT_TYPE), body }
}

/// The response for an error: the status, and the message in a JSON object.
pub fn error_response(status_code: u16, message: &str) -> (response: Response)
    ensures
        response@ == error_response_view(status_code as int, message@),
{
    json_response_of(status_code, render_error(message))
}

/// The first step for a target date whose format needs no further check.
///
/// On the day path the store is asked for the record of that date. On the
/// week path it is asked for the records of the thirteen days centred on
/// it; a target date that is no day of the calendar is refused with
/// status 400.
pub fn process(target_date: &str, is_week: bool) -> (step: Step)
    ensures
        step@ == process_step(target_date@, is_week),
{
    if is_week {
        match compute_week(target_date) {
            Ok((start, end)) => Step::Ask(Query::Range(start, end)),
            Err(_) => Step::Respond(error_response(STATUS_BAD_REQUEST, INVALID_DATE_FORMAT)),
        }
    } else {
        Step::Ask(Query::Day(String::from_str(target_date)))
    }
}

/// The first step of a request, given whether its date parameter has the
/// format of a date.
///
/// A date parameter is processed where it has the format and refused with
/// status 400 where it has not. Without one, the text of today's date is
/// processed.
pub fn decide(
    date_param: Option<&str>,
    param_is_valid: bool,
    today: &CalendarDate,
    is_week: bool,
) -> (step: Step)
    ensures
        step@ == match date_param {
            Some(date) => if param_is_valid {
                process_step(date@, is_week)
            } else {
                StepView::Respond(
                    error_response_view(STATUS_BAD_REQUEST as int, INVALID_DATE_FORMAT@),
                )
            },
            None => process_step(iso_text(today@), is_week),
        },
{
    match date_param {
        Some(date) => {
            if param_is_valid {
                process(date, is_week)
            } else {
                Step::Respond(error_response(STATUS_BAD_REQUEST, INVALID_DATE_FORMAT))
            }
        },
        None => process(today.to_text().as_str(), is_week),
    }
}

/// The first step of a request on either path.
fn handle(
    validator: &DateValidator,
    date_param: Option<&str>,
    today: &CalendarDate,
    is_week: bool,
) -> (step: Step)
    ensures
        step@ == request_step(text_of(date_param), iso_text(today@), is_week),
{
    let param_is_valid = match date_param {
        Some(date) => validator.validate(date),
        None => false,
    };
    decide(date_param, param_is_valid, today, is_week)
}

/// The first step of a request for one day.
///
/// `date_param` is the `date` parameter of the query string, or `None`
/// where the query string has none or could not be read; `today` is the
/// current date, whose text then stands in for it.
pub fn index(validator: &DateValidator, date_param: Option<&str>, today: &CalendarDate) -> (step:
    Step)
    ensures
        step@ == request_step(text_of(date_param), iso_text(today@), false),
{
    handle(validator, date_param, today, false)
}

/// The first step of a request for the week around a day.
///
/// `date_param` and `today` are as for [`index`].
pub fn week(validator: &DateValidator, date_param: Option<&str>, today: &CalendarDate) -> (step:
    Step)
    ensures
        step@ == request_step(text_of(date_param), iso_text(today@), true),
{
    handle(validator, date_param, today, true)
}

/// The response to a query, given what the store returned for it.
///
/// A found record is answered with status 200 and its object, a found
/// list with status 200 and its array. A missing record and a failure of
/// the store are answered with status 404.
pub fn respond(query: &Query, reply: &StoreReply) -> (response: Response)
    ensures
        response@ == response_to(query@, *reply),
{
    match query {
        Query::Day(date) => match get_meal(reply, date.as_str()) {
            Ok(meal) => json_response_of(STATUS_OK, render_meal(&meal)),
            Err(_) => error_response(STATUS_NOT_FOUND, MEAL_NOT_FOUND),
        },
        Query::Range(start, end) => match get_multi_meals(reply, start.as_str(), end.as_str()) {
            Ok(meals) => json_response_of(STATUS_OK, render_meals(&meals)),
            Err(_) => error_response(STATUS_NOT_FOUND, MEALS_NOT_FOUND),
        },
    }
}

} // verus!
