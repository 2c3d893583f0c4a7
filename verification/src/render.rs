//! The JSON texts of the responses.
//!
//! A meal is rendered as an object of its date and its three meals, a list
//! of meals as an array of such objects, and an error as an object with the
//! one member `error`. The texts are compact, with the members of an object
//! in the alphabetical order of their names. How a string is quoted and
//! escaped is left to `serde_json`.

use crate::meal::{Meal, MealView};
use crate::store::meal_views;
use vstd::prelude::*;

verus! {

/// The JSON text of a string, quoted and escaped, as `serde_json` writes it.
pub uninterp spec fn json_string_text(text: Seq<char>) -> Seq<char>;

/// Turns `text` into a `serde_json::Value::String` and writes that value
/// out in `serde_json`'s compact form: the text in double quotes, with
/// what JSON does not take in a string escaped. The escapes are not
/// stated here: the result is named by [`json_string_text`].
#[verifier::external_body]
fn json_string(text: &str) -> (quoted: String)
    ensures
        quoted@ == json_string_text(text@),
{
    serde_json::Value::String(text.to_owned()).to_string()
}

/// The object of an error: `{"error":"<message>"}`.
pub open spec fn error_text(message: Seq<char>) -> Seq<char> {
    "{\"error\":"@ + json_string_text(message) + "}"@
}

/// The object of a meal, with the members `breakfast`, `date`, `dinner`
/// and `lunch`. The identifiers of the row are left out.
pub open spec fn meal_text(meal: MealView) -> Seq<char> {
    "{\"breakfast\":"@ + json_string_text(meal.breakfast) + ",\"date\":"@ + json_string_text(
        meal.date,
    ) + ",\"dinner\":"@ + json_string_text(meal.dinner) + ",\"lunch\":"@ + json_string_text(
        meal.lunch,
    ) + "}"@
}

/// The objects of the meals with a comma between one and the next.
pub open spec fn meals_joined(meals: Seq<MealView>) -> Seq<char>
    decreases meals.len(),
{
    if meals.len() == 0 {
        Seq::empty()
    } else if meals.len() == 1 {
        meal_text(meals[0])
    } else {
        meals_joined(meals.drop_last()) + ","@ + meal_text(meals.last())
    }
}

/// The array of the meals, in their order: `[]` for none.
pub open spec fn meal_list_text(meals: Seq<MealView>) -> Seq<char> {
    "["@ + meals_joined(meals) + "]"@
}

/// The object of an error, given the message already quoted.
pub fn frame_error(quoted_message: &str) -> (text: String)
    ensures
        text@ == "{\"error\":"@ + quoted_message@ + "}"@,
{
    let mut text = String::from_str("{\"error\":");
    text.append(quoted_message);
    text.append("}");
    text
}

/// The object of a meal, given its four texts already quoted.
pub fn frame_meal(breakfast: &str, date: &str, dinner: &str, lunch: &str) -> (text: String)
    ensures
        text@ == "{\"breakfast\":"@ + breakfast@ + ",\"date\":"@ + date@ + ",\"dinner\":"@ + dinner@
            + ",\"lunch\":"@ + lunch@ + "}"@,
{
    let mut text = String::from_str("{\"breakfast\":");
    text.append(breakfast);
    text.append(",\"date\":");
    text.append(date);
    text.append(",\"dinner\":");
    text.append(dinner);
    text.append(",\"lunch\":");
    text.append(lunch);
    text.append("}");
    text
}

/// The JSON text of an error message.
pub fn render_error(message: &str) -> (text: String)
    ensures
        text@ == error_text(message@),
{
    let quoted = json_string(message);
    frame_error(quoted.as_str())
}

/// The JSON text of a meal.
pub fn render_meal(meal: &Meal) -> (text: String)
    ensures
        text@ == meal_text(meal@),
{
    let breakfast = json_string(meal.breakfast.as_str());
    let date = json_string(meal.date.as_str());
    let dinner = json_string(meal.dinner.as_str());
    let lunch = json_string(meal.lunch.as_str());
    frame_meal(breakfast.as_str(), date.as_str(), dinner.as_str(), lunch.as_str())
}

/// The JSON text of a list of meals.
pub fn render_meals(meals: &Vec<Meal>) -> (text: String)
    ensures
        text@ == meal_list_text(meal_views(meals@)),
{
    let mut text = String::from_str("[");
    let mut i: usize = 0;
    while i < meals.len()
        invariant
            i <= meals.len(),
            text@ == "["@ + meals_joined(meal_views(meals@.take(i as int))),
        decreases meals.len() - i,
    {
        proof {
            let before = meal_views(meals@.take(i as int));
            let upto = meal_views(meals@.take(i + 1));
            assert(upto.drop_last() =~= before);
            assert(upto.last() == meals[i as int]@);
            assert(upto.len() == 1 ==> upto[0] == meals[i as int]@);
        }
        if i > 0 {
            text.append(",");
        }
        let object = render_meal(&meals[i]);
        text.append(object.as_str());
        i += 1;
        assert(text@ =~= "["@ + meals_joined(meal_views(meals@.take(i as int))));
    }
    assert(meals@.take(i as int) =~= meals@);
    text.append("]");
    text
}

} // verus!
