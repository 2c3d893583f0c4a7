//! The meal record, one row of the store.

use vstd::prelude::*;

verus! {

/// One day's meal plan as the store holds it.
///
/// `idx` is the row identifier that the store assigned and `id` its
/// secondary identifier column; neither is ever sent to a client.
#[derive(Clone, Debug, PartialEq, Eq)]
pub struct Meal {
    pub idx: i32,
    pub id: i32,
    pub date: String,
    pub breakfast: String,
    pub lunch: String,
    pub dinner: String,
}

/// The mathematical value of a [`Meal`]: its texts as sequences of characters.
pub struct MealView {
    pub idx: int,
    pub id: int,
    pub date: Seq<char>,
    pub breakfast: Seq<char>,
    pub lunch: Seq<char>,
    pub dinner: Seq<char>,
}

impl View for Meal {
    type V = MealView;

    open spec fn view(&self) -> MealView {
        MealView {
            idx: self.idx as int,
            id: self.id as int,
            date: self.date@,
            breakfast: self.breakfast@,
            lunch: self.lunch@,
            dinner: self.dinner@,
        }
    }
}

impl Meal {
    /// A record with the same contents.
    pub fn duplicate(&self) -> (copy: Meal)
        ensures
            copy@ == self@,
    {
        Meal {
            idx: self.idx,
            id: self.id,
            date: self.date.clone(),
            breakfast: self.breakfast.clone(),
            lunch: self.lunch.clone(),
            dinner: self.dinner.clone(),
        }
    }
}

} // verus!
