use meal_api::meal::Meal;
use meal_api::render::{frame_error, frame_meal, render_error, render_meal, render_meals};

fn meal(date: &str, breakfast: &str, lunch: &str, dinner: &str) -> Meal {
    Meal {
        idx: 3,
        id: 17,
        date: date.to_string(),
        breakfast: breakfast.to_string(),
        lunch: lunch.to_string(),
        dinner: dinner.to_string(),
    }
}

#[test]
fn an_error_is_an_object_with_its_message() {
    assert_eq!(render_error("Meal not found"), "{\"error\":\"Meal not found\"}");
    assert_eq!(render_error("Meals not found"), "{\"error\":\"Meals not found\"}");
    assert_eq!(render_error("Invalid date format"), "{\"error\":\"Invalid date format\"}");
    assert_eq!(render_error(""), "{\"error\":\"\"}");
}

#[test]
fn a_message_is_quoted_and_escaped() {
    assert_eq!(render_error("say \"hi\""), "{\"error\":\"say \\\"hi\\\"\"}");
    assert_eq!(render_error("a\\b"), "{\"error\":\"a\\\\b\"}");
    assert_eq!(render_error("line\nbreak"), "{\"error\":\"line\\nbreak\"}");
    assert_eq!(render_error("tab\there"), "{\"error\":\"tab\\there\"}");
    assert_eq!(render_error("\r\u{8}\u{c}"), "{\"error\":\"\\r\\b\\f\"}");
    assert_eq!(render_error("\u{1}\u{1f}"), "{\"error\":\"\\u0001\\u001f\"}");
    assert_eq!(render_error("caf\u{e9} \u{4e2d}/"), "{\"error\":\"caf\u{e9} \u{4e2d}/\"}");
}

#[test]
fn a_meal_is_an_object_of_its_four_texts() {
    let text = render_meal(&meal("2024-01-15", "eggs", "soup", "rice"));
    assert_eq!(
        text,
        "{\"breakfast\":\"eggs\",\"date\":\"2024-01-15\",\"dinner\":\"rice\",\"lunch\":\"soup\"}"
    );
}

#[test]
fn the_identifiers_of_a_row_are_left_out() {
    let text = render_meal(&meal("2024-01-15", "eggs", "soup", "rice"));
    let value: serde_json::Value = serde_json::from_str(&text).unwrap();
    let object = value.as_object().unwrap();
    let mut names: Vec<&str> = object.keys().map(|k| k.as_str()).collect();
    names.sort();
    assert_eq!(names, vec!["breakfast", "date", "dinner", "lunch"]);
}

#[test]
fn a_meal_reads_back_as_it_was_written() {
    let m = meal("2024-01-15", "eggs \"over easy\"", "soup\nbread", "rice \\ beans \u{1f35a}");
    let value: serde_json::Value = serde_json::from_str(&render_meal(&m)).unwrap();
    assert_eq!(value["date"].as_str(), Some(m.date.as_str()));
    assert_eq!(value["breakfast"].as_str(), Some(m.breakfast.as_str()));
    assert_eq!(value["lunch"].as_str(), Some(m.lunch.as_str()));
    assert_eq!(value["dinner"].as_str(), Some(m.dinner.as_str()));
}

#[test]
fn no_meals_are_an_empty_array() {
    assert_eq!(render_meals(&vec![]), "[]");
}

#[test]
fn meals_are_an_array_in_their_order() {
    let one = meal("2024-06-09", "a", "b", "c");
    let two = meal("2024-06-15", "d", "e", "f");
    let three = meal("2024-06-21", "g", "h", "i");
    assert_eq!(render_meals(&vec![one.clone()]), format!("[{}]", render_meal(&one)));
    assert_eq!(
        render_meals(&vec![one.clone(), two.clone(), three.clone()]),
        format!("[{},{},{}]", render_meal(&one), render_meal(&two), render_meal(&three))
    );
    assert_eq!(
        render_meals(&vec![two.clone(), one.clone()]),
        "[{\"breakfast\":\"d\",\"date\":\"2024-06-15\",\"dinner\":\"f\",\"lunch\":\"e\"},\
         {\"breakfast\":\"a\",\"date\":\"2024-06-09\",\"dinner\":\"c\",\"lunch\":\"b\"}]"
    );
}

#[test]
fn the_frames_take_texts_that_are_quoted_already() {
    assert_eq!(frame_error("\"x\""), "{\"error\":\"x\"}");
    assert_eq!(
        frame_meal("1", "2", "3", "4"),
        "{\"breakfast\":1,\"date\":2,\"dinner\":3,\"lunch\":4}"
    );
}

#[test]
fn a_rendered_meal_is_what_a_json_writer_gives() {
    let m = meal("2024-01-15", "eggs", "so\"up", "ri\\ce");
    let mut object = serde_json::Map::new();
    object.insert("date".to_string(), serde_json::Value::String(m.date.clone()));
    object.insert("breakfast".to_string(), serde_json::Value::String(m.breakfast.clone()));
    object.insert("lunch".to_string(), serde_json::Value::String(m.lunch.clone()));
    object.insert("dinner".to_string(), serde_json::Value::String(m.dinner.clone()));
    let value = serde_json::Value::Object(object);
    assert_eq!(render_meal(&m), serde_json::to_string(&value).unwrap());
    let list = serde_json::Value::Array(vec![value.clone(), value]);
    assert_eq!(render_meals(&vec![m.clone(), m]), serde_json::to_string(&list).unwrap());
}

#[test]
fn every_character_is_written_as_a_json_writer_writes_it() {
    let mut samples: Vec<String> = (0u32..0x80).map(|c| char::from_u32(c).unwrap().to_string()).collect();
    samples.extend(["\u{7f}\u{80}\u{ff}", "\u{2028}\u{2029}", "\u{1f35a}", "a\"b\\c/d", "\u{0}\u{0}"].map(String::from));
    for sample in samples {
        let quoted = serde_json::to_string(&serde_json::Value::String(sample.clone())).unwrap();
        assert_eq!(render_error(&sample), format!("{{\"error\":{}}}", quoted));
        let back: serde_json::Value = serde_json::from_str(&render_error(&sample)).unwrap();
        assert_eq!(back["error"].as_str(), Some(sample.as_str()));
    }
}
