use gpt_alarm::json::{answer_of_reply, health_of_body, get_field, Json};
use gpt_alarm::request::{checked_frame_request, NUM_PARALLEL};

fn completion(contents: &[&str]) -> String {
    let choices: Vec<String> = contents
        .iter()
        .map(|c| format!("{{\"index\":0,\"message\":{{\"role\":\"assistant\",\"content\":{:?}}}}}", c))
        .collect();
    format!("{{\"id\":\"x\",\"choices\":[{}],\"usage\":{{\"total_tokens\":12}}}}", choices.join(","))
}

#[test]
fn completion_answers() {
    assert_eq!(answer_of_reply(&completion(&["Yes.", "no", "yes", "Maybe", "YES!"])), Some(true));
    assert_eq!(answer_of_reply(&completion(&["No.", "no", "yes", "", "false"])), Some(false));
    assert_eq!(answer_of_reply(&completion(&["yes", "no"])), Some(false));
    assert_eq!(answer_of_reply(&completion(&[])), Some(false));
}

#[test]
fn reordered_choices_give_the_same_answer() {
    let a = completion(&["yes", "no", "yes", "hm", "no"]);
    let b = completion(&["no", "hm", "yes", "no", "yes"]);
    assert_eq!(answer_of_reply(&a), answer_of_reply(&b));
}

#[test]
fn recased_and_marked_words_count_the_same() {
    assert_eq!(
        answer_of_reply(&completion(&["yes", "no", "yes"])),
        answer_of_reply(&completion(&["YES;", "No,", "Yes!"]))
    );
}

#[test]
fn unreadable_completions() {
    assert_eq!(answer_of_reply("not json"), None);
    assert_eq!(answer_of_reply("{\"object\":\"error\"}"), None);
    assert_eq!(answer_of_reply("{\"choices\":{\"a\":1}}"), None);
    assert_eq!(answer_of_reply("{\"choices\":[{\"message\":{\"content\":null}}]}"), None);
    assert_eq!(answer_of_reply("{\"choices\":[{\"message\":{\"content\":\"yes\"}},{\"text\":\"yes\"}]}"), None);
    assert_eq!(answer_of_reply("[1,2]"), None);
}

#[test]
fn health_reports() {
    assert_eq!(health_of_body("{\"status\":\"ok\"}"), Some(true));
    assert_eq!(health_of_body("{\"status\":\"loading model\"}"), Some(false));
    assert_eq!(health_of_body("{\"status\":1}"), Some(false));
    assert_eq!(health_of_body("{\"error\":{\"code\":503}}"), Some(false));
    assert_eq!(health_of_body("[\"ok\"]"), Some(false));
    assert_eq!(health_of_body("\"ok\""), Some(false));
    assert_eq!(health_of_body("<html>"), None);
}

#[test]
fn fields_are_looked_up_by_key() {
    let j = Json::Object(vec![
        ("a".to_string(), Json::Bool(true)),
        ("b".to_string(), Json::Text("x".to_string())),
    ]);
    assert!(matches!(get_field(&j, "a"), Some(Json::Bool(true))));
    assert!(matches!(get_field(&j, "b"), Some(Json::Text(s)) if s == "x"));
    assert!(get_field(&j, "c").is_none());
    assert!(get_field(&Json::Null, "a").is_none());
}

#[test]
fn checked_frame_request_on_ordinary_frames() {
    let r = checked_frame_request(b"hi").unwrap();
    assert_eq!(r.image_url, "data:image/jpeg;base64,aGk=");
    assert_eq!(r.n, NUM_PARALLEL);
    assert!(checked_frame_request(&[]).is_some());
}
