use rusty_chat::models::{distinct_names, list_models, model_choices, models_in};

fn names(list: &[&str]) -> Vec<String> {
    list.iter().map(|s| s.to_string()).collect()
}

fn value(text: &str) -> serde_json::Value {
    serde_json::from_str(text).expect("a document")
}

#[test]
fn list_models_accepts_both_shapes() {
    assert_eq!(list_models(br#"{"models":[{"name":"a"}]}"#), names(&["a"]));
    assert_eq!(list_models(br#"["a","b"]"#), names(&["a", "b"]));
}

#[test]
fn list_models_removes_repetitions_and_keeps_the_order() {
    assert_eq!(list_models(br#"["b","a","b","c","a"]"#), names(&["b", "a", "c"]));
    assert_eq!(
        list_models(br#"{"models":[{"name":"x"},{"model":"y"},{"name":"x"},{"model":"x"}]}"#),
        names(&["x", "y"])
    );
}

#[test]
fn entries_of_a_models_array_prefer_model_to_name() {
    assert_eq!(
        list_models(br#"{"models":[{"name":"n","model":"m"}]}"#),
        names(&["m"])
    );
    // a model that is no string gives no name, whatever the name
    assert_eq!(list_models(br#"{"models":[{"name":"n","model":7}]}"#), names(&[]));
    assert_eq!(list_models(br#"{"models":[{"name":7},{"name":"ok"},"bare",{}]}"#), names(&["ok"]));
}

#[test]
fn items_of_a_bare_array_prefer_name_to_model() {
    assert_eq!(
        list_models(br#"["s",{"name":"n","model":"m"},{"model":"only"},{"name":3,"model":"m2"},7,null,{}]"#),
        names(&["s", "n", "only", "m2"])
    );
}

#[test]
fn an_object_whose_models_is_no_array_lists_nothing() {
    assert_eq!(list_models(br#"{"models":"a"}"#), names(&[]));
    assert_eq!(list_models(br#"{"models":{"name":"a"}}"#), names(&[]));
    assert_eq!(list_models(br#"{"other":["a"]}"#), names(&[]));
}

#[test]
fn anything_else_lists_nothing() {
    let bodies: [&[u8]; 8] =
        [b"", b"not json", b"{", b"null", b"\"a\"", b"42", b"[", br#"["a"] x"#];
    for body in bodies {
        assert_eq!(list_models(body), names(&[]));
    }
    assert_eq!(list_models(b"[]"), names(&[]));
    assert_eq!(list_models(br#"{"models":[]}"#), names(&[]));
}

#[test]
fn models_in_a_document() {
    assert_eq!(models_in(&value(r#"{"models":[{"name":"a"},{"name":"a"}]}"#)), names(&["a"]));
    assert_eq!(models_in(&value(r#"["a","b","a"]"#)), names(&["a", "b"]));
    assert_eq!(models_in(&value("true")), names(&[]));
}

#[test]
fn distinct_names_keeps_first_occurrences() {
    assert_eq!(distinct_names(names(&[])), names(&[]));
    assert_eq!(distinct_names(names(&["a"])), names(&["a"]));
    assert_eq!(distinct_names(names(&["a", "a", "a"])), names(&["a"]));
    assert_eq!(
        distinct_names(names(&["c", "a", "c", "b", "a", "d"])),
        names(&["c", "a", "b", "d"])
    );
    assert_eq!(distinct_names(names(&["A", "a"])), names(&["A", "a"]));
}

#[test]
fn choices_put_a_selected_model_that_is_not_offered_first() {
    assert_eq!(model_choices(names(&["a", "b"]), "c"), names(&["c", "a", "b"]));
    assert_eq!(model_choices(names(&["a", "b"]), "b"), names(&["a", "b"]));
    assert_eq!(model_choices(names(&["a", "b"]), ""), names(&["a", "b"]));
    assert_eq!(model_choices(names(&[]), "c"), names(&["c"]));
    assert_eq!(model_choices(names(&[]), ""), names(&[]));
}
