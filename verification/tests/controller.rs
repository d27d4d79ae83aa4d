use rusty_chat::controller::{Completion, Controller, SendOutcome};
use rusty_chat::history::Role;
use rusty_chat::inference::{interpret, ChatRequest, GenerateError, HttpStatus};
use rusty_chat::settings::{FloatBits, Settings, SettingsDraft, StoredSettings};
use rusty_chat::store::{Message, Store, StoreError, Written};

const NO_MODEL: &str =
    "Error: No model selected. Please open Settings and choose a model before sending messages.";

fn settings(model: &str, system_prompt: &str) -> Settings {
    Settings {
        model: model.to_string(),
        system_prompt: system_prompt.to_string(),
        temperature: FloatBits { bits: 0.7f64.to_bits() },
        top_p: FloatBits { bits: 0.95f64.to_bits() },
        max_tokens: 512,
        zoom: 100,
        maximized: true,
        window_width: 1024,
        window_height: 768,
    }
}

fn controller(cap: usize) -> Controller {
    Controller::new(Store::new(StoredSettings::initial()), cap).expect("a cap of at least one")
}

fn controller_with_chat(id: &str, cap: usize) -> Controller {
    let mut c = controller(cap);
    assert_eq!(c.create_chat(id, "New Chat"), Ok(()));
    c
}

fn shown(c: &Controller, chat: &str) -> Vec<(Role, String)> {
    c.messages(chat).into_iter().map(|m| (m.role, m.content)).collect()
}

fn turns(request: &ChatRequest) -> Vec<(Role, String)> {
    request.messages.iter().map(|t| (t.role, t.content.clone())).collect()
}

fn dispatched(outcome: Result<SendOutcome, StoreError>) -> (u64, ChatRequest) {
    match outcome {
        Ok(SendOutcome::Dispatched { token, request, .. }) => (token, request),
        other => panic!("not dispatched: {:?}", other),
    }
}

fn stored(outcome: Result<Completion, StoreError>) -> Written {
    match outcome {
        Ok(Completion::Stored { written }) => written,
        other => panic!("not stored: {:?}", other),
    }
}

fn written(id: u64, chat: &str, role: Role, content: &str, timestamp: u64) -> Written {
    Written {
        message: Message {
            id,
            chat_id: chat.to_string(),
            role,
            content: content.to_string(),
            timestamp,
        },
        deleted_upto: None,
    }
}

fn user(text: &str) -> (Role, String) {
    (Role::User, text.to_string())
}

fn assistant(text: &str) -> (Role, String) {
    (Role::Assistant, text.to_string())
}

#[test]
fn a_cap_of_zero_gives_no_controller() {
    assert!(Controller::new(Store::new(StoredSettings::initial()), 0).is_none());
    assert_eq!(controller(1).cap(), 1);
    assert_eq!(controller(10_000).cap(), 10_000);
}

#[test]
fn a_store_beyond_the_cap_gives_no_controller_until_it_is_cut_down() {
    let filled = || {
        let mut store = Store::new(StoredSettings::initial());
        store.create_chat("a", "A").unwrap();
        for i in 0..3 {
            store.append_message("a", Role::User, &format!("m{}", i), 0).unwrap();
        }
        store
    };
    assert!(Controller::new(filled(), 2).is_none());
    assert!(Controller::new(filled(), 3).is_some());
    let mut store = filled();
    store.enforce_cap_all(2);
    let c = Controller::new(store, 2).expect("within the cap");
    assert_eq!(shown(&c, "a"), vec![user("m1"), user("m2")]);
}

#[test]
fn no_chat_ever_holds_more_than_the_cap() {
    let mut c = controller_with_chat("a", 2);
    c.create_chat("b", "B").unwrap();
    let s = settings("llama3", "");
    for round in 0..5 {
        for chat in ["a", "b"] {
            let (token, _) = dispatched(c.send(chat, &format!("q{}", round), &s, 0));
            assert!(c.store().is_within(2));
            if round % 2 == 0 {
                c.complete(chat, token, Ok("r".to_string()), 0).unwrap();
            } else {
                c.complete(chat, token, Err(GenerateError::ParseFailed), 0).unwrap();
            }
            assert!(c.store().is_within(2));
            assert!(c.messages(chat).len() <= 2);
        }
    }
    c.send("a", "x", &settings("", ""), 0).unwrap();
    assert!(c.store().is_within(2));
}

#[test]
fn send_then_reply_is_stored_in_order() {
    let mut c = controller_with_chat("a", 10_000);
    let (token, request) = dispatched(c.send("a", "hi", &settings("llama3", ""), 1));
    assert_eq!(turns(&request), vec![user("hi")]);
    assert!(c.is_busy("a"));
    let body = br#"{"message":{"role":"assistant","content":"hello"}}"#;
    let outcome = interpret(HttpStatus::new(200).unwrap(), body);
    assert_eq!(outcome, Ok("hello".to_string()));
    assert_eq!(
        c.complete("a", token, outcome, 2),
        Ok(Completion::Stored { written: written(2, "a", Role::Assistant, "hello", 2) })
    );
    assert!(!c.is_busy("a"));
    assert_eq!(shown(&c, "a"), vec![user("hi"), assistant("hello")]);
    assert_eq!(
        c.store().load_messages("a", 10).into_iter().map(|m| (m.role, m.content)).collect::<Vec<_>>(),
        vec![user("hi"), assistant("hello")]
    );
}

#[test]
fn send_with_an_empty_model_stores_one_error_and_stays_idle() {
    let mut c = controller_with_chat("a", 10_000);
    for model in ["", "   ", "\t\n"] {
        let before = c.store().count_messages("a");
        match c.send("a", "hi", &settings(model, "be brief"), 7) {
            Ok(SendOutcome::NoModel { written: w }) => {
                let id = c.store().next_id() - 1;
                assert_eq!(w, written(id, "a", Role::Assistant, NO_MODEL, 7));
            }
            other => panic!("unexpected: {:?}", other),
        }
        assert!(!c.is_busy("a"));
        assert_eq!(c.store().count_messages("a"), before + 1);
        let last = c.messages("a").pop().unwrap();
        assert_eq!(last.role, Role::Assistant);
        assert_eq!(last.content, NO_MODEL);
        assert_eq!(last.timestamp, 7);
    }
    assert_eq!(shown(&c, "a"), vec![assistant(NO_MODEL); 3]);
}

#[test]
fn request_holds_system_prompt_history_and_turn_in_order() {
    let mut c = controller_with_chat("a", 10_000);
    let s = settings("llama3", "You are terse.");
    let (t1, r1) = dispatched(c.send("a", "first", &s, 1));
    assert_eq!(
        turns(&r1),
        vec![(Role::System, "You are terse.".to_string()), user("first")]
    );
    assert_eq!(r1.model, "llama3");
    assert!(!r1.stream);
    assert_eq!(f64::from_bits(r1.temperature.bits), 0.7);
    assert_eq!(f64::from_bits(r1.top_p.bits), 0.95);
    assert_eq!(r1.max_tokens, 512);
    c.complete("a", t1, Ok("one".to_string()), 2).unwrap();
    let (_, r2) = dispatched(c.send("a", "second", &s, 3));
    assert_eq!(
        turns(&r2),
        vec![
            (Role::System, "You are terse.".to_string()),
            user("first"),
            assistant("one"),
            user("second")
        ]
    );
}

#[test]
fn request_without_system_prompt_has_no_system_turn() {
    let mut c = controller_with_chat("a", 10_000);
    let (_, request) = dispatched(c.send("a", "hi", &settings("llama3", ""), 1));
    assert_eq!(turns(&request), vec![user("hi")]);
}

#[test]
fn request_holds_only_the_chat_s_own_messages() {
    let mut c = controller_with_chat("a", 10_000);
    c.create_chat("b", "B").unwrap();
    let s = settings("llama3", "");
    let (ta, _) = dispatched(c.send("a", "to a", &s, 1));
    let (_, rb) = dispatched(c.send("b", "to b", &s, 2));
    assert_eq!(turns(&rb), vec![user("to b")]);
    c.complete("a", ta, Ok("from a".to_string()), 3).unwrap();
    assert_eq!(shown(&c, "a"), vec![user("to a"), assistant("from a")]);
    assert_eq!(shown(&c, "b"), vec![user("to b")]);
    assert!(c.is_busy("b"));
    assert!(!c.is_busy("a"));
}

#[test]
fn second_send_while_pending_is_turned_away() {
    let mut c = controller_with_chat("a", 10_000);
    let s = settings("llama3", "");
    let (token, _) = dispatched(c.send("a", "one", &s, 1));
    match c.send("a", "two", &s, 2) {
        Ok(SendOutcome::Busy) => {}
        other => panic!("unexpected: {:?}", other),
    }
    // also with no model selected: the chat is Pending
    match c.send("a", "three", &settings("", ""), 3) {
        Ok(SendOutcome::Busy) => {}
        other => panic!("unexpected: {:?}", other),
    }
    assert_eq!(shown(&c, "a"), vec![user("one")]);
    assert!(c.is_busy("a"));
    // the one request is still the one that is awaited
    assert_eq!(
        stored(c.complete("a", token, Ok("reply".to_string()), 4)),
        written(2, "a", Role::Assistant, "reply", 4)
    );
    assert_eq!(shown(&c, "a"), vec![user("one"), assistant("reply")]);
}

#[test]
fn cancel_before_completion_leaves_no_trace_of_the_reply() {
    let mut c = controller_with_chat("a", 10_000);
    let s = settings("llama3", "");
    let (token, _) = dispatched(c.send("a", "hi", &s, 1));
    let before = shown(&c, "a");
    assert!(c.cancel("a"));
    assert!(!c.is_busy("a"));
    assert_eq!(shown(&c, "a"), before);
    assert_eq!(c.complete("a", token, Ok("late".to_string()), 2), Ok(Completion::Discarded));
    assert_eq!(
        c.complete("a", token, Err(GenerateError::ConnectionFailed), 2),
        Ok(Completion::Discarded)
    );
    assert_eq!(shown(&c, "a"), before);
    assert_eq!(c.store().next_id(), 2);
}

#[test]
fn a_stale_reply_is_dropped_even_when_the_chat_is_pending_again() {
    let mut c = controller_with_chat("a", 10_000);
    let s = settings("llama3", "");
    let (old, _) = dispatched(c.send("a", "first", &s, 1));
    assert!(c.cancel("a"));
    let (new, _) = dispatched(c.send("a", "second", &s, 2));
    assert!(old != new);
    assert_eq!(c.complete("a", old, Ok("stale".to_string()), 3), Ok(Completion::Discarded));
    assert!(c.is_busy("a"));
    assert_eq!(shown(&c, "a"), vec![user("first"), user("second")]);
    assert_eq!(
        stored(c.complete("a", new, Ok("fresh".to_string()), 4)),
        written(3, "a", Role::Assistant, "fresh", 4)
    );
    assert_eq!(shown(&c, "a"), vec![user("first"), user("second"), assistant("fresh")]);
}

#[test]
fn a_reply_under_the_token_of_another_chat_is_dropped() {
    let mut c = controller_with_chat("a", 10_000);
    c.create_chat("b", "B").unwrap();
    let s = settings("llama3", "");
    let (ta, _) = dispatched(c.send("a", "to a", &s, 1));
    let (tb, _) = dispatched(c.send("b", "to b", &s, 1));
    assert_eq!(c.complete("a", tb, Ok("x".to_string()), 2), Ok(Completion::Discarded));
    assert_eq!(c.complete("b", ta, Ok("x".to_string()), 2), Ok(Completion::Discarded));
    assert!(c.is_busy("a") && c.is_busy("b"));
}

#[test]
fn cancel_of_an_idle_chat_changes_nothing() {
    let mut c = controller_with_chat("a", 10_000);
    assert!(!c.cancel("a"));
    assert!(!c.cancel("absent"));
    assert!(!c.is_busy("a"));
    assert!(shown(&c, "a").is_empty());
}

#[test]
fn cancel_reaches_one_chat_only() {
    let mut c = controller_with_chat("a", 10_000);
    c.create_chat("b", "B").unwrap();
    let s = settings("llama3", "");
    dispatched(c.send("a", "to a", &s, 1));
    let (tb, _) = dispatched(c.send("b", "to b", &s, 1));
    assert!(c.cancel("a"));
    assert!(c.is_busy("b"));
    assert_eq!(
        stored(c.complete("b", tb, Ok("from b".to_string()), 2)),
        written(3, "b", Role::Assistant, "from b", 2)
    );
}

#[test]
fn what_was_written_names_the_message_and_the_deleted_range() {
    let mut c = controller_with_chat("a", 2);
    let s = settings("llama3", "");
    let first = c.send("a", "q0", &s, 5);
    let token = match first {
        Ok(SendOutcome::Dispatched { token, written: w, .. }) => {
            assert_eq!(w, written(1, "a", Role::User, "q0", 5));
            token
        }
        other => panic!("unexpected: {:?}", other),
    };
    assert_eq!(
        stored(c.complete("a", token, Ok("r0".to_string()), 6)),
        written(2, "a", Role::Assistant, "r0", 6)
    );
    // the third message pushes the first out
    match c.send("a", "q1", &s, 7) {
        Ok(SendOutcome::Dispatched { written: w, .. }) => {
            assert_eq!(w.message.id, 3);
            assert_eq!(w.deleted_upto, Some(1));
        }
        other => panic!("unexpected: {:?}", other),
    }
    assert_eq!(shown(&c, "a"), vec![assistant("r0"), user("q1")]);
}

#[test]
fn each_failure_is_stored_as_its_own_message() {
    let mut c = controller_with_chat("a", 10_000);
    let s = settings("llama3", "");
    let failures = [
        (
            GenerateError::ConnectionFailed,
            "Error: Could not connect to Ollama. Make sure Ollama is running at http://localhost:11434",
        ),
        (
            GenerateError::BadStatus(HttpStatus::new(404).unwrap()),
            "Error: Ollama API returned status 404 Not Found",
        ),
        (GenerateError::ParseFailed, "Error: Failed to parse response from Ollama"),
    ];
    for (failure, text) in failures {
        let (token, _) = dispatched(c.send("a", "hi", &s, 1));
        match c.complete("a", token, Err(failure), 2) {
            Ok(Completion::Stored { .. }) => {}
            other => panic!("unexpected: {:?}", other),
        }
        assert!(!c.is_busy("a"));
        assert_eq!(c.messages("a").pop().unwrap().content, text);
        assert_eq!(c.messages("a").pop().unwrap().role, Role::Assistant);
    }
    assert_eq!(c.store().count_messages("a"), 6);
}

#[test]
fn send_to_an_absent_chat_fails_without_a_change() {
    let mut c = controller_with_chat("a", 10_000);
    match c.send("b", "hi", &settings("llama3", ""), 1) {
        Err(StoreError::UnknownChat) => {}
        other => panic!("unexpected: {:?}", other),
    }
    match c.send("b", "hi", &settings("", ""), 1) {
        Err(StoreError::UnknownChat) => {}
        other => panic!("unexpected: {:?}", other),
    }
    assert!(!c.is_busy("b"));
    assert_eq!(c.store().next_id(), 1);
}

#[test]
fn send_fails_when_ids_are_exhausted() {
    let chats = vec![rusty_chat::store::Chat { id: "a".to_string(), title: "A".to_string() }];
    let store = Store::restore(chats, vec![], u64::MAX, StoredSettings::initial()).unwrap();
    let mut c = Controller::new(store, 5).unwrap();
    match c.send("a", "hi", &settings("llama3", ""), 1) {
        Err(StoreError::IdsExhausted) => {}
        other => panic!("unexpected: {:?}", other),
    }
    assert!(!c.is_busy("a"));
}

#[test]
fn complete_fails_when_ids_run_out_and_the_chat_goes_idle() {
    let chats = vec![rusty_chat::store::Chat { id: "a".to_string(), title: "A".to_string() }];
    let store = Store::restore(chats, vec![], u64::MAX - 1, StoredSettings::initial()).unwrap();
    let mut c = Controller::new(store, 5).unwrap();
    let (token, _) = dispatched(c.send("a", "hi", &settings("llama3", ""), 1));
    assert_eq!(
        c.complete("a", token, Ok("no room".to_string()), 2),
        Err(StoreError::IdsExhausted)
    );
    assert!(!c.is_busy("a"));
    assert_eq!(shown(&c, "a"), vec![user("hi")]);
}

#[test]
fn the_cap_is_enforced_after_every_insert() {
    let mut c = controller_with_chat("a", 3);
    let s = settings("llama3", "");
    for i in 0..4 {
        let (token, request) = dispatched(c.send("a", &format!("q{}", i), &s, 0));
        assert!(c.store().count_messages("a") <= 3);
        // what was shown, and the new turn
        assert_eq!(request.messages.last().unwrap().content, format!("q{}", i));
        assert!(request.messages.len() <= 4);
        c.complete("a", token, Ok(format!("r{}", i)), 0).unwrap();
        assert!(c.store().count_messages("a") <= 3);
    }
    assert_eq!(shown(&c, "a"), vec![assistant("r2"), user("q3"), assistant("r3")]);
    let ids: Vec<u64> = c.messages("a").iter().map(|m| m.id).collect();
    assert_eq!(ids, vec![6, 7, 8]);
}

#[test]
fn request_at_the_cap_holds_what_was_shown_and_the_turn() {
    let mut c = controller_with_chat("a", 2);
    let s = settings("llama3", "");
    let (t, _) = dispatched(c.send("a", "q0", &s, 0));
    c.complete("a", t, Ok("r0".to_string()), 0).unwrap();
    let (_, request) = dispatched(c.send("a", "q1", &s, 0));
    assert_eq!(turns(&request), vec![user("q0"), assistant("r0"), user("q1")]);
    assert_eq!(shown(&c, "a"), vec![assistant("r0"), user("q1")]);
}

#[test]
fn oversized_turn_is_cut_in_store_and_request() {
    let mut c = controller_with_chat("a", 10);
    let long = "w".repeat(1_000_010);
    let (_, request) = dispatched(c.send("a", &long, &settings("llama3", ""), 0));
    assert_eq!(request.messages[0].content.len(), 1_000_000);
    assert_eq!(c.messages("a")[0].content.len(), 1_000_000);
}

#[test]
fn deleting_a_chat_cancels_its_request() {
    let mut c = controller_with_chat("a", 10);
    let (token, _) = dispatched(c.send("a", "hi", &settings("llama3", ""), 0));
    c.delete_chat("a");
    assert!(!c.is_busy("a"));
    assert!(c.chats().is_empty());
    assert_eq!(c.complete("a", token, Ok("late".to_string()), 1), Ok(Completion::Discarded));
    // a chat made anew under the same id does not get the old reply
    c.create_chat("a", "again").unwrap();
    assert_eq!(c.complete("a", token, Ok("late".to_string()), 1), Ok(Completion::Discarded));
    assert!(shown(&c, "a").is_empty());
}

#[test]
fn delete_all_history_empties_the_list_and_keeps_the_settings() {
    let mut c = controller_with_chat("a", 10);
    c.create_chat("b", "B").unwrap();
    let applied = c.apply_settings(&SettingsDraft {
        model: " phi ".to_string(),
        system_prompt: "".to_string(),
        temperature: FloatBits { bits: 1.5f64.to_bits() },
        top_p: FloatBits { bits: 0.25f64.to_bits() },
        max_tokens: 64,
        zoom: 120,
        window_width: 640,
        window_height: 480,
    });
    assert_eq!(applied.model, "phi");
    let (token, _) = dispatched(c.send("a", "hi", &applied, 0));
    c.delete_all_history();
    assert!(c.chats().is_empty());
    assert!(shown(&c, "a").is_empty());
    assert!(!c.is_busy("a"));
    assert_eq!(c.complete("a", token, Ok("late".to_string()), 1), Ok(Completion::Discarded));
    let loaded = c.load_settings();
    assert_eq!(f64::from_bits(loaded.temperature.bits), 1.5);
    assert_eq!(f64::from_bits(loaded.top_p.bits), 0.25);
    assert_eq!(loaded.model, "phi");
    assert_eq!(loaded.max_tokens, 64);
    assert_eq!(loaded.zoom, 120);
    assert_eq!(loaded.window_width, 640);
    assert_eq!(loaded.window_height, 480);
    assert!(loaded.maximized);
}

#[test]
fn apply_settings_returns_the_canonical_snapshot() {
    let mut c = controller(10);
    let applied = c.apply_settings(&SettingsDraft {
        model: "\tllama3 ".to_string(),
        system_prompt: "p".to_string(),
        temperature: FloatBits { bits: 0.1f64.to_bits() },
        top_p: FloatBits { bits: 0.2f64.to_bits() },
        max_tokens: i64::MAX,
        zoom: i64::MIN,
        window_width: 1,
        window_height: 2,
    });
    assert_eq!(applied.model, "llama3");
    assert_eq!(applied.max_tokens, i32::MAX);
    assert_eq!(applied.zoom, i32::MIN);
    assert!(applied.maximized);
    let loaded = c.load_settings();
    assert_eq!(loaded.model, "llama3");
    assert_eq!(loaded.system_prompt, "p");
    assert_eq!(loaded.max_tokens, i32::MAX);
    assert_eq!(loaded.zoom, i32::MIN);
    assert_eq!(c.store().settings().maximized, Some(1));
}

#[test]
fn fresh_controller_loads_the_defaults() {
    let c = controller(10);
    let s = c.load_settings();
    assert_eq!(s.model, "");
    assert_eq!(f64::from_bits(s.temperature.bits), 0.7);
    assert_eq!(f64::from_bits(s.top_p.bits), 0.95);
    assert_eq!(s.max_tokens, 512);
    assert_eq!(s.zoom, 100);
    assert_eq!((s.window_width, s.window_height), (1024, 768));
    assert!(s.maximized);
}

#[test]
fn new_chat_gets_a_fresh_hyphenated_id() {
    let mut c = controller(10);
    let first = c.new_chat().unwrap();
    let second = c.new_chat().unwrap();
    assert!(first != second);
    for id in [&first, &second] {
        assert_eq!(id.len(), 36);
        for (i, ch) in id.chars().enumerate() {
            if i == 8 || i == 13 || i == 18 || i == 23 {
                assert_eq!(ch, '-');
            } else {
                assert!(ch.is_ascii_digit() || ('a'..='f').contains(&ch));
            }
        }
    }
    let listed: Vec<(String, String)> = c.chats().into_iter().map(|ch| (ch.id, ch.title)).collect();
    assert_eq!(
        listed,
        vec![(first, "New Chat".to_string()), (second, "New Chat".to_string())]
    );
}

#[test]
fn new_chat_succeeds_where_no_id_has_the_shape_of_a_fresh_one() {
    let mut empty = controller(10);
    assert!(empty.new_chat().is_ok());
    let mut c = controller_with_chat("a", 10);
    c.create_chat("0123456789abcdef0123456789abcdef0123", "no hyphens").unwrap();
    c.create_chat("01234567-89AB-cdef-0123-456789abcdef", "upper case").unwrap();
    let id = c.new_chat().expect("no chat has an id of that shape");
    assert_eq!(c.chats().len(), 4);
    assert_eq!(c.chats()[3].id, id);
    assert_eq!(c.chats()[3].title, "New Chat");
}

#[test]
fn create_chat_under_a_taken_id_fails() {
    let mut c = controller_with_chat("a", 10);
    assert_eq!(c.create_chat("a", "again"), Err(StoreError::DuplicateChat));
    assert_eq!(c.chats().len(), 1);
}

#[test]
fn rename_through_the_controller() {
    let mut c = controller_with_chat("a", 10);
    c.rename_chat("a", "Plans");
    c.rename_chat("b", "Nothing");
    let listed: Vec<(String, String)> = c.chats().into_iter().map(|ch| (ch.id, ch.title)).collect();
    assert_eq!(listed, vec![("a".to_string(), "Plans".to_string())]);
}
