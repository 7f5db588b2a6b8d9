use chatgpt_client::context::{context_messages, context_text};
use chatgpt_client::history::History;
use chatgpt_client::input::{api_key_from_text, prompt_from_input, prompt_from_trimmed, read_until_delimiter, DelimitedInput};
use chatgpt_client::message::{Message, Role};
use chatgpt_client::request::{build_request, SamplingConfig};
use chatgpt_client::session::{Session, TurnError};
use chatgpt_client::stream::{reconstruct, reconstruct_text, Fragment};

const PREFIX: &str = "Remember the following code. Don't do anything with it until my next prompt yet.\n\n---\n\n";
const ACK: &str = "Alright, I won't do anything with the code yet. Just let me know what you would like me to do with it.";

fn content(delta: &str, response_index: usize) -> Fragment {
    Fragment::Content { delta: delta.to_string(), response_index }
}

fn files(items: &[Option<&str>]) -> Vec<Option<String>> {
    items.iter().map(|i| i.map(|s| s.to_string())).collect()
}

#[test]
fn seed_joins_two_readable_files() {
    let (seed, ack) = context_messages(&files(&[Some("X"), Some("Y")]));
    assert_eq!(seed.role, Role::User);
    assert_eq!(
        seed.content,
        "Remember the following code. Don't do anything with it until my next prompt yet.\n\n---\n\nX\n\n---\n\nY"
    );
    assert_eq!(ack.role, Role::Assistant);
    assert_eq!(ack.content, ACK);
}

#[test]
fn seed_skips_unreadable_file() {
    let (seed, _) = context_messages(&files(&[None, Some("Y")]));
    assert_eq!(seed.content, format!("{PREFIX}Y"));
    let (seed, _) = context_messages(&files(&[Some("X"), None]));
    assert_eq!(seed.content, format!("{PREFIX}X"));
}

#[test]
fn seed_without_readable_files_keeps_prefix() {
    let (seed, _) = context_messages(&files(&[None, None]));
    assert_eq!(seed.content, PREFIX);
    let (seed, _) = context_messages(&Vec::new());
    assert_eq!(seed.content, PREFIX);
}

#[test]
fn context_text_separates_three_files() {
    assert_eq!(
        context_text(&files(&[Some("a"), None, Some("b"), Some("")])),
        "a\n\n---\n\nb\n\n---\n\n"
    );
}

#[test]
fn delimiter_stops_at_first_blank_line() {
    let (text, used) = read_until_delimiter(b"hello\n\nworld");
    assert_eq!(text, "hello");
    assert_eq!(used, 7);
}

#[test]
fn delimiter_keeps_single_newlines() {
    let (text, used) = read_until_delimiter(b"a\nb\n\n\nc");
    assert_eq!(text, "a\nb");
    assert_eq!(used, 5);
}

#[test]
fn delimiter_absent_returns_everything() {
    let (text, used) = read_until_delimiter(b"line\n");
    assert_eq!(text, "line\n");
    assert_eq!(used, 5);
    let (text, used) = read_until_delimiter(b"");
    assert_eq!(text, "");
    assert_eq!(used, 0);
}

#[test]
fn delimiter_reads_bytes_as_latin1() {
    let (text, _) = read_until_delimiter(&[0x63, 0xE9, 0x0A, 0x0A]);
    assert_eq!(text, "c\u{e9}");
}

#[test]
fn delimited_input_byte_by_byte() {
    let mut reader = DelimitedInput::new();
    let mut done = false;
    for b in b"hi\nyou\n\nrest" {
        if reader.push_byte(*b) {
            done = true;
            break;
        }
    }
    assert!(done);
    assert!(reader.finished());
    assert_eq!(reader.into_text(), "hi\nyou");
}

#[test]
fn delimited_input_end_of_input_keeps_trailing_newline() {
    let mut reader = DelimitedInput::new();
    assert!(!reader.push_byte(b'x'));
    assert!(!reader.push_byte(b'\n'));
    assert!(!reader.finished());
    assert_eq!(reader.into_text(), "x\n");
}

#[test]
fn prompt_is_trimmed() {
    assert_eq!(prompt_from_input("  hello there \n"), Some("hello there".to_string()));
    assert_eq!(prompt_from_input(" \t\n "), None);
    assert_eq!(prompt_from_input(""), None);
    assert_eq!(prompt_from_trimmed(String::new()), None);
    assert_eq!(prompt_from_trimmed("x".to_string()), Some("x".to_string()));
}

#[test]
fn api_key_is_trimmed() {
    assert_eq!(api_key_from_text("SECRET-REDACTED\n"), "SECRET-REDACTED");
}

#[test]
fn reconstruction_follows_ordinals() {
    let fs = vec![content("c", 2), content("a", 0), Fragment::Done, content("b", 1)];
    assert_eq!(reconstruct_text(&fs), "abc");
    let again = vec![content("a", 0), content("b", 1), content("c", 2)];
    assert_eq!(reconstruct_text(&again), "abc");
}

#[test]
fn reconstruction_keeps_arrival_order_within_ordinal() {
    let fs = vec![
        Fragment::BeginResponse { role: Role::Assistant, response_index: 0 },
        content("Hel", 0),
        content("lo", 0),
        content("!", 0),
        Fragment::CloseResponse { response_index: 0 },
        Fragment::Done,
    ];
    let m = reconstruct(&fs);
    assert_eq!(m.role, Role::Assistant);
    assert_eq!(m.content, "Hello!");
}

#[test]
fn reconstruction_of_large_ordinal() {
    let fs = vec![content("z", usize::MAX), content("y", 7)];
    assert_eq!(reconstruct_text(&fs), "yz");
}

#[test]
fn reconstruction_without_content_is_empty() {
    let fs = vec![Fragment::BeginResponse { role: Role::Assistant, response_index: 0 }, Fragment::Done];
    let m = reconstruct(&fs);
    assert_eq!(m.role, Role::Assistant);
    assert_eq!(m.content, "");
    assert_eq!(reconstruct_text(&Vec::new()), "");
}

#[test]
fn standard_sampling_settings() {
    let c = SamplingConfig::standard(1000);
    assert_eq!(c.max_tokens, 1000);
    assert_eq!(c.temperature_percent, 70);
    assert_eq!(c.top_p_percent, 100);
    assert_eq!(c.frequency_penalty_percent, 0);
    assert_eq!(c.presence_penalty_percent, 0);
}

#[test]
fn request_carries_history_then_prompt() {
    let h = History::seeded(&files(&[Some("X")]));
    let r = build_request(&h, "go", SamplingConfig::standard(300));
    assert_eq!(r.messages.len(), 3);
    assert_eq!(r.messages[0].content, format!("{PREFIX}X"));
    assert_eq!(r.messages[1].role, Role::Assistant);
    assert_eq!(r.messages[2], Message::new(Role::User, "go".to_string()));
    assert_eq!(r.config.max_tokens, 300);
}

#[test]
fn streamed_turns_grow_history_by_pairs() {
    let mut s = Session::new(&files(&[Some("X")]), SamplingConfig::standard(1000));
    assert_eq!(s.history().len(), 2);
    for n in 1..=3usize {
        let r = s.submit(&format!("  question {n}\n")).unwrap();
        assert_eq!(r.messages.len(), 2 * n + 1);
        assert_eq!(r.messages[2 * n].content, format!("question {n}"));
        assert_eq!(s.history().len(), 2 * n);
        assert_eq!(s.receive(content("ans", 0)), Some("ans".to_string()));
        assert_eq!(s.receive(Fragment::Done), None);
        s.finish();
        assert!(!s.is_awaiting());
        let ms = s.history().messages();
        assert_eq!(ms.len(), 2 * n + 2);
        assert_eq!(ms[2 * n], Message::new(Role::User, format!("question {n}")));
        assert_eq!(ms[2 * n + 1], Message::new(Role::Assistant, "ans".to_string()));
    }
}

#[test]
fn blank_input_starts_no_turn() {
    let mut s = Session::new(&Vec::new(), SamplingConfig::standard(1000));
    assert!(s.submit("   \n\t").is_none());
    assert!(!s.is_awaiting());
    assert_eq!(s.history().len(), 2);
}

#[test]
fn empty_stream_still_appends_reply() {
    let mut s = Session::new(&Vec::new(), SamplingConfig::standard(1000));
    assert!(s.submit("hi").is_some());
    s.finish();
    let ms = s.history().messages();
    assert_eq!(ms.len(), 4);
    assert_eq!(ms[3], Message::new(Role::Assistant, String::new()));
}

#[test]
fn streamed_reply_out_of_order() {
    let mut s = Session::new(&Vec::new(), SamplingConfig::standard(1000));
    s.submit("hi").unwrap();
    assert_eq!(s.receive(content("world", 1)), Some("world".to_string()));
    assert_eq!(s.receive(content("hello ", 0)), Some("hello ".to_string()));
    s.finish();
    assert_eq!(s.history().messages()[3].content, "hello world");
}

#[test]
fn empty_choices_add_nothing() {
    let mut s = Session::new(&Vec::new(), SamplingConfig::standard(300));
    s.submit("hi").unwrap();
    assert_eq!(s.apply_reply(&Vec::new()), Err(TurnError::NoChoices));
    assert!(!s.is_awaiting());
    assert_eq!(s.history().len(), 2);
    assert!(s.submit("again").is_some());
}

#[test]
fn first_choice_becomes_reply() {
    let mut s = Session::new(&Vec::new(), SamplingConfig::standard(300));
    s.submit("hi").unwrap();
    let choices = vec![
        Message::new(Role::Assistant, "one".to_string()),
        Message::new(Role::Assistant, "two".to_string()),
    ];
    assert_eq!(s.apply_reply(&choices), Ok(()));
    let ms = s.history().messages();
    assert_eq!(ms.len(), 4);
    assert_eq!(ms[2], Message::new(Role::User, "hi".to_string()));
    assert_eq!(ms[3], Message::new(Role::Assistant, "one".to_string()));
}

#[test]
fn abandoned_turn_leaves_history() {
    let mut s = Session::new(&Vec::new(), SamplingConfig::standard(300));
    s.submit("hi").unwrap();
    s.receive(content("partial", 0));
    s.abandon();
    assert!(!s.is_awaiting());
    assert_eq!(s.history().len(), 2);
}

#[test]
fn history_push_turn_appends_pair() {
    let mut h = History::seeded(&Vec::new());
    h.push_turn("q".to_string(), Message::new(Role::System, "a".to_string()));
    assert_eq!(h.len(), 4);
    assert_eq!(h.messages()[2].role, Role::User);
    assert_eq!(h.messages()[3].content, "a");
    assert_eq!(Message::new(Role::User, "m".to_string()).duplicate().content, "m");
}

#[test]
fn request_from_empty_history_is_prompt_alone() {
    let h = History::new();
    assert_eq!(h.len(), 0);
    let r = build_request(&h, "only", SamplingConfig::standard(300));
    assert_eq!(r.messages, vec![Message::new(Role::User, "only".to_string())]);
}
