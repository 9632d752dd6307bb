use aethos::chat::check_status;
use aethos::chat::classify;
use aethos::chat::decimal;
use aethos::chat::find_break;
use aethos::chat::first_fragment;
use aethos::chat::first_reply;
use aethos::chat::prepare_chat;
use aethos::chat::read_reply;
use aethos::chat::resolve_model;
use aethos::chat::settle_title;
use aethos::chat::supports_provider;
use aethos::chat::ChatError;
use aethos::chat::ChatRequest;
use aethos::chat::ChatStreamChunk;
use aethos::chat::ChoiceMessage;
use aethos::chat::CompletionChoice;
use aethos::chat::ConversationTitleEvent;
use aethos::chat::Frame;
use aethos::chat::FrameStep;
use aethos::chat::RelayState;
use aethos::chat::StreamChoice;
use aethos::chat::StreamRelay;
use aethos::crypto::CryptoService;
use aethos::error::ConfigError;
use aethos::paths::ConfigPaths;
use aethos::records::ProviderUpsertPayload;
use aethos::service::ConfigService;

const T1: &str = "2024-05-01 10:00:00";
const T2: &str = "2024-05-01 10:00:01";
const T3: &str = "2024-05-01 10:00:02";

fn service_with(provider: &str, default_model: Option<&str>) -> ConfigService {
    let paths = ConfigPaths {
        base_dir: "/data".to_string(),
        db_path: "/data/aethos.db3".to_string(),
        key_path: "/data/master.key".to_string(),
    };
    let mut service = ConfigService::new(paths, CryptoService::new([42u8; 32]).unwrap());
    service
        .upsert_provider(ProviderUpsertPayload {
            provider: provider.into(),
            display_name: "Provider".into(),
            api_key: "sk-live".into(),
            default_model: default_model.map(|m| m.to_string()),
            make_default: true,
        })
        .unwrap();
    service
}

fn request(prompt: &str, conversation_id: Option<&str>) -> ChatRequest {
    ChatRequest { prompt: prompt.into(), model: None, conversation_id: conversation_id.map(|c| c.to_string()) }
}

fn delta(content: Option<&str>) -> StreamChoice {
    StreamChoice { delta: Some(ChoiceMessage { content: content.map(|c| c.to_string()) }) }
}

fn answer(content: Option<&str>) -> CompletionChoice {
    CompletionChoice { message: Some(ChoiceMessage { content: content.map(|c| c.to_string()) }) }
}

/// The deltas of an envelope of the shape `{"choices":[{"delta":{"content":..}}]}`.
fn envelope(payload: &str) -> Result<Vec<StreamChoice>, String> {
    let value: serde_json::Value = serde_json::from_str(payload).map_err(|e| e.to_string())?;
    let choices = value.get("choices").and_then(|c| c.as_array()).ok_or("missing field `choices`")?;
    Ok(choices
        .iter()
        .map(|choice| StreamChoice {
            delta: choice.get("delta").filter(|d| !d.is_null()).map(|d| ChoiceMessage {
                content: d.get("content").and_then(|c| c.as_str()).map(|c| c.to_string()),
            }),
        })
        .collect())
}

struct Turn {
    chunks: Vec<ChatStreamChunk>,
    titles: Vec<ConversationTitleEvent>,
    outcome: Result<(), ChatError>,
    state: RelayState,
}

/// Runs one streamed turn against a provider that answers with `body` in
/// the given pieces and, when asked for a title, with `title`.
fn run_turn(service: &mut ConfigService, conversation_id: &str, prompt: &str, pieces: &[&[u8]], title: &str) -> Turn {
    let mut chunks = Vec::new();
    let mut titles = Vec::new();
    let opening = match StreamRelay::start(service, request(prompt, Some(conversation_id)), T2) {
        Ok(opening) => opening,
        Err(e) => return Turn { chunks, titles, outcome: Err(e), state: RelayState::Idle },
    };
    let mut relay = opening.relay;
    relay.on_status(200, String::new()).unwrap();
    for piece in pieces {
        relay.push_bytes(piece);
        while let Some(frame) = relay.next_frame() {
            match relay.on_frame(frame) {
                FrameStep::Skip => continue,
                FrameStep::Parse(payload) => match relay.on_payload(envelope(&payload)) {
                    Ok(Some(chunk)) => chunks.push(chunk),
                    Ok(None) => {}
                    Err(error) => {
                        return Turn { chunks, titles, outcome: Err(error), state: relay.state() };
                    }
                },
                FrameStep::Finish(last) => {
                    chunks.push(last);
                    let concluded = match relay.conclude(service, T3) {
                        Ok(concluded) => concluded,
                        Err(e) => return Turn { chunks, titles, outcome: Err(e), state: relay.state() },
                    };
                    let titling = match concluded.title {
                        Ok(Some(_)) => relay.apply_title(service, &vec![answer(Some(title))], T3),
                        Ok(None) => Ok(None),
                        Err(e) => Err(e),
                    };
                    let settled = settle_title(titling);
                    titles.extend(settled.event);
                    return Turn { chunks, titles, outcome: Ok(()), state: relay.state() };
                }
            }
        }
    }
    let outcome = match relay.on_end() {
        Some(e) => Err(e),
        None => Ok(()),
    };
    Turn { chunks, titles, outcome, state: relay.state() }
}

const HELLO: &[u8] = b"data: {\"choices\":[{\"delta\":{\"content\":\"Hel\"}}]}\n\ndata: {\"choices\":[{\"delta\":{\"content\":\"lo\"}}]}\n\ndata: [DONE]\n\n";

#[test]
fn two_deltas_then_done_give_three_chunks_and_one_message() {
    let mut service = service_with("openai", Some("gpt-4o"));
    service.insert_conversation("c1".into(), Some("Named".into()), T1).unwrap();
    let turn = run_turn(&mut service, "c1", "Say hello", &[HELLO], "unused");
    assert!(turn.outcome.is_ok());
    assert_eq!(turn.state, RelayState::Completed);
    assert_eq!(turn.chunks.len(), 3);
    assert_eq!(turn.chunks[0].delta, "Hel");
    assert!(!turn.chunks[0].done);
    assert_eq!(turn.chunks[0].model, None);
    assert_eq!(turn.chunks[0].conversation_id, "c1");
    assert_eq!(turn.chunks[1].delta, "lo");
    assert!(!turn.chunks[1].done);
    assert_eq!(turn.chunks[2].delta, "");
    assert!(turn.chunks[2].done);
    assert_eq!(turn.chunks[2].model.as_deref(), Some("gpt-4o"));

    let messages = service.get_conversation_messages("c1", None).unwrap();
    assert_eq!(messages.len(), 2);
    assert_eq!(messages[0].role, "user");
    assert_eq!(messages[0].content, "Say hello");
    assert_eq!(messages[0].created_at, T2);
    assert_eq!(messages[1].role, "assistant");
    assert_eq!(messages[1].content, "Hello");
    assert_eq!(messages[1].created_at, T3);
    assert_eq!(service.get_conversation("c1").unwrap().last_message_preview.as_deref(), Some("Hello"));
}

#[test]
fn frames_are_the_same_however_the_bytes_are_cut() {
    for cut in 0..HELLO.len() {
        let mut service = service_with("openrouter", None);
        service.insert_conversation("c1".into(), Some("Named".into()), T1).unwrap();
        let turn = run_turn(&mut service, "c1", "Say hello", &[&HELLO[..cut], &HELLO[cut..]], "unused");
        assert!(turn.outcome.is_ok(), "cut at {cut}");
        let deltas: Vec<&str> = turn.chunks.iter().map(|c| c.delta.as_str()).collect();
        assert_eq!(deltas, vec!["Hel", "lo", ""], "cut at {cut}");
        assert_eq!(turn.chunks[2].model.as_deref(), Some("gpt-4o-mini"));
    }
}

#[test]
fn a_character_cut_by_the_transport_arrives_whole() {
    let body = "data: {\"choices\":[{\"delta\":{\"content\":\"é鍵\"}}]}\n\ndata: [DONE]\n\n".as_bytes();
    for cut in 0..body.len() {
        let mut service = service_with("openai", None);
        service.insert_conversation("c1".into(), Some("Trip".into()), T1).unwrap();
        let turn = run_turn(&mut service, "c1", "Say it", &[&body[..cut], &body[cut..]], "unused");
        assert!(turn.outcome.is_ok(), "cut at {cut}");
        assert_eq!(turn.chunks[0].delta, "é鍵", "cut at {cut}");
        assert_eq!(service.get_conversation_messages("c1", None).unwrap()[1].content, "é鍵");
    }
}

#[test]
fn only_a_completed_turn_is_recorded_and_titled() {
    let mut service = service_with("openai", None);
    service.insert_conversation("c1".into(), None, T1).unwrap();
    let mut relay = StreamRelay::start(&mut service, request("hi", Some("c1")), T2).unwrap().relay;
    relay.on_status(200, String::new()).unwrap();
    relay.on_delta(&vec![delta(Some("partial"))]).unwrap();
    let not_completed = |error: ChatError| match error {
        ChatError::Protocol(words) => assert_eq!(words, "the turn is not completed"),
        other => panic!("{other:?}"),
    };
    not_completed(relay.persist_reply(&mut service, T3).unwrap_err());
    not_completed(relay.title_request(&service).unwrap_err());
    not_completed(relay.apply_title(&mut service, &vec![answer(Some("Title"))], T3).unwrap_err());
    not_completed(relay.conclude(&mut service, T3).err().unwrap());
    relay.on_failure("reset".into());
    not_completed(relay.persist_reply(&mut service, T3).unwrap_err());
    not_completed(relay.conclude(&mut service, T3).err().unwrap());
    assert_eq!(service.get_conversation_messages("c1", None).unwrap().len(), 1);
    assert_eq!(service.get_conversation("c1").unwrap().title, "New chat");
}

#[test]
fn a_frame_says_what_is_due() {
    let mut service = service_with("openai", Some("gpt-4o"));
    service.insert_conversation("c1".into(), None, T1).unwrap();
    let mut relay = StreamRelay::start(&mut service, request("hi", Some("c1")), T2).unwrap().relay;
    assert!(matches!(relay.on_frame(Frame::Ignored), FrameStep::Skip));
    assert!(matches!(relay.on_frame(Frame::Payload("{}".into())), FrameStep::Parse(p) if p == "{}"));
    assert_eq!(relay.state(), RelayState::CredentialResolved);
    assert!(matches!(relay.on_payload(Ok(vec![delta(Some("Hi"))])), Ok(Some(chunk)) if chunk.delta == "Hi"));
    assert!(matches!(relay.on_payload(Ok(vec![delta(None)])), Ok(None)));
    match relay.on_frame(Frame::Done) {
        FrameStep::Finish(last) => {
            assert!(last.done);
            assert_eq!(last.model.as_deref(), Some("gpt-4o"));
        }
        _ => panic!("the completion marker did not finish the turn"),
    }
    assert_eq!(relay.state(), RelayState::Completed);
    let concluded = relay.conclude(&mut service, T3).unwrap();
    assert_eq!(concluded.message.content, "Hi");
    assert_eq!(concluded.message.role, "assistant");
    assert!(matches!(concluded.title, Ok(Some(_))));
    assert_eq!(service.get_conversation_messages("c1", None).unwrap().len(), 2);

    let mut other = StreamRelay::start(&mut service, request("hi", Some("c1")), T2).unwrap().relay;
    match other.on_payload(Err("expected value at line 1".into())) {
        Err(ChatError::Protocol(words)) => assert_eq!(words, "expected value at line 1"),
        _ => panic!("a payload that does not parse was taken"),
    }
    assert_eq!(other.state(), RelayState::Failed);
    assert!(matches!(other.on_malformed_frame("x".into()), ChatError::Protocol(w) if w == "x"));
}

#[test]
fn a_conversation_with_the_default_title_is_titled_once() {
    let mut service = service_with("openai", None);
    service.insert_conversation("c1".into(), None, T1).unwrap();
    let turn = run_turn(&mut service, "c1", "Say hello", &[HELLO], "  \"Greeting exchange\"\n");
    assert!(turn.outcome.is_ok());
    assert_eq!(turn.titles.len(), 1);
    assert_eq!(turn.titles[0].conversation_id, "c1");
    assert_eq!(turn.titles[0].title, "Greeting exchange");
    let row = service.get_conversation("c1").unwrap();
    assert_eq!(row.title, "Greeting exchange");
    assert_ne!(row.title, "New chat");

    let turn = run_turn(&mut service, "c1", "Again", &[HELLO], "Another title");
    assert!(turn.outcome.is_ok());
    assert!(turn.titles.is_empty());
    assert_eq!(service.get_conversation("c1").unwrap().title, "Greeting exchange");
    assert_eq!(service.get_conversation_messages("c1", None).unwrap().len(), 4);
}

#[test]
fn a_customised_title_is_left_alone() {
    let mut service = service_with("openai", None);
    service.insert_conversation("c1".into(), Some("My own".into()), T1).unwrap();
    let turn = run_turn(&mut service, "c1", "Say hello", &[HELLO], "Generated");
    assert!(turn.outcome.is_ok());
    assert!(turn.titles.is_empty());
    assert_eq!(service.get_conversation("c1").unwrap().title, "My own");
}

#[test]
fn a_stream_that_ends_mid_frame_is_no_success() {
    let mut service = service_with("openai", None);
    service.insert_conversation("c1".into(), None, T1).unwrap();
    let body: &[u8] = b"data: {\"choices\":[{\"delta\":{\"content\":\"Hel\"}}]}\n\ndata: {\"choices\":[{\"del";
    let turn = run_turn(&mut service, "c1", "Say hello", &[body], "unused");
    assert!(matches!(turn.outcome, Err(ChatError::EmptyResponse)));
    assert_eq!(turn.state, RelayState::Failed);
    assert_eq!(turn.chunks.len(), 1);
    assert!(turn.chunks.iter().all(|c| !c.done));
    assert!(turn.titles.is_empty());
    let messages = service.get_conversation_messages("c1", None).unwrap();
    assert_eq!(messages.len(), 1);
    assert_eq!(messages[0].role, "user");
    assert_eq!(service.get_conversation("c1").unwrap().title, "New chat");
}

#[test]
fn a_malformed_frame_aborts_the_stream() {
    let mut service = service_with("openai", None);
    service.insert_conversation("c1".into(), None, T1).unwrap();
    let body: &[u8] = b"data: {\"choices\":[{\"delta\":{\"content\":\"Hel\"}}]}\n\ndata: {oops\n\ndata: [DONE]\n\n";
    let turn = run_turn(&mut service, "c1", "Say hello", &[body], "unused");
    assert!(matches!(turn.outcome, Err(ChatError::Protocol(_))));
    assert_eq!(turn.state, RelayState::Failed);
    assert_eq!(turn.chunks.len(), 1);
    assert!(turn.chunks.iter().all(|c| !c.done));
    assert_eq!(service.get_conversation_messages("c1", None).unwrap().len(), 1);

    let turn = run_turn(&mut service, "c1", "Again", &[b"data: {not json\n\n"], "unused");
    match turn.outcome {
        Err(ChatError::Protocol(words)) => assert!(!words.is_empty()),
        _ => panic!("a frame that does not parse was no protocol failure"),
    }
    assert!(turn.chunks.is_empty());
    assert!(service.get_conversation_messages("c1", None).unwrap().iter().all(|m| m.role == "user"));
}

#[test]
fn events_that_are_no_data_and_empty_fragments_are_passed_over() {
    let mut service = service_with("openai", None);
    service.insert_conversation("c1".into(), Some("Named".into()), T1).unwrap();
    let body: &[u8] = b": keep-alive\n\nevent: ping\n\ndata: {\"choices\":[{\"delta\":{\"role\":\"assistant\",\"content\":\"\"}}]}\n\ndata: {\"choices\":[{\"delta\":{}}]}\n\ndata: {\"choices\":[]}\n\n  data:   {\"choices\":[{\"delta\":null},{\"delta\":{\"content\":\"\"}},{\"delta\":{\"content\":\"Hi\"}}]}  \n\ndata:[DONE]\n\nignored: after\n\n";
    let turn = run_turn(&mut service, "c1", "Say hi", &[body], "unused");
    assert!(turn.outcome.is_ok());
    let deltas: Vec<&str> = turn.chunks.iter().map(|c| c.delta.as_str()).collect();
    assert_eq!(deltas, vec!["Hi", ""]);
    assert_eq!(service.get_conversation_messages("c1", None).unwrap()[1].content, "Hi");
}

#[test]
fn a_streamed_turn_needs_a_conversation() {
    let mut service = service_with("openai", None);
    assert!(matches!(StreamRelay::start(&mut service, request("hi", None), T1), Err(ChatError::MissingConversationId)));
    match StreamRelay::start(&mut service, request("hi", Some("nowhere")), T1) {
        Err(ChatError::Config(ConfigError::Database(words))) => assert_eq!(words, "FOREIGN KEY constraint failed"),
        _ => panic!("a turn was started in a conversation that is not there"),
    }
}

#[test]
fn an_unsupported_provider_fails_before_anything_is_recorded() {
    let mut service = service_with("anthropic", None);
    service.insert_conversation("c1".into(), None, T1).unwrap();
    match StreamRelay::start(&mut service, request("hi", Some("c1")), T2) {
        Err(ChatError::UnsupportedProvider(name)) => assert_eq!(name, "anthropic"),
        _ => panic!("a turn was started with a provider that is not supported"),
    }
    assert!(service.get_conversation_messages("c1", None).unwrap().is_empty());
    match prepare_chat(&service, request("hi", None)) {
        Err(ChatError::UnsupportedProvider(name)) => assert_eq!(name, "anthropic"),
        _ => panic!("a request was prepared for a provider that is not supported"),
    }
}

#[test]
fn without_a_provider_no_turn_starts() {
    let paths = ConfigPaths { base_dir: "/d".into(), db_path: "/d/db".into(), key_path: "/d/key".into() };
    let mut service = ConfigService::new(paths, CryptoService::new([42u8; 32]).unwrap());
    service.insert_conversation("c1".into(), None, T1).unwrap();
    assert!(matches!(
        StreamRelay::start(&mut service, request("hi", Some("c1")), T2),
        Err(ChatError::Config(ConfigError::MissingDefaultProvider))
    ));
    assert!(matches!(
        StreamRelay::start(&mut service, request("hi", None), T2),
        Err(ChatError::Config(ConfigError::MissingDefaultProvider))
    ));
    assert!(matches!(
        prepare_chat(&service, request("hi", None)),
        Err(ChatError::Config(ConfigError::MissingDefaultProvider))
    ));
}

#[test]
fn the_opening_asks_the_provider_to_stream() {
    let mut service = service_with("openai", Some("gpt-4o"));
    service.insert_conversation("c1".into(), None, T1).unwrap();
    let mut turn = request("Say hello", Some("c1"));
    turn.model = Some("o3".into());
    let opening = StreamRelay::start(&mut service, turn, T2).unwrap();
    assert_eq!(opening.request.endpoint, "https://api.openai.com/v1/chat/completions");
    assert_eq!(opening.request.api_key, "sk-live");
    assert_eq!(opening.request.model, "o3");
    assert_eq!(opening.request.stream, Some(true));
    assert_eq!(opening.request.timeout_secs, 60);
    assert_eq!(opening.request.messages.len(), 1);
    assert_eq!(opening.request.messages[0].role, "user");
    assert_eq!(opening.request.messages[0].content, "Say hello");
    assert_eq!(opening.user_message.content, "Say hello");
    assert_eq!(opening.user_message.role, "user");
    assert_eq!(opening.relay.state(), RelayState::CredentialResolved);
    assert_eq!(opening.relay.conversation_id(), "c1");
    assert_eq!(opening.relay.model(), "o3");
    assert_eq!(opening.relay.reply(), "");
}

#[test]
fn a_status_that_is_no_success_fails_the_turn() {
    let mut service = service_with("openai", None);
    service.insert_conversation("c1".into(), None, T1).unwrap();
    let mut relay = StreamRelay::start(&mut service, request("hi", Some("c1")), T2).unwrap().relay;
    match relay.on_status(429, "slow down".into()) {
        Err(ChatError::Provider { status, message }) => {
            assert_eq!(status, 429);
            assert_eq!(message, "slow down");
        }
        _ => panic!("a refusal was taken for a success"),
    }
    assert_eq!(relay.state(), RelayState::Failed);
    assert!(relay.on_delta(&vec![delta(Some("late"))]).is_none());
    assert_eq!(relay.reply(), "");
    assert_eq!(service.get_conversation_messages("c1", None).unwrap().len(), 1);

    for status in [200u16, 201, 204, 299] {
        assert!(check_status(status, String::new()).is_ok());
    }
    for status in [100u16, 199, 300, 301, 404, 500] {
        assert!(matches!(check_status(status, "b".into()), Err(ChatError::Provider { status: s, .. }) if s == status));
    }
}

#[test]
fn the_relay_walks_through_its_states() {
    let mut service = service_with("openai", None);
    service.insert_conversation("c1".into(), None, T1).unwrap();
    let mut relay = StreamRelay::start(&mut service, request("hi", Some("c1")), T2).unwrap().relay;
    assert_eq!(relay.state(), RelayState::CredentialResolved);
    relay.on_status(200, String::new()).unwrap();
    assert_eq!(relay.state(), RelayState::StreamOpen);
    assert!(relay.on_delta(&vec![delta(None), delta(Some(""))]).is_none());
    assert_eq!(relay.state(), RelayState::StreamOpen);
    assert!(relay.on_delta(&vec![delta(Some("a"))]).is_some());
    assert_eq!(relay.state(), RelayState::Emitting);
    assert!(relay.on_delta(&vec![delta(Some("b")), delta(Some("c"))]).is_some());
    assert_eq!(relay.reply(), "ab");
    let last = relay.on_done();
    assert!(last.done);
    assert_eq!(relay.state(), RelayState::Completed);
    assert!(relay.on_end().is_none());
    assert_eq!(relay.state(), RelayState::Completed);
    assert!(relay.on_delta(&vec![delta(Some("z"))]).is_none());
    assert_eq!(relay.reply(), "ab");
    assert!(matches!(relay.on_failure("reset".into()), ChatError::Network(words) if words == "reset"));
    assert_eq!(relay.state(), RelayState::Failed);
}

#[test]
fn the_buffer_keeps_what_is_no_complete_frame() {
    let mut service = service_with("openai", None);
    service.insert_conversation("c1".into(), None, T1).unwrap();
    let mut relay = StreamRelay::start(&mut service, request("hi", Some("c1")), T2).unwrap().relay;
    assert!(relay.next_frame().is_none());
    relay.push_bytes(b"data: one\n");
    assert!(relay.next_frame().is_none());
    relay.push_bytes(b"\ndata: two\n\nda");
    assert!(matches!(relay.next_frame(), Some(Frame::Payload(p)) if p == "one"));
    assert!(matches!(relay.next_frame(), Some(Frame::Payload(p)) if p == "two"));
    assert!(relay.next_frame().is_none());
    relay.push_bytes(b"ta: [DONE]\n\n\n\n");
    assert!(matches!(relay.next_frame(), Some(Frame::Done)));
    assert!(matches!(relay.next_frame(), Some(Frame::Ignored)));
    assert!(relay.next_frame().is_none());
    relay.push_bytes(&[b'd', b'a', b't', b'a', b':', 0xff, b'\n', b'\n']);
    assert!(matches!(relay.next_frame(), Some(Frame::Payload(p)) if p == "\u{fffd}"));
}

#[test]
fn events_are_classified_by_their_prefix() {
    assert!(matches!(classify("data: [DONE]"), Frame::Done));
    assert!(matches!(classify("  data:[DONE]  "), Frame::Done));
    assert!(matches!(classify("data: {\"a\":1}"), Frame::Payload(p) if p == "{\"a\":1}"));
    assert!(matches!(classify("data:"), Frame::Payload(p) if p.is_empty()));
    assert!(matches!(classify("data: see data: here"), Frame::Payload(p) if p == "see data: here"));
    assert!(matches!(classify("data: [done]"), Frame::Payload(p) if p == "[done]"));
    assert!(matches!(classify("event: message\ndata: x"), Frame::Ignored));
    assert!(matches!(classify(""), Frame::Ignored));
    assert!(matches!(classify("Data: x"), Frame::Ignored));
}

#[test]
fn chat_failures_have_their_words() {
    assert_eq!(ChatError::MissingConversationId.message(), "conversation id is required");
    assert_eq!(ChatError::EmptyResponse.message(), "no response received from provider");
    assert_eq!(ChatError::UnsupportedProvider("x".into()).message(), "unsupported provider `x`");
    assert_eq!(ChatError::Network("reset".into()).message(), "network error: reset");
    assert_eq!(ChatError::Protocol("bad frame".into()).message(), "protocol error: bad frame");
    assert_eq!(
        ChatError::Provider { status: 429, message: "slow down".into() }.message(),
        "provider error (429): slow down"
    );
    assert_eq!(
        ChatError::Config(ConfigError::MissingDefaultProvider).message(),
        "no default provider configured"
    );
    assert_eq!(
        ChatError::Config(ConfigError::Encryption("bad".into())).message(),
        "encryption error: bad"
    );
    for number in [0u16, 7, 10, 99, 100, 404, 1000, 9999, 10000, 65535] {
        assert_eq!(decimal(number), number.to_string());
    }
}

#[test]
fn the_first_blank_line_ends_a_frame() {
    assert_eq!(find_break(b"ab\n\ncd\n\n"), 2);
    assert_eq!(find_break(b"\n\n"), 0);
    assert_eq!(find_break(b"a\nb\n"), 4);
    assert_eq!(find_break(b""), 0);
    assert_eq!(find_break(b"\n"), 1);
    assert_eq!(find_break(b"a\r\n\r\n"), 5);
    assert_eq!(find_break("鍵\n\n".as_bytes()), 3);
}

#[test]
fn the_fragment_is_the_first_content_that_is_not_empty() {
    assert_eq!(first_fragment(&vec![]), None);
    assert_eq!(first_fragment(&vec![StreamChoice { delta: None }]), None);
    assert_eq!(first_fragment(&vec![delta(None), delta(Some(""))]), None);
    assert_eq!(first_fragment(&vec![delta(Some("")), delta(Some("x")), delta(Some("y"))]).as_deref(), Some("x"));
    assert_eq!(first_reply(&vec![]), None);
    assert_eq!(first_reply(&vec![CompletionChoice { message: None }, answer(None)]), None);
    assert_eq!(first_reply(&vec![answer(None), answer(Some("")), answer(Some("x"))]).as_deref(), Some(""));
}

#[test]
fn a_turn_that_is_not_streamed_asks_once_and_reads_the_first_reply() {
    let service = service_with("openrouter", Some("mistral-large"));
    let asked = prepare_chat(&service, request("What is up?", None)).unwrap();
    assert_eq!(asked.endpoint, "https://api.openai.com/v1/chat/completions");
    assert_eq!(asked.api_key, "sk-live");
    assert_eq!(asked.model, "mistral-large");
    assert_eq!(asked.stream, None);
    assert_eq!(asked.timeout_secs, 30);
    assert_eq!(asked.messages.len(), 1);
    assert_eq!(asked.messages[0].role, "user");
    assert_eq!(asked.messages[0].content, "What is up?");

    let response = read_reply(asked.model, &vec![answer(None), answer(Some("Not much"))]).unwrap();
    assert_eq!(response.reply, "Not much");
    assert_eq!(response.model, "mistral-large");
    assert!(matches!(read_reply("m".into(), &vec![answer(None)]), Err(ChatError::EmptyResponse)));
}

#[test]
fn the_model_is_the_requested_one_then_the_default_then_the_fallback() {
    assert_eq!(resolve_model(Some("a".into()), &Some("b".into())), "a");
    assert_eq!(resolve_model(None, &Some("b".into())), "b");
    assert_eq!(resolve_model(None, &None), "gpt-4o-mini");
    assert_eq!(resolve_model(Some("a".into()), &None), "a");
    assert!(supports_provider("openai"));
    assert!(supports_provider("openrouter"));
    assert!(!supports_provider("OpenAI"));
    assert!(!supports_provider(""));
}

#[test]
fn the_title_is_asked_of_the_default_model_with_both_turns() {
    let mut service = service_with("openai", Some("gpt-4o"));
    service.insert_conversation("c1".into(), None, T1).unwrap();
    let mut turn = request("  How do I sort?  ", Some("c1"));
    turn.model = Some("o3".into());
    let mut relay = StreamRelay::start(&mut service, turn, T2).unwrap().relay;
    relay.on_status(200, String::new()).unwrap();
    relay.on_delta(&vec![delta(Some("Use sort().\n"))]).unwrap();
    relay.on_done();
    relay.persist_reply(&mut service, T3).unwrap();
    let asked = relay.title_request(&service).unwrap().unwrap();
    assert_eq!(asked.model, "gpt-4o");
    assert_eq!(asked.api_key, "sk-live");
    assert_eq!(asked.stream, None);
    assert_eq!(asked.timeout_secs, 20);
    assert_eq!(asked.messages.len(), 2);
    assert_eq!(asked.messages[0].role, "system");
    assert_eq!(asked.messages[0].content, "You generate succinct descriptive titles for chat conversations.");
    assert_eq!(asked.messages[1].role, "user");
    assert_eq!(
        asked.messages[1].content,
        "You are a helpful assistant that generates concise titles for chat conversations. Return a short title (max 6 words) that summarizes this exchange. Do not add quotes.\nUser: How do I sort?\nAssistant: Use sort()."
    );
}

#[test]
fn a_title_that_fails_does_not_fail_the_turn() {
    let mut service = service_with("openai", None);
    service.insert_conversation("c1".into(), None, T1).unwrap();
    let mut relay = StreamRelay::start(&mut service, request("hi", Some("c1")), T2).unwrap().relay;
    relay.on_delta(&vec![delta(Some("Hello"))]).unwrap();
    relay.on_done();
    relay.persist_reply(&mut service, T3).unwrap();

    let titling = relay.apply_title(&mut service, &vec![answer(None)], T3);
    assert!(matches!(titling, Err(ChatError::EmptyResponse)));
    let settled = settle_title(titling);
    assert!(settled.event.is_none());
    assert!(matches!(settled.failure, Some(ChatError::EmptyResponse)));
    assert_eq!(service.get_conversation("c1").unwrap().title, "New chat");
    assert_eq!(service.get_conversation_messages("c1", None).unwrap()[1].content, "Hello");

    assert!(matches!(relay.apply_title(&mut service, &vec![answer(Some(" \"\" "))], T3), Ok(None)));
    assert_eq!(service.get_conversation("c1").unwrap().title, "New chat");

    let settled = settle_title(relay.apply_title(&mut service, &vec![answer(Some("Greetings"))], T3));
    assert_eq!(settled.event.unwrap().title, "Greetings");
    assert!(settled.failure.is_none());

    service.delete_conversation("c1").unwrap();
    assert!(matches!(relay.title_request(&service), Err(ChatError::Config(ConfigError::Database(_)))));
    assert!(matches!(
        relay.apply_title(&mut service, &vec![answer(Some("Late"))], T3),
        Err(ChatError::Config(ConfigError::Database(_)))
    ));
    assert!(matches!(relay.persist_reply(&mut service, T3), Err(ChatError::Config(ConfigError::Database(_)))));
}
