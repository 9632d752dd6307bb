//! The relay between a chat-completion provider and the interface: what to
//! ask of the provider, how its event stream is cut into frames, which
//! events each frame gives rise to, and what is persisted when.
//!
//! The relay does no I/O. Its surroundings send the requests it describes
//! and hand back what came: a status, bytes, a parsed envelope, the end of
//! the stream.

use vstd::prelude::*;
use vstd::slice::slice_subrange;
use vstd::slice::slice_to_vec;
use vstd::string::StringExecFns;

use crate::conversations::conversation_position;
use crate::conversations::conversation_with_id;
use crate::conversations::default_title;
use crate::conversations::renamed;
use crate::error::ConfigError;
use crate::ids::is_generated_id;
use crate::lookup::has_row;
use crate::lookup::lemma_position_found;
use crate::lookup::position_where;
use crate::records::text_view;
use crate::records::ConversationMessage;
use crate::records::MessageView;
use crate::service::default_credential;
use crate::service::id_failure;
use crate::service::message_ids;
use crate::service::message_refusal;
use crate::service::reports_credential_fault;
use crate::error::row_not_found;
use crate::service::state_with_changed_conversation;
use crate::service::state_with_message;
use crate::service::ConfigService;
use crate::service::StoreView;
use crate::text::append_bytes;
use crate::text::has_prefix;
use crate::text::same_text;
use crate::text::starts_with;
use crate::text::strip;
use crate::text::stripped;
use crate::text::to_chars;
use crate::text::trim;
use crate::text::trimmed;
use crate::text::Strip;

verus! {

/// A chat turn as the interface asks for it.
#[derive(Debug)]
pub struct ChatRequest {
    pub prompt: String,
    pub model: Option<String>,
    pub conversation_id: Option<String>,
}

/// The answer to a chat turn that was not streamed.
#[derive(Debug)]
pub struct ChatResponse {
    pub reply: String,
    pub model: String,
}

/// One event of a streamed answer, `chat:chunk` to the interface: a
/// fragment of the reply, or the end of it.
#[derive(Debug)]
pub struct ChatStreamChunk {
    pub conversation_id: String,
    pub delta: String,
    pub done: bool,
    pub model: Option<String>,
}

/// The event that a conversation got its title, `conversation:title` to the
/// interface.
#[derive(Debug)]
pub struct ConversationTitleEvent {
    pub conversation_id: String,
    pub title: String,
}

/// A failure of a chat turn.
#[derive(Debug)]
pub enum ChatError {
    /// The store or the cipher failed.
    Config(ConfigError),
    /// A streamed turn names no conversation.
    MissingConversationId,
    /// The default provider is not one that the relay can talk to.
    UnsupportedProvider(String),
    /// The provider gave no reply: a completion without content, or a
    /// stream that ended without its completion marker.
    EmptyResponse,
    /// The transport failed.
    Network(String),
    /// What came is not what the protocol allows: a frame that does not
    /// parse, or a step that the state of the turn does not admit.
    Protocol(String),
    /// The provider answered with a status that is no success.
    Provider { status: u16, message: String },
}

/// The text of one decimal digit.
pub open spec fn digit_text(digit: int) -> Seq<char> {
    if digit == 0 {
        "0"@
    } else if digit == 1 {
        "1"@
    } else if digit == 2 {
        "2"@
    } else if digit == 3 {
        "3"@
    } else if digit == 4 {
        "4"@
    } else if digit == 5 {
        "5"@
    } else if digit == 6 {
        "6"@
    } else if digit == 7 {
        "7"@
    } else if digit == 8 {
        "8"@
    } else {
        "9"@
    }
}

/// The decimal text of `number`, without leading zeros.
pub open spec fn decimal_text(number: nat) -> Seq<char>
    decreases number,
{
    if number < 10 {
        digit_text(number as int)
    } else {
        decimal_text(number / 10) + digit_text((number % 10) as int)
    }
}

/// The text of one decimal digit.
fn digit(value: u16) -> (r: &'static str)
    requires
        value < 10,
    ensures
        r@ == digit_text(value as int),
{
    if value == 0 {
        "0"
    } else if value == 1 {
        "1"
    } else if value == 2 {
        "2"
    } else if value == 3 {
        "3"
    } else if value == 4 {
        "4"
    } else if value == 5 {
        "5"
    } else if value == 6 {
        "6"
    } else if value == 7 {
        "7"
    } else if value == 8 {
        "8"
    } else {
        "9"
    }
}

/// The decimal text of `number`.
pub fn decimal(number: u16) -> (r: String)
    ensures
        r@ == decimal_text(number as nat),
    decreases number,
{
    if number < 10 {
        String::from_str(digit(number))
    } else {
        decimal(number / 10).concat(digit(number % 10))
    }
}

impl ChatError {
    /// The message shown to a person.
    pub open spec fn words(self) -> Seq<char> {
        match self {
            ChatError::Config(e) => e.heading() + e.detail(),
            ChatError::MissingConversationId => "conversation id is required"@,
            ChatError::UnsupportedProvider(name) => "unsupported provider `"@ + name@ + "`"@,
            ChatError::EmptyResponse => "no response received from provider"@,
            ChatError::Network(text) => "network error: "@ + text@,
            ChatError::Protocol(text) => "protocol error: "@ + text@,
            ChatError::Provider { status, message } => "provider error ("@ + decimal_text(
                status as nat,
            ) + "): "@ + message@,
        }
    }

    /// The message shown to a person.
    pub fn message(&self) -> (r: String)
        ensures
            r@ == self.words(),
    {
        match self {
            ChatError::Config(e) => e.message(),
            ChatError::MissingConversationId => String::from_str("conversation id is required"),
            ChatError::UnsupportedProvider(name) => String::from_str(
                "unsupported provider `",
            ).concat(name.as_str()).concat("`"),
            ChatError::EmptyResponse => String::from_str("no response received from provider"),
            ChatError::Network(text) => String::from_str("network error: ").concat(text.as_str()),
            ChatError::Protocol(text) => String::from_str("protocol error: ").concat(
                text.as_str(),
            ),
            ChatError::Provider { status, message } => String::from_str("provider error (").concat(
                decimal(*status).as_str(),
            ).concat("): ").concat(message.as_str()),
        }
    }
}

/// One message of the list that is sent to the provider.
#[derive(Debug)]
pub struct ChatMessage {
    pub role: String,
    pub content: String,
}

/// A request for the provider: a POST of `model`, `messages` and, where it is
/// present, `stream` as a JSON body to `endpoint`, with `api_key` as bearer
/// token, to be given up after `timeout_secs`.
#[derive(Debug)]
pub struct CompletionRequest {
    pub endpoint: String,
    pub api_key: String,
    pub model: String,
    pub messages: Vec<ChatMessage>,
    pub stream: Option<bool>,
    pub timeout_secs: u64,
}

/// The message of one choice of an envelope.
#[derive(Debug)]
pub struct ChoiceMessage {
    pub content: Option<String>,
}

/// One choice of the envelope of a stream frame.
#[derive(Debug)]
pub struct StreamChoice {
    pub delta: Option<ChoiceMessage>,
}

/// One choice of the envelope of a completion that was not streamed.
#[derive(Debug)]
pub struct CompletionChoice {
    pub message: Option<ChoiceMessage>,
}

/// Seconds after which a completion that is not streamed is given up.
pub const SEND_TIMEOUT_SECS: u64 = 30;

/// Seconds after which a streamed completion is given up.
pub const STREAM_TIMEOUT_SECS: u64 = 60;

/// Seconds after which the completion that asks for a title is given up.
pub const TITLE_TIMEOUT_SECS: u64 = 20;

/// Where completions are asked for.
pub open spec fn chat_endpoint() -> Seq<char> {
    "https://api.openai.com/v1/chat/completions"@
}

/// The model that is asked where neither the turn nor the provider names
/// one.
pub open spec fn fallback_model() -> Seq<char> {
    "gpt-4o-mini"@
}

/// Whether the relay can talk to `provider`.
pub open spec fn is_supported(provider: Seq<char>) -> bool {
    provider == "openai"@ || provider == "openrouter"@
}

/// Whether the relay can talk to `provider`.
pub fn supports_provider(provider: &str) -> (r: bool)
    ensures
        r == is_supported(provider@),
{
    same_text(provider, "openai") || same_text(provider, "openrouter")
}

/// The model to ask: the one the turn names, else the default of the
/// provider, else the fallback.
pub open spec fn chosen_model(
    requested: Option<Seq<char>>,
    provider_default: Option<Seq<char>>,
) -> Seq<char> {
    match requested {
        Some(model) => model,
        None => match provider_default {
            Some(model) => model,
            None => fallback_model(),
        },
    }
}

/// The model to ask.
pub fn resolve_model(requested: Option<String>, provider_default: &Option<String>) -> (r: String)
    ensures
        r@ == chosen_model(text_view(requested), text_view(*provider_default)),
{
    match requested {
        Some(model) => model,
        None => match provider_default {
            Some(model) => model.clone(),
            None => String::from_str("gpt-4o-mini"),
        },
    }
}

/// Whether `status` is an HTTP success: one of 200 to 299.
pub open spec fn is_success(status: u16) -> bool {
    200 <= status < 300
}

/// What the status of the answer means: a success lets the turn go on, any
/// other status fails it with the body as the words of the provider.
pub fn check_status(status: u16, body: String) -> (r: Result<(), ChatError>)
    ensures
        is_success(status) ==> r is Ok,
        !is_success(status) ==> (r matches Err(ChatError::Provider { status: code, message })
            && code == status && message@ == body@),
{
    if 200 <= status && status < 300 {
        Ok(())
    } else {
        Err(ChatError::Provider { status, message: body })
    }
}

/// Whether `request` asks `model` with the one message of the user,
/// `prompt`, authorised by `api_key`.
pub open spec fn asks_prompt(
    request: CompletionRequest,
    api_key: Seq<char>,
    model: Seq<char>,
    prompt: Seq<char>,
) -> bool {
    &&& request.endpoint@ == chat_endpoint()
    &&& request.api_key@ == api_key
    &&& request.model@ == model
    &&& request.messages@.len() == 1
    &&& request.messages@[0].role@ == "user"@
    &&& request.messages@[0].content@ == prompt
}

/// The request that asks `model` with the one message of the user.
fn prompt_request(
    api_key: String,
    model: String,
    prompt: String,
    stream: Option<bool>,
    timeout_secs: u64,
) -> (r: CompletionRequest)
    ensures
        asks_prompt(r, api_key@, model@, prompt@),
        r.stream == stream,
        r.timeout_secs == timeout_secs,
{
    let mut messages: Vec<ChatMessage> = Vec::new();
    messages.push(ChatMessage { role: String::from_str("user"), content: prompt });
    CompletionRequest {
        endpoint: String::from_str("https://api.openai.com/v1/chat/completions"),
        api_key,
        model,
        messages,
        stream,
        timeout_secs,
    }
}

/// The choices that carry content, empty or not.
pub open spec fn carries_content() -> spec_fn(CompletionChoice) -> bool {
    |choice: CompletionChoice| choice.message matches Some(m) && m.content is Some
}

/// The reply of a completion: the content of the first choice that has any.
pub open spec fn reply_of(choices: Seq<CompletionChoice>) -> Option<Seq<char>> {
    let at = position_where(choices, carries_content());
    if at < choices.len() {
        Some(choices[at].message->0.content->0@)
    } else {
        None
    }
}

/// The reply of a completion.
pub fn first_reply(choices: &Vec<CompletionChoice>) -> (r: Option<String>)
    ensures
        text_view(r) == reply_of(choices@),
{
    let mut i: usize = 0;
    while i < choices.len()
        invariant
            i <= choices@.len(),
            forall|j: int| 0 <= j < i ==> !carries_content()(#[trigger] choices@[j]),
        decreases choices@.len() - i,
    {
        match &choices[i].message {
            Some(message) => match &message.content {
                Some(content) => {
                    proof {
                        lemma_position_found(choices@, carries_content(), i as int);
                    }
                    return Some(content.clone());
                },
                None => {},
            },
            None => {},
        }
        i += 1;
    }
    proof {
        lemma_position_found(choices@, carries_content(), i as int);
    }
    None
}

/// The choices that carry a fragment: content that is not empty.
pub open spec fn carries_fragment() -> spec_fn(StreamChoice) -> bool {
    |choice: StreamChoice|
        choice.delta matches Some(m) && m.content matches Some(text) && text@.len() > 0
}

/// The fragment of a stream envelope: the first content that is not empty.
pub open spec fn fragment_of(choices: Seq<StreamChoice>) -> Option<Seq<char>> {
    let at = position_where(choices, carries_fragment());
    if at < choices.len() {
        Some(choices[at].delta->0.content->0@)
    } else {
        None
    }
}

/// The fragment of a stream envelope.
pub fn first_fragment(choices: &Vec<StreamChoice>) -> (r: Option<String>)
    ensures
        text_view(r) == fragment_of(choices@),
{
    let mut i: usize = 0;
    while i < choices.len()
        invariant
            i <= choices@.len(),
            forall|j: int| 0 <= j < i ==> !carries_fragment()(#[trigger] choices@[j]),
        decreases choices@.len() - i,
    {
        match &choices[i].delta {
            Some(message) => match &message.content {
                Some(content) => {
                    if !content.as_str().is_empty() {
                        proof {
                            lemma_position_found(choices@, carries_fragment(), i as int);
                        }
                        return Some(content.clone());
                    }
                },
                None => {},
            },
            None => {},
        }
        i += 1;
    }
    proof {
        lemma_position_found(choices@, carries_fragment(), i as int);
    }
    None
}

/// What is to be asked for a turn that is not streamed: the default
/// credential must open and its provider must be supported.
pub fn prepare_chat(config: &ConfigService, request: ChatRequest) -> (r: Result<
    CompletionRequest,
    ChatError,
>)
    ensures
        match default_credential(config@.providers, config.cipher_key()) {
            Err(fault) => r matches Err(ChatError::Config(e)) && reports_credential_fault(e, fault),
            Ok(credential) => if is_supported(credential.provider) {
                &&& r matches Ok(asked)
                &&& asks_prompt(
                    asked,
                    credential.api_key,
                    chosen_model(text_view(request.model), credential.default_model),
                    request.prompt@,
                )
                &&& asked.stream is None
                &&& asked.timeout_secs == SEND_TIMEOUT_SECS
            } else {
                r matches Err(ChatError::UnsupportedProvider(name)) && name@ == credential.provider
            },
        },
{
    let credential = match config.default_provider_credentials() {
        Ok(credential) => credential,
        Err(e) => {
            return Err(ChatError::Config(e));
        },
    };
    if !supports_provider(credential.provider.as_str()) {
        return Err(ChatError::UnsupportedProvider(credential.provider));
    }
    let model = resolve_model(request.model, &credential.default_model);
    Ok(prompt_request(credential.api_key, model, request.prompt, None, SEND_TIMEOUT_SECS))
}

/// The answer to a turn that was not streamed: the reply of the envelope
/// under the model that was asked, or `EmptyResponse` where no choice has
/// content.
pub fn read_reply(model: String, choices: &Vec<CompletionChoice>) -> (r: Result<
    ChatResponse,
    ChatError,
>)
    ensures
        match reply_of(choices@) {
            Some(text) => r matches Ok(answer) && answer.reply@ == text && answer.model@ == model@,
            None => r matches Err(ChatError::EmptyResponse),
        },
{
    match first_reply(choices) {
        Some(reply) => Ok(ChatResponse { reply, model }),
        None => Err(ChatError::EmptyResponse),
    }
}

/// The text that `bytes` decode to where every malformed sequence gives the
/// replacement character U+FFFD.
pub uninterp spec fn lossy_decoded(bytes: Seq<u8>) -> Seq<char>;

/// Calls `String::from_utf8_lossy`: the named lossy decoding of `bytes`,
/// which is their text where they are UTF-8.
#[verifier::external_body]
fn lossy_text(bytes: &[u8]) -> (text: String)
    ensures
        text@ == lossy_decoded(bytes@),
        vstd::utf8::valid_utf8(bytes@) ==> text@ == vstd::utf8::decode_utf8(bytes@),
{
    String::from_utf8_lossy(bytes).into_owned()
}

/// The byte of a line feed.
pub const LINE_FEED: u8 = 10;

/// The first position from `from` on at which two line feeds stand side by
/// side, or the length of `bytes` where there is none.
pub open spec fn break_from(bytes: Seq<u8>, from: int) -> int
    decreases bytes.len() - from,
{
    if from < 0 || from + 1 >= bytes.len() {
        bytes.len() as int
    } else if bytes[from] == LINE_FEED && bytes[from + 1] == LINE_FEED {
        from
    } else {
        break_from(bytes, from + 1)
    }
}

/// The position of the first frame delimiter, a blank line, in `bytes`, or
/// the length of `bytes` where no frame is complete.
pub open spec fn break_position(bytes: Seq<u8>) -> int {
    break_from(bytes, 0)
}

/// The delimiter lies within the bytes and is two bytes long.
pub proof fn lemma_break_from(bytes: Seq<u8>, from: int)
    requires
        0 <= from,
    ensures
        from <= break_from(bytes, from) || break_from(bytes, from) == bytes.len(),
        break_from(bytes, from) <= bytes.len(),
        break_from(bytes, from) < bytes.len() ==> break_from(bytes, from) + 2 <= bytes.len(),
    decreases bytes.len() - from,
{
    if !(from + 1 >= bytes.len()) && !(bytes[from] == LINE_FEED && bytes[from + 1] == LINE_FEED) {
        lemma_break_from(bytes, from + 1);
    }
}

/// The position of the first frame delimiter in `bytes`.
pub fn find_break(bytes: &[u8]) -> (at: usize)
    ensures
        at == break_position(bytes@),
        at <= bytes@.len(),
        at < bytes@.len() ==> at + 2 <= bytes@.len(),
{
    let n = bytes.len();
    let mut i: usize = 0;
    while i < n && i + 1 < n
        invariant
            n == bytes@.len(),
            i <= n,
            break_position(bytes@) == break_from(bytes@, i as int),
        decreases n - i,
    {
        if bytes[i] == LINE_FEED && bytes[i + 1] == LINE_FEED {
            return i;
        }
        i += 1;
    }
    n
}

/// What one event of the stream is.
#[derive(Debug)]
pub enum Frame {
    /// Not a data event: to be passed over.
    Ignored,
    /// The completion marker.
    Done,
    /// The text of a JSON envelope.
    Payload(String),
}

/// The view of a `Frame`.
pub enum FrameView {
    Ignored,
    Done,
    Payload(Seq<char>),
}

impl View for Frame {
    type V = FrameView;

    open spec fn view(&self) -> FrameView {
        match self {
            Frame::Ignored => FrameView::Ignored,
            Frame::Done => FrameView::Done,
            Frame::Payload(text) => FrameView::Payload(text@),
        }
    }
}

/// The words that open a data event.
pub open spec fn data_prefix() -> Seq<char> {
    "data:"@
}

/// The payload that ends a stream.
pub open spec fn done_marker() -> Seq<char> {
    "[DONE]"@
}

/// What the event `event` is. White space around it does not count. An
/// event that does not begin with `data:` is passed over; what follows the
/// prefix, again without the white space around it, is the completion
/// marker or the text of an envelope.
pub open spec fn frame_of(event: Seq<char>) -> FrameView {
    let line = trimmed(event);
    if has_prefix(line, data_prefix()) {
        let payload = trimmed(line.skip(data_prefix().len() as int));
        if payload == done_marker() {
            FrameView::Done
        } else {
            FrameView::Payload(payload)
        }
    } else {
        FrameView::Ignored
    }
}

/// What the event `event` is.
pub fn classify(event: &str) -> (r: Frame)
    ensures
        r@ == frame_of(event@),
{
    let line = trim(event);
    let chars = to_chars(line);
    let prefix = to_chars("data:");
    if !starts_with(&chars, &prefix) {
        return Frame::Ignored;
    }
    assert(line@.skip(prefix@.len() as int) == line@.subrange(
        prefix@.len() as int,
        line@.len() as int,
    ));
    let payload = trim(line.substring_char(prefix.len(), chars.len()));
    if same_text(payload, "[DONE]") {
        Frame::Done
    } else {
        Frame::Payload(payload.to_owned())
    }
}

/// The frames that `bytes` hold in full, in their order: the bytes ahead
/// of each blank line, decoded once the frame is whole, so that no
/// character is cut where the transport cut the stream.
pub open spec fn frames_of(bytes: Seq<u8>) -> Seq<FrameView>
    decreases bytes.len(),
{
    let at = break_position(bytes);
    if 0 <= at && at + 2 <= bytes.len() {
        seq![frame_of(lossy_decoded(bytes.take(at)))] + frames_of(bytes.skip(at + 2))
    } else {
        Seq::empty()
    }
}

/// What is left of `bytes` behind its last complete frame.
pub open spec fn remainder_of(bytes: Seq<u8>) -> Seq<u8>
    decreases bytes.len(),
{
    let at = break_position(bytes);
    if 0 <= at && at + 2 <= bytes.len() {
        remainder_of(bytes.skip(at + 2))
    } else {
        bytes
    }
}

/// A delimiter within the bytes is still the first delimiter when more
/// bytes follow.
proof fn lemma_break_stays(bytes: Seq<u8>, more: Seq<u8>, from: int)
    requires
        0 <= from,
        break_from(bytes, from) < bytes.len(),
    ensures
        break_from(bytes + more, from) == break_from(bytes, from),
    decreases bytes.len() - from,
{
    if from + 1 < bytes.len() {
        if !(bytes[from] == LINE_FEED && bytes[from + 1] == LINE_FEED) {
            lemma_break_stays(bytes, more, from + 1);
        }
    }
}

/// The frames of a stream do not depend on where the transport cuts it: the
/// frames of bytes followed by more bytes are the frames of the first, then
/// the frames of what the first left over followed by the rest. The same
/// holds of what is left over in the end.
pub proof fn lemma_frames_of_pieces(bytes: Seq<u8>, more: Seq<u8>)
    ensures
        frames_of(bytes + more) == frames_of(bytes) + frames_of(remainder_of(bytes) + more),
        remainder_of(bytes + more) == remainder_of(remainder_of(bytes) + more),
    decreases bytes.len(),
{
    let at = break_position(bytes);
    lemma_break_from(bytes, 0);
    if at < bytes.len() {
        lemma_break_stays(bytes, more, 0);
        let rest = bytes.skip(at + 2);
        assert((bytes + more).take(at) == bytes.take(at));
        assert((bytes + more).skip(at + 2) == rest + more);
        lemma_frames_of_pieces(rest, more);
        let first = seq![frame_of(lossy_decoded(bytes.take(at)))];
        assert(first + (frames_of(rest) + frames_of(remainder_of(rest) + more)) == (first
            + frames_of(rest)) + frames_of(remainder_of(rest) + more));
    }
}

/// Where a streamed turn stands.
#[derive(Clone, Copy, Debug, PartialEq, Eq)]
pub enum RelayState {
    /// Nothing was asked yet.
    Idle,
    /// The credential is resolved and the turn of the user is recorded.
    CredentialResolved,
    /// The provider answered with a success and the stream is read.
    StreamOpen,
    /// At least one fragment was passed on.
    Emitting,
    /// The completion marker came.
    Completed,
    /// The turn failed.
    Failed,
}

/// The view of a relay.
pub struct RelayView {
    pub state: RelayState,
    pub conversation_id: Seq<char>,
    pub model: Seq<char>,
    pub prompt: Seq<char>,
    pub buffer: Seq<u8>,
    pub reply: Seq<char>,
}

/// One streamed turn: its state, the bytes of the stream that are not yet
/// cut into frames, and the reply so far.
pub struct StreamRelay {
    state: RelayState,
    conversation_id: String,
    model: String,
    prompt: String,
    buffer: Vec<u8>,
    reply: String,
}

impl View for StreamRelay {
    type V = RelayView;

    closed spec fn view(&self) -> RelayView {
        RelayView {
            state: self.state,
            conversation_id: self.conversation_id@,
            model: self.model@,
            prompt: self.prompt@,
            buffer: self.buffer@,
            reply: self.reply@,
        }
    }
}

/// What the start of a streamed turn gives: the relay, the request to send,
/// and the turn of the user as it was recorded.
pub struct StreamOpening {
    pub relay: StreamRelay,
    pub request: CompletionRequest,
    pub user_message: ConversationMessage,
}

/// The words of the protocol failure of a step that needs a completed turn.
pub open spec fn not_completed_words() -> Seq<char> {
    "the turn is not completed"@
}

/// Whether `r` is the protocol failure of a step that needs a completed
/// turn.
pub open spec fn is_not_completed<T>(r: Result<T, ChatError>) -> bool {
    r matches Err(ChatError::Protocol(text)) && text@ == not_completed_words()
}

/// Whether a turn is over.
pub open spec fn is_over(state: RelayState) -> bool {
    state is Completed || state is Failed
}

/// The event for a fragment of the reply.
pub open spec fn is_fragment_event(
    event: ChatStreamChunk,
    conversation_id: Seq<char>,
    fragment: Seq<char>,
) -> bool {
    &&& event.conversation_id@ == conversation_id
    &&& event.delta@ == fragment
    &&& !event.done
    &&& event.model is None
}

/// The event for the end of the reply.
pub open spec fn is_final_event(
    event: ChatStreamChunk,
    conversation_id: Seq<char>,
    model: Seq<char>,
) -> bool {
    &&& event.conversation_id@ == conversation_id
    &&& event.delta@.len() == 0
    &&& event.done
    &&& text_view(event.model) == Some(model)
}

/// The words that open the request for a title.
pub open spec fn title_lead() -> Seq<char> {
    "You are a helpful assistant that generates concise titles for chat conversations. Return a short title (max 6 words) that summarizes this exchange. Do not add quotes.\nUser: "@
}

/// The request for a title: the lead, the turn of the user, and the reply,
/// each without the white space around it.
pub open spec fn title_prompt(prompt: Seq<char>, reply: Seq<char>) -> Seq<char> {
    title_lead() + trimmed(prompt) + "\nAssistant: "@ + trimmed(reply)
}

/// What the system tells the provider when a title is asked for.
pub open spec fn title_instruction() -> Seq<char> {
    "You generate succinct descriptive titles for chat conversations."@
}

/// The title that a reply of the provider stands for: the reply without the
/// white space around it and then without the double quotes around that.
pub open spec fn title_of(reply: Seq<char>) -> Seq<char> {
    stripped(trimmed(reply), Strip::Quote)
}

/// Whether `request` asks `model` for a title with the two messages: the
/// instruction of the system, and the request of the user.
pub open spec fn asks_title(
    request: CompletionRequest,
    api_key: Seq<char>,
    model: Seq<char>,
    prompt: Seq<char>,
    reply: Seq<char>,
) -> bool {
    &&& request.endpoint@ == chat_endpoint()
    &&& request.api_key@ == api_key
    &&& request.model@ == model
    &&& request.messages@.len() == 2
    &&& request.messages@[0].role@ == "system"@
    &&& request.messages@[0].content@ == title_instruction()
    &&& request.messages@[1].role@ == "user"@
    &&& request.messages@[1].content@ == title_prompt(prompt, reply)
    &&& request.stream is None
    &&& request.timeout_secs == TITLE_TIMEOUT_SECS
}

/// Whether `r` is what the request for a title comes to for the turn
/// `relay` on the store `state`. A turn that is not completed gets the
/// protocol failure; a conversation that is not there, the failure of the
/// store; a conversation with a title of its own, nothing; and one with
/// the default title, the request to the default provider, or the failure
/// to open its credential.
pub open spec fn answers_title_request(
    r: Result<Option<CompletionRequest>, ChatError>,
    relay: RelayView,
    state: StoreView,
    cipher_key: Seq<u8>,
) -> bool {
    if !(relay.state is Completed) {
        is_not_completed(r)
    } else if !has_row(state.conversations, conversation_with_id(relay.conversation_id)) {
        r matches Err(ChatError::Config(e)) && e.is_database(row_not_found())
    } else {
        let row = state.conversations[conversation_position(
            state.conversations,
            relay.conversation_id,
        )];
        if row.title != default_title() {
            r matches Ok(None)
        } else {
            match default_credential(state.providers, cipher_key) {
                Err(fault) => r matches Err(ChatError::Config(e)) && reports_credential_fault(
                    e,
                    fault,
                ),
                Ok(credential) => r matches Ok(Some(asked)) && asks_title(
                    asked,
                    credential.api_key,
                    chosen_model(None, credential.default_model),
                    relay.prompt,
                    relay.reply,
                ),
            }
        }
    }
}

/// What a frame asks of the surroundings of the relay.
#[derive(Debug)]
pub enum FrameStep {
    /// Nothing: the frame is passed over.
    Skip,
    /// Parse this payload as an envelope and hand the outcome to
    /// `on_payload`.
    Parse(String),
    /// Pass this event on, the last of the reply, and then call `conclude`.
    Finish(ChatStreamChunk),
}

/// What the conclusion of a completed turn gives: the reply as it was
/// recorded, and what the request for a title comes to. Titling is best
/// effort: its failure is carried here and does not undo the record.
pub struct Conclusion {
    pub message: ConversationMessage,
    pub title: Result<Option<CompletionRequest>, ChatError>,
}

impl StreamRelay {
    /// Starts a streamed turn. In this order: the default credential must
    /// open, the turn must name a conversation, and the provider must be
    /// supported; then the turn of the user is recorded, before anything is
    /// sent. A failure leaves the store as it was.
    pub fn start(config: &mut ConfigService, request: ChatRequest, now: &str) -> (r: Result<
        StreamOpening,
        ChatError,
    >)
        requires
            old(config).wf(),
        ensures
            final(config).wf(),
            final(config).cipher_key() == old(config).cipher_key(),
            final(config).files() == old(config).files(),
            r is Err ==> final(config)@ == old(config)@,
            match default_credential(old(config)@.providers, old(config).cipher_key()) {
                Err(fault) => r matches Err(ChatError::Config(e)) && reports_credential_fault(
                    e,
                    fault,
                ),
                Ok(credential) => match request.conversation_id {
                    None => r matches Err(ChatError::MissingConversationId),
                    Some(conversation_id) => if !is_supported(credential.provider) {
                        r matches Err(ChatError::UnsupportedProvider(name)) && name@
                            == credential.provider
                    } else {
                        match r {
                            Ok(opening) => {
                                let model = chosen_model(
                                    text_view(request.model),
                                    credential.default_model,
                                );
                                &&& is_generated_id(opening.user_message@.id)
                                &&& opening.user_message@ == (MessageView {
                                    id: opening.user_message@.id,
                                    conversation_id: conversation_id@,
                                    role: "user"@,
                                    content: request.prompt@,
                                    created_at: now@,
                                })
                                &&& message_refusal(old(config)@, opening.user_message@) is None
                                &&& final(config)@ == state_with_message(
                                    old(config)@,
                                    opening.user_message@,
                                )
                                &&& opening.relay@ == (RelayView {
                                    state: RelayState::CredentialResolved,
                                    conversation_id: conversation_id@,
                                    model,
                                    prompt: request.prompt@,
                                    buffer: Seq::empty(),
                                    reply: Seq::empty(),
                                })
                                &&& asks_prompt(
                                    opening.request,
                                    credential.api_key,
                                    model,
                                    request.prompt@,
                                )
                                &&& opening.request.stream == Some(true)
                                &&& opening.request.timeout_secs == STREAM_TIMEOUT_SECS
                            },
                            Err(error) => {
                                &&& error matches ChatError::Config(e)
                                &&& if has_row(
                                    old(config)@.conversations,
                                    conversation_with_id(conversation_id@),
                                ) {
                                    id_failure(
                                        e,
                                        message_ids(old(config)@.messages),
                                        "UNIQUE constraint failed: messages.id"@,
                                    )
                                } else {
                                    e.is_database("FOREIGN KEY constraint failed"@)
                                }
                            },
                        }
                    },
                },
            },
    {
        let credential = match config.default_provider_credentials() {
            Ok(credential) => credential,
            Err(e) => {
                return Err(ChatError::Config(e));
            },
        };
        let conversation_id = match &request.conversation_id {
            Some(id) => id.clone(),
            None => {
                return Err(ChatError::MissingConversationId);
            },
        };
        if !supports_provider(credential.provider.as_str()) {
            return Err(ChatError::UnsupportedProvider(credential.provider));
        }
        let user_message = match config.record_message(
            conversation_id.as_str(),
            "user",
            request.prompt.as_str(),
            now,
        ) {
            Ok(message) => message,
            Err(e) => {
                return Err(ChatError::Config(e));
            },
        };
        let model = resolve_model(request.model, &credential.default_model);
        let relay = StreamRelay {
            state: RelayState::CredentialResolved,
            conversation_id,
            model: model.clone(),
            prompt: request.prompt.clone(),
            buffer: Vec::new(),
            reply: String::new(),
        };
        let asked = prompt_request(
            credential.api_key,
            model,
            request.prompt,
            Some(true),
            STREAM_TIMEOUT_SECS,
        );
        Ok(StreamOpening { relay, request: asked, user_message })
    }

    /// The protocol failure of a step that needs a completed turn, where
    /// the turn is not completed.
    fn not_completed(&self) -> (r: Option<ChatError>)
        ensures
            self@.state is Completed ==> r is None,
            !(self@.state is Completed) ==> (r matches Some(ChatError::Protocol(text)) && text@
                == not_completed_words()),
    {
        match self.state {
            RelayState::Completed => None,
            _ => Some(ChatError::Protocol(String::from_str("the turn is not completed"))),
        }
    }

    /// Where the turn stands.
    pub fn state(&self) -> (r: RelayState)
        ensures
            r == self@.state,
    {
        self.state
    }

    /// The reply so far.
    pub fn reply(&self) -> (r: &str)
        ensures
            r@ == self@.reply,
    {
        self.reply.as_str()
    }

    /// The conversation of the turn.
    pub fn conversation_id(&self) -> (r: &str)
        ensures
            r@ == self@.conversation_id,
    {
        self.conversation_id.as_str()
    }

    /// The model that was asked.
    pub fn model(&self) -> (r: &str)
        ensures
            r@ == self@.model,
    {
        self.model.as_str()
    }

    /// Takes the status of the answer. A success opens the stream; any other
    /// status fails the turn with the body as the words of the provider. A
    /// turn that is over stays as it is.
    pub fn on_status(&mut self, status: u16, body: String) -> (r: Result<(), ChatError>)
        ensures
            is_success(status) ==> r is Ok && final(self)@ == (RelayView {
                state: if is_over(old(self)@.state) {
                    old(self)@.state
                } else {
                    RelayState::StreamOpen
                },
                ..old(self)@
            }),
            !is_success(status) ==> {
                &&& r matches Err(ChatError::Provider { status: code, message })
                &&& code == status
                &&& message@ == body@
                &&& final(self)@ == (RelayView { state: RelayState::Failed, ..old(self)@ })
            },
    {
        match check_status(status, body) {
            Ok(()) => {
                match self.state {
                    RelayState::Completed => {},
                    RelayState::Failed => {},
                    _ => {
                        self.state = RelayState::StreamOpen;
                    },
                }
                Ok(())
            },
            Err(e) => {
                self.state = RelayState::Failed;
                Err(e)
            },
        }
    }

    /// Takes bytes of the stream: they go behind what is buffered, as they
    /// are. They are decoded frame by frame, once a frame is whole.
    pub fn push_bytes(&mut self, chunk: &[u8])
        ensures
            final(self)@ == (RelayView { buffer: old(self)@.buffer + chunk@, ..old(self)@ }),
    {
        append_bytes(&mut self.buffer, chunk);
    }

    /// Cuts the first complete frame off the buffer and says what it is: the
    /// bytes ahead of the first blank line, decoded with replacement of
    /// what is malformed, which is their text where they are UTF-8. Without
    /// a blank line in the buffer no frame is complete, and nothing changes.
    pub fn next_frame(&mut self) -> (r: Option<Frame>)
        ensures
            break_position(old(self)@.buffer) >= old(self)@.buffer.len() ==> r is None
                && final(self)@ == old(self)@,
            break_position(old(self)@.buffer) < old(self)@.buffer.len() ==> {
                let at = break_position(old(self)@.buffer);
                &&& r matches Some(frame)
                &&& frame@ == frame_of(lossy_decoded(old(self)@.buffer.take(at)))
                &&& final(self)@ == (RelayView {
                    buffer: old(self)@.buffer.skip(at + 2),
                    ..old(self)@
                })
            },
            r matches Some(frame) ==> (vstd::utf8::valid_utf8(
                old(self)@.buffer.take(break_position(old(self)@.buffer)),
            ) ==> frame@ == frame_of(
                vstd::utf8::decode_utf8(old(self)@.buffer.take(break_position(old(self)@.buffer))),
            )),
            frames_of(old(self)@.buffer) == match r {
                Some(frame) => seq![frame@] + frames_of(final(self)@.buffer),
                None => Seq::empty(),
            },
            remainder_of(old(self)@.buffer) == remainder_of(final(self)@.buffer),
    {
        let n = self.buffer.len();
        let at = find_break(self.buffer.as_slice());
        if at >= n {
            return None;
        }
        let event = lossy_text(slice_subrange(self.buffer.as_slice(), 0, at));
        let frame = classify(event.as_str());
        let rest = slice_to_vec(slice_subrange(self.buffer.as_slice(), at + 2, n));
        assert(old(self)@.buffer.take(at as int) == old(self)@.buffer.subrange(0, at as int));
        assert(old(self)@.buffer.skip(at + 2) == old(self)@.buffer.subrange(at + 2, n as int));
        self.buffer = rest;
        Some(frame)
    }

    /// Takes the envelope of a frame. Its fragment, the first content that
    /// is not empty, goes behind the reply and is passed on as an event; an
    /// envelope without one changes nothing. A turn that is over takes no
    /// more fragments.
    pub fn on_delta(&mut self, choices: &Vec<StreamChoice>) -> (r: Option<ChatStreamChunk>)
        ensures
            match fragment_of(choices@) {
                Some(fragment) => if is_over(old(self)@.state) {
                    r is None && final(self)@ == old(self)@
                } else {
                    &&& r matches Some(event)
                    &&& is_fragment_event(event, old(self)@.conversation_id, fragment)
                    &&& final(self)@ == (RelayView {
                        state: RelayState::Emitting,
                        reply: old(self)@.reply + fragment,
                        ..old(self)@
                    })
                },
                None => r is None && final(self)@ == old(self)@,
            },
    {
        match self.state {
            RelayState::Completed => {
                return None;
            },
            RelayState::Failed => {
                return None;
            },
            _ => {},
        }
        match first_fragment(choices) {
            Some(fragment) => {
                self.reply.append(fragment.as_str());
                self.state = RelayState::Emitting;
                Some(
                    ChatStreamChunk {
                        conversation_id: self.conversation_id.clone(),
                        delta: fragment,
                        done: false,
                        model: None,
                    },
                )
            },
            None => None,
        }
    }

    /// Takes the completion marker: the turn is completed, and the event
    /// that ends the reply names the model and carries no fragment.
    pub fn on_done(&mut self) -> (r: ChatStreamChunk)
        ensures
            is_final_event(r, old(self)@.conversation_id, old(self)@.model),
            final(self)@ == (RelayView { state: RelayState::Completed, ..old(self)@ }),
    {
        self.state = RelayState::Completed;
        ChatStreamChunk {
            conversation_id: self.conversation_id.clone(),
            delta: String::new(),
            done: true,
            model: Some(self.model.clone()),
        }
    }

    /// Takes a frame and says what is due. A frame that is no data event is
    /// passed over; a payload is to be parsed; the completion marker
    /// completes the turn, as `on_done` does, and gives the last event.
    pub fn on_frame(&mut self, frame: Frame) -> (r: FrameStep)
        ensures
            match frame@ {
                FrameView::Ignored => r is Skip && final(self)@ == old(self)@,
                FrameView::Payload(payload) => {
                    &&& r matches FrameStep::Parse(text)
                    &&& text@ == payload
                    &&& final(self)@ == old(self)@
                },
                FrameView::Done => {
                    &&& r matches FrameStep::Finish(event)
                    &&& is_final_event(event, old(self)@.conversation_id, old(self)@.model)
                    &&& final(self)@ == (RelayView { state: RelayState::Completed, ..old(self)@ })
                },
            },
    {
        match frame {
            Frame::Ignored => FrameStep::Skip,
            Frame::Payload(payload) => FrameStep::Parse(payload),
            Frame::Done => FrameStep::Finish(self.on_done()),
        }
    }

    /// Concludes a completed turn, once its last event is passed on: the
    /// reply is recorded as `persist_reply` does, and then the request for
    /// a title is made up as `title_request` does on the store with the
    /// reply in it. Where the reply cannot be recorded nothing changes and
    /// no title is asked for.
    pub fn conclude(&self, config: &mut ConfigService, now: &str) -> (r: Result<
        Conclusion,
        ChatError,
    >)
        requires
            old(config).wf(),
        ensures
            final(config).wf(),
            final(config).cipher_key() == old(config).cipher_key(),
            final(config).files() == old(config).files(),
            !(self@.state is Completed) ==> is_not_completed(r) && final(config)@ == old(config)@,
            self@.state is Completed ==> match r {
                Ok(done) => {
                    &&& is_generated_id(done.message@.id)
                    &&& done.message@ == (MessageView {
                        id: done.message@.id,
                        conversation_id: self@.conversation_id,
                        role: "assistant"@,
                        content: self@.reply,
                        created_at: now@,
                    })
                    &&& message_refusal(old(config)@, done.message@) is None
                    &&& final(config)@ == state_with_message(old(config)@, done.message@)
                    &&& answers_title_request(
                        done.title,
                        self@,
                        final(config)@,
                        final(config).cipher_key(),
                    )
                },
                Err(error) => {
                    &&& final(config)@ == old(config)@
                    &&& error matches ChatError::Config(e)
                    &&& if has_row(
                        old(config)@.conversations,
                        conversation_with_id(self@.conversation_id),
                    ) {
                        id_failure(
                            e,
                            message_ids(old(config)@.messages),
                            "UNIQUE constraint failed: messages.id"@,
                        )
                    } else {
                        e.is_database("FOREIGN KEY constraint failed"@)
                    }
                },
            },
    {
        let message = match self.persist_reply(config, now) {
            Ok(message) => message,
            Err(e) => {
                return Err(e);
            },
        };
        let title = self.title_request(config);
        Ok(Conclusion { message, title })
    }

    /// Takes the end of the stream. Before the completion marker it fails
    /// the turn with `EmptyResponse`: a stream that just ends is no success.
    /// After the marker there is nothing to report.
    pub fn on_end(&mut self) -> (r: Option<ChatError>)
        ensures
            old(self)@.state is Completed ==> r is None && final(self)@ == old(self)@,
            !(old(self)@.state is Completed) ==> {
                &&& r matches Some(ChatError::EmptyResponse)
                &&& final(self)@ == (RelayView { state: RelayState::Failed, ..old(self)@ })
            },
    {
        match self.state {
            RelayState::Completed => None,
            _ => {
                self.state = RelayState::Failed;
                Some(ChatError::EmptyResponse)
            },
        }
    }

    /// Takes a failure of the transport, in the words of those who met it:
    /// the turn has failed with a network failure.
    pub fn on_failure(&mut self, words: String) -> (r: ChatError)
        ensures
            r matches ChatError::Network(text) && text@ == words@,
            final(self)@ == (RelayView { state: RelayState::Failed, ..old(self)@ }),
    {
        self.state = RelayState::Failed;
        ChatError::Network(words)
    }

    /// Takes a frame whose payload does not parse, in the words of the
    /// parser: the turn has failed with a protocol failure.
    pub fn on_malformed_frame(&mut self, words: String) -> (r: ChatError)
        ensures
            r matches ChatError::Protocol(text) && text@ == words@,
            final(self)@ == (RelayView { state: RelayState::Failed, ..old(self)@ }),
    {
        self.state = RelayState::Failed;
        ChatError::Protocol(words)
    }

    /// Takes what the parser made of the payload of a frame: an envelope
    /// goes the way of `on_delta`, a payload that does not parse the way of
    /// `on_malformed_frame`.
    pub fn on_payload(&mut self, parsed: Result<Vec<StreamChoice>, String>) -> (r: Result<
        Option<ChatStreamChunk>,
        ChatError,
    >)
        ensures
            match parsed {
                Err(words) => {
                    &&& r matches Err(ChatError::Protocol(text))
                    &&& text@ == words@
                    &&& final(self)@ == (RelayView { state: RelayState::Failed, ..old(self)@ })
                },
                Ok(choices) => match fragment_of(choices@) {
                    Some(fragment) => if is_over(old(self)@.state) {
                        r matches Ok(None) && final(self)@ == old(self)@
                    } else {
                        &&& r matches Ok(Some(event))
                        &&& is_fragment_event(event, old(self)@.conversation_id, fragment)
                        &&& final(self)@ == (RelayView {
                            state: RelayState::Emitting,
                            reply: old(self)@.reply + fragment,
                            ..old(self)@
                        })
                    },
                    None => r matches Ok(None) && final(self)@ == old(self)@,
                },
            },
    {
        match parsed {
            Ok(choices) => Ok(self.on_delta(&choices)),
            Err(words) => Err(self.on_malformed_frame(words)),
        }
    }

    /// Records the whole reply as one message of the assistant. Only the
    /// reply of a completed turn is recorded: in any other state this is a
    /// protocol failure, and nothing changes.
    pub fn persist_reply(&self, config: &mut ConfigService, now: &str) -> (r: Result<
        ConversationMessage,
        ChatError,
    >)
        requires
            old(config).wf(),
        ensures
            final(config).wf(),
            final(config).cipher_key() == old(config).cipher_key(),
            final(config).files() == old(config).files(),
            !(self@.state is Completed) ==> is_not_completed(r) && final(config)@ == old(config)@,
            self@.state is Completed ==> match r {
                Ok(message) => {
                    &&& is_generated_id(message@.id)
                    &&& message@ == (MessageView {
                        id: message@.id,
                        conversation_id: self@.conversation_id,
                        role: "assistant"@,
                        content: self@.reply,
                        created_at: now@,
                    })
                    &&& message_refusal(old(config)@, message@) is None
                    &&& final(config)@ == state_with_message(old(config)@, message@)
                },
                Err(error) => {
                    &&& final(config)@ == old(config)@
                    &&& error matches ChatError::Config(e)
                    &&& if has_row(
                        old(config)@.conversations,
                        conversation_with_id(self@.conversation_id),
                    ) {
                        id_failure(
                            e,
                            message_ids(old(config)@.messages),
                            "UNIQUE constraint failed: messages.id"@,
                        )
                    } else {
                        e.is_database("FOREIGN KEY constraint failed"@)
                    }
                },
            },
    {
        if let Some(failure) = self.not_completed() {
            return Err(failure);
        }
        match config.record_message(
            self.conversation_id.as_str(),
            "assistant",
            self.reply.as_str(),
            now,
        ) {
            Ok(message) => Ok(message),
            Err(e) => Err(ChatError::Config(e)),
        }
    }

    /// What is to be asked for a title, if a title is due: only a
    /// conversation that still has the default title gets one. The request
    /// goes to the default provider with its default model. Only a
    /// completed turn is titled: in any other state this is a protocol
    /// failure.
    pub fn title_request(&self, config: &ConfigService) -> (r: Result<
        Option<CompletionRequest>,
        ChatError,
    >)
        ensures
            answers_title_request(r, self@, config@, config.cipher_key()),
    {
        if let Some(failure) = self.not_completed() {
            return Err(failure);
        }
        let conversation = match config.get_conversation(self.conversation_id.as_str()) {
            Ok(row) => row,
            Err(e) => {
                return Err(ChatError::Config(e));
            },
        };
        if !same_text(conversation.title.as_str(), "New chat") {
            return Ok(None);
        }
        let credential = match config.default_provider_credentials() {
            Ok(credential) => credential,
            Err(e) => {
                return Err(ChatError::Config(e));
            },
        };
        let model = resolve_model(None, &credential.default_model);
        let asking = String::from_str(
            "You are a helpful assistant that generates concise titles for chat conversations. Return a short title (max 6 words) that summarizes this exchange. Do not add quotes.\nUser: ",
        ).concat(trim(self.prompt.as_str())).concat("\nAssistant: ").concat(
            trim(self.reply.as_str()),
        );
        let mut messages: Vec<ChatMessage> = Vec::new();
        messages.push(
            ChatMessage {
                role: String::from_str("system"),
                content: String::from_str(
                    "You generate succinct descriptive titles for chat conversations.",
                ),
            },
        );
        messages.push(ChatMessage { role: String::from_str("user"), content: asking });
        Ok(
            Some(
                CompletionRequest {
                    endpoint: String::from_str("https://api.openai.com/v1/chat/completions"),
                    api_key: credential.api_key,
                    model,
                    messages,
                    stream: None,
                    timeout_secs: TITLE_TIMEOUT_SECS,
                },
            ),
        )
    }

    /// Takes the envelope that answers the request for a title. Only a
    /// completed turn is titled: in any other state this is a protocol
    /// failure, and nothing changes. An envelope
    /// without content is `EmptyResponse`. The title is the reply without
    /// the white space and the quotes around it; an empty one changes
    /// nothing, any other renames the conversation and is passed on as an
    /// event.
    pub fn apply_title(
        &self,
        config: &mut ConfigService,
        choices: &Vec<CompletionChoice>,
        now: &str,
    ) -> (r: Result<Option<ConversationTitleEvent>, ChatError>)
        requires
            old(config).wf(),
        ensures
            final(config).wf(),
            final(config).cipher_key() == old(config).cipher_key(),
            final(config).files() == old(config).files(),
            !(self@.state is Completed) ==> is_not_completed(r) && final(config)@ == old(config)@,
            self@.state is Completed ==> match reply_of(choices@) {
                None => r matches Err(ChatError::EmptyResponse) && final(config)@ == old(config)@,
                Some(reply) => if title_of(reply).len() == 0 {
                    r matches Ok(None) && final(config)@ == old(config)@
                } else if has_row(
                    old(config)@.conversations,
                    conversation_with_id(self@.conversation_id),
                ) {
                    let at = conversation_position(
                        old(config)@.conversations,
                        self@.conversation_id,
                    );
                    &&& r matches Ok(Some(event))
                    &&& event.conversation_id@ == self@.conversation_id
                    &&& event.title@ == title_of(reply)
                    &&& final(config)@ == state_with_changed_conversation(
                        old(config)@,
                        at,
                        renamed(old(config)@.conversations[at], title_of(reply), now@),
                    )
                } else {
                    &&& r matches Err(ChatError::Config(e))
                    &&& e.is_database(row_not_found())
                    &&& final(config)@ == old(config)@
                },
            },
    {
        if let Some(failure) = self.not_completed() {
            return Err(failure);
        }
        let reply = match first_reply(choices) {
            Some(reply) => reply,
            None => {
                return Err(ChatError::EmptyResponse);
            },
        };
        let title = strip(trim(reply.as_str()), Strip::Quote);
        if title.is_empty() {
            return Ok(None);
        }
        proof {
            crate::lookup::lemma_position_where(
                config@.conversations,
                conversation_with_id(self@.conversation_id),
            );
        }
        match config.rename_conversation(self.conversation_id.as_str(), title, now) {
            Ok(updated) => Ok(
                Some(ConversationTitleEvent { conversation_id: updated.id, title: updated.title }),
            ),
            Err(e) => Err(ChatError::Config(e)),
        }
    }
}

/// How a streamed turn ended once its reply is recorded: the title event,
/// if there is one, and the failure of the titling, if it failed.
pub struct TitleOutcome {
    pub event: Option<ConversationTitleEvent>,
    pub failure: Option<ChatError>,
}

/// Settles the titling of a turn. Titling is best effort: its failure is
/// reported beside the outcome and never fails the turn, whose reply is
/// already recorded.
pub fn settle_title(titling: Result<Option<ConversationTitleEvent>, ChatError>) -> (r: TitleOutcome)
    ensures
        match titling {
            Ok(event) => r.event == event && r.failure is None,
            Err(e) => r.event is None && r.failure == Some(e),
        },
{
    match titling {
        Ok(event) => TitleOutcome { event, failure: None },
        Err(e) => TitleOutcome { event: None, failure: Some(e) },
    }
}

} // verus!
