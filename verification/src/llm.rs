//! The language model: what is asked of it, and what is reported where it refuses.

use vstd::prelude::*;
use vstd::string::*;

use crate::config::Config;
use crate::events::{AppEvent, EventView};
use crate::json;
use crate::json::Json;

verus! {

/// The instructions that precede every conversation.
pub const SYSTEM_PROMPT: &'static str = "\
You are Brainiac — a voice-activated AI assistant running on the local machine of Cyrus Kakkar, \
a systems engineer, architect, and polymath. \
\n\n\
Rules:\n\
- Be concise, technically precise, and direct. No filler words.\n\
- Assume expert-level comprehension across all domains.\n\
- When discussing code, default to Rust or C++ for systems work, TypeScript/Next.js for web.\n\
- Keep responses short enough to read aloud comfortably — expand only when depth is explicitly requested.\n\
- Dry wit is welcome. Jargon is fine.";

/// The longest answer asked for, in the model's own units.
pub const MAX_TOKENS: u32 = 512;

/// One entry of a conversation.
#[derive(Debug)]
pub enum Message {
    User(String),
    Assistant(String),
}

/// The model of a `Message`.
#[verifier::ext_equal]
pub enum MessageView {
    User(Seq<char>),
    Assistant(Seq<char>),
}

impl View for Message {
    type V = MessageView;

    open spec fn view(&self) -> MessageView {
        match self {
            Message::User(t) => MessageView::User(t@),
            Message::Assistant(t) => MessageView::Assistant(t@),
        }
    }
}

impl Clone for Message {
    fn clone(&self) -> (copy: Message)
        ensures
            copy == *self,
    {
        match self {
            Message::User(t) => Message::User(t.clone()),
            Message::Assistant(t) => Message::Assistant(t.clone()),
        }
    }
}

/// The models of a list of messages.
pub open spec fn messages_view(messages: Seq<Message>) -> Seq<MessageView> {
    messages.map_values(|m: Message| m@)
}

/// A copy of a conversation.
pub fn copy_history(history: &Vec<Message>) -> (copy: Vec<Message>)
    ensures
        copy@ == history@,
{
    let copy = history.clone();
    assert(copy@ =~= history@);
    copy
}

/// A request to a service that is answered over HTTP.
#[derive(Debug)]
pub struct HttpRequest {
    pub url: String,
    pub authorization: String,
    pub content_type: String,
    pub body: serde_json::Value,
}

/// How one message stands in a request.
pub open spec fn message_document(role: Seq<char>, content: Seq<char>) -> Json {
    Json::Object(map!["role"@ => Json::Text(role), "content"@ => Json::Text(content)])
}

/// How one entry of the conversation stands in a request.
pub open spec fn entry_document(message: MessageView) -> Json {
    match message {
        MessageView::User(t) => message_document("user"@, t),
        MessageView::Assistant(t) => message_document("assistant"@, t),
    }
}

/// The messages of a request: the instructions, then the conversation in its
/// order.
pub open spec fn prompt_documents(history: Seq<MessageView>) -> Seq<Json> {
    seq![message_document("system"@, SYSTEM_PROMPT@)] + history.map_values(
        |m: MessageView| entry_document(m),
    )
}

/// The body of a request.
pub open spec fn chat_body(model: Seq<char>, history: Seq<MessageView>) -> Json {
    Json::Object(
        map![
            "model"@ => Json::Text(model),
            "messages"@ => Json::Array(prompt_documents(history)),
            "stream"@ => Json::Bool(true),
            "max_tokens"@ => Json::Integer(MAX_TOKENS as int),
            "temperature"@ => json::parsed("0.7"@)->0,
        ],
    )
}

fn message_value(role: &str, content: &str) -> (value: serde_json::Value)
    ensures
        json::document(value) == message_document(role@, content@),
{
    let members = vec![("role", json::from_text(role)), ("content", json::from_text(content))];
    proof {
        reveal_with_fuel(json::object_of, 3);
        assert(members@.map_values(|m: (&str, serde_json::Value)| (m.0@, json::document(m.1))) =~= seq![
            ("role"@, Json::Text(role@)),
            ("content"@, Json::Text(content@)),
        ]);
    }
    json::from_members(members)
}

/// The request for the answer to a conversation.
pub fn chat_request(config: &Config, history: &Vec<Message>) -> (request: HttpRequest)
    ensures
        request.url@ == config.deepseek_base_url@ + "/v1/chat/completions"@,
        request.authorization@ == "Bearer "@ + config.deepseek_api_key@,
        request.content_type@ == "application/json"@,
        json::document(request.body) == chat_body(
            config.deepseek_model@,
            messages_view(history@),
        ),
        json::parsed("0.7"@) is Some && json::document(request.body).member("temperature"@)
            is Float,
{
    let ghost entries = messages_view(history@);
    let mut messages: Vec<serde_json::Value> = Vec::new();
    messages.push(message_value("system", SYSTEM_PROMPT));
    let mut i: usize = 0;
    while i < history.len()
        invariant
            i <= history@.len(),
            entries == messages_view(history@),
            messages@.map_values(|v: serde_json::Value| json::document(v)) =~= prompt_documents(
                entries.take(i as int),
            ),
        decreases history@.len() - i,
    {
        let value = match &history[i] {
            Message::User(t) => message_value("user", t.as_str()),
            Message::Assistant(t) => message_value("assistant", t.as_str()),
        };
        proof {
            let documents = messages@.map_values(|v: serde_json::Value| json::document(v));
            assert(messages@.push(value).map_values(|v: serde_json::Value| json::document(v))
                =~= documents.push(json::document(value)));
            assert(prompt_documents(entries.take(i + 1)) =~= prompt_documents(
                entries.take(i as int),
            ).push(entry_document(entries[i as int])));
        }
        messages.push(value);
        i = i + 1;
    }
    assert(entries.take(i as int) =~= entries);
    proof {
        reveal_strlit("0.7");
    }
    let members = vec![
        ("model", json::from_text(config.deepseek_model.as_str())),
        ("messages", json::from_items(messages)),
        ("stream", json::from_bool(true)),
        ("max_tokens", json::from_u32(MAX_TOKENS)),
        ("temperature", json::parse("0.7").unwrap()),
    ];
    proof {
        reveal_with_fuel(json::object_of, 6);
        assert(members@.map_values(|m: (&str, serde_json::Value)| (m.0@, json::document(m.1)))
            =~= seq![
            ("model"@, Json::Text(config.deepseek_model@)),
            ("messages"@, Json::Array(prompt_documents(entries))),
            ("stream"@, Json::Bool(true)),
            ("max_tokens"@, Json::Integer(MAX_TOKENS as int)),
            ("temperature"@, json::parsed("0.7"@)->0),
        ]);
    }
    HttpRequest {
        url: config.deepseek_base_url.clone().concat("/v1/chat/completions"),
        authorization: "Bearer ".to_owned().concat(config.deepseek_api_key.as_str()),
        content_type: "application/json".to_owned(),
        body: json::from_members(members),
    }
}

/// Whether a service refuses a request that it answers with this status: all but
/// the successes do.
pub fn is_refused(status: u16) -> (refused: bool)
    ensures
        refused == !(200 <= status < 300),
{
    status < 200 || status >= 300
}

/// What is reported when the service refuses a request.
pub fn refusal(status: &str, body: &str) -> (event: AppEvent)
    ensures
        event@ == EventView::Error("LLM "@ + status@ + ": "@ + body@),
{
    AppEvent::Error("LLM ".to_owned().concat(status).concat(": ").concat(body))
}

/// A follow-up is asked with all that was said before it: a longer conversation
/// only adds to the messages of a request, which begin with the instructions.
pub proof fn law_follow_ups_keep_the_history(history: Seq<MessageView>, message: MessageView)
    ensures
        prompt_documents(history).first() == message_document("system"@, SYSTEM_PROMPT@),
        prompt_documents(history).len() == history.len() + 1,
        prompt_documents(history.push(message)) == prompt_documents(history).push(
            entry_document(message),
        ),
{
    assert(prompt_documents(history.push(message)) =~= prompt_documents(history).push(
        entry_document(message),
    ));
}

/// What the body of a request says under each of its names, and what a message
/// in it says.
pub proof fn law_request_says_what_is_asked(
    model: Seq<char>,
    history: Seq<MessageView>,
    role: Seq<char>,
    content: Seq<char>,
)
    ensures
        chat_body(model, history).member("model"@) == Json::Text(model),
        chat_body(model, history).member("messages"@) == Json::Array(prompt_documents(history)),
        chat_body(model, history).member("stream"@) == Json::Bool(true),
        chat_body(model, history).member("max_tokens"@) == Json::Integer(512),
        chat_body(model, history).member("temperature"@) == json::parsed("0.7"@)->0,
        message_document(role, content).member("role"@) == Json::Text(role),
        message_document(role, content).member("content"@) == Json::Text(content),
{
    reveal_strlit("model");
    reveal_strlit("messages");
    reveal_strlit("stream");
    reveal_strlit("max_tokens");
    reveal_strlit("temperature");
    reveal_strlit("role");
    reveal_strlit("content");
    assert("model"@.len() == 5);
    assert("messages"@.len() == 8);
    assert("stream"@.len() == 6);
    assert("max_tokens"@.len() == 10);
    assert("temperature"@.len() == 11);
    assert("role"@.len() != "content"@.len());
}

/// Every entry of the conversation is sent as it is: message `i + 1` of a request has
/// under `content` the whole text of entry `i`, under `role` who said it, and nothing
/// else. The first message is the instructions, and there are no others.
pub proof fn law_entries_are_sent_verbatim(
    model: Seq<char>,
    history: Seq<MessageView>,
    i: int,
    said: Seq<char>,
)
    requires
        0 <= i < history.len(),
        history[i] == MessageView::User(said) || history[i] == MessageView::Assistant(said),
    ensures
        ({
            let body = chat_body(model, history)->Object_0;
            let messages = body["messages"@]->Array_0;
            let first = messages[0]->Object_0;
            let message = messages[i + 1]->Object_0;
            &&& chat_body(model, history) is Object
            &&& body["messages"@] is Array
            &&& messages.len() == history.len() + 1
            &&& messages[0] is Object
            &&& first["role"@] == Json::Text("system"@)
            &&& first["content"@] == Json::Text(SYSTEM_PROMPT@)
            &&& messages[i + 1] is Object
            &&& message.dom() =~= set!["role"@, "content"@]
            &&& message["content"@] == Json::Text(said)
            &&& history[i] is User ==> message["role"@] == Json::Text("user"@)
            &&& history[i] is Assistant ==> message["role"@] == Json::Text("assistant"@)
        }),
{
    law_request_says_what_is_asked(model, history, "system"@, SYSTEM_PROMPT@);
    law_request_says_what_is_asked(model, history, "user"@, said);
    law_request_says_what_is_asked(model, history, "assistant"@, said);
}

/// A request asks for the chosen model, a streamed answer and its greatest length,
/// and for nothing but these, the messages and the temperature.
pub proof fn law_request_has_five_members(model: Seq<char>, history: Seq<MessageView>)
    ensures
        ({
            let body = chat_body(model, history)->Object_0;
            &&& body.dom() =~= set![
                "model"@,
                "messages"@,
                "stream"@,
                "max_tokens"@,
                "temperature"@,
            ]
            &&& body["model"@] == Json::Text(model)
            &&& body["stream"@] == Json::Bool(true)
            &&& body["max_tokens"@] == Json::Integer(512)
            &&& body["temperature"@] == json::parsed("0.7"@)->0
        }),
{
    law_request_says_what_is_asked(model, history, "system"@, SYSTEM_PROMPT@);
}

/// The request for an answer holds every entry of the conversation as it is, in its
/// order, behind the instructions.
pub proof fn law_request_holds_the_conversation(
    config: &Config,
    history: &Vec<Message>,
    request: HttpRequest,
    i: int,
)
    requires
        call_ensures(chat_request, (config, history), request),
        0 <= i < history@.len(),
    ensures
        ({
            let body = json::document(request.body)->Object_0;
            let messages = body["messages"@]->Array_0;
            let message = messages[i + 1]->Object_0;
            &&& json::document(request.body) is Object
            &&& body["model"@] == Json::Text(config.deepseek_model@)
            &&& body["messages"@] is Array
            &&& messages.len() == history@.len() + 1
            &&& messages[i + 1] is Object
            &&& match history@[i] {
                Message::User(t) => {
                    &&& message["role"@] == Json::Text("user"@)
                    &&& message["content"@] == Json::Text(t@)
                },
                Message::Assistant(t) => {
                    &&& message["role"@] == Json::Text("assistant"@)
                    &&& message["content"@] == Json::Text(t@)
                },
            }
        }),
{
    let entries = messages_view(history@);
    let said = match history@[i] {
        Message::User(t) => t@,
        Message::Assistant(t) => t@,
    };
    assert(entries[i] == history@[i]@);
    law_entries_are_sent_verbatim(config.deepseek_model@, entries, i, said);
    law_request_has_five_members(config.deepseek_model@, entries);
}

} // verus!
