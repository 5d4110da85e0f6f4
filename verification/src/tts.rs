//! Speech synthesis: what is asked of it.

use vstd::prelude::*;
use vstd::string::*;

use crate::config::Config;
use crate::json;
use crate::json::Json;
use crate::llm::HttpRequest;

verus! {

/// The request to read `text` aloud, as WAV with 16-bit linear samples.
pub fn speech_request(config: &Config, text: &str) -> (request: HttpRequest)
    ensures
        request.url@ == "https://api.deepgram.com/v1/speak?model="@ + config.tts_voice@
            + "&encoding=linear16&container=wav"@,
        request.authorization@ == "Token "@ + config.deepgram_api_key@,
        request.content_type@ == "application/json"@,
        json::document(request.body) == Json::Object(map!["text"@ => Json::Text(text@)]),
{
    let members = vec![("text", json::from_text(text))];
    proof {
        reveal_with_fuel(json::object_of, 2);
        assert(members@.map_values(|m: (&str, serde_json::Value)| (m.0@, json::document(m.1)))
            =~= seq![("text"@, Json::Text(text@))]);
    }
    HttpRequest {
        url: "https://api.deepgram.com/v1/speak?model=".to_owned().concat(
            config.tts_voice.as_str(),
        ).concat("&encoding=linear16&container=wav"),
        authorization: "Token ".to_owned().concat(config.deepgram_api_key.as_str()),
        content_type: "application/json".to_owned(),
        body: json::from_members(members),
    }
}

/// What is said when the service refuses a request.
pub fn refusal(status: &str) -> (message: String)
    ensures
        message@ == "TTS request failed: "@ + status@,
{
    "TTS request failed: ".to_owned().concat(status)
}

/// The text is read aloud as it is: it is all that the body of a request holds.
pub proof fn law_text_is_read_verbatim(config: &Config, text: &str, request: HttpRequest)
    requires
        call_ensures(speech_request, (config, text), request),
    ensures
        ({
            let body = json::document(request.body)->Object_0;
            &&& json::document(request.body) is Object
            &&& body.dom() =~= set!["text"@]
            &&& body["text"@] == Json::Text(text@)
        }),
{
}

} // verus!
