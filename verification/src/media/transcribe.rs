//! Transcription over an OpenAI-compatible endpoint.
use vstd::prelude::*;

use crate::json::{Json, JsonView};
use crate::media::{api_error, api_error_text, endpoint, endpoint_url};
use crate::text::{or_text, str_eq, text_or, trim, trimmed};

verus! {

/// A transcription model of an OpenAI-compatible provider.
#[derive(Debug)]
pub struct OpenAiAudioTranscriber {
    pub id: String,
    pub base_url: String,
    pub api_key: String,
    pub model: String,
    /// The language to expect; found out by the model where there is none.
    pub language: Option<String>,
}

/// The MIME type of an audio format.
pub open spec fn mime_of(format: Seq<char>) -> Seq<char> {
    if format == "mp3"@ || format == "mpeg"@ || format == "mpga"@ {
        "audio/mpeg"@
    } else if format == "mp4"@ || format == "m4a"@ {
        "audio/mp4"@
    } else if format == "wav"@ {
        "audio/wav"@
    } else if format == "webm"@ {
        "audio/webm"@
    } else if format == "ogg"@ {
        "audio/ogg"@
    } else if format == "flac"@ {
        "audio/flac"@
    } else {
        "application/octet-stream"@
    }
}

/// The MIME type of an audio format.
pub fn mime_for_format(format: &str) -> (r: &'static str)
    ensures
        r@ == mime_of(format@),
{
    if str_eq(format, "mp3") || str_eq(format, "mpeg") || str_eq(format, "mpga") {
        "audio/mpeg"
    } else if str_eq(format, "mp4") || str_eq(format, "m4a") {
        "audio/mp4"
    } else if str_eq(format, "wav") {
        "audio/wav"
    } else if str_eq(format, "webm") {
        "audio/webm"
    } else if str_eq(format, "ogg") {
        "audio/ogg"
    } else if str_eq(format, "flac") {
        "audio/flac"
    } else {
        "application/octet-stream"
    }
}

/// What a transcription comes to: the text, or why there is none.
pub open spec fn transcription(success: bool, status: Seq<char>, body: JsonView) -> Result<
    Seq<char>,
    Seq<char>,
> {
    if !success {
        Err(
            api_error(
                "openai_audio"@,
                status,
                or_text(body.field("error"@).field("message"@).as_text(), "unknown error"@),
            ),
        )
    } else {
        match body.field("text"@).as_text() {
            Some(t) => Ok(trimmed(t)),
            None => Err("openai_audio: missing 'text' field in response"@),
        }
    }
}

impl OpenAiAudioTranscriber {
    pub fn new(
        id: &str,
        base_url: String,
        api_key: String,
        model: &str,
        language: Option<String>,
    ) -> (r: OpenAiAudioTranscriber)
        ensures
            r.id@ == id@,
            r.base_url == base_url,
            r.api_key == api_key,
            r.model@ == model@,
            r.language == language,
    {
        OpenAiAudioTranscriber {
            id: id.to_owned(),
            base_url,
            api_key,
            model: model.to_owned(),
            language,
        }
    }

    pub fn url(&self) -> (r: String)
        ensures
            r@ == endpoint(self.base_url@, "/audio/transcriptions"@),
    {
        endpoint_url(self.base_url.as_str(), "/audio/transcriptions")
    }

    /// The name under which audio of a format is sent.
    pub fn filename(&self, format: &str) -> (r: String)
        ensures
            r@ == "audio."@ + format@,
    {
        let mut t: String = "audio.".to_owned();
        t.append(format);
        t
    }

    /// The text of a transcription, given the answer of the provider.
    pub fn transcribe(&self, success: bool, status: &str, body: &Json) -> (r: Result<
        String,
        String,
    >)
        ensures
            match r {
                Ok(t) => transcription(success, status@, body@) == Ok::<Seq<char>, Seq<char>>(t@),
                Err(e) => transcription(success, status@, body@) == Err::<Seq<char>, Seq<char>>(e@),
            },
    {
        if !success {
            let msg: String = match body.get("error") {
                Some(e) => text_or(e.text_field("message"), "unknown error"),
                None => "unknown error".to_owned(),
            };
            return Err(api_error_text("openai_audio", status, msg.as_str()));
        }
        match body.text_field("text") {
            Some(t) => Ok(trim(t.as_str())),
            None => Err("openai_audio: missing 'text' field in response".to_owned()),
        }
    }
}

/// The types of audio by their formats.
pub proof fn law_types_of_audio(format: &str, r: &'static str)
    requires
        call_ensures(mime_for_format, (format,), r),
    ensures
        format@ == "mp3"@ || format@ == "mpeg"@ || format@ == "mpga"@ ==> r@ == "audio/mpeg"@,
        format@ == "mp4"@ || format@ == "m4a"@ ==> r@ == "audio/mp4"@,
        format@ == "wav"@ ==> r@ == "audio/wav"@,
        format@ == "webm"@ ==> r@ == "audio/webm"@,
        format@ == "ogg"@ ==> r@ == "audio/ogg"@,
        format@ == "flac"@ ==> r@ == "audio/flac"@,
        format@.len() != 3 && format@.len() != 4 ==> r@ == "application/octet-stream"@,
{
    reveal_strlit("mp3");
    reveal_strlit("mpeg");
    reveal_strlit("mpga");
    reveal_strlit("mp4");
    reveal_strlit("m4a");
    reveal_strlit("wav");
    reveal_strlit("webm");
    reveal_strlit("ogg");
    reveal_strlit("flac");
    assert("mp3"@[2] == '3' && "mp4"@[2] == '4' && "m4a"@[1] == '4' && "wav"@[0] == 'w' && "ogg"@[0]
        == 'o' && "mp3"@[1] == 'p' && "mp3"@[0] == 'm' && "mp4"@[0] == 'm' && "m4a"@[0] == 'm');
    assert("webm"@[0] == 'w' && "flac"@[0] == 'f' && "mpeg"@[0] == 'm' && "mpga"@[0] == 'm');
    assert("mp3"@.len() == 3 && "mpeg"@.len() == 4 && "mpga"@.len() == 4 && "mp4"@.len() == 3
        && "m4a"@.len() == 3 && "wav"@.len() == 3 && "webm"@.len() == 4 && "ogg"@.len() == 3
        && "flac"@.len() == 4);
}

/// What an answer is taken for: its text, without the whitespace around it;
/// else an error, with what the service said of it.
pub proof fn law_transcriptions(t: &OpenAiAudioTranscriber, success: bool, status: &str, body: &Json, r: Result<String, String>, text: &str, bare: String)
    requires
        call_ensures(OpenAiAudioTranscriber::transcribe, (t, success, status, body), r),
        call_ensures(trim, (text,), bare),
    ensures
        r is Ok <==> success && body@.field("text"@) is Text,
        success && body@.field("text"@) == JsonView::Text(text@) ==> r->Ok_0@ == bare@,
        success && !(body@.field("text"@) is Text) ==> r->Err_0@
            == "openai_audio: missing 'text' field in response"@,
        !success ==> r->Err_0@ == "openai_audio"@ + ": API error "@ + status@ + ": "@ + (
        match body@.field("error"@).field("message"@) {
            JsonView::Text(x) => x,
            _ => "unknown error"@,
        }),
{
}

/// Where audio is sent, and under which name.
pub proof fn law_where_audio_goes(t: &OpenAiAudioTranscriber, format: &str, url: String, name: String, base: &str, path: &str, full: String)
    requires
        call_ensures(OpenAiAudioTranscriber::url, (t,), url),
        call_ensures(OpenAiAudioTranscriber::filename, (t, format), name),
        call_ensures(crate::media::endpoint_url, (base, path), full),
        base@ == t.base_url@,
        path@ == "/audio/transcriptions"@,
    ensures
        url@ == full@,
        name@ == "audio."@ + format@,
{
}

} // verus!
