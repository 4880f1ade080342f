//! Text to speech over an OpenAI-compatible endpoint, and the stored speech
//! models.
use vstd::prelude::*;

use crate::api::ApiError;
use crate::json::{parse_json, parsed_json, Json, JsonView, ObjectBuilder};
use crate::media::{api_error, api_error_text, endpoint, endpoint_url};
use crate::numerals::{decimal, i64_text};
use crate::text::{copy_opt, opt_text, or_text, text_or, trim, trimmed};

verus! {

/// A stored speech model.
#[derive(Debug)]
pub struct TtsModelRecord {
    pub id: i64,
    pub provider_id: i64,
    pub model_id: String,
    pub voice_id: Option<String>,
    pub name: String,
    pub description: Option<String>,
    pub instructions: Option<String>,
    pub response_format: Option<String>,
    pub priority: i32,
}

/// A speech model as listed.
#[derive(Debug, Clone)]
pub struct TtsModelInfo {
    pub id: i64,
    pub provider_id: i64,
    pub provider_name: String,
    pub model_id: String,
    pub voice_id: Option<String>,
    pub name: String,
    pub description: Option<String>,
    pub instructions: Option<String>,
    /// The requested audio format; the provider's default where there is none.
    pub response_format: Option<String>,
    pub priority: i32,
    /// True for models that a plugin registered, which cannot be edited.
    pub from_plugin: bool,
}

/// A row of the table of speech models.
#[derive(Debug)]
pub struct TtsModelRow {
    pub id: i64,
    pub provider_id: i64,
    pub model_id: String,
    pub voice_id: Option<String>,
    pub name: String,
    pub description: Option<String>,
    pub instructions: Option<String>,
    pub response_format: Option<String>,
    pub priority: i64,
}

/// A speech model from its row. Of the priority the lower half is kept.
pub fn row_to_record(r: TtsModelRow) -> (m: TtsModelRecord)
    ensures
        m == (TtsModelRecord {
            id: r.id,
            provider_id: r.provider_id,
            model_id: r.model_id,
            voice_id: r.voice_id,
            name: r.name,
            description: r.description,
            instructions: r.instructions,
            response_format: r.response_format,
            priority: r.priority as i32,
        }),
{
    TtsModelRecord {
        id: r.id,
        provider_id: r.provider_id,
        model_id: r.model_id,
        voice_id: r.voice_id,
        name: r.name,
        description: r.description,
        instructions: r.instructions,
        response_format: r.response_format,
        priority: #[verifier::truncate] (r.priority as i32),
    }
}

/// A speech model to store.
#[derive(Debug)]
pub struct ModelPayload {
    pub provider_id: i64,
    pub model_id: String,
    pub voice_id: Option<String>,
    pub name: String,
    pub description: Option<String>,
    pub instructions: Option<String>,
    pub response_format: Option<String>,
    pub priority: Option<i32>,
}

/// A text, unless it is empty.
pub open spec fn filled(o: Option<String>) -> Option<String> {
    match o {
        Some(t) => if t@.len() == 0 {
            None
        } else {
            Some(t)
        },
        None => None,
    }
}

fn unless_empty(o: Option<String>) -> (r: Option<String>)
    ensures
        r == filled(o),
{
    match o {
        Some(t) => if t.as_str().unicode_len() == 0 {
            None
        } else {
            Some(t)
        },
        None => None,
    }
}

/// The record of a speech model to store: an empty voice or format counts as
/// none, an empty name as the model's, and the priority is 100 where none is
/// given.
pub fn tts_record(p: ModelPayload) -> (r: TtsModelRecord)
    ensures
        r.id == 0,
        r.provider_id == p.provider_id,
        r.model_id@ == p.model_id@,
        r.voice_id == filled(p.voice_id),
        r.name@ == if p.name@.len() == 0 {
            p.model_id@
        } else {
            p.name@
        },
        r.description == p.description,
        r.instructions == p.instructions,
        r.response_format == filled(p.response_format),
        r.priority == match p.priority {
            Some(n) => n,
            None => 100,
        },
{
    let model_id: String = p.model_id.clone();
    let name: String = if p.name.as_str().unicode_len() == 0 {
        p.model_id
    } else {
        p.name
    };
    let priority: i32 = match p.priority {
        Some(n) => n,
        None => 100,
    };
    TtsModelRecord {
        id: 0,
        provider_id: p.provider_id,
        model_id,
        voice_id: unless_empty(p.voice_id),
        name,
        description: p.description,
        instructions: p.instructions,
        response_format: unless_empty(p.response_format),
        priority,
    }
}

/// The answer where a speech model does not exist.
pub fn tts_model_not_found(id: i64) -> (r: ApiError)
    ensures
        r.is_not_found("tts model "@ + decimal(id as int) + " not found"@),
{
    let number: String = i64_text(id);
    let mut t: String = "tts model ".to_owned();
    t.append(number.as_str());
    t.append(" not found");
    ApiError::not_found(t.as_str())
}

/// A speech model of an OpenAI-compatible provider.
#[derive(Debug)]
pub struct OpenAiTtsSynthesiser {
    pub id: String,
    pub base_url: String,
    pub api_key: String,
    pub model: String,
    /// The voice; `alloy` where there is none.
    pub voice: Option<String>,
    /// How to speak, unless a call says otherwise.
    pub instructions: Option<String>,
    /// The audio format; `mp3` where there is none.
    pub response_format: Option<String>,
}

/// The body of a request for speech.
pub open spec fn speech_request(
    model: Seq<char>,
    text: Seq<char>,
    voice: Seq<char>,
    format: Seq<char>,
    instructions: Option<Seq<char>>,
) -> JsonView {
    let base = seq![
        ("model"@, JsonView::Text(model)),
        ("input"@, JsonView::Text(text)),
        ("voice"@, JsonView::Text(voice)),
        ("response_format"@, JsonView::Text(format)),
    ];
    JsonView::Object(
        match instructions {
            Some(i) => base.push(("instructions"@, JsonView::Text(i))),
            None => base,
        },
    )
}

impl OpenAiTtsSynthesiser {
    pub fn new(
        id: &str,
        base_url: String,
        api_key: String,
        model: &str,
        voice: Option<String>,
        instructions: Option<String>,
        response_format: Option<String>,
    ) -> (r: OpenAiTtsSynthesiser)
        ensures
            r.id@ == id@,
            r.base_url == base_url,
            r.api_key == api_key,
            r.model@ == model@,
            r.voice == voice,
            r.instructions == instructions,
            r.response_format == response_format,
    {
        OpenAiTtsSynthesiser {
            id: id.to_owned(),
            base_url,
            api_key,
            model: model.to_owned(),
            voice,
            instructions,
            response_format,
        }
    }

    /// The format of the audio.
    pub open spec fn format(&self) -> Seq<char> {
        or_text(opt_text(self.response_format), "mp3"@)
    }

    pub fn output_format(&self) -> (r: String)
        ensures
            r@ == self.format(),
    {
        text_or(copy_opt(&self.response_format), "mp3")
    }

    pub fn url(&self) -> (r: String)
        ensures
            r@ == endpoint(self.base_url@, "/audio/speech"@),
    {
        endpoint_url(self.base_url.as_str(), "/audio/speech")
    }

    /// The body of a request. Instructions of the call go before those of the
    /// model.
    pub fn request(&self, text: &str, instructions: Option<String>) -> (r: Json)
        ensures
            r@ == speech_request(
                self.model@,
                text@,
                or_text(opt_text(self.voice), "alloy"@),
                self.format(),
                if instructions is Some {
                    opt_text(instructions)
                } else {
                    opt_text(self.instructions)
                },
            ),
    {
        let voice: String = text_or(copy_opt(&self.voice), "alloy");
        let format: String = self.output_format();
        let effective: Option<String> = match instructions {
            Some(i) => Some(i),
            None => copy_opt(&self.instructions),
        };
        let ghost wanted = speech_request(
            self.model@,
            text@,
            voice@,
            format@,
            opt_text(effective),
        );
        let b: ObjectBuilder = ObjectBuilder::new().with_text(
            "model",
            self.model.as_str(),
        ).with_text("input", text).with_text("voice", voice.as_str()).with_text(
            "response_format",
            format.as_str(),
        );
        match &effective {
            Some(i) => {
                let b: ObjectBuilder = b.with_text("instructions", i.as_str());
                assert(b.entries() =~= wanted->Object_0);
                b.build()
            },
            None => {
                assert(b.entries() =~= wanted->Object_0);
                b.build()
            },
        }
    }

    /// The error of a call that the provider refused, given the status and the
    /// body of its answer.
    pub fn error(&self, status: &str, raw: &str) -> (r: String)
        ensures
            r@ == api_error("openai_tts"@, status@, error_detail(parsed_json(raw@), raw@)),
    {
        let detail: String = extract_error_detail(raw);
        api_error_text("openai_tts", status, detail.as_str())
    }
}

/// What the provider behind the provider said went wrong, if anything.
pub open spec fn upstream_error(v: JsonView) -> Option<Seq<char>> {
    let metadata = v.field("error"@).field("metadata"@);
    let said = match metadata.field("raw"@).as_text() {
        Some(t) => Some(t),
        None => metadata.field("provider_error"@).as_text(),
    };
    match said {
        Some(t) => if trimmed(t).len() == 0 {
            None
        } else {
            Some(trimmed(t))
        },
        None => None,
    }
}

/// The most telling message of an error's body: the message with what the
/// provider behind said, whichever there is, or else the body.
pub open spec fn error_detail(parsed: Option<JsonView>, raw: Seq<char>) -> Seq<char> {
    match parsed {
        Some(v) => {
            let msg = trimmed(or_text(v.field("error"@).field("message"@).as_text(), ""@));
            match upstream_error(v) {
                Some(up) => if msg.len() == 0 {
                    up
                } else {
                    msg + " — upstream: "@ + up
                },
                None => if msg.len() == 0 {
                    trimmed(raw)
                } else {
                    msg
                },
            }
        },
        None => if trimmed(raw).len() == 0 {
            "<empty response body>"@
        } else {
            trimmed(raw)
        },
    }
}

fn text_below(v: &Json, outer: &str, inner: &str) -> (r: Option<String>)
    ensures
        opt_text(r) == v@.field(outer@).field(inner@).as_text(),
{
    match v.get(outer) {
        Some(j) => j.text_field(inner),
        None => None,
    }
}

/// The most telling message of an error's parsed body.
pub fn error_detail_in(parsed: &Option<Json>, raw: &str) -> (r: String)
    ensures
        r@ == error_detail(
            match *parsed {
                Some(v) => Some(v@),
                None => None,
            },
            raw@,
        ),
{
    match parsed {
        Some(v) => {
            let given: String = text_or(text_below(v, "error", "message"), "");
            let msg: String = trim(given.as_str());
            let upstream: Option<String> = match v.get("error") {
                Some(e) => match text_below(e, "metadata", "raw") {
                    Some(t) => Some(t),
                    None => text_below(e, "metadata", "provider_error"),
                },
                None => None,
            };
            let up: Option<String> = match upstream {
                Some(t) => {
                    let t: String = trim(t.as_str());
                    if t.as_str().unicode_len() == 0 {
                        None
                    } else {
                        Some(t)
                    }
                },
                None => None,
            };
            let empty: bool = msg.as_str().unicode_len() == 0;
            match up {
                Some(u) => if empty {
                    u
                } else {
                    let mut t: String = msg;
                    t.append(" — upstream: ");
                    t.append(u.as_str());
                    t
                },
                None => if empty {
                    trim(raw)
                } else {
                    msg
                },
            }
        },
        None => {
            let t: String = trim(raw);
            if t.as_str().unicode_len() == 0 {
                "<empty response body>".to_owned()
            } else {
                t
            }
        },
    }
}

/// The most telling message of an error's body, which is never empty.
pub fn extract_error_detail(raw: &str) -> (r: String)
    ensures
        r@ == error_detail(parsed_json(raw@), raw@),
        r@.len() > 0,
{
    let parsed: Option<Json> = parse_json(raw);
    proof {
        reveal_strlit("<empty response body>");
        reveal_strlit(" — upstream: ");
    }
    error_detail_in(&parsed, raw)
}

/// What is asked of the service: the text, in a voice and a format, `alloy` and
/// `mp3` where nothing else is set, with the instructions of the call or else of
/// the model.
pub proof fn law_speech_is_asked_for(t: &OpenAiTtsSynthesiser, text: &str, instructions: Option<String>, r: Json, format: String)
    requires
        call_ensures(OpenAiTtsSynthesiser::request, (t, text, instructions), r),
        call_ensures(OpenAiTtsSynthesiser::output_format, (t,), format),
    ensures
        format@ == match t.response_format {
            Some(f) => f@,
            None => "mp3"@,
        },
        r@ is Object,
        ({
            let f = r@->Object_0;
            let said = instructions is Some || t.instructions is Some;
            &&& f.len() == if said {
                5int
            } else {
                4int
            }
            &&& f[0] == ("model"@, JsonView::Text(t.model@))
            &&& f[1] == ("input"@, JsonView::Text(text@))
            &&& f[2] == ("voice"@, JsonView::Text(
                match t.voice {
                    Some(v) => v@,
                    None => "alloy"@,
                },
            ))
            &&& f[3] == ("response_format"@, JsonView::Text(format@))
            &&& said ==> f[4] == ("instructions"@, JsonView::Text(
                match instructions {
                    Some(i) => i@,
                    None => t.instructions->Some_0@,
                },
            ))
        }),
{
}

/// What is told of an error: what the service says, and what is said upstream of
/// it where there is such a thing; else the answer itself, or that it is empty.
pub proof fn law_details_of_errors(
    parsed: &Option<Json>,
    raw: &str,
    r: String,
    bare: String,
    msg: Seq<char>,
    up: Seq<char>,
)
    requires
        call_ensures(error_detail_in, (parsed, raw), r),
        call_ensures(trim, (raw,), bare),
        parsed matches Some(v) ==> {
            let error = v@.field("error"@);
            let metadata = error.field("metadata"@);
            &&& msg == match error.field("message"@) {
                JsonView::Text(t) => trimmed(t),
                _ => trimmed(""@),
            }
            &&& up == match (metadata.field("raw"@), metadata.field("provider_error"@)) {
                (JsonView::Text(t), _) => trimmed(t),
                (_, JsonView::Text(t)) => trimmed(t),
                _ => Seq::empty(),
            }
        },
    ensures
        parsed is None && bare@.len() == 0 ==> r@ == "<empty response body>"@,
        parsed is None && bare@.len() > 0 ==> r@ == bare@,
        parsed is Some && msg.len() > 0 && up.len() > 0 ==> r@ == msg + " — upstream: "@ + up,
        parsed is Some && msg.len() > 0 && up.len() == 0 ==> r@ == msg,
        parsed is Some && msg.len() == 0 && up.len() > 0 ==> r@ == up,
        parsed is Some && msg.len() == 0 && up.len() == 0 ==> r@ == bare@,
{
}

/// What a new model of speech is stored as: empty settings count as none; its
/// id stands in for a name; the priority is 100 unless another is given.
pub proof fn law_new_speech_models(p: ModelPayload, r: TtsModelRecord)
    requires
        call_ensures(tts_record, (p,), r),
    ensures
        r.id == 0 && r.provider_id == p.provider_id && r.model_id@ == p.model_id@,
        r.voice_id is Some <==> p.voice_id is Some && p.voice_id->Some_0@.len() > 0,
        r.voice_id is Some ==> r.voice_id == p.voice_id,
        r.response_format is Some <==> p.response_format is Some
            && p.response_format->Some_0@.len() > 0,
        r.response_format is Some ==> r.response_format == p.response_format,
        p.name@.len() == 0 ==> r.name@ == p.model_id@,
        p.name@.len() > 0 ==> r.name@ == p.name@,
        p.priority is None ==> r.priority == 100,
        p.priority matches Some(n) ==> r.priority == n,
{
}

/// Where text is sent to be spoken, and how an error of it is told.
pub proof fn law_where_speech_comes_from(
    t: &OpenAiTtsSynthesiser,
    url: String,
    base: &str,
    path: &str,
    full: String,
    status: &str,
    raw: &str,
    told: String,
    detail: String,
)
    requires
        call_ensures(OpenAiTtsSynthesiser::url, (t,), url),
        call_ensures(crate::media::endpoint_url, (base, path), full),
        base@ == t.base_url@,
        path@ == "/audio/speech"@,
        call_ensures(OpenAiTtsSynthesiser::error, (t, status, raw), told),
        call_ensures(extract_error_detail, (raw,), detail),
    ensures
        url@ == full@,
        told@ == "openai_tts"@ + ": API error "@ + status@ + ": "@ + detail@,
        detail@.len() > 0,
{
}

/// An answer is read for its error: as what it says where it can be read.
pub proof fn law_errors_are_read(raw: &str, r: String, parsed: &Option<Json>, s: String)
    requires
        call_ensures(extract_error_detail, (raw,), r),
        call_ensures(error_detail_in, (parsed, raw), s),
        match *parsed {
            Some(j) => parsed_json(raw@) == Some(j@),
            None => parsed_json(raw@) is None,
        },
    ensures
        r@ == s@,
{
}

} // verus!
