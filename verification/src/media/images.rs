//! Image generation over OpenRouter's chat endpoint.
use vstd::prelude::*;

use crate::json::{
    array_of_texts, json_array, json_text, stored_json, text_array, write_json, Json, JsonView, ObjectBuilder,
};
use crate::media::{api_error, api_error_text, endpoint, endpoint_url};
use crate::text::{has_prefix, opt_text, or_text, strip_prefix, text_or, texts};

verus! {

/// What base64 decodes a text to with the standard alphabet and padding, or
/// what the error says.
pub uninterp spec fn base64_decoded(text: Seq<char>) -> Result<Seq<u8>, Seq<char>>;

/// `base64`'s `Engine::decode` with `general_purpose::STANDARD`: what it
/// returns depends on the text alone. An error is given as the text that its
/// `Display` writes.
#[verifier::external_body]
fn decode_base64(text: &str) -> (r: Result<Vec<u8>, String>)
    ensures
        match r {
            Ok(bytes) => base64_decoded(text@) == Ok::<Seq<u8>, Seq<char>>(bytes@),
            Err(e) => base64_decoded(text@) == Err::<Seq<u8>, Seq<char>>(e@),
        },
{
    base64::Engine::decode(&base64::engine::general_purpose::STANDARD, text).map_err(|e| e.to_string())
}

/// An image model of OpenRouter.
#[derive(Debug)]
pub struct OpenRouterImageGenerator {
    pub id: String,
    pub base_url: String,
    pub api_key: String,
    pub model: String,
}

/// The one message of a request for an image.
pub open spec fn image_message(prompt: Seq<char>) -> JsonView {
    JsonView::Object(
        seq![("role"@, JsonView::Text("user"@)), ("content"@, JsonView::Text(prompt))],
    )
}

/// The body of a request for an image.
pub open spec fn image_request(model: Seq<char>, prompt: Seq<char>) -> JsonView {
    JsonView::Object(
        seq![
            ("model"@, JsonView::Text(model)),
            ("messages"@, JsonView::Array(seq![image_message(prompt)])),
            ("modalities"@, text_array(seq!["image"@, "text"@])),
        ],
    )
}

/// The image in an answer, as a data URL.
pub open spec fn data_url_in(body: JsonView) -> Option<Seq<char>> {
    body.field("choices"@).item(0).field("message"@).field("images"@).item(0).field(
        "image_url"@,
    ).field("url"@).as_text()
}

/// The base64 part of a data URL of a PNG, JPEG or WebP image; any other text
/// as it is.
pub open spec fn base64_part(url: Seq<char>) -> Seq<char> {
    if has_prefix(url, "data:image/png;base64,"@) {
        url.skip("data:image/png;base64,"@.len() as int)
    } else if has_prefix(url, "data:image/jpeg;base64,"@) {
        url.skip("data:image/jpeg;base64,"@.len() as int)
    } else if has_prefix(url, "data:image/webp;base64,"@) {
        url.skip("data:image/webp;base64,"@.len() as int)
    } else {
        url
    }
}

/// The base64 text of the image in an answer, or why there is none.
pub open spec fn encoded_image(success: bool, status: Seq<char>, body: JsonView) -> Result<
    Seq<char>,
    Seq<char>,
> {
    if !success {
        Err(
            api_error(
                "openrouter_image"@,
                status,
                or_text(body.field("error"@).field("message"@).as_text(), "unknown error"@),
            ),
        )
    } else {
        match data_url_in(body) {
            Some(url) => Ok(base64_part(url)),
            None => Err(
                "openrouter_image: no image in response — full response: "@ + json_text(
                    stored_json(body),
                ),
            ),
        }
    }
}

/// The bytes of an image, given what its base64 text decodes to.
pub open spec fn image_of(decoded: Result<Seq<u8>, Seq<char>>) -> Result<Seq<u8>, Seq<char>> {
    match decoded {
        Ok(bytes) => Ok(bytes),
        Err(e) => Err("openrouter_image: base64 decode failed: "@ + e),
    }
}

/// The bytes of an image, given what its base64 text decodes to.
pub fn image_bytes(decoded: Result<Vec<u8>, String>) -> (r: Result<Vec<u8>, String>)
    ensures
        match (decoded, r) {
            (Ok(bytes), Ok(image)) => image == bytes,
            (Err(e), Err(t)) => t@ == "openrouter_image: base64 decode failed: "@ + e@,
            _ => false,
        },
{
    match decoded {
        Ok(bytes) => Ok(bytes),
        Err(e) => {
            let mut t: String = "openrouter_image: base64 decode failed: ".to_owned();
            t.append(e.as_str());
            Err(t)
        },
    }
}

impl OpenRouterImageGenerator {
    pub fn new(id: &str, base_url: String, api_key: String, model: &str) -> (r:
        OpenRouterImageGenerator)
        ensures
            r.id@ == id@,
            r.base_url == base_url,
            r.api_key == api_key,
            r.model@ == model@,
    {
        OpenRouterImageGenerator { id: id.to_owned(), base_url, api_key, model: model.to_owned() }
    }

    pub fn url(&self) -> (r: String)
        ensures
            r@ == endpoint(self.base_url@, "/chat/completions"@),
    {
        endpoint_url(self.base_url.as_str(), "/chat/completions")
    }

    /// The body of a request.
    pub fn request(&self, prompt: &str) -> (r: Json)
        ensures
            r@ == image_request(self.model@, prompt@),
    {
        let m: ObjectBuilder = ObjectBuilder::new().with_text("role", "user").with_text(
            "content",
            prompt,
        );
        assert(m.entries() =~= image_message(prompt@)->Object_0);
        let mut messages: Vec<Json> = Vec::new();
        messages.push(m.build());
        let mut modalities: Vec<String> = Vec::new();
        modalities.push("image".to_owned());
        modalities.push("text".to_owned());
        assert(texts(modalities@) =~= seq!["image"@, "text"@]);
        assert(messages@.map_values(|j: Json| j@) =~= seq![image_message(prompt@)]);
        let b: ObjectBuilder = ObjectBuilder::new().with_text(
            "model",
            self.model.as_str(),
        ).with("messages", json_array(messages)).with("modalities", array_of_texts(&modalities));
        assert(b.entries() =~= image_request(self.model@, prompt@)->Object_0);
        b.build()
    }

    /// The base64 text of the image in an answer.
    pub fn encoded(&self, success: bool, status: &str, body: &Json) -> (r: Result<String, String>)
        ensures
            match r {
                Ok(t) => encoded_image(success, status@, body@) == Ok::<Seq<char>, Seq<char>>(t@),
                Err(e) => encoded_image(success, status@, body@) == Err::<Seq<char>, Seq<char>>(
                    e@,
                ),
            },
    {
        if !success {
            let msg: String = match body.get("error") {
                Some(e) => text_or(e.text_field("message"), "unknown error"),
                None => "unknown error".to_owned(),
            };
            return Err(api_error_text("openrouter_image", status, msg.as_str()));
        }
        let url: String = match find_data_url(body) {
            Some(u) => u,
            None => {
                let full: String = write_json(body);
                let mut t: String =
                    "openrouter_image: no image in response — full response: ".to_owned();
                t.append(full.as_str());
                return Err(t);
            },
        };
        match strip_prefix(url.as_str(), "data:image/png;base64,") {
            Some(t) => {
                return Ok(t);
            },
            None => {},
        }
        match strip_prefix(url.as_str(), "data:image/jpeg;base64,") {
            Some(t) => {
                return Ok(t);
            },
            None => {},
        }
        match strip_prefix(url.as_str(), "data:image/webp;base64,") {
            Some(t) => Ok(t),
            None => Ok(url),
        }
    }

    /// The image in an answer of the provider.
    pub fn generate(&self, success: bool, status: &str, body: &Json) -> (r: Result<Vec<u8>, String>)
        ensures
            match encoded_image(success, status@, body@) {
                Err(e) => r matches Err(t) && t@ == e,
                Ok(b64) => match image_of(base64_decoded(b64)) {
                    Ok(bytes) => r matches Ok(image) && image@ == bytes,
                    Err(e) => r matches Err(t) && t@ == e,
                },
            },
    {
        match self.encoded(success, status, body) {
            Ok(b64) => image_bytes(decode_base64(b64.as_str())),
            Err(e) => Err(e),
        }
    }
}

fn find_data_url(body: &Json) -> (r: Option<String>)
    ensures
        opt_text(r) == data_url_in(body@),
{
    let choices: &Json = match body.get("choices") {
        Some(j) => j,
        None => {
            return None;
        },
    };
    let choice: &Json = match choices.item(0) {
        Some(j) => j,
        None => {
            return None;
        },
    };
    let message: &Json = match choice.get("message") {
        Some(j) => j,
        None => {
            return None;
        },
    };
    let images: &Json = match message.get("images") {
        Some(j) => j,
        None => {
            return None;
        },
    };
    let image: &Json = match images.item(0) {
        Some(j) => j,
        None => {
            return None;
        },
    };
    match image.get("image_url") {
        Some(j) => j.text_field("url"),
        None => None,
    }
}

/// Where and how an image is asked for.
pub proof fn law_images_are_asked_for(g: &OpenRouterImageGenerator, prompt: &str, r: Json, url: String, base: &str, path: &str, full: String)
    requires
        call_ensures(OpenRouterImageGenerator::request, (g, prompt), r),
        call_ensures(OpenRouterImageGenerator::url, (g,), url),
        call_ensures(endpoint_url, (base, path), full),
        base@ == g.base_url@,
        path@ == "/chat/completions"@,
    ensures
        url@ == full@,
        r@ == JsonView::Object(
            seq![
                ("model"@, JsonView::Text(g.model@)),
                (
                    "messages"@,
                    JsonView::Array(
                        seq![
                            JsonView::Object(
                                seq![
                                    ("role"@, JsonView::Text("user"@)),
                                    ("content"@, JsonView::Text(prompt@)),
                                ],
                            ),
                        ],
                    ),
                ),
                (
                    "modalities"@,
                    JsonView::Array(seq![JsonView::Text("image"@), JsonView::Text("text"@)]),
                ),
            ],
        ),
{
    assert(text_array(seq!["image"@, "text"@])->Array_0 =~= seq![
        JsonView::Text("image"@),
        JsonView::Text("text"@),
    ]);
}

/// What an answer is taken for: the image behind the mark of its type; else an
/// error, with what the service said of it.
pub proof fn law_images_are_found(g: &OpenRouterImageGenerator, success: bool, status: &str, body: &Json, r: Result<String, String>, data: Seq<char>)
    requires
        call_ensures(OpenRouterImageGenerator::encoded, (g, success, status, body), r),
    ensures
        ({
            let url = body@.field("choices"@).item(0).field("message"@).field("images"@).item(
                0,
            ).field("image_url"@).field("url"@);
            &&& r is Ok <==> success && url is Text
            &&& success && url == JsonView::Text("data:image/png;base64,"@ + data) ==> r->Ok_0@
                == data
            &&& success && url == JsonView::Text("data:image/jpeg;base64,"@ + data) ==> r->Ok_0@
                == data
            &&& success && url == JsonView::Text("data:image/webp;base64,"@ + data) ==> r->Ok_0@
                == data
            &&& success && url == JsonView::Text(data) && !has_prefix(data, "data:"@) ==> r->Ok_0@
                == data
            &&& !success ==> r->Err_0@ == "openrouter_image"@ + ": API error "@ + status@ + ": "@ + (
            match body@.field("error"@).field("message"@) {
                JsonView::Text(t) => t,
                _ => "unknown error"@,
            })
        }),
{
    let p = "data:image/png;base64,"@;
    let j = "data:image/jpeg;base64,"@;
    let w = "data:image/webp;base64,"@;
    let d = "data:"@;
    reveal_strlit("data:image/png;base64,");
    reveal_strlit("data:image/jpeg;base64,");
    reveal_strlit("data:image/webp;base64,");
    reveal_strlit("data:");
    assert(p[11] == 'p' && j[11] == 'j' && w[11] == 'w');
    assert((p + data).take(p.len() as int) =~= p);
    assert((p + data).skip(p.len() as int) =~= data);
    assert((j + data).take(j.len() as int) =~= j);
    assert((j + data).skip(j.len() as int) =~= data);
    assert((w + data).take(w.len() as int) =~= w);
    assert((w + data).skip(w.len() as int) =~= data);
    assert((j + data)[11] == 'j' && (w + data)[11] == 'w');
    if has_prefix(j + data, p) {
        assert((j + data).take(p.len() as int)[11] == p[11]);
    }
    if has_prefix(w + data, p) {
        assert((w + data).take(p.len() as int)[11] == p[11]);
    }
    if has_prefix(w + data, j) {
        assert((w + data).take(j.len() as int)[11] == j[11]);
    }
    assert(p.take(5) =~= d && j.take(5) =~= d && w.take(5) =~= d);
    if has_prefix(data, p) {
        assert(data.take(5) =~= data.take(p.len() as int).take(5));
    }
    if has_prefix(data, j) {
        assert(data.take(5) =~= data.take(j.len() as int).take(5));
    }
    if has_prefix(data, w) {
        assert(data.take(5) =~= data.take(w.len() as int).take(5));
    }
}

/// An image is what its text decodes to; what cannot be decoded is told.
pub proof fn law_images_are_decoded(
    g: &OpenRouterImageGenerator,
    success: bool,
    status: &str,
    body: &Json,
    r: Result<Vec<u8>, String>,
    encoded: Result<String, String>,
    decoded: Result<Vec<u8>, String>,
    image: Result<Vec<u8>, String>,
)
    requires
        call_ensures(OpenRouterImageGenerator::generate, (g, success, status, body), r),
        call_ensures(OpenRouterImageGenerator::encoded, (g, success, status, body), encoded),
        call_ensures(image_bytes, (decoded,), image),
    ensures
        encoded is Err ==> r is Err && r->Err_0@ == encoded->Err_0@,
        encoded matches Ok(t) ==> (base64_decoded(t@) matches Ok(bytes) ==> r is Ok && r->Ok_0@
            == bytes),
        encoded matches Ok(t) ==> (base64_decoded(t@) matches Err(e) ==> r is Err && r->Err_0@
            == "openrouter_image: base64 decode failed: "@ + e),
        decoded matches Ok(b) ==> image == Ok::<Vec<u8>, String>(b),
        decoded matches Err(e) ==> image is Err && image->Err_0@
            == "openrouter_image: base64 decode failed: "@ + e@,
{
}

} // verus!
