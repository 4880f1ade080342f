//! The tools that generate images.
use vstd::prelude::*;

use crate::json::{json_text, stored_json, write_json, Json, JsonView, ObjectBuilder};
use crate::text::{or_text, text_or};
use crate::tools::{ToolCategory, ToolDescriptionLength, MAX_LABEL_FULL, MAX_LABEL_SHORT};

verus! {

/// The tool that lists the image providers.
pub struct ImageGenerateProvidersList;

impl ImageGenerateProvidersList {
    pub fn name(&self) -> (r: &'static str)
        ensures
            r@ == "image_generate_providers_list"@,
    {
        "image_generate_providers_list"
    }

    pub fn category(&self) -> (r: ToolCategory)
        ensures
            r == ToolCategory::Introspection,
    {
        ToolCategory::Introspection
    }

    /// The label of a call.
    pub fn describe(&self) -> (r: String)
        ensures
            r@ == "list image providers"@,
    {
        "list image providers".to_owned()
    }
}

/// An image to generate.
pub struct ImageRequest<'a> {
    pub provider_id: String,
    pub prompt: String,
    pub extra_params: Option<&'a Json>,
}

/// Where a generated image is.
pub open spec fn image_answer(path: Seq<char>, url: Seq<char>) -> JsonView {
    JsonView::Object(seq![("path"@, JsonView::Text(path)), ("url"@, JsonView::Text(url))])
}

/// The tool that generates an image.
pub struct ImageGenerateTool;

impl ImageGenerateTool {
    pub fn name(&self) -> (r: &'static str)
        ensures
            r@ == "image_generate"@,
    {
        "image_generate"
    }

    pub fn category(&self) -> (r: ToolCategory)
        ensures
            r == ToolCategory::Config,
    {
        ToolCategory::Config
    }

    /// The label of a call, and how long it may be.
    pub fn describe(&self, args: &Json, length: ToolDescriptionLength) -> (r: (String, usize))
        ensures
            ({
                let provider = or_text(args@.field("provider_id"@).as_text(), "?"@);
                let prompt = or_text(args@.field("prompt"@).as_text(), "?"@);
                match length {
                    ToolDescriptionLength::Short => r.0@ == "generate image ("@ + provider + ")"@
                        && r.1 == MAX_LABEL_SHORT,
                    ToolDescriptionLength::Full => r.0@ == "generate image ("@ + provider + "): "@
                        + prompt && r.1 == MAX_LABEL_FULL,
                }
            }),
    {
        let provider: String = text_or(args.text_field("provider_id"), "?");
        let prompt: String = text_or(args.text_field("prompt"), "?");
        let mut t: String = "generate image (".to_owned();
        t.append(provider.as_str());
        match length {
            ToolDescriptionLength::Short => {
                t.append(")");
                (t, MAX_LABEL_SHORT)
            },
            ToolDescriptionLength::Full => {
                t.append("): ");
                t.append(prompt.as_str());
                (t, MAX_LABEL_FULL)
            },
        }
    }

    /// Reads a call. Extra parameters count only where they are an object.
    pub fn request<'a>(&self, args: &'a Json) -> (r: Result<ImageRequest<'a>, String>)
        ensures
            match (args@.field("provider_id"@).as_text(), args@.field("prompt"@).as_text()) {
                (None, _) => r matches Err(e) && e@ == "missing provider_id"@,
                (Some(_), None) => r matches Err(e) && e@ == "missing prompt"@,
                (Some(id), Some(prompt)) => match r {
                    Ok(q) => {
                        &&& q.provider_id@ == id
                        &&& q.prompt@ == prompt
                        &&& match q.extra_params {
                            Some(j) => j@ is Object && j@ == args@.field("extra_params"@),
                            None => !(args@.field("extra_params"@) is Object),
                        }
                    },
                    Err(_) => false,
                },
            },
    {
        let provider_id: String = match args.text_field("provider_id") {
            Some(t) => t,
            None => {
                return Err("missing provider_id".to_owned());
            },
        };
        let prompt: String = match args.text_field("prompt") {
            Some(t) => t,
            None => {
                return Err("missing prompt".to_owned());
            },
        };
        let extra_params: Option<&'a Json> = match args.get("extra_params") {
            Some(j) => match j {
                Json::Object(_) => Some(j),
                _ => None,
            },
            None => None,
        };
        Ok(ImageRequest { provider_id, prompt, extra_params })
    }

    /// The answer of a call, given where the image is.
    pub fn reply(&self, path: &str, url: &str) -> (r: String)
        ensures
            r@ == json_text(stored_json(image_answer(path@, url@))),
    {
        let b: ObjectBuilder = ObjectBuilder::new().with_text("path", path).with_text("url", url);
        assert(b.entries() =~= image_answer(path@, url@)->Object_0);
        let j: Json = b.build();
        write_json(&j)
    }
}

/// What an image needs: a provider and a prompt; further parameters count where
/// they are an object.
pub proof fn law_image_requests<'a>(tool: &ImageGenerateTool, args: &'a Json, r: Result<ImageRequest<'a>, String>)
    requires
        call_ensures(ImageGenerateTool::request, (tool, args), r),
    ensures
        r is Ok <==> args@.field("provider_id"@) is Text && args@.field("prompt"@) is Text,
        r matches Ok(q) ==> args@.field("provider_id"@) == JsonView::Text(q.provider_id@)
            && args@.field("prompt"@) == JsonView::Text(q.prompt@) && (q.extra_params is Some
            <==> args@.field("extra_params"@) is Object) && (q.extra_params matches Some(j) ==> j@
            == args@.field("extra_params"@)),
        r matches Err(e) ==> e@ == if args@.field("provider_id"@) is Text {
            "missing prompt"@
        } else {
            "missing provider_id"@
        },
{
}

/// What is told of an image: where it lies and how it is reached.
pub proof fn law_images_are_told(tool: &ImageGenerateTool, path: &str, url: &str, r: String, j: &Json, written: String)
    requires
        call_ensures(ImageGenerateTool::reply, (tool, path, url), r),
        call_ensures(write_json, (j,), written),
        j@ == JsonView::Object(
            seq![("path"@, JsonView::Text(path@)), ("url"@, JsonView::Text(url@))],
        ),
    ensures
        r@ == written@,
{
}

/// How the tools on images are named and described.
pub proof fn law_described_images(tool: &ImageGenerateTool, list: &ImageGenerateProvidersList, args: &Json, short: (String, usize), full: (String, usize), names: (&'static str, &'static str), told: String)
    requires
        call_ensures(ImageGenerateTool::describe, (tool, args, ToolDescriptionLength::Short), short),
        call_ensures(ImageGenerateTool::describe, (tool, args, ToolDescriptionLength::Full), full),
        call_ensures(ImageGenerateTool::name, (tool,), names.0),
        call_ensures(ImageGenerateProvidersList::name, (list,), names.1),
        call_ensures(ImageGenerateProvidersList::describe, (list,), told),
    ensures
        ({
            let provider = match args@.field("provider_id"@) {
                JsonView::Text(t) => t,
                _ => "?"@,
            };
            let prompt = match args@.field("prompt"@) {
                JsonView::Text(t) => t,
                _ => "?"@,
            };
            &&& short.0@ == "generate image ("@ + provider + ")"@ && short.1 == 60
            &&& full.0@ == "generate image ("@ + provider + "): "@ + prompt && full.1 == 120
        }),
        names.0@ == "image_generate"@ && names.1@ == "image_generate_providers_list"@,
        told@ == "list image providers"@,
{
}

} // verus!
