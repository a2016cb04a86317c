//! The server as a provider of images: where a request goes, what it holds, and
//! what is made of the answer.

use crate::events::text_view;
use crate::json::{
    array_value, json_of, jsons_of, no_fields, object_insert, object_new, object_value,
    signed_value, text_value, unsigned_value, Json,
};
use crate::text::{
    finishes_with, is_blank, is_white_space, shows_something, text_eq, texts, trim, trim_ending,
    trimmed, without_ending,
};
use vstd::prelude::*;

verus! {

/// The width of an image where none is asked for.
pub const DEFAULT_WIDTH: u32 = 1024;

/// The height of an image where none is asked for.
pub const DEFAULT_HEIGHT: u32 = 1024;

/// The settings of a model.
#[derive(Debug, Clone, PartialEq)]
pub struct AdvancedModelSettings {
    pub sd_size: Option<String>,
    pub sd_steps: Option<u32>,
    /// The guidance scale, as the JSON number that it is sent as.
    pub sd_cfg_scale: Option<serde_json::Value>,
    pub sd_sampler: Option<String>,
    pub sd_seed: Option<i64>,
    pub sd_negative_prompt: Option<String>,
}

/// A request for images.
#[derive(Debug, Clone, PartialEq)]
pub struct ImageGenerationRequest {
    pub prompt: String,
    /// How many images are wanted.
    pub n: Option<u32>,
    pub size: Option<String>,
    pub input_images: Option<Vec<String>>,
    pub advanced_model_settings: Option<AdvancedModelSettings>,
}

/// What is sent to a provider.
#[derive(Debug, Clone, PartialEq)]
pub enum ImageRequestPayload {
    Json(serde_json::Value),
}

/// An image that a provider gave.
#[derive(Debug, Clone, PartialEq)]
pub struct ImageResponseData {
    pub url: Option<String>,
    pub b64_json: Option<String>,
    pub text: Option<String>,
}

/// The answer of the server.
#[derive(Debug, Clone, PartialEq)]
pub struct SdcppResponse {
    pub images: Vec<String>,
}

// ----------------------------------------------------------------------------
// Headers
// ----------------------------------------------------------------------------

/// The headers of a request: each name once, with its value.
#[derive(Debug, Clone, PartialEq)]
pub struct Headers {
    pub entries: Vec<(String, String)>,
}

/// The last value given for each name.
pub open spec fn header_map(entries: Seq<(String, String)>) -> Map<Seq<char>, Seq<char>>
    decreases entries.len(),
{
    if entries.len() == 0 {
        Map::empty()
    } else {
        header_map(entries.drop_last()).insert(entries.last().0@, entries.last().1@)
    }
}

impl View for Headers {
    type V = Map<Seq<char>, Seq<char>>;

    open spec fn view(&self) -> Map<Seq<char>, Seq<char>> {
        header_map(self.entries@)
    }
}

/// None of the first `n` entries is called `name`.
spec fn absent_before(entries: Seq<(String, String)>, name: Seq<char>, n: int) -> bool {
    forall|i: int| 0 <= i < n ==> (#[trigger] entries[i]).0@ != name
}

proof fn lemma_header_map_absent(entries: Seq<(String, String)>, name: Seq<char>)
    ensures
        absent_before(entries, name, entries.len() as int) <==> !header_map(entries).contains_key(
            name,
        ),
    decreases entries.len(),
{
    if entries.len() > 0 {
        let rest = entries.drop_last();
        lemma_header_map_absent(rest, name);
        if absent_before(entries, name, entries.len() as int) {
            assert forall|i: int| 0 <= i < rest.len() implies (#[trigger] rest[i]).0@ != name by {
                assert(entries[i].0@ != name);
            }
            assert(entries[entries.len() - 1].0@ != name);
        } else if !header_map(entries).contains_key(name) {
            assert forall|i: int| 0 <= i < entries.len() implies (#[trigger] entries[i]).0@
                != name by {
                if i < rest.len() {
                    assert(rest[i].0@ != name);
                }
            }
        }
    }
}

proof fn lemma_header_map_update(
    entries: Seq<(String, String)>,
    at: int,
    entry: (String, String),
)
    requires
        Headers::has_no_duplicates(entries),
        0 <= at < entries.len(),
        entry.0@ == entries[at].0@,
    ensures
        header_map(entries.update(at, entry)) == header_map(entries).insert(entry.0@, entry.1@),
    decreases entries.len(),
{
    let rest = entries.drop_last();
    let after = entries.update(at, entry);
    if at == entries.len() - 1 {
        assert(after.drop_last() =~= rest);
        assert(header_map(after) =~= header_map(entries).insert(entry.0@, entry.1@));
    } else {
        assert(after.drop_last() =~= rest.update(at, entry));
        lemma_header_map_update(rest, at, entry);
        assert(entries.last().0@ != entry.0@);
        assert(header_map(after) =~= header_map(entries).insert(entry.0@, entry.1@));
    }
}

impl Headers {
    /// No two entries have the same name.
    pub open spec fn has_no_duplicates(entries: Seq<(String, String)>) -> bool {
        forall|i: int, j: int|
            0 <= i < j < entries.len() ==> (#[trigger] entries[i]).0@ != (
            #[trigger] entries[j]).0@
    }

    /// Each name is there once.
    pub open spec fn is_valid(&self) -> bool {
        Headers::has_no_duplicates(self.entries@)
    }

    /// No headers.
    pub fn new() -> (headers: Headers)
        ensures
            headers.is_valid(),
            headers@ == Map::<Seq<char>, Seq<char>>::empty(),
    {
        Headers { entries: Vec::new() }
    }

    /// Gives the header `name` the value `value`, whatever it had before.
    pub fn insert(&mut self, name: &str, value: &str)
        requires
            old(self).is_valid(),
        ensures
            final(self).is_valid(),
            final(self)@ == old(self)@.insert(name@, value@),
    {
        let mut at: usize = 0;
        while at < self.entries.len() && !text_eq(self.entries[at].0.as_str(), name)
            invariant
                at <= self.entries.len(),
                self.entries@ == old(self).entries@,
                absent_before(self.entries@, name@, at as int),
            decreases self.entries.len() - at,
        {
            at += 1;
        }
        let entry = (name.to_string(), value.to_string());
        if at < self.entries.len() {
            proof {
                lemma_header_map_update(self.entries@, at as int, entry);
            }
            self.entries.set(at, entry);
        } else {
            proof {
                assert(self.entries@.push(entry).drop_last() =~= self.entries@);
            }
            self.entries.push(entry);
        }
    }

    /// The value of the header `name`.
    pub fn get(&self, name: &str) -> (value: Option<&str>)
        requires
            self.is_valid(),
        ensures
            value is Some <==> self@.contains_key(name@),
            value is Some ==> value->0@ == self@[name@],
    {
        let mut at: usize = 0;
        while at < self.entries.len()
            invariant
                at <= self.entries.len(),
                self.is_valid(),
                absent_before(self.entries@, name@, at as int),
            decreases self.entries.len() - at,
        {
            if text_eq(self.entries[at].0.as_str(), name) {
                proof {
                    let entry = self.entries@[at as int];
                    lemma_header_map_update(self.entries@, at as int, entry);
                    assert(self.entries@.update(at as int, entry) =~= self.entries@);
                }
                return Some(self.entries[at].1.as_str());
            }
            at += 1;
        }
        proof {
            lemma_header_map_absent(self.entries@, name@);
        }
        None
    }
}

// ----------------------------------------------------------------------------
// The request
// ----------------------------------------------------------------------------

/// `fields` and the field `key`, where there is something for it.
pub open spec fn with_field(
    fields: Map<Seq<char>, Json>,
    key: Seq<char>,
    value: Option<Json>,
) -> Map<Seq<char>, Json> {
    match value {
        Some(value) => fields.insert(key, value),
        None => fields,
    }
}

/// The text without the white space around it, where more than that is there.
pub open spec fn trimmed_json(text: Option<String>) -> Option<Json> {
    match text {
        Some(text) => if is_blank(text@) {
            None
        } else {
            Some(Json::Text(trimmed(text@)))
        },
        None => None,
    }
}

/// The number, where there is one.
pub open spec fn int_json(n: Option<int>) -> Option<Json> {
    match n {
        Some(n) => Some(Json::Int(n)),
        None => None,
    }
}

/// The texts as a JSON list.
pub open spec fn texts_json(all: Seq<Seq<char>>) -> Json {
    Json::List(all.map_values(|text: Seq<char>| Json::Text(text)))
}

impl ImageGenerationRequest {
    /// The size asked for: the one of the request, or else the one of the model's
    /// settings.
    pub open spec fn chosen_size(&self) -> Option<Seq<char>> {
        match (self.size, self.advanced_model_settings) {
            (Some(size), _) => Some(size@),
            (None, Some(settings)) => text_view(settings.sd_size),
            (None, None) => None,
        }
    }

    /// The number of images asked for.
    pub open spec fn batch_size(&self) -> int {
        match self.n {
            Some(n) => n as int,
            None => 1,
        }
    }

    /// The images to start from, where there are any.
    pub open spec fn images_json(&self) -> Option<Json> {
        match self.input_images {
            Some(images) => if images@.len() > 0 {
                Some(texts_json(texts(images@)))
            } else {
                None
            },
            None => None,
        }
    }
}

impl AdvancedModelSettings {
    /// `fields` and those for the settings that are made.
    pub open spec fn added_to(&self, fields: Map<Seq<char>, Json>) -> Map<Seq<char>, Json> {
        let steps = int_json(
            match self.sd_steps {
                Some(steps) => Some(steps as int),
                None => None,
            },
        );
        let scale = match self.sd_cfg_scale {
            Some(scale) => Some(json_of(scale)),
            None => None,
        };
        let seed = int_json(
            match self.sd_seed {
                Some(seed) => Some(seed as int),
                None => None,
            },
        );
        let a = with_field(fields, "steps"@, steps);
        let b = with_field(a, "cfg_scale"@, scale);
        let c = with_field(b, "sampler_name"@, trimmed_json(self.sd_sampler));
        let d = with_field(c, "seed"@, seed);
        with_field(d, "negative_prompt"@, trimmed_json(self.sd_negative_prompt))
    }
}

/// The body of a request for images of `width` by `height`.
pub open spec fn body_json(request: ImageGenerationRequest, width: u32, height: u32) -> Json {
    let start = no_fields().insert("prompt"@, Json::Text(request.prompt@)).insert(
        "width"@,
        Json::Int(width as int),
    ).insert("height"@, Json::Int(height as int)).insert(
        "batch_size"@,
        Json::Int(request.batch_size()),
    );
    let set = match request.advanced_model_settings {
        Some(settings) => settings.added_to(start),
        None => start,
    };
    Json::Object(with_field(set, "extra_images"@, request.images_json()))
}

/// The size asked for: the one of the request, or else the one of the model's
/// settings.
pub fn size_override(request: &ImageGenerationRequest) -> (size: Option<&str>)
    ensures
        size is Some <==> request.chosen_size() is Some,
        size is Some ==> size->0@ == request.chosen_size()->0,
{
    if let Some(size) = &request.size {
        return Some(size.as_str());
    }
    if let Some(settings) = &request.advanced_model_settings {
        if let Some(size) = &settings.sd_size {
            return Some(size.as_str());
        }
    }
    None
}

/// Adds the text without the white space around it as the field `key`, where more
/// than that is there.
fn insert_trimmed(
    body: &mut serde_json::Map<String, serde_json::Value>,
    key: &str,
    text: &Option<String>,
)
    ensures
        crate::json::fields_of(*final(body)) == with_field(
            crate::json::fields_of(*old(body)),
            key@,
            trimmed_json(*text),
        ),
{
    if let Some(text) = text {
        let inner = trim(text.as_str());
        if !inner.is_empty() {
            object_insert(body, key, text_value(inner));
        }
    }
}

/// Adds the settings that are made.
fn insert_settings(
    body: &mut serde_json::Map<String, serde_json::Value>,
    settings: &AdvancedModelSettings,
)
    ensures
        crate::json::fields_of(*final(body)) == settings.added_to(
            crate::json::fields_of(*old(body)),
        ),
{
    if let Some(steps) = settings.sd_steps {
        object_insert(body, "steps", unsigned_value(steps as u64));
    }
    if let Some(scale) = &settings.sd_cfg_scale {
        object_insert(body, "cfg_scale", scale.clone());
    }
    insert_trimmed(body, "sampler_name", &settings.sd_sampler);
    if let Some(seed) = settings.sd_seed {
        object_insert(body, "seed", signed_value(seed));
    }
    insert_trimmed(body, "negative_prompt", &settings.sd_negative_prompt);
}

/// The texts as a JSON list.
fn texts_value(all: &Vec<String>) -> (list: serde_json::Value)
    ensures
        json_of(list) == texts_json(texts(all@)),
{
    let mut items: Vec<serde_json::Value> = Vec::new();
    let mut i: usize = 0;
    while i < all.len()
        invariant
            i <= all.len(),
            items.len() == i,
            forall|j: int| 0 <= j < i ==> json_of(#[trigger] items@[j]) == Json::Text(all@[j]@),
        decreases all.len() - i,
    {
        items.push(text_value(all[i].as_str()));
        i += 1;
    }
    assert(jsons_of(items@) =~= texts(all@).map_values(|text: Seq<char>| Json::Text(text)));
    array_value(items)
}

/// The body of a request for images of `width` by `height`.
pub fn request_body(request: &ImageGenerationRequest, width: u32, height: u32) -> (body:
    serde_json::Value)
    ensures
        json_of(body) == body_json(*request, width, height),
{
    let mut body = object_new();
    object_insert(&mut body, "prompt", text_value(request.prompt.as_str()));
    object_insert(&mut body, "width", unsigned_value(width as u64));
    object_insert(&mut body, "height", unsigned_value(height as u64));
    let batch_size: u32 = match request.n {
        Some(n) => n,
        None => 1,
    };
    object_insert(&mut body, "batch_size", unsigned_value(batch_size as u64));
    if let Some(settings) = &request.advanced_model_settings {
        insert_settings(&mut body, settings);
    }
    if let Some(images) = &request.input_images {
        if images.len() > 0 {
            object_insert(&mut body, "extra_images", texts_value(images));
        }
    }
    object_value(body)
}

// ----------------------------------------------------------------------------
// The adapter
// ----------------------------------------------------------------------------

/// The server as a provider of images.
#[derive(Debug, Clone, Copy, PartialEq, Eq)]
pub struct SdcppAdapter;

/// Where a request goes, for a server at `base_url`: the path of the interface may
/// stand at its end already, and slashes may follow.
pub open spec fn endpoint_of(base_url: Seq<char>) -> Seq<char> {
    without_ending(without_ending(base_url, "/"@), "/sdapi/v1"@) + "/sdapi/v1/txt2img"@
}

/// The headers of a request: the type of its body, and those given beside, which
/// come first.
pub open spec fn headers_with(extra: Map<Seq<char>, Seq<char>>) -> Map<Seq<char>, Seq<char>> {
    Map::<Seq<char>, Seq<char>>::empty().insert(
        "Content-Type"@,
        "application/json"@,
    ).union_prefer_right(extra)
}

/// The image `image`, which the server sends encoded.
pub open spec fn is_image(data: ImageResponseData, image: String) -> bool {
    data.url is None && data.b64_json == Some(image) && data.text is None
}

/// An image that a provider gave, as the contracts speak of it.
pub struct ImageView {
    pub url: Option<Seq<char>>,
    pub b64_json: Option<Seq<char>>,
    pub text: Option<Seq<char>>,
}

impl View for ImageResponseData {
    type V = ImageView;

    open spec fn view(&self) -> ImageView {
        ImageView {
            url: text_view(self.url),
            b64_json: text_view(self.b64_json),
            text: text_view(self.text),
        }
    }
}

/// What is made of an answer, as the contracts speak of it.
pub open spec fn answer_view(images: Result<Vec<ImageResponseData>, String>) -> Result<
    Seq<ImageView>,
    Seq<char>,
> {
    match images {
        Ok(images) => Ok(images@.map_values(|image: ImageResponseData| image@)),
        Err(message) => Err(message@),
    }
}

/// What is made of an answer that was read as `parsed`, or could not be read.
pub open spec fn answer_to(parsed: Result<SdcppResponse, String>) -> Result<
    Seq<ImageView>,
    Seq<char>,
> {
    match parsed {
        Ok(response) => if response.images@.len() == 0 {
            Err("sd.cpp returned no images"@)
        } else {
            Ok(
                response.images@.map_values(
                    |image: String| ImageView { url: None, b64_json: Some(image@), text: None },
                ),
            )
        },
        Err(error) => Err("Failed to parse sd.cpp response: "@ + error@),
    }
}

impl SdcppAdapter {
    /// Where a request goes, for a server at `base_url`.
    pub fn endpoint(&self, base_url: &str, _request: &ImageGenerationRequest) -> (url: String)
        ensures
            url@ == endpoint_of(base_url@),
    {
        proof {
            reveal_strlit("/");
            reveal_strlit("/sdapi/v1");
        }
        let base = trim_ending(trim_ending(base_url, "/"), "/sdapi/v1");
        let mut url = base.to_string();
        url.append("/sdapi/v1/txt2img");
        url
    }

    /// The headers that a key has to be sent in: none.
    pub fn required_auth_headers(&self) -> (names: &'static [&'static str])
        ensures
            names@.len() == 0,
    {
        &[]
    }

    /// The headers of a request.
    pub fn headers(&self, _api_key: &str, extra: Option<&Headers>) -> (headers: Headers)
        requires
            extra is Some ==> extra->0.is_valid(),
        ensures
            headers.is_valid(),
            headers@ == headers_with(
                match extra {
                    Some(extra) => extra@,
                    None => Map::empty(),
                },
            ),
    {
        let mut headers = Headers::new();
        headers.insert("Content-Type", "application/json");
        let ghost start = headers@;
        if let Some(extra) = extra {
            let mut i: usize = 0;
            assert(extra.entries@.take(0) =~= Seq::empty());
            assert(headers@ =~= start.union_prefer_right(header_map(extra.entries@.take(0))));
            while i < extra.entries.len()
                invariant
                    i <= extra.entries.len(),
                    headers.is_valid(),
                    headers@ == start.union_prefer_right(
                        header_map(extra.entries@.take(i as int)),
                    ),
                decreases extra.entries.len() - i,
            {
                let ghost before = headers@;
                let entry = &extra.entries[i];
                headers.insert(entry.0.as_str(), entry.1.as_str());
                proof {
                    let taken = extra.entries@.take(i + 1);
                    assert(taken.drop_last() =~= extra.entries@.take(i as int));
                    assert(headers@ =~= start.union_prefer_right(header_map(taken)));
                }
                i += 1;
            }
            assert(extra.entries@.take(extra.entries@.len() as int) =~= extra.entries@);
        } else {
            assert(headers@ =~= start.union_prefer_right(Map::empty()));
        }
        headers
    }

    /// What is sent to the server.
    pub fn payload(&self, request: &ImageGenerationRequest, width: u32, height: u32) -> (payload:
        Result<ImageRequestPayload, String>)
        ensures
            payload matches Ok(ImageRequestPayload::Json(body)) && json_of(body) == body_json(
                *request,
                width,
                height,
            ),
    {
        Ok(ImageRequestPayload::Json(request_body(request, width, height)))
    }

    /// The images of the server's answer, where `parsed` is what it was read as, or
    /// why it could not be.
    pub fn parse_response(&self, parsed: Result<SdcppResponse, String>) -> (images: Result<
        Vec<ImageResponseData>,
        String,
    >)
        ensures
            answer_view(images) == answer_to(parsed),
            images is Ok <==> parsed is Ok && parsed->Ok_0.images@.len() > 0,
            parsed matches Err(error) ==> images->Err_0@ == "Failed to parse sd.cpp response: "@
                + error@,
            parsed matches Ok(response) && response.images@.len() == 0 ==> images->Err_0@
                == "sd.cpp returned no images"@,
            images matches Ok(images) ==> {
                &&& images@.len() == parsed->Ok_0.images@.len()
                &&& forall|i: int|
                    0 <= i < images@.len() ==> is_image(
                        #[trigger] images@[i],
                        parsed->Ok_0.images@[i],
                    )
            },
    {
        let response = match parsed {
            Ok(response) => response,
            Err(error) => {
                let mut message = "Failed to parse sd.cpp response: ".to_string();
                message.append(error.as_str());
                return Err(message);
            },
        };
        if response.images.len() == 0 {
            return Err("sd.cpp returned no images".to_string());
        }
        let mut images: Vec<ImageResponseData> = Vec::new();
        let mut i: usize = 0;
        while i < response.images.len()
            invariant
                i <= response.images.len(),
                images.len() == i,
                forall|j: int|
                    0 <= j < i ==> is_image(#[trigger] images@[j], response.images@[j]),
            decreases response.images.len() - i,
        {
            images.push(
                ImageResponseData {
                    url: None,
                    b64_json: Some(response.images[i].clone()),
                    text: None,
                },
            );
            i += 1;
        }
        assert(images@.map_values(|image: ImageResponseData| image@)
            =~= response.images@.map_values(
            |image: String| ImageView { url: None, b64_json: Some(image@), text: None },
        ));
        Ok(images)
    }
}

// ----------------------------------------------------------------------------
// Laws
// ----------------------------------------------------------------------------

/// Slashes at the end of the server's address make no difference.
pub proof fn endpoint_ignores_final_slash(base_url: Seq<char>)
    ensures
        endpoint_of(base_url + "/"@) == endpoint_of(base_url),
{
    reveal_strlit("/");
    let longer = base_url + "/"@;
    assert(longer.subrange(longer.len() - 1, longer.len() as int) =~= "/"@);
    assert(longer.take(longer.len() - 1) =~= base_url);
}

/// The path of the interface may stand at the end of the server's address already.
pub proof fn endpoint_ignores_interface_path(base_url: Seq<char>)
    requires
        !finishes_with(base_url, "/"@),
    ensures
        endpoint_of(base_url + "/sdapi/v1"@) == endpoint_of(base_url),
{
    reveal_strlit("/");
    reveal_strlit("/sdapi/v1");
    let longer = base_url + "/sdapi/v1"@;
    let n = longer.len();
    assert(longer.last() == '1');
    assert(longer.subrange(n - 1, n as int)[0] == '1');
    assert(!finishes_with(longer, "/"@));
    assert(longer.subrange(n - 9, n as int) =~= "/sdapi/v1"@);
    assert(longer.take(n - 9) =~= base_url);
}

/// A header that is given beside comes before the one of the adapter, and no header
/// is lost.
pub proof fn given_headers_come_first(extra: Map<Seq<char>, Seq<char>>, name: Seq<char>)
    ensures
        extra.contains_key(name) ==> headers_with(extra).contains_key(name)
            && headers_with(extra)[name] == extra[name],
        !extra.contains_key("Content-Type"@) ==> headers_with(extra)["Content-Type"@]
            == "application/json"@,
        headers_with(extra).contains_key(name) <==> extra.contains_key(name) || name
            == "Content-Type"@,
{
}

/// The field `key` is there, and holds `value`.
pub open spec fn has(fields: Map<Seq<char>, Json>, key: Seq<char>, value: Json) -> bool {
    fields.contains_key(key) && fields[key] == value
}

/// The field `key` holds the text without what is around it that cannot be seen; where
/// nothing in it can be, the field is not there.
pub open spec fn has_shown_text(
    fields: Map<Seq<char>, Json>,
    key: Seq<char>,
    text: Option<String>,
) -> bool {
    if text is Some && shows_something(text->0@) {
        exists|before: Seq<char>, inner: Seq<char>, after: Seq<char>|
            {
                &&& text->0@ == #[trigger] (before + inner + after)
                &&& !shows_something(before) && !shows_something(after)
                &&& inner.len() > 0 && !is_white_space(inner[0]) && !is_white_space(
                    inner[inner.len() - 1],
                )
                &&& has(fields, key, Json::Text(inner))
            }
    } else {
        !fields.contains_key(key)
    }
}

/// The names of the fields differ from each other.
proof fn lemma_keys_differ()
    ensures
        "prompt"@.len() == 6 && "height"@.len() == 6 && "prompt"@ != "height"@,
        "width"@.len() == 5 && "steps"@.len() == 5 && "width"@ != "steps"@,
        "sampler_name"@.len() == 12 && "extra_images"@.len() == 12 && "sampler_name"@
            != "extra_images"@,
        "batch_size"@.len() == 10 && "cfg_scale"@.len() == 9,
        "seed"@.len() == 4 && "negative_prompt"@.len() == 15,
{
    reveal_strlit("prompt");
    reveal_strlit("width");
    reveal_strlit("height");
    reveal_strlit("batch_size");
    reveal_strlit("steps");
    reveal_strlit("cfg_scale");
    reveal_strlit("sampler_name");
    reveal_strlit("seed");
    reveal_strlit("negative_prompt");
    reveal_strlit("extra_images");
    assert("prompt"@[0] != "height"@[0]);
    assert("width"@[0] != "steps"@[0]);
    assert("sampler_name"@[0] != "extra_images"@[0]);
}

/// What is asked for is sent as it is: the prompt, the size, and the number of images,
/// which is one where none is named.
pub proof fn what_is_asked_for_is_sent(
    request: ImageGenerationRequest,
    width: u32,
    height: u32,
)
    ensures
        body_json(request, width, height) matches Json::Object(fields) && {
            &&& has(fields, "prompt"@, Json::Text(request.prompt@))
            &&& has(fields, "width"@, Json::Int(width as int))
            &&& has(fields, "height"@, Json::Int(height as int))
            &&& request.n matches Some(n) ==> has(fields, "batch_size"@, Json::Int(n as int))
            &&& request.n is None ==> has(fields, "batch_size"@, Json::Int(1))
        },
{
    lemma_keys_differ();
}

/// Each setting that is made is sent as it is, and one that is not made is not sent: the
/// steps and the seed as the whole numbers that they are, and the scale as it is written.
/// So requests with different seeds have different bodies.
pub proof fn each_setting_is_sent_as_it_is(
    request: ImageGenerationRequest,
    width: u32,
    height: u32,
)
    ensures
        body_json(request, width, height) matches Json::Object(fields) && match request.advanced_model_settings {
            Some(settings) => {
                &&& settings.sd_steps matches Some(steps) ==> has(
                    fields,
                    "steps"@,
                    Json::Int(steps as int),
                )
                &&& settings.sd_steps is None ==> !fields.contains_key("steps"@)
                &&& settings.sd_cfg_scale matches Some(scale) ==> has(
                    fields,
                    "cfg_scale"@,
                    json_of(scale),
                )
                &&& settings.sd_cfg_scale is None ==> !fields.contains_key("cfg_scale"@)
                &&& settings.sd_seed matches Some(seed) ==> has(
                    fields,
                    "seed"@,
                    Json::Int(seed as int),
                )
                &&& settings.sd_seed is None ==> !fields.contains_key("seed"@)
            },
            None => {
                &&& !fields.contains_key("steps"@)
                &&& !fields.contains_key("cfg_scale"@)
                &&& !fields.contains_key("seed"@)
                &&& !fields.contains_key("sampler_name"@)
                &&& !fields.contains_key("negative_prompt"@)
            },
        },
{
    lemma_keys_differ();
}

/// The sampler and what the images are not to show are sent without the white space
/// around them, and not at all where nothing else is there.
pub proof fn texts_are_sent_without_what_is_around(
    request: ImageGenerationRequest,
    width: u32,
    height: u32,
)
    requires
        request.advanced_model_settings is Some,
    ensures
        body_json(request, width, height) matches Json::Object(fields) && {
            let settings = request.advanced_model_settings->0;
            &&& has_shown_text(fields, "sampler_name"@, settings.sd_sampler)
            &&& has_shown_text(fields, "negative_prompt"@, settings.sd_negative_prompt)
        },
{
    lemma_keys_differ();
    let settings = request.advanced_model_settings->0;
    let fields = body_json(request, width, height)->Object_0;
    lemma_shown_text(fields, "sampler_name"@, settings.sd_sampler);
    lemma_shown_text(fields, "negative_prompt"@, settings.sd_negative_prompt);
}

proof fn lemma_shown_text(fields: Map<Seq<char>, Json>, key: Seq<char>, text: Option<String>)
    requires
        trimmed_json(text) matches Some(value) ==> has(fields, key, value),
        trimmed_json(text) is None ==> !fields.contains_key(key),
    ensures
        has_shown_text(fields, key, text),
{
    if text is Some {
        crate::text::blank_shows_nothing(text->0@);
        if shows_something(text->0@) {
            let whole = text->0@;
            let (first, last) = crate::text::lemma_what_is_seen(whole);
            let before = whole.take(first);
            let inner = whole.subrange(first, last + 1);
            let after = whole.skip(last + 1);
            assert(whole =~= before + inner + after);
            crate::text::blank_shows_nothing(before);
            crate::text::blank_shows_nothing(after);
            assert(inner[0] == whole[first] && inner[inner.len() - 1] == whole[last]);
            crate::text::trimming_takes_what_is_around(before, inner, after);
        }
    }
}

/// The images to start from are sent in their order, and where there are none, nothing is
/// sent for them.
pub proof fn images_are_sent_in_order(
    request: ImageGenerationRequest,
    width: u32,
    height: u32,
)
    ensures
        body_json(request, width, height) matches Json::Object(fields) && {
            let given = request.input_images is Some && request.input_images->0@.len() > 0;
            &&& given ==> {
                let images = request.input_images->0@;
                let sent = fields["extra_images"@]->List_0;
                &&& fields.contains_key("extra_images"@)
                &&& fields["extra_images"@] is List
                &&& sent.len() == images.len()
                &&& forall|i: int|
                    0 <= i < sent.len() ==> #[trigger] sent[i] == Json::Text(images[i]@)
            }
            &&& !given ==> !fields.contains_key("extra_images"@)
        },
{
    lemma_keys_differ();
}

/// Nothing is sent beside what is asked for and set.
pub proof fn nothing_else_is_sent(
    request: ImageGenerationRequest,
    width: u32,
    height: u32,
    key: Seq<char>,
)
    ensures
        body_json(request, width, height) matches Json::Object(fields) && (fields.contains_key(key)
            ==> key == "prompt"@ || key == "width"@ || key == "height"@ || key == "batch_size"@
            || key == "steps"@ || key == "cfg_scale"@ || key == "sampler_name"@ || key == "seed"@
            || key == "negative_prompt"@ || key == "extra_images"@),
{
}

/// The size of the request comes before that of the model's settings.
pub proof fn size_of_the_request_comes_first(request: ImageGenerationRequest)
    ensures
        request.size matches Some(size) ==> request.chosen_size() == Some(size@),
        request.size is None ==> match request.advanced_model_settings {
            Some(settings) => match settings.sd_size {
                Some(size) => request.chosen_size() == Some(size@),
                None => request.chosen_size() is None,
            },
            None => request.chosen_size() is None,
        },
{
}

/// A request goes to the interface below the server's address: to an address that ends
/// neither in a slash nor in the path of the interface, all of that path is added.
pub proof fn a_request_goes_below_the_address(base_url: Seq<char>)
    requires
        !(exists|rest: Seq<char>| base_url == #[trigger] (rest + "/"@)),
        !(exists|rest: Seq<char>| base_url == #[trigger] (rest + "/sdapi/v1"@)),
    ensures
        endpoint_of(base_url) == base_url + "/sdapi/v1/txt2img"@,
{
    reveal_strlit("/");
    reveal_strlit("/sdapi/v1");
    crate::text::endings_are_taken_off(base_url, "/"@);
    crate::text::endings_are_taken_off(base_url, "/sdapi/v1"@);
}

/// Headers hold each of their entries, and nothing else.
pub proof fn headers_hold_their_entries(headers: Headers, name: Seq<char>)
    requires
        headers.is_valid(),
    ensures
        forall|i: int|
            0 <= i < headers.entries@.len() ==> headers@.contains_key(
                (#[trigger] headers.entries@[i]).0@,
            ) && headers@[headers.entries@[i].0@] == headers.entries@[i].1@,
        headers@.contains_key(name) ==> exists|i: int|
            0 <= i < headers.entries@.len() && (#[trigger] headers.entries@[i]).0@ == name,
{
    let entries = headers.entries@;
    assert forall|i: int| 0 <= i < entries.len() implies header_map(entries).contains_key(
        (#[trigger] entries[i]).0@,
    ) && header_map(entries)[entries[i].0@] == entries[i].1@ by {
        lemma_header_of_entry(entries, i);
    }
    lemma_header_map_absent(entries, name);
}

proof fn lemma_header_of_entry(entries: Seq<(String, String)>, i: int)
    requires
        Headers::has_no_duplicates(entries),
        0 <= i < entries.len(),
    ensures
        header_map(entries).contains_key(entries[i].0@),
        header_map(entries)[entries[i].0@] == entries[i].1@,
    decreases entries.len(),
{
    if i < entries.len() - 1 {
        let rest = entries.drop_last();
        assert forall|a: int, b: int| 0 <= a < b < rest.len() implies (#[trigger] rest[a]).0@ != (
        #[trigger] rest[b]).0@ by {
            assert(entries[a].0@ != entries[b].0@);
        }
        lemma_header_of_entry(rest, i);
        assert(entries[i].0@ != entries[entries.len() - 1].0@);
    }
}

/// Each image of an answer is given, encoded as it came and in its turn; an answer without
/// images, or one that cannot be read, is an error that says so.
pub proof fn each_image_is_given(parsed: Result<SdcppResponse, String>)
    ensures
        match answer_to(parsed) {
            Ok(images) => parsed is Ok && images.len() == parsed->Ok_0.images@.len()
                && images.len() > 0 && forall|i: int|
                0 <= i < images.len() ==> (#[trigger] images[i]).b64_json == Some(
                    parsed->Ok_0.images@[i]@,
                ) && images[i].url is None && images[i].text is None,
            Err(message) => match parsed {
                Ok(response) => response.images@.len() == 0 && message
                    == "sd.cpp returned no images"@,
                Err(error) => message == "Failed to parse sd.cpp response: "@ + error@,
            },
        },
{
}

} // verus!
