use sdcpp::adapter::{
    request_body, size_override, AdvancedModelSettings, Headers, ImageGenerationRequest,
    ImageRequestPayload, SdcppAdapter, SdcppResponse, DEFAULT_HEIGHT, DEFAULT_WIDTH,
};
use serde_json::Value;

fn text(s: &str) -> Value {
    Value::String(s.to_string())
}

fn some(s: &str) -> Option<String> {
    Some(s.to_string())
}

fn request() -> ImageGenerationRequest {
    ImageGenerationRequest {
        prompt: " a cat ".to_string(),
        n: None,
        size: None,
        input_images: None,
        advanced_model_settings: None,
    }
}

fn settings() -> AdvancedModelSettings {
    AdvancedModelSettings {
        sd_size: None,
        sd_steps: None,
        sd_cfg_scale: None,
        sd_sampler: None,
        sd_seed: None,
        sd_negative_prompt: None,
    }
}

#[test]
fn plain_request_has_four_fields() {
    let mut expected = serde_json::Map::new();
    expected.insert("prompt".to_string(), text(" a cat "));
    expected.insert("width".to_string(), Value::from(DEFAULT_WIDTH));
    expected.insert("height".to_string(), Value::from(DEFAULT_HEIGHT));
    expected.insert("batch_size".to_string(), Value::from(1u32));
    assert_eq!(request_body(&request(), 1024, 1024), Value::Object(expected));
}

#[test]
fn full_request_has_all_fields() {
    let mut request = request();
    request.n = Some(3);
    request.input_images = Some(vec!["x".to_string(), "y".to_string()]);
    let mut made = settings();
    made.sd_steps = Some(20);
    made.sd_cfg_scale = Some(Value::from(7.5));
    made.sd_sampler = some(" euler ");
    made.sd_seed = Some(-1);
    made.sd_negative_prompt = some("\tblur\n");
    request.advanced_model_settings = Some(made);
    let mut expected = serde_json::Map::new();
    expected.insert("prompt".to_string(), text(" a cat "));
    expected.insert("width".to_string(), Value::from(512u32));
    expected.insert("height".to_string(), Value::from(768u32));
    expected.insert("batch_size".to_string(), Value::from(3u32));
    expected.insert("steps".to_string(), Value::from(20u32));
    expected.insert("cfg_scale".to_string(), Value::from(7.5));
    expected.insert("sampler_name".to_string(), text("euler"));
    expected.insert("seed".to_string(), Value::from(-1));
    expected.insert("negative_prompt".to_string(), text("blur"));
    expected.insert("extra_images".to_string(), Value::Array(vec![text("x"), text("y")]));
    let expected = Value::Object(expected);
    assert_eq!(request_body(&request, 512, 768), expected);
    assert_eq!(
        SdcppAdapter.payload(&request, 512, 768),
        Ok(ImageRequestPayload::Json(expected))
    );
}

#[test]
fn blank_settings_are_left_out() {
    let mut request = request();
    request.input_images = Some(vec![]);
    let mut made = settings();
    made.sd_sampler = some("  ");
    made.sd_negative_prompt = some("");
    request.advanced_model_settings = Some(made);
    let body = request_body(&request, 1, 1);
    assert_eq!(body.as_object().unwrap().len(), 4);
}

#[test]
fn size_of_the_request_comes_first() {
    let mut request = request();
    assert_eq!(size_override(&request), None);
    let mut made = settings();
    made.sd_size = some("512x512");
    request.advanced_model_settings = Some(made);
    assert_eq!(size_override(&request), Some("512x512"));
    request.size = some("64x64");
    assert_eq!(size_override(&request), Some("64x64"));
}

#[test]
fn endpoint_is_settled() {
    let adapter = SdcppAdapter;
    let request = request();
    let expected = "http://h:1/sdapi/v1/txt2img";
    for base in ["http://h:1", "http://h:1/", "http://h:1//", "http://h:1/sdapi/v1", "http://h:1/sdapi/v1/", "http://h:1/sdapi/v1/sdapi/v1"] {
        assert_eq!(adapter.endpoint(base, &request), expected);
    }
    assert_eq!(adapter.endpoint("h//sdapi/v1", &request), "h//sdapi/v1/txt2img");
    assert_eq!(adapter.endpoint("", &request), "/sdapi/v1/txt2img");
}

#[test]
fn given_headers_win() {
    let adapter = SdcppAdapter;
    assert!(adapter.required_auth_headers().is_empty());
    let plain = adapter.headers("key", None);
    assert_eq!(plain.entries.len(), 1);
    assert_eq!(plain.get("Content-Type"), Some("application/json"));
    let mut extra = Headers::new();
    extra.insert("X", "1");
    extra.insert("Content-Type", "text/plain");
    extra.insert("X", "2");
    let headers = adapter.headers("key", Some(&extra));
    assert_eq!(headers.entries.len(), 2);
    assert_eq!(headers.get("Content-Type"), Some("text/plain"));
    assert_eq!(headers.get("X"), Some("2"));
    assert_eq!(headers.get("x"), None);
}

#[test]
fn response_gives_its_images() {
    let adapter = SdcppAdapter;
    let response = SdcppResponse { images: vec!["aa".to_string(), "bb".to_string()] };
    let images = adapter.parse_response(Ok(response)).unwrap();
    assert_eq!(images.len(), 2);
    assert_eq!(images[1].b64_json, some("bb"));
    assert_eq!(images[1].url, None);
    assert_eq!(images[1].text, None);
}

#[test]
fn empty_and_unreadable_responses_are_errors() {
    let adapter = SdcppAdapter;
    assert_eq!(
        adapter.parse_response(Ok(SdcppResponse { images: vec![] })),
        Err("sd.cpp returned no images".to_string())
    );
    assert_eq!(
        adapter.parse_response(Err("missing field `images`".to_string())),
        Err("Failed to parse sd.cpp response: missing field `images`".to_string())
    );
}
