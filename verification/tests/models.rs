use maranode::models::{default_max_tokens, InferenceDevice, ModelId, ModelType};

#[test]
fn model_id_parse_and_display() {
    let m = ModelId::parse("llama3.2:3b").unwrap();
    assert_eq!(m.name, "llama3.2");
    assert_eq!(m.tag, "3b");
    assert_eq!(m.to_string(), "llama3.2:3b");
    // only the first colon splits; the remainder stays in the tag
    let m2 = ModelId::parse("host:5000:tag").unwrap();
    assert_eq!(m2.name, "host");
    assert_eq!(m2.tag, "5000:tag");
    assert!(ModelId::parse("no-colon").is_none());
}

#[test]
fn device_acceleration_and_display() {
    assert!(!InferenceDevice::Cpu.is_accelerated());
    assert!(InferenceDevice::Gpu.is_accelerated());
    assert!(InferenceDevice::RyzenAi.is_accelerated());
    assert_eq!(InferenceDevice::Metal.to_string(), "metal");
    assert_eq!(InferenceDevice::RyzenAi.to_string(), "ryzenai");
}

#[test]
fn model_id_round_trips_through_text() {
    let m = ModelId::new("mistral", "7b-instruct");
    let back = ModelId::parse(&m.to_string()).unwrap();
    assert_eq!(back, m);
    let empty = ModelId::parse(":").unwrap();
    assert_eq!(empty.name, "");
    assert_eq!(empty.tag, "");
}

#[test]
fn model_defaults() {
    assert_eq!(ModelType::default(), ModelType::Llm);
    assert_eq!(default_max_tokens(), 2048);
    assert_eq!(InferenceDevice::Npu.as_str(), "npu");
    assert_eq!(InferenceDevice::Cpu.to_string(), "cpu");
}

#[test]
fn text_read_as_an_id_writes_back_the_same() {
    for text in ["llama3.2:3b", "host:5000:tag", ":", "a:"] {
        let m = ModelId::parse(text).unwrap();
        assert!(!m.name.contains(':'));
        assert_eq!(m.to_string(), text);
    }
    assert!(ModelId::parse("").is_none());
}
