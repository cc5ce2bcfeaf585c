use maranode::inference::{build_chatml_prompt, busy_message, check_prompt_fits, context_window, kernel_build_id,
    prompt_chunks, resolve_device, stub_content, StubEngine, Admission, CompiledBackends, DeviceError,
    DevicePreference, FinishReason, GenStep, Generation, StreamState, ALL_LAYERS_ON_GPU};
use maranode::models::{ChatMessage, ChatRole, InferenceDevice, ModelId};

fn none() -> CompiledBackends {
    CompiledBackends { metal: false, cuda: false, rocm: false, vulkan: false, openvino: false, ryzenai: false }
}

#[test]
fn admission_refuses_beyond_the_limit() {
    let mut a = Admission::new(2);
    assert!(a.try_enter());
    assert!(a.try_enter());
    assert!(!a.try_enter());
    assert_eq!(a.waiting, 2);
    a.leave();
    assert!(a.check_capacity());
    a.set_max_waiting(0);
    assert!(a.try_enter());
    assert!(a.try_enter());
    assert_eq!(a.waiting, 3);
    assert_eq!(busy_message(2, 2), "server busy: 2 requests already in flight (max 2). try again shortly.");
}

#[test]
fn device_resolution_follows_preference_and_build() {
    assert_eq!(resolve_device(DevicePreference::Auto, none()), Ok((InferenceDevice::Cpu, 0)));
    let metal = CompiledBackends { metal: true, ..none() };
    assert_eq!(resolve_device(DevicePreference::Auto, metal), Ok((InferenceDevice::Metal, ALL_LAYERS_ON_GPU)));
    let cuda_npu = CompiledBackends { cuda: true, openvino: true, ..none() };
    assert_eq!(resolve_device(DevicePreference::Auto, cuda_npu), Ok((InferenceDevice::Gpu, 9999)));
    let npu = CompiledBackends { openvino: true, ryzenai: true, ..none() };
    assert_eq!(resolve_device(DevicePreference::Auto, npu), Ok((InferenceDevice::Npu, 9999)));
    assert_eq!(resolve_device(DevicePreference::Cpu, metal), Ok((InferenceDevice::Cpu, 0)));
    assert_eq!(resolve_device(DevicePreference::Gpu, none()), Err(DeviceError::NoGpuBackend));
    assert_eq!(resolve_device(DevicePreference::Npu, none()), Err(DeviceError::NoNpuBackend));
    assert_eq!(resolve_device(DevicePreference::RyzenAi, npu), Ok((InferenceDevice::RyzenAi, 9999)));
    assert!(DeviceError::NoGpuBackend.message().starts_with("GPU device requested"));
}

#[test]
fn device_preference_text() {
    assert_eq!(DevicePreference::parse("GPU"), Ok(DevicePreference::Gpu));
    assert_eq!(DevicePreference::parse(""), Ok(DevicePreference::Auto));
    assert_eq!(DevicePreference::parse("RyzenAI"), Ok(DevicePreference::RyzenAi));
    assert_eq!(
        DevicePreference::parse("tpu"),
        Err("unknown device 'tpu' (config or --device): expected: auto, cpu, gpu, npu, ryzenai".to_string())
    );
}

#[test]
fn chatml_layout() {
    let msgs = vec![
        ChatMessage { role: ChatRole::System, content: "you are a assistant.".to_string() },
        ChatMessage { role: ChatRole::User, content: "what is 2+2?".to_string() },
    ];
    assert_eq!(
        build_chatml_prompt(&msgs),
        "<|im_start|>system\nyou are a assistant.<|im_end|>\n<|im_start|>user\nwhat is 2+2?<|im_end|>\n<|im_start|>assistant\n"
    );
    assert_eq!(build_chatml_prompt(&[]), "<|im_start|>assistant\n");
}

#[test]
fn context_and_chunks() {
    assert_eq!(context_window(4096), 4096);
    assert_eq!(context_window(131072), 32768);
    assert!(check_prompt_fits(10, 4096).is_ok());
    assert_eq!(check_prompt_fits(4096, 4096), Err("prompt (4096 tokens) \u{2265} context window (4096)".to_string()));
    assert_eq!(prompt_chunks(0), vec![]);
    assert_eq!(prompt_chunks(512), vec![(0, 512)]);
    assert_eq!(prompt_chunks(1100), vec![(0, 512), (512, 1024), (1024, 1100)]);
}

#[test]
fn generation_stops_on_eog_stop_sequence_or_limit() {
    let stops = vec!["</s>".to_string()];
    let mut g = Generation::new();
    assert_eq!(g.step(false, "Hello", &stops, 3), GenStep::Continue);
    assert_eq!(g.step(false, " world", &stops, 3), GenStep::Continue);
    assert_eq!(g.step(false, "!", &stops, 3), GenStep::Finished(FinishReason::Length));
    assert_eq!(g.output, "Hello world!");
    assert_eq!(g.generated, 3);

    let mut s = Generation::new();
    assert_eq!(s.step(false, "a</", &stops, 10), GenStep::Continue);
    assert_eq!(s.step(false, "s>", &stops, 10), GenStep::Finished(FinishReason::Stop));
    assert_eq!(s.generated, 1);

    let mut e = Generation::new();
    assert_eq!(e.step(true, "ignored", &stops, 10), GenStep::Finished(FinishReason::Stop));
    assert_eq!(e.output, "");
}

#[test]
fn streaming_marks_the_last_token() {
    let mut s = StreamState::new();
    assert_eq!(s.step(false, "a", &[], 2), ("a".to_string(), false));
    assert_eq!(s.step(false, "b", &[], 2), ("b".to_string(), true));
    let mut t = StreamState::new();
    assert_eq!(t.step(true, "x", &[], 5), (String::new(), true));
    let stops = vec!["END".to_string()];
    let mut u = StreamState::new();
    assert_eq!(u.step(false, "EN", &stops, 5), ("EN".to_string(), false));
    assert_eq!(u.step(false, "D", &stops, 5), ("D".to_string(), true));
}

#[test]
fn stub_engine_texts() {
    let m = ModelId::new("llama3", "8b");
    assert!(stub_content(&m).contains("model `llama3:8b` was received"));
    let toks = StubEngine.stream_tokens("llama3");
    assert_eq!(toks.len(), 8);
    assert_eq!((toks[0].text.as_str(), toks[0].is_last), ("[STUB] ", false));
    assert_eq!((toks[7].text.as_str(), toks[7].is_last), ("llama3 ", true));
    let reply = StubEngine.generate("r1".to_string(), m.clone(), 7);
    assert_eq!(reply.request_id, "r1");
    assert_eq!(reply.model, m);
    assert_eq!((reply.tokens_in, reply.tokens_out, reply.duration_ms), (10, 42, 7));
    assert_eq!(reply.device, StubEngine.device());
    assert!(reply.content.starts_with("[STUB] Maranode"));
    assert_eq!(kernel_build_id("0.1.160", false), "llama-cpp-2@0.1.160");
    assert_eq!(kernel_build_id("0.1.160", true), "llama-cpp-2@0.1.160+deterministic");
}

#[test]
fn streaming_stops_on_the_same_token() {
    let pieces = ["Hel", "lo", " wor", "ld", "!", " more"];
    for (stops, max) in [(vec!["world".to_string()], 10u32), (vec![], 3), (vec!["zz".to_string()], 4)] {
        let mut g = Generation::new();
        let mut s = StreamState::new();
        let mut g_end = None;
        let mut s_end = None;
        for (i, p) in pieces.iter().enumerate() {
            if g_end.is_none() && g.step(false, p, &stops, max) != GenStep::Continue {
                g_end = Some(i);
            }
            if s_end.is_none() {
                let (text, last) = s.step(false, p, &stops, max);
                assert_eq!(text, *p);
                if last {
                    s_end = Some(i);
                }
            }
        }
        assert_eq!(g_end, s_end);
    }
}
