//! Inference decisions: request admission, device choice, prompt layout,
//! when generation stops, and which loaded model to evict.

use vstd::prelude::*;
use crate::models::{InferenceDevice, ChatMessage, ChatRole, spec_chat_role_name, ModelId, spec_model_id_text};
use crate::text::{append_str, append_decimal, spec_decimal, lowercase, spec_lowercase, str_eq, spec_ends_with,
    chars_of, ends_with_chars, push_char};

verus! {

/// Requests waiting for, or running on, the engine, against a limit.
#[derive(Debug, Clone, Copy, PartialEq, Eq, Structural)]
pub struct Admission {
    pub waiting: usize,
    /// The limit; 0 means no limit.
    pub max_waiting: usize,
}

/// Whether one more request may be admitted.
pub open spec fn spec_has_capacity(a: Admission) -> bool {
    a.max_waiting == 0 || a.waiting < a.max_waiting
}

impl Admission {
    /// No request in flight, with the given limit.
    pub fn new(max_waiting: usize) -> (r: Admission)
        ensures
            r.waiting == 0,
            r.max_waiting == max_waiting,
    {
        Admission { waiting: 0, max_waiting }
    }

    /// Changes the limit at run time; 0 means no limit.
    pub fn set_max_waiting(&mut self, max_waiting: usize)
        ensures
            final(self).max_waiting == max_waiting,
            final(self).waiting == old(self).waiting,
    {
        self.max_waiting = max_waiting;
    }

    /// Whether a new request may enter: always when there is no limit,
    /// otherwise while fewer than the limit are in flight.
    pub fn check_capacity(&self) -> (r: bool)
        ensures
            r == spec_has_capacity(*self),
    {
        self.max_waiting == 0 || self.waiting < self.max_waiting
    }

    /// Admits a request when there is capacity; a refused request changes nothing.
    pub fn try_enter(&mut self) -> (r: bool)
        ensures
            r == (spec_has_capacity(*old(self)) && old(self).waiting < usize::MAX),
            r ==> final(self).waiting == old(self).waiting + 1,
            !r ==> final(self).waiting == old(self).waiting,
            final(self).max_waiting == old(self).max_waiting,
    {
        if self.check_capacity() && self.waiting < usize::MAX {
            self.waiting = self.waiting + 1;
            true
        } else {
            false
        }
    }

    /// Releases an admitted request.
    pub fn leave(&mut self)
        requires
            old(self).waiting > 0,
        ensures
            final(self).waiting == old(self).waiting - 1,
            final(self).max_waiting == old(self).max_waiting,
    {
        self.waiting = self.waiting - 1;
    }
}

/// Admission never lets more requests in than the limit: starting within
/// the limit, a request that is admitted leaves the count within it.
pub proof fn lemma_admission_respects_limit(before: Admission, after: Admission, admitted: bool)
    requires
        before.max_waiting > 0,
        before.waiting <= before.max_waiting,
        admitted == (spec_has_capacity(before) && before.waiting < usize::MAX),
        admitted ==> after.waiting == before.waiting + 1,
        !admitted ==> after.waiting == before.waiting,
        after.max_waiting == before.max_waiting,
    ensures
        after.waiting <= after.max_waiting,
        before.waiting == before.max_waiting ==> !admitted,
{
}

/// The message sent back when a request is refused for lack of capacity.
pub fn busy_message(waiting: u64, max: u64) -> (r: String)
    ensures
        r@ == "server busy: "@ + spec_decimal(waiting as nat) + " requests already in flight (max "@
            + spec_decimal(max as nat) + "). try again shortly."@,
{
    let mut r = String::new();
    append_str(&mut r, "server busy: ");
    append_decimal(&mut r, waiting);
    append_str(&mut r, " requests already in flight (max ");
    append_decimal(&mut r, max);
    append_str(&mut r, "). try again shortly.");
    r
}

/// Which device the operator asked for.
#[derive(Debug, Clone, Copy, PartialEq, Eq, Structural)]
pub enum DevicePreference {
    Auto,
    Cpu,
    Gpu,
    Npu,
    RyzenAi,
}

/// The preference named by lower-cased configuration text, or the refusal message.
pub open spec fn spec_preference_from_lower(s: Seq<char>) -> Result<DevicePreference, Seq<char>> {
    if s == "cpu"@ {
        Ok(DevicePreference::Cpu)
    } else if s == "gpu"@ {
        Ok(DevicePreference::Gpu)
    } else if s == "npu"@ {
        Ok(DevicePreference::Npu)
    } else if s == "ryzenai"@ {
        Ok(DevicePreference::RyzenAi)
    } else if s == "auto"@ || s.len() == 0 {
        Ok(DevicePreference::Auto)
    } else {
        Err("unknown device '"@ + s + "' (config or --device): expected: auto, cpu, gpu, npu, ryzenai"@)
    }
}

impl DevicePreference {
    /// Reads a preference from already lower-cased text; empty text means `Auto`.
    pub fn from_lower(s: &str) -> (r: Result<DevicePreference, String>)
        ensures
            match r {
                Ok(p) => spec_preference_from_lower(s@) == Ok::<DevicePreference, Seq<char>>(p),
                Err(e) => spec_preference_from_lower(s@) == Err::<DevicePreference, Seq<char>>(e@),
            },
    {
        if str_eq(s, "cpu") {
            Ok(DevicePreference::Cpu)
        } else if str_eq(s, "gpu") {
            Ok(DevicePreference::Gpu)
        } else if str_eq(s, "npu") {
            Ok(DevicePreference::Npu)
        } else if str_eq(s, "ryzenai") {
            Ok(DevicePreference::RyzenAi)
        } else if str_eq(s, "auto") || s.unicode_len() == 0 {
            Ok(DevicePreference::Auto)
        } else {
            let mut e = String::new();
            append_str(&mut e, "unknown device '");
            append_str(&mut e, s);
            append_str(&mut e, "' (config or --device): expected: auto, cpu, gpu, npu, ryzenai");
            Err(e)
        }
    }

    /// Reads a preference from configuration text, ignoring case.
    pub fn parse(s: &str) -> (r: Result<DevicePreference, String>)
        ensures
            match r {
                Ok(p) => spec_preference_from_lower(spec_lowercase(s@)) == Ok::<DevicePreference, Seq<char>>(p),
                Err(e) => spec_preference_from_lower(spec_lowercase(s@)) == Err::<DevicePreference, Seq<char>>(e@),
            },
    {
        let l = lowercase(s);
        DevicePreference::from_lower(l.as_str())
    }
}

/// The accelerator backends built into the engine.
#[derive(Debug, Clone, Copy, PartialEq, Eq, Structural)]
pub struct CompiledBackends {
    pub metal: bool,
    pub cuda: bool,
    pub rocm: bool,
    pub vulkan: bool,
    pub openvino: bool,
    pub ryzenai: bool,
}

/// Layers offloaded when a model runs on an accelerator: all of them.
pub const ALL_LAYERS_ON_GPU: u32 = 9999;

/// Largest context window opened.
pub const MAX_N_CTX: u32 = 32768;

/// Tokens decoded per batch.
pub const N_BATCH: u32 = 512;

/// Why a requested device cannot be used.
#[derive(Debug, Clone, Copy, PartialEq, Eq, Structural)]
pub enum DeviceError {
    NoGpuBackend,
    NoNpuBackend,
    NoRyzenAiBackend,
}

/// The GPU device a build offers: Metal first, then any of CUDA, ROCm, Vulkan.
pub open spec fn spec_compiled_gpu(b: CompiledBackends) -> Option<InferenceDevice> {
    if b.metal {
        Some(InferenceDevice::Metal)
    } else if b.cuda || b.rocm || b.vulkan {
        Some(InferenceDevice::Gpu)
    } else {
        None
    }
}

/// The device and offloaded layer count for a preference and a build.
pub open spec fn spec_resolve_device(pref: DevicePreference, b: CompiledBackends) -> Result<(InferenceDevice, u32), DeviceError> {
    match pref {
        DevicePreference::Auto => match spec_compiled_gpu(b) {
            Some(d) => Ok((d, ALL_LAYERS_ON_GPU)),
            None => if b.openvino {
                Ok((InferenceDevice::Npu, ALL_LAYERS_ON_GPU))
            } else if b.ryzenai {
                Ok((InferenceDevice::RyzenAi, ALL_LAYERS_ON_GPU))
            } else {
                Ok((InferenceDevice::Cpu, 0))
            },
        },
        DevicePreference::Cpu => Ok((InferenceDevice::Cpu, 0)),
        DevicePreference::Gpu => match spec_compiled_gpu(b) {
            Some(d) => Ok((d, ALL_LAYERS_ON_GPU)),
            None => Err(DeviceError::NoGpuBackend),
        },
        DevicePreference::Npu => if b.openvino {
            Ok((InferenceDevice::Npu, ALL_LAYERS_ON_GPU))
        } else {
            Err(DeviceError::NoNpuBackend)
        },
        DevicePreference::RyzenAi => if b.ryzenai {
            Ok((InferenceDevice::RyzenAi, ALL_LAYERS_ON_GPU))
        } else {
            Err(DeviceError::NoRyzenAiBackend)
        },
    }
}

/// Chooses the device: `Auto` prefers a GPU, then the Intel NPU, then the
/// AMD Ryzen AI NPU, then the CPU; an explicit accelerator must be built in.
/// Accelerated devices get every layer offloaded, the CPU none.
pub fn resolve_device(pref: DevicePreference, backends: CompiledBackends) -> (r: Result<(InferenceDevice, u32), DeviceError>)
    ensures
        r == spec_resolve_device(pref, backends),
{
    let gpu = if backends.metal {
        Some(InferenceDevice::Metal)
    } else if backends.cuda || backends.rocm || backends.vulkan {
        Some(InferenceDevice::Gpu)
    } else {
        None
    };
    match pref {
        DevicePreference::Auto => match gpu {
            Some(d) => Ok((d, ALL_LAYERS_ON_GPU)),
            None => if backends.openvino {
                Ok((InferenceDevice::Npu, ALL_LAYERS_ON_GPU))
            } else if backends.ryzenai {
                Ok((InferenceDevice::RyzenAi, ALL_LAYERS_ON_GPU))
            } else {
                Ok((InferenceDevice::Cpu, 0))
            },
        },
        DevicePreference::Cpu => Ok((InferenceDevice::Cpu, 0)),
        DevicePreference::Gpu => match gpu {
            Some(d) => Ok((d, ALL_LAYERS_ON_GPU)),
            None => Err(DeviceError::NoGpuBackend),
        },
        DevicePreference::Npu => if backends.openvino {
            Ok((InferenceDevice::Npu, ALL_LAYERS_ON_GPU))
        } else {
            Err(DeviceError::NoNpuBackend)
        },
        DevicePreference::RyzenAi => if backends.ryzenai {
            Ok((InferenceDevice::RyzenAi, ALL_LAYERS_ON_GPU))
        } else {
            Err(DeviceError::NoRyzenAiBackend)
        },
    }
}

/// A resolved device offloads every layer exactly when it is an accelerator.
pub proof fn lemma_resolved_offload_matches_acceleration(pref: DevicePreference, b: CompiledBackends)
    ensures
        spec_resolve_device(pref, b) matches Ok((d, layers)) ==>
            (layers == ALL_LAYERS_ON_GPU <==> !(d is Cpu)) && (layers == 0 <==> d is Cpu),
        pref == DevicePreference::Cpu ==> spec_resolve_device(pref, b) == Ok::<(InferenceDevice, u32), DeviceError>((InferenceDevice::Cpu, 0)),
        pref == DevicePreference::Auto ==> spec_resolve_device(pref, b) is Ok,
{
}

/// The text of a device error.
pub open spec fn spec_device_error_text(e: DeviceError) -> Seq<char> {
    match e {
        DeviceError::NoGpuBackend => "GPU device requested but no GPU backend was compiled in. Rebuild with one of: --features metal, --features cuda, --features rocm, or --features vulkan."@,
        DeviceError::NoNpuBackend => "NPU device requested but OpenVINO backend was not compiled in. Rebuild with: LLAMA_CMAKE_ARGS=\"-DGGML_OPENVINO=ON\" cargo build --features openvino"@,
        DeviceError::NoRyzenAiBackend => "AMD Ryzen AI device requested but the ryzenai backend was not compiled in. Rebuild with: LLAMA_CMAKE_ARGS=\"-DGGML_RYZEN_AI=ON\" cargo build --features ryzenai"@,
    }
}

impl DeviceError {
    /// What the operator is told.
    pub fn message(&self) -> (r: &'static str)
        ensures
            r@ == spec_device_error_text(*self),
    {
        match self {
            DeviceError::NoGpuBackend => "GPU device requested but no GPU backend was compiled in. Rebuild with one of: --features metal, --features cuda, --features rocm, or --features vulkan.",
            DeviceError::NoNpuBackend => "NPU device requested but OpenVINO backend was not compiled in. Rebuild with: LLAMA_CMAKE_ARGS=\"-DGGML_OPENVINO=ON\" cargo build --features openvino",
            DeviceError::NoRyzenAiBackend => "AMD Ryzen AI device requested but the ryzenai backend was not compiled in. Rebuild with: LLAMA_CMAKE_ARGS=\"-DGGML_RYZEN_AI=ON\" cargo build --features ryzenai",
        }
    }
}

/// The ChatML text of one message.
pub open spec fn chatml_message(role: ChatRole, content: Seq<char>) -> Seq<char> {
    "<|im_start|>"@ + spec_chat_role_name(role) + seq!['\n'] + content + "<|im_end|>\n"@
}

/// The ChatML text of the messages alone.
pub open spec fn chatml_body(messages: Seq<ChatMessage>) -> Seq<char>
    decreases messages.len(),
{
    if messages.len() == 0 {
        Seq::empty()
    } else {
        chatml_body(messages.drop_last()) + chatml_message(messages.last().role, messages.last().content@)
    }
}

/// Lays a conversation out as a ChatML prompt.
pub fn build_chatml_prompt(messages: &[ChatMessage]) -> (r: String)
    ensures
        r@ == chatml_body(messages@) + "<|im_start|>assistant\n"@,
{
    let mut buf = String::new();
    let mut i: usize = 0;
    while i < messages.len()
        invariant
            0 <= i <= messages@.len(),
            buf@ == chatml_body(messages@.take(i as int)),
        decreases messages@.len() - i,
    {
        let msg = &messages[i];
        let ghost before = buf@;
        append_str(&mut buf, "<|im_start|>");
        append_str(&mut buf, msg.role.as_str());
        push_char(&mut buf, '\n');
        append_str(&mut buf, msg.content.as_str());
        append_str(&mut buf, "<|im_end|>\n");
        proof {
            assert(messages@.take(i + 1).drop_last() =~= messages@.take(i as int));
            assert(buf@ =~= before + chatml_message(msg.role, msg.content@));
        }
        i = i + 1;
    }
    append_str(&mut buf, "<|im_start|>assistant\n");
    proof {
        assert(messages@.take(messages@.len() as int) =~= messages@);
    }
    buf
}

/// The identity of the inference kernels built in.
pub fn kernel_build_id(llama_version: &str, deterministic: bool) -> (r: String)
    ensures
        r@ == "llama-cpp-2@"@ + llama_version@ + if deterministic { "+deterministic"@ } else { Seq::empty() },
{
    let mut r = String::new();
    append_str(&mut r, "llama-cpp-2@");
    append_str(&mut r, llama_version);
    if deterministic {
        append_str(&mut r, "+deterministic");
    } else {
        assert(r@ + Seq::<char>::empty() =~= r@);
    }
    r
}

/// Why generation ended.
#[derive(Debug, Clone, Copy, PartialEq, Eq, Structural)]
pub enum FinishReason {
    /// An end-of-generation token or a stop sequence.
    Stop,
    /// The token limit.
    Length,
    /// The engine failed.
    Error,
}

/// The context window opened for a model trained with `n_ctx_train`.
pub fn context_window(n_ctx_train: u32) -> (r: u32)
    ensures
        r == if n_ctx_train < MAX_N_CTX { n_ctx_train } else { MAX_N_CTX },
{
    if n_ctx_train < MAX_N_CTX { n_ctx_train } else { MAX_N_CTX }
}

/// Refuses a prompt that does not leave room in the context window.
pub fn check_prompt_fits(n_prompt: u64, n_ctx: u32) -> (r: Result<(), String>)
    ensures
        r is Ok <==> n_prompt < n_ctx,
        r matches Err(e) ==> e@ == "prompt ("@ + spec_decimal(n_prompt as nat) + " tokens) \u{2265} context window ("@
            + spec_decimal(n_ctx as nat) + ")"@,
{
    if n_prompt < n_ctx as u64 {
        Ok(())
    } else {
        let mut e = String::new();
        append_str(&mut e, "prompt (");
        append_decimal(&mut e, n_prompt);
        append_str(&mut e, " tokens) \u{2265} context window (");
        append_decimal(&mut e, n_ctx as u64);
        append_str(&mut e, ")");
        Err(e)
    }
}

/// The smaller of two integers.
pub open spec fn min_int(a: int, b: int) -> int {
    if a < b { a } else { b }
}

/// The ranges of prompt tokens decoded batch by batch: consecutive ranges of
/// `N_BATCH` tokens, the last one shorter, covering `0..n` in order.
pub fn prompt_chunks(n: usize) -> (r: Vec<(usize, usize)>)
    ensures
        forall|i: int| 0 <= i < r@.len() ==> (#[trigger] r@[i]).0 == i * 512
            && r@[i].1 == min_int((i + 1) * 512, n as int) && r@[i].0 < r@[i].1,
        r@.len() * 512 >= n,
        r@.len() == 0 || (r@.len() - 1) * 512 < n,
{
    let mut r: Vec<(usize, usize)> = Vec::new();
    let mut start: usize = 0;
    while start < n
        invariant
            start == min_int(r@.len() as int * 512, n as int),
            forall|i: int| 0 <= i < r@.len() ==> (#[trigger] r@[i]).0 == i * 512
                && r@[i].1 == min_int((i + 1) * 512, n as int) && r@[i].0 < r@[i].1,
            r@.len() == 0 || (r@.len() - 1) * 512 < n,
        decreases n - start,
    {
        let end = if n - start > 512 { start + 512 } else { n };
        r.push((start, end));
        start = end;
    }
    r
}

/// Whether a text ends with one of the stop sequences (an empty stop
/// sequence ends every text).
pub open spec fn hits_stop(text: Seq<char>, stops: Seq<String>) -> bool {
    exists|i: int| 0 <= i < stops.len() && spec_ends_with(text, #[trigger] stops[i]@)
}

fn ends_with_any(text: &[char], stops: &[String]) -> (r: bool)
    ensures
        r == hits_stop(text@, stops@),
{
    let mut i: usize = 0;
    while i < stops.len()
        invariant
            0 <= i <= stops@.len(),
            forall|j: int| 0 <= j < i ==> !spec_ends_with(text@, #[trigger] stops@[j]@),
        decreases stops@.len() - i,
    {
        let sv = chars_of(stops[i].as_str());
        if ends_with_chars(text, sv.as_slice()) {
            return true;
        }
        i = i + 1;
    }
    false
}

/// Whether `generated` tokens reach the limit. A limit above `i32::MAX` is
/// compared as the negative number it wraps to, so it is always reached.
pub open spec fn limit_reached(generated: int, max_tokens: u32) -> bool {
    max_tokens > 0x7fff_ffff || generated >= max_tokens
}

/// Where a generation stands: the text so far and how many tokens it took.
#[derive(Debug, Clone)]
pub struct Generation {
    pub output: String,
    pub generated: u64,
}

/// What to do after a sampled token.
#[derive(Debug, Clone, Copy, PartialEq, Eq, Structural)]
pub enum GenStep {
    /// Feed the token back and sample again.
    Continue,
    /// Generation is over.
    Finished(FinishReason),
}

/// The outcome of one sampled token: the next state and the step.
pub open spec fn spec_gen_step(output: Seq<char>, generated: int, is_eog: bool, piece: Seq<char>,
    stops: Seq<String>, max_tokens: u32) -> (Seq<char>, int, GenStep) {
    if is_eog {
        (output, generated, GenStep::Finished(FinishReason::Stop))
    } else if hits_stop(output + piece, stops) {
        (output + piece, generated, GenStep::Finished(FinishReason::Stop))
    } else if limit_reached(generated + 1, max_tokens) {
        (output + piece, generated + 1, GenStep::Finished(FinishReason::Length))
    } else {
        (output + piece, generated + 1, GenStep::Continue)
    }
}

impl Generation {
    /// Nothing generated yet.
    pub fn new() -> (r: Generation)
        ensures
            r.output@.len() == 0,
            r.generated == 0,
    {
        Generation { output: String::new(), generated: 0 }
    }

    /// Takes one sampled token. An end-of-generation token stops at once; any
    /// other token's text is appended, and generation stops when the output
    /// ends with a stop sequence or, counting the token, the limit is reached.
    pub fn step(&mut self, is_eog: bool, piece: &str, stop_sequences: &[String], max_tokens: u32) -> (r: GenStep)
        requires
            old(self).generated < u64::MAX,
        ensures
            (final(self).output@, final(self).generated as int, r)
                == spec_gen_step(old(self).output@, old(self).generated as int, is_eog, piece@, stop_sequences@, max_tokens),
    {
        if is_eog {
            return GenStep::Finished(FinishReason::Stop);
        }
        append_str(&mut self.output, piece);
        let text = chars_of(self.output.as_str());
        if ends_with_any(text.as_slice(), stop_sequences) {
            return GenStep::Finished(FinishReason::Stop);
        }
        self.generated = self.generated + 1;
        if max_tokens > 0x7fff_ffff || self.generated >= max_tokens as u64 {
            GenStep::Finished(FinishReason::Length)
        } else {
            GenStep::Continue
        }
    }
}

/// Generation never counts more tokens than the limit: starting below it,
/// each step keeps the count at most the limit, and a step that reaches it
/// finishes.
pub proof fn lemma_generation_within_limit(output: Seq<char>, generated: int, is_eog: bool, piece: Seq<char>,
    stops: Seq<String>, max_tokens: u32)
    requires
        max_tokens <= 0x7fff_ffff,
        0 <= generated < max_tokens,
    ensures
        spec_gen_step(output, generated, is_eog, piece, stops, max_tokens).1 <= max_tokens,
        spec_gen_step(output, generated, is_eog, piece, stops, max_tokens).2 == GenStep::Continue
            ==> spec_gen_step(output, generated, is_eog, piece, stops, max_tokens).1 < max_tokens,
{
}

/// The token sent to a streaming client: its text, and whether it is the last.
pub open spec fn spec_stream_step(emitted: Seq<char>, generated: int, is_eog: bool, piece: Seq<char>,
    stops: Seq<String>, max_tokens: u32) -> (Seq<char>, int, Seq<char>, bool) {
    let text = if is_eog { Seq::empty() } else { piece };
    let emitted2 = if stops.len() == 0 { emitted } else { emitted + text };
    let hit = stops.len() != 0 && hits_stop(emitted2, stops);
    let last = is_eog || hit || limit_reached(generated + 1, max_tokens);
    (emitted2, if last { generated } else { generated + 1 }, text, last)
}

/// Streaming stops exactly where the non-streaming path stops: from the same
/// state (the same count, and the same text whenever stop sequences are
/// given), one token ends both or neither, the streamed text is the token's
/// (empty at end of generation), and when neither ends both move on to the
/// same state again.
pub proof fn lemma_stream_stops_with_generation(text: Seq<char>, generated: int, is_eog: bool, piece: Seq<char>,
    stops: Seq<String>, max_tokens: u32)
    ensures
        ({
            let g = spec_gen_step(text, generated, is_eog, piece, stops, max_tokens);
            let st = spec_stream_step(if stops.len() == 0 { Seq::empty() } else { text }, generated, is_eog, piece,
                stops, max_tokens);
            &&& st.3 == (g.2 != GenStep::Continue)
            &&& st.2 == (if is_eog { Seq::<char>::empty() } else { piece })
            &&& !st.3 ==> st.1 == g.1
            &&& stops.len() > 0 ==> st.0 == g.0
        }),
{
    if stops.len() == 0 {
        assert(!hits_stop(text + piece, stops));
    }
    if is_eog {
        assert(text + Seq::<char>::empty() =~= text);
    }
}

/// Where a streamed generation stands: the text checked for stop sequences
/// and how many tokens were fed back.
#[derive(Debug, Clone)]
pub struct StreamState {
    pub emitted: String,
    pub generated: u64,
}

impl StreamState {
    /// Nothing streamed yet.
    pub fn new() -> (r: StreamState)
        ensures
            r.emitted@.len() == 0,
            r.generated == 0,
    {
        StreamState { emitted: String::new(), generated: 0 }
    }

    /// Takes one sampled token and gives the text to send and whether it is
    /// the last token: at end of generation (sending empty text), on a stop
    /// sequence, or when this token reaches the limit.
    pub fn step(&mut self, is_eog: bool, piece: &str, stop_sequences: &[String], max_tokens: u32) -> (r: (String, bool))
        requires
            old(self).generated < u64::MAX,
        ensures
            (final(self).emitted@, final(self).generated as int, r.0@, r.1)
                == spec_stream_step(old(self).emitted@, old(self).generated as int, is_eog, piece@, stop_sequences@, max_tokens),
    {
        let text = if is_eog { String::new() } else { piece.to_owned() };
        let hit = if stop_sequences.len() == 0 {
            false
        } else {
            append_str(&mut self.emitted, text.as_str());
            let cs = chars_of(self.emitted.as_str());
            ends_with_any(cs.as_slice(), stop_sequences)
        };
        let n_new = self.generated + 1;
        let last = is_eog || hit || max_tokens > 0x7fff_ffff || n_new >= max_tokens as u64;
        if !last {
            self.generated = n_new;
        }
        (text, last)
    }
}

/// The reply of the stand-in engine used when no inference backend is wired.
pub fn stub_content(model: &ModelId) -> (r: String)
    ensures
        r@ == "[STUB] Maranode inference engine is not yet connected to llama.cpp. Your request for model `"@
            + spec_model_id_text(model.name@, model.tag@)
            + "` was received. Replace StubEngine with LlamaCppEngine to get real inference."@,
{
    let mut r = String::new();
    append_str(&mut r, "[STUB] Maranode inference engine is not yet connected to llama.cpp. Your request for model `");
    let id = model.to_string();
    append_str(&mut r, id.as_str());
    append_str(&mut r, "` was received. Replace StubEngine with LlamaCppEngine to get real inference.");
    r
}

/// The words the stand-in engine streams, the model's name last.
pub open spec fn stub_words(model_name: Seq<char>) -> Seq<Seq<char>> {
    seq!["[STUB]"@, "llama.cpp"@, "FFI"@, "not"@, "yet"@, "wired."@, "Model:"@, model_name]
}

/// One streamed piece of a reply.
#[derive(Debug, Clone)]
pub struct Token {
    pub text: String,
    pub is_last: bool,
}

/// A finished reply of the engine.
#[derive(Debug, Clone)]
pub struct InferenceResponse {
    pub request_id: String,
    pub model: ModelId,
    pub content: String,
    pub tokens_in: u32,
    pub tokens_out: u32,
    pub duration_ms: u64,
    pub device: InferenceDevice,
    pub finish_reason: FinishReason,
}

/// The stand-in engine used when no inference backend is wired: canned
/// replies on the CPU.
pub struct StubEngine;

impl StubEngine {
    /// The canned reply to a request, which took `duration_ms`.
    pub fn generate(&self, request_id: String, model: ModelId, duration_ms: u64) -> (r: InferenceResponse)
        ensures
            r.request_id == request_id,
            r.model == model,
            r.content@ == "[STUB] Maranode inference engine is not yet connected to llama.cpp. Your request for model `"@
                + spec_model_id_text(model.name@, model.tag@)
                + "` was received. Replace StubEngine with LlamaCppEngine to get real inference."@,
            r.tokens_in == 10,
            r.tokens_out == 42,
            r.duration_ms == duration_ms,
            r.device == InferenceDevice::Cpu,
            r.finish_reason == FinishReason::Stop,
    {
        let content = stub_content(&model);
        InferenceResponse {
            request_id,
            model,
            content,
            tokens_in: 10,
            tokens_out: 42,
            duration_ms,
            device: InferenceDevice::Cpu,
            finish_reason: FinishReason::Stop,
        }
    }

    /// The tokens streamed for a model: each stand-in word followed by a
    /// space, the last one marked as last.
    pub fn stream_tokens(&self, model_name: &str) -> (r: Vec<Token>)
        ensures
            r@.len() == 8,
            forall|i: int| 0 <= i < 8 ==> (#[trigger] r@[i]).text@ == stub_words(model_name@)[i] + " "@
                && r@[i].is_last == (i == 7),
    {
        let words: Vec<&str> = vec!["[STUB]", "llama.cpp", "FFI", "not", "yet", "wired.", "Model:", model_name];
        assert(words@.len() == 8);
        let mut r: Vec<Token> = Vec::new();
        let mut i: usize = 0;
        while i < words.len()
            invariant
                words@ == seq!["[STUB]", "llama.cpp", "FFI", "not", "yet", "wired.", "Model:", model_name],
                0 <= i <= 8,
                r@.len() == i,
                forall|j: int| 0 <= j < i ==> (#[trigger] r@[j]).text@ == stub_words(model_name@)[j] + " "@
                    && r@[j].is_last == (j == 7),
            decreases 8 - i,
        {
            let mut t = words[i].to_owned();
            append_str(&mut t, " ");
            r.push(Token { text: t, is_last: i == words.len() - 1 });
            i = i + 1;
        }
        r
    }

    /// The stand-in engine runs on the CPU.
    pub fn device(&self) -> (r: InferenceDevice)
        ensures
            r == InferenceDevice::Cpu,
    {
        InferenceDevice::Cpu
    }
}

/// Every compiled GPU backend gives a GPU with all layers offloaded, for
/// `Auto` and for `Gpu`: Metal as `Metal`, and otherwise CUDA, ROCm or
/// Vulkan each as `Gpu`. Only a build with none of the four refuses `Gpu`.
pub proof fn lemma_gpu_backends_give_gpu(b: CompiledBackends)
    ensures
        b.metal ==> spec_resolve_device(DevicePreference::Auto, b)
            == Ok::<(InferenceDevice, u32), DeviceError>((InferenceDevice::Metal, 9999))
            && spec_resolve_device(DevicePreference::Gpu, b)
            == Ok::<(InferenceDevice, u32), DeviceError>((InferenceDevice::Metal, 9999)),
        !b.metal && b.cuda ==> spec_resolve_device(DevicePreference::Auto, b)
            == Ok::<(InferenceDevice, u32), DeviceError>((InferenceDevice::Gpu, 9999))
            && spec_resolve_device(DevicePreference::Gpu, b)
            == Ok::<(InferenceDevice, u32), DeviceError>((InferenceDevice::Gpu, 9999)),
        !b.metal && b.rocm ==> spec_resolve_device(DevicePreference::Auto, b)
            == Ok::<(InferenceDevice, u32), DeviceError>((InferenceDevice::Gpu, 9999))
            && spec_resolve_device(DevicePreference::Gpu, b)
            == Ok::<(InferenceDevice, u32), DeviceError>((InferenceDevice::Gpu, 9999)),
        !b.metal && b.vulkan ==> spec_resolve_device(DevicePreference::Auto, b)
            == Ok::<(InferenceDevice, u32), DeviceError>((InferenceDevice::Gpu, 9999))
            && spec_resolve_device(DevicePreference::Gpu, b)
            == Ok::<(InferenceDevice, u32), DeviceError>((InferenceDevice::Gpu, 9999)),
        !b.metal && !b.cuda && !b.rocm && !b.vulkan ==> spec_resolve_device(DevicePreference::Gpu, b)
            == Err::<(InferenceDevice, u32), DeviceError>(DeviceError::NoGpuBackend),
{
}

} // verus!
