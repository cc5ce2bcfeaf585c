//! Core domain values shared by the daemon, the engine and the CLI.

use vstd::prelude::*;
use crate::text::{chars_of, string_of, append_str, find_char, index_of_char, lemma_index_of_char,
    lemma_index_of_char_none};

verus! {

/// A model id of the form `name:tag`.
#[derive(Debug, Clone, PartialEq, Eq, Hash)]
pub struct ModelId {
    pub name: String,
    pub tag: String,
}

/// The parts of `name:tag` text: everything before the first colon, and
/// everything after it (further colons stay in the tag).
pub open spec fn spec_split_model_id(s: Seq<char>) -> Option<(Seq<char>, Seq<char>)> {
    match index_of_char(s, ':') {
        Some(i) => Some((s.take(i), s.skip(i + 1))),
        None => None,
    }
}

/// The text form of a model id.
pub open spec fn spec_model_id_text(name: Seq<char>, tag: Seq<char>) -> Seq<char> {
    name + seq![':'] + tag
}

impl ModelId {
    /// A model id from its two parts.
    pub fn new(name: &str, tag: &str) -> (r: ModelId)
        ensures
            r.name@ == name@,
            r.tag@ == tag@,
    {
        ModelId { name: name.to_owned(), tag: tag.to_owned() }
    }

    /// Splits `name:tag` at the first colon; `None` when there is no colon.
    pub fn parse(s: &str) -> (r: Option<ModelId>)
        ensures
            match r {
                Some(m) => spec_split_model_id(s@) == Some((m.name@, m.tag@)),
                None => spec_split_model_id(s@) is None,
            },
    {
        let cs = chars_of(s);
        match find_char(cs.as_slice(), ':') {
            Some(i) => {
                assert(i < cs.len());
                let name = string_of(&cs.as_slice()[0..i]);
                let tag = string_of(&cs.as_slice()[i + 1..cs.len()]);
                proof {
                    assert(cs@.subrange(0, i as int) =~= s@.take(i as int));
                    assert(cs@.subrange(i + 1, cs@.len() as int) =~= s@.skip(i + 1));
                }
                Some(ModelId { name, tag })
            },
            None => None,
        }
    }

    /// The id written as `name:tag`.
    pub fn to_string(&self) -> (r: String)
        ensures
            r@ == spec_model_id_text(self.name@, self.tag@),
    {
        let mut r = self.name.clone();
        append_str(&mut r, ":");
        append_str(&mut r, self.tag.as_str());
        proof {
            reveal_strlit(":");
        }
        r
    }
}

/// Writing an id as text and reading it back gives the same parts, when the
/// name holds no colon.
pub proof fn lemma_model_id_roundtrip(name: Seq<char>, tag: Seq<char>)
    requires
        !name.contains(':'),
    ensures
        spec_split_model_id(spec_model_id_text(name, tag)) == Some((name, tag)),
{
    let s = spec_model_id_text(name, tag);
    let i = name.len() as int;
    assert(s[i] == ':');
    assert forall|j: int| 0 <= j < i implies s[j] != ':' by {
        assert(s[j] == name[j]);
    }
    lemma_index_of_char(s, ':', i);
    assert(s.take(i) =~= name);
    assert(s.skip(i + 1) =~= tag);
}

proof fn lemma_first_colon(s: Seq<char>, k: int)
    requires
        0 <= k < s.len(),
        s[k] == ':',
    ensures
        exists|i: int| 0 <= i <= k && #[trigger] s[i] == ':' && forall|j: int| 0 <= j < i ==> s[j] != ':',
    decreases k,
{
    if exists|j: int| 0 <= j < k && s[j] == ':' {
        let j = choose|j: int| 0 <= j < k && s[j] == ':';
        lemma_first_colon(s, j);
    } else {
        assert(s[k] == ':');
    }
}

/// Reading text as an id and writing the id back gives the text: reading
/// fails exactly when the text has no colon, and otherwise the name holds
/// no colon and `name:tag` is the text again.
pub proof fn lemma_model_id_parse_display(s: Seq<char>)
    ensures
        spec_split_model_id(s) is None <==> !s.contains(':'),
        spec_split_model_id(s) matches Some((name, tag)) ==> !name.contains(':') && spec_model_id_text(name, tag) == s,
{
    if s.contains(':') {
        let k = choose|k: int| 0 <= k < s.len() && s[k] == ':';
        lemma_first_colon(s, k);
        let i = choose|i: int| 0 <= i <= k && #[trigger] s[i] == ':' && forall|j: int| 0 <= j < i ==> s[j] != ':';
        lemma_index_of_char(s, ':', i);
        let name = s.take(i);
        assert forall|j: int| 0 <= j < name.len() implies name[j] != ':' by {
            assert(name[j] == s[j]);
        }
        assert(spec_model_id_text(name, s.skip(i + 1)) =~= s);
    } else {
        lemma_index_of_char_none(s, ':');
    }
}

/// The on-disk format of a model.
#[derive(Debug, Clone, Copy, PartialEq, Eq, Structural)]
pub enum ModelFormat {
    Gguf,
}

/// What a model is for.
#[derive(Debug, Clone, Copy, PartialEq, Eq, Structural)]
pub enum ModelType {
    Llm,
    Embedding,
}

impl Default for ModelType {
    fn default() -> (r: ModelType)
        ensures
            r == ModelType::Llm,
    {
        ModelType::Llm
    }
}

/// Where inference runs.
#[derive(Debug, Clone, Copy, PartialEq, Eq, Structural)]
pub enum InferenceDevice {
    Cpu,
    Gpu,
    Metal,
    /// Intel NPU through OpenVINO.
    Npu,
    /// AMD Ryzen AI NPU through the XDNA driver.
    RyzenAi,
}

/// The lower-case name of a device.
pub open spec fn spec_device_name(d: InferenceDevice) -> Seq<char> {
    match d {
        InferenceDevice::Cpu => "cpu"@,
        InferenceDevice::Gpu => "gpu"@,
        InferenceDevice::Metal => "metal"@,
        InferenceDevice::Npu => "npu"@,
        InferenceDevice::RyzenAi => "ryzenai"@,
    }
}

impl InferenceDevice {
    /// Every device but the CPU accelerates inference.
    pub fn is_accelerated(self) -> (r: bool)
        ensures
            r == !(self is Cpu),
    {
        !matches!(self, InferenceDevice::Cpu)
    }

    /// The device's lower-case name.
    pub fn as_str(&self) -> (r: &'static str)
        ensures
            r@ == spec_device_name(*self),
    {
        match self {
            InferenceDevice::Cpu => "cpu",
            InferenceDevice::Gpu => "gpu",
            InferenceDevice::Metal => "metal",
            InferenceDevice::Npu => "npu",
            InferenceDevice::RyzenAi => "ryzenai",
        }
    }

    /// The device's lower-case name as a `String`.
    pub fn to_string(&self) -> (r: String)
        ensures
            r@ == spec_device_name(*self),
    {
        self.as_str().to_owned()
    }
}

/// Who wrote a chat message.
#[derive(Debug, Clone, Copy, PartialEq, Eq, Structural)]
pub enum ChatRole {
    System,
    User,
    Assistant,
}

/// The lower-case name of a chat role.
pub open spec fn spec_chat_role_name(r: ChatRole) -> Seq<char> {
    match r {
        ChatRole::System => "system"@,
        ChatRole::User => "user"@,
        ChatRole::Assistant => "assistant"@,
    }
}

impl ChatRole {
    /// The role's lower-case name.
    pub fn as_str(&self) -> (r: &'static str)
        ensures
            r@ == spec_chat_role_name(*self),
    {
        match self {
            ChatRole::System => "system",
            ChatRole::User => "user",
            ChatRole::Assistant => "assistant",
        }
    }
}

/// One message of a conversation.
#[derive(Debug, Clone)]
pub struct ChatMessage {
    pub role: ChatRole,
    pub content: String,
}

/// The number of tokens generated when a request names no limit.
pub fn default_max_tokens() -> (r: u32)
    ensures
        r == 2048,
{
    2048
}

} // verus!
