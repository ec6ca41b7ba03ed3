//! Startup configuration as plain values: named external commands and the
//! lifecycle hooks that run them, key bindings, and model presets.

use vstd::prelude::*;

verus! {

/// A lifecycle moment that can run configured commands.
#[derive(Clone, Copy, Debug, PartialEq, Eq, Structural)]
pub enum HookEvent {
    Open,
    Save,
    BeforeLlm,
}

/// What a command reads on standard input.
#[derive(Clone, Copy, Debug, PartialEq, Eq, Structural)]
pub enum CommandInput {
    Nothing,
    Buffer,
    Selection,
}

/// What a command's output may become once previewed and confirmed.
#[derive(Clone, Copy, Debug, PartialEq, Eq, Structural)]
pub enum CommandOutput {
    Show,
    Insert,
    ReplaceSelection,
    ReplaceBuffer,
}

/// One named command.
pub struct CommandSpec {
    pub name: String,
    pub command: String,
    pub input: CommandInput,
    pub output: CommandOutput,
    pub timeout_ms: u64,
}

/// The configured commands and, per lifecycle event, the names to run in order.
pub struct CommandConfig {
    pub commands: Vec<CommandSpec>,
    pub on_open: Vec<String>,
    pub on_save: Vec<String>,
    pub before_llm: Vec<String>,
}

/// The names that `event` runs, in order.
pub open spec fn hook_names(c: &CommandConfig, event: HookEvent) -> Seq<String> {
    match event {
        HookEvent::Open => c.on_open@,
        HookEvent::Save => c.on_save@,
        HookEvent::BeforeLlm => c.before_llm@,
    }
}

impl CommandConfig {
    /// No commands and no hooks.
    pub fn new() -> (res: CommandConfig)
        ensures
            res.commands@.len() == 0,
            res.on_open@.len() == 0,
            res.on_save@.len() == 0,
            res.before_llm@.len() == 0,
    {
        CommandConfig { commands: Vec::new(), on_open: Vec::new(), on_save: Vec::new(), before_llm: Vec::new() }
    }

    /// The first command called `name`.
    pub fn get(&self, name: &str) -> (res: Option<&CommandSpec>)
        ensures
            res matches Some(s) ==> exists|i: int|
                0 <= i < self.commands@.len() && self.commands@[i] == *s && s.name@ == name@ && forall|j: int|
                    0 <= j < i ==> self.commands@[j].name@ != name@,
            res is None ==> forall|i: int| 0 <= i < self.commands@.len() ==> self.commands@[i].name@ != name@,
    {
        let wanted = String::from_str(name);
        let mut i: usize = 0;
        while i < self.commands.len()
            invariant
                0 <= i <= self.commands@.len(),
                wanted@ == name@,
                forall|j: int| 0 <= j < i ==> self.commands@[j].name@ != name@,
            decreases self.commands@.len() - i,
        {
            if self.commands[i].name == wanted {
                return Some(&self.commands[i]);
            }
            i += 1;
        }
        None
    }

    /// The names `event` runs, in order.
    pub fn hooks_for(&self, event: HookEvent) -> (res: &Vec<String>)
        ensures
            res@ == hook_names(self, event),
    {
        match event {
            HookEvent::Open => &self.on_open,
            HookEvent::Save => &self.on_save,
            HookEvent::BeforeLlm => &self.before_llm,
        }
    }
}

/// Session settings for inline autocomplete.
pub struct AutocompleteConfig {
    pub enabled: bool,
    pub allow_remote: bool,
    pub model: Option<String>,
    pub idle_debounce_ms: u64,
    pub max_context_before: usize,
    pub max_context_after: usize,
    pub max_generated_tokens: usize,
    pub minimum_prefix_length: usize,
}

impl AutocompleteConfig {
    /// Off, local only, 300 ms debounce, 2048/512 scalars of context, 64 tokens.
    pub fn new() -> (res: AutocompleteConfig)
        ensures
            !res.enabled,
            !res.allow_remote,
            res.model is None,
            res.idle_debounce_ms == 300,
            res.max_context_before == 2048,
            res.max_context_after == 512,
            res.max_generated_tokens == 64,
            res.minimum_prefix_length == 3,
    {
        AutocompleteConfig {
            enabled: false,
            allow_remote: false,
            model: None,
            idle_debounce_ms: 300,
            max_context_before: 2048,
            max_context_after: 512,
            max_generated_tokens: 64,
            minimum_prefix_length: 3,
        }
    }

    pub fn copy(&self) -> (res: AutocompleteConfig)
        ensures
            res == *self,
    {
        AutocompleteConfig {
            enabled: self.enabled,
            allow_remote: self.allow_remote,
            model: match &self.model {
                Some(m) => Some(m.clone()),
                None => None,
            },
            idle_debounce_ms: self.idle_debounce_ms,
            max_context_before: self.max_context_before,
            max_context_after: self.max_context_after,
            max_generated_tokens: self.max_generated_tokens,
            minimum_prefix_length: self.minimum_prefix_length,
        }
    }
}

/// How a model preset is reached.
pub enum BackendAdapter {
    /// An OpenAI-compatible HTTP endpoint.
    OpenAiCompatible { base_url: String },
    /// A configured local program.
    Command { program: String },
}

/// A named model configuration.
pub struct BackendPreset {
    pub name: String,
    pub model: String,
    pub adapter: BackendAdapter,
}

impl BackendPreset {
    pub fn copy(&self) -> (res: BackendPreset)
        ensures
            res == *self,
    {
        BackendPreset {
            name: self.name.clone(),
            model: self.model.clone(),
            adapter: match &self.adapter {
                BackendAdapter::OpenAiCompatible { base_url } => BackendAdapter::OpenAiCompatible {
                    base_url: base_url.clone(),
                },
                BackendAdapter::Command { program } => BackendAdapter::Command { program: program.clone() },
            },
        }
    }
}

/// The available presets; the first is the default.
pub struct LlmCatalog {
    pub presets: Vec<BackendPreset>,
}

impl LlmCatalog {
    /// One preset, `local`, on a loopback HTTP endpoint.
    pub fn new() -> (res: LlmCatalog)
        ensures
            res.presets@.len() == 1,
            res.presets@[0].name@ == "local"@,
            res.presets@[0].model@ == "local-model"@,
            res.presets@[0].adapter matches BackendAdapter::OpenAiCompatible { base_url } && base_url@
                == "http://127.0.0.1:8080/v1"@,
    {
        let mut presets: Vec<BackendPreset> = Vec::new();
        presets.push(
            BackendPreset {
                name: String::from_str("local"),
                model: String::from_str("local-model"),
                adapter: BackendAdapter::OpenAiCompatible { base_url: String::from_str("http://127.0.0.1:8080/v1") },
            },
        );
        LlmCatalog { presets }
    }
}

} // verus!
