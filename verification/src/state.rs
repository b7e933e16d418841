//! Shared tool state outside any one conversation: the active provider and
//! model selection, presentation modes, and the session output history.

use vstd::prelude::*;
use crate::provider::{Provider, ProviderRegistry, ProviderError, ProviderV, sp_reg_find, sp_reg_strip};
use crate::wire::{trim, sp_trim};

verus! {

/// What kind of output one history entry records.
#[derive(Debug, Clone)]
pub enum HistoryContentType {
    LlmResponse { model: String },
    CommandResult { command: String },
    ShellOutput { command: String },
    UserQuery,
    Error { source: String },
    Info,
}

/// One entry of the session output history.
#[derive(Debug, Clone)]
pub struct HistoryEntry {
    pub entry_type: HistoryContentType,
    pub content: String,
}

/// How model output is rendered.
#[derive(Debug, Clone, Copy, PartialEq, Eq, Structural)]
pub enum MarkdownMode {
    /// Stream raw text, then append a formatted copy.
    AppendFormatted,
    /// Re-render the formatted text as it streams.
    LiveStreaming,
    /// Raw text only.
    Off,
}

/// The colour theme of the rendered output.
#[derive(Debug, Clone, Copy, PartialEq, Eq, Structural)]
pub enum RenderTheme {
    Default,
    Nord,
    Gruvbox,
    Grayscale,
}

/// Model of the tool state.
pub struct AppStateV {
    pub provider: Seq<u8>,
    pub model: Seq<u8>,
    pub markdown: MarkdownMode,
    pub theme: RenderTheme,
    pub history: Seq<HistoryEntry>,
    pub providers: Seq<ProviderV>,
}

/// Lower-cased ASCII letters; other bytes unchanged.
pub open spec fn sp_ascii_lower(s: Seq<u8>) -> Seq<u8> {
    Seq::new(
        s.len(),
        |i: int|
            if 0 <= i < s.len() && 0x41 <= s[i] <= 0x5a {
                (s[i] + 0x20) as u8
            } else if 0 <= i < s.len() {
                s[i]
            } else {
                0u8
            },
    )
}

/// The shared state of the tool: provider registry and current selections.
pub struct AppState {
    registry: ProviderRegistry,
    current_provider: Vec<u8>,
    current_model: Vec<u8>,
    markdown_mode: MarkdownMode,
    theme: RenderTheme,
    history: Vec<HistoryEntry>,
}

impl View for AppState {
    type V = AppStateV;

    closed spec fn view(&self) -> AppStateV {
        AppStateV {
            provider: self.current_provider@,
            model: self.current_model@,
            markdown: self.markdown_mode,
            theme: self.theme,
            history: self.history@,
            providers: self.registry@,
        }
    }
}

fn lower_trim(name: &Vec<u8>) -> (r: Vec<u8>)
    ensures
        r@ == sp_ascii_lower(sp_trim(name@)),
{
    let t = trim(name);
    let n = t.len();
    let mut out: Vec<u8> = Vec::new();
    let mut i: usize = 0;
    while i < n
        invariant
            0 <= i <= n == t@.len(),
            out@.len() == i,
            forall|k: int| 0 <= k < i ==> out@[k] == sp_ascii_lower(t@)[k],
        decreases n - i,
    {
        let b = t[i];
        if 0x41 <= b && b <= 0x5a {
            out.push(b + 0x20);
        } else {
            out.push(b);
        }
        i += 1;
    }
    proof {
        assert(out@ =~= sp_ascii_lower(t@));
    }
    out
}

/// Is `needle` one of the byte strings in `hay`?
fn contains_bytes(hay: &Vec<Vec<u8>>, needle: &Vec<u8>) -> (r: bool)
    ensures
        r == hay.deep_view().contains(needle@),
{
    let n = hay.len();
    let mut i: usize = 0;
    while i < n
        invariant
            0 <= i <= n == hay@.len(),
            forall|k: int| 0 <= k < i ==> hay.deep_view()[k] != needle@,
        decreases n - i,
    {
        proof {
            assert(hay.deep_view()[i as int] =~= hay[i as int]@);
        }
        if crate::json::bytes_eq(&hay[i], needle) {
            proof {
                assert(hay.deep_view()[i as int] == needle@);
            }
            return true;
        }
        i += 1;
    }
    proof {
        assert(!hay.deep_view().contains(needle@)) by {
            if hay.deep_view().contains(needle@) {
                let k = choose|k: int|
                    0 <= k < hay.deep_view().len() && hay.deep_view()[k] == needle@;
                assert(hay.deep_view()[k] != needle@);
            }
        }
    }
    false
}

impl AppState {
    /// Fresh state over a registry, with the conventional default selection.
    pub fn new(registry: ProviderRegistry) -> (r: AppState)
        ensures
            r@.providers == registry@,
            r@.markdown == MarkdownMode::AppendFormatted,
            r@.theme == RenderTheme::Nord,
            r@.history == Seq::<HistoryEntry>::empty(),
    {
        // "ollama" / "llama3:latest"
        let mut p: Vec<u8> = Vec::new();
        p.push(0x6f);
        p.push(0x6c);
        p.push(0x6c);
        p.push(0x61);
        p.push(0x6d);
        p.push(0x61);
        let mut m: Vec<u8> = Vec::new();
        m.push(0x6c);
        m.push(0x6c);
        m.push(0x61);
        m.push(0x6d);
        m.push(0x61);
        m.push(0x33);
        m.push(0x3a);
        m.push(0x6c);
        m.push(0x61);
        m.push(0x74);
        m.push(0x65);
        m.push(0x73);
        m.push(0x74);
        AppState {
            registry,
            current_provider: p,
            current_model: m,
            markdown_mode: MarkdownMode::AppendFormatted,
            theme: RenderTheme::Nord,
            history: Vec::new(),
        }
    }

    pub fn get_provider_name(&self) -> (r: &Vec<u8>)
        ensures
            r@ == self@.provider,
    {
        &self.current_provider
    }

    /// Set the current model, trimmed of surrounding whitespace.
    pub fn set_model(&mut self, model: &Vec<u8>)
        ensures
            final(self)@ == (AppStateV { model: sp_trim(model@), ..old(self)@ }),
    {
        self.current_model = trim(model);
    }

    pub fn get_model(&self) -> (r: &Vec<u8>)
        ensures
            r@ == self@.model,
    {
        &self.current_model
    }

    pub fn get_provider_by_name(&self, name: &Vec<u8>) -> (r: Option<&Provider>)
        ensures
            match r {
                Some(p) => sp_reg_find(self@.providers, name@) == Some(p@),
                None => sp_reg_find(self@.providers, name@) is None,
            },
    {
        self.registry.get_provider(name)
    }

    /// The provider selected for queries, if it is registered.
    pub fn get_current_provider(&self) -> (r: Option<&Provider>)
        ensures
            match r {
                Some(p) => sp_reg_find(self@.providers, self@.provider) == Some(p@),
                None => sp_reg_find(self@.providers, self@.provider) is None,
            },
    {
        self.registry.get_provider(&self.current_provider)
    }

    pub fn list_providers(&self) -> (r: Vec<Vec<u8>>)
        ensures
            r.deep_view().len() == self@.providers.len(),
            forall|i: int|
                0 <= i < self@.providers.len() ==> r.deep_view()[i] == self@.providers[i].name,
    {
        self.registry.list_providers()
    }

    /// Register one more backend; an earlier one of the same name is
    /// replaced, keeping provider names unique.
    pub fn register_provider(&mut self, provider: Provider)
        ensures
            final(self)@ == (AppStateV {
                providers: seq![provider@] + sp_reg_strip(old(self)@.providers, provider@.name),
                ..old(self)@
            }),
    {
        self.registry.register(provider);
    }

    /// Switch to the named provider (matched after trimming and ASCII
    /// lower-casing) if it is registered and ready; say exactly why not
    /// otherwise.
    pub fn set_provider(&mut self, name: &Vec<u8>) -> (r: Result<(), ProviderError>)
        ensures
            ({
                let norm = sp_ascii_lower(sp_trim(name@));
                match r {
                    Ok(()) => {
                        &&& sp_reg_find(old(self)@.providers, norm) is Some
                        &&& {
                            let p = sp_reg_find(old(self)@.providers, norm).unwrap();
                            &&& (!p.requires_key || p.api_key is Some)
                            &&& final(self)@ == AppStateV { provider: norm, ..old(self)@ }
                        }
                    },
                    Err(ProviderError::NotReady) => {
                        &&& sp_reg_find(old(self)@.providers, norm) is Some
                        &&& {
                            let p = sp_reg_find(old(self)@.providers, norm).unwrap();
                            p.requires_key && p.api_key is None
                        }
                        &&& final(self)@ == old(self)@
                    },
                    Err(ProviderError::UnknownProvider(n)) => {
                        &&& sp_reg_find(old(self)@.providers, norm) is None
                        &&& n@ == norm
                        &&& final(self)@ == old(self)@
                    },
                    Err(_) => false,
                }
            }),
    {
        let norm = lower_trim(name);
        let ready = match self.registry.get_provider(&norm) {
            Some(p) => p.check_readiness(),
            None => {
                return Err(ProviderError::UnknownProvider(norm));
            },
        };
        match ready {
            Ok(()) => {
                self.current_provider = norm;
                Ok(())
            },
            Err(_) => Err(ProviderError::NotReady),
        }
    }

    /// Set the current model only if it is among the models the provider
    /// reported; reports whether it was.
    pub fn set_model_validated(&mut self, model: &Vec<u8>, available: &Vec<Vec<u8>>) -> (r: bool)
        ensures
            r == available.deep_view().contains(sp_trim(model@)),
            r ==> final(self)@ == (AppStateV { model: sp_trim(model@), ..old(self)@ }),
            !r ==> final(self)@ == old(self)@,
    {
        let t = trim(model);
        if contains_bytes(available, &t) {
            self.current_model = t;
            true
        } else {
            false
        }
    }

    pub fn get_markdown_mode(&self) -> (r: MarkdownMode)
        ensures
            r == self@.markdown,
    {
        self.markdown_mode
    }

    pub fn set_markdown_mode(&mut self, mode: MarkdownMode)
        ensures
            final(self)@ == (AppStateV { markdown: mode, ..old(self)@ }),
    {
        self.markdown_mode = mode;
    }

    pub fn get_theme(&self) -> (r: RenderTheme)
        ensures
            r == self@.theme,
    {
        self.theme
    }

    pub fn set_theme(&mut self, theme: RenderTheme)
        ensures
            final(self)@ == (AppStateV { theme: theme, ..old(self)@ }),
    {
        self.theme = theme;
    }

    /// Append one entry to the session output history.
    pub fn add_history_entry(&mut self, entry: HistoryEntry)
        ensures
            final(self)@ == (AppStateV { history: old(self)@.history.push(entry), ..old(self)@ }),
    {
        self.history.push(entry);
    }

    /// The whole session output history, oldest first.
    pub fn get_history(&self) -> (r: &Vec<HistoryEntry>)
        ensures
            r@ == self@.history,
    {
        &self.history
    }
}

} // verus!
