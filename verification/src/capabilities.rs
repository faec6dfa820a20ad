//! What a client says it can do.

use crate::json::{Json, JsonView};
use crate::types::given_field;
use vstd::prelude::*;

verus! {

/// How a client can be asked for input.
#[derive(Debug, Clone, Copy, PartialEq, Eq, Structural)]
pub enum ElicitationMode {
    Form,
    Url,
}

#[derive(Debug, Clone, Copy, PartialEq, Eq, Structural)]
pub struct SamplingCapability {
    pub tools: bool,
    pub context: bool,
}

#[derive(Debug, Clone, Copy, PartialEq, Eq, Structural)]
pub struct ElicitationCapability {
    pub form: bool,
    pub url: bool,
}

/// What a client says it can do. Until it says so, it can do nothing.
#[derive(Debug, Clone, Copy, PartialEq, Eq, Structural)]
pub struct ClientCapabilities {
    pub roots: bool,
    pub sampling: Option<SamplingCapability>,
    pub elicitation: Option<ElicitationCapability>,
}

/// A client that can do nothing.
pub open spec fn no_capabilities() -> ClientCapabilities {
    ClientCapabilities { roots: false, sampling: None, elicitation: None }
}

impl Default for ClientCapabilities {
    fn default() -> (r: Self)
        ensures
            r == no_capabilities(),
    {
        ClientCapabilities { roots: false, sampling: None, elicitation: None }
    }
}

/// Whether a field is there, and fit to be a capability: an object.
pub open spec fn declares(j: JsonView, key: Seq<char>) -> Option<bool> {
    match crate::types::given(j, key) {
        None => Some(false),
        Some(JsonView::Object(_)) => Some(true),
        Some(_) => None,
    }
}

/// What is declared of sampling.
pub open spec fn sampling_of(j: JsonView) -> Option<Option<SamplingCapability>> {
    match crate::types::given(j, "sampling"@) {
        None => Some(None),
        Some(JsonView::Object(f)) => match (
            declares(JsonView::Object(f), "tools"@),
            declares(JsonView::Object(f), "context"@),
        ) {
            (Some(tools), Some(context)) => Some(Some(SamplingCapability { tools, context })),
            _ => None,
        },
        Some(_) => None,
    }
}

/// What is declared of elicitation. Naming no mode at all means forms.
pub open spec fn elicitation_of(j: JsonView) -> Option<Option<ElicitationCapability>> {
    match crate::types::given(j, "elicitation"@) {
        None => Some(None),
        Some(JsonView::Object(f)) => match (
            declares(JsonView::Object(f), "form"@),
            declares(JsonView::Object(f), "url"@),
        ) {
            (Some(form), Some(url)) => Some(
                Some(ElicitationCapability { form: form || !url, url }),
            ),
            _ => None,
        },
        Some(_) => None,
    }
}

/// What is declared, where the declaration makes sense.
pub open spec fn capabilities_of(j: JsonView) -> Option<ClientCapabilities> {
    match (j, declares(j, "roots"@), sampling_of(j), elicitation_of(j)) {
        (JsonView::Object(_), Some(roots), Some(sampling), Some(elicitation)) => Some(
            ClientCapabilities { roots, sampling, elicitation },
        ),
        _ => None,
    }
}

fn declared(j: &Json, key: &str) -> (r: Option<bool>)
    ensures
        r == declares(j@, key@),
{
    match given_field(j, key) {
        None => Some(false),
        Some(Json::Object(_)) => Some(true),
        Some(_) => None,
    }
}

fn read_sampling(j: &Json) -> (r: Option<Option<SamplingCapability>>)
    ensures
        r == sampling_of(j@),
{
    match given_field(j, "sampling") {
        None => Some(None),
        Some(s) => match &s {
            Json::Object(_) => match (declared(&s, "tools"), declared(&s, "context")) {
                (Some(tools), Some(context)) => Some(Some(SamplingCapability { tools, context })),
                _ => None,
            },
            _ => None,
        },
    }
}

fn read_elicitation(j: &Json) -> (r: Option<Option<ElicitationCapability>>)
    ensures
        r == elicitation_of(j@),
{
    match given_field(j, "elicitation") {
        None => Some(None),
        Some(s) => match &s {
            Json::Object(_) => match (declared(&s, "form"), declared(&s, "url")) {
                (Some(form), Some(url)) => Some(
                    Some(ElicitationCapability { form: form || !url, url }),
                ),
                _ => None,
            },
            _ => None,
        },
    }
}

impl ClientCapabilities {
    /// Reads a declaration.
    pub fn from_json(j: &Json) -> (r: Option<ClientCapabilities>)
        ensures
            r == capabilities_of(j@),
    {
        match j {
            Json::Object(_) => match (
                declared(j, "roots"),
                read_sampling(j),
                read_elicitation(j),
            ) {
                (Some(roots), Some(sampling), Some(elicitation)) => Some(
                    ClientCapabilities { roots, sampling, elicitation },
                ),
                _ => None,
            },
            _ => None,
        }
    }

    pub open spec fn can_sample(self) -> bool {
        self.sampling is Some
    }

    pub open spec fn can_sample_with_tools(self) -> bool {
        self.sampling matches Some(s) && s.tools
    }

    pub open spec fn can_sample_with_context(self) -> bool {
        self.sampling matches Some(s) && s.context
    }

    pub open spec fn can_elicit(self, mode: ElicitationMode) -> bool {
        self.elicitation matches Some(e) && match mode {
            ElicitationMode::Form => e.form,
            ElicitationMode::Url => e.url,
        }
    }

    pub fn supports_roots(&self) -> (r: bool)
        ensures
            r == self.roots,
    {
        self.roots
    }

    pub fn supports_sampling(&self) -> (r: bool)
        ensures
            r == self.can_sample(),
    {
        self.sampling.is_some()
    }

    pub fn supports_sampling_tools(&self) -> (r: bool)
        ensures
            r == self.can_sample_with_tools(),
    {
        match self.sampling {
            Some(s) => s.tools,
            None => false,
        }
    }

    pub fn supports_sampling_context(&self) -> (r: bool)
        ensures
            r == self.can_sample_with_context(),
    {
        match self.sampling {
            Some(s) => s.context,
            None => false,
        }
    }

    pub fn supports_elicitation(&self, mode: ElicitationMode) -> (r: bool)
        ensures
            r == self.can_elicit(mode),
    {
        match self.elicitation {
            Some(e) => match mode {
                ElicitationMode::Form => e.form,
                ElicitationMode::Url => e.url,
            },
            None => false,
        }
    }
}

} // verus!
