//! Data carried across the adapter boundary: prompt parts, model options,
//! permission choices and start information.

use vstd::prelude::*;

verus! {

/// Who a prompt part is addressed as when a provider separates system and
/// user content.
#[derive(Debug, Clone, Copy, PartialEq, Eq)]
pub enum PromptRoleHint {
    System,
    User,
}

/// One titled section of a composed prompt.
#[derive(Debug, Clone, PartialEq, Eq)]
pub struct PromptPart {
    pub key: String,
    pub title: String,
    /// Provider-facing body without the section title.
    pub content: String,
    /// The body as it appears in the composed envelope, title included.
    pub rendered_content: String,
    pub role_hint: PromptRoleHint,
}

/// A runtime-selectable model offered by a transport.
#[derive(Debug, Clone, PartialEq, Eq)]
pub struct AdapterModelChoice {
    pub id: String,
    pub label: String,
    pub description: Option<String>,
}

/// The model picker a transport exposes for one prompt scope.
#[derive(Debug, Clone, PartialEq, Eq)]
pub struct AdapterModelOptions {
    pub config_id: String,
    pub current_value: Option<String>,
    pub choices: Vec<AdapterModelChoice>,
}

/// One option of a permission request.
#[derive(Debug, Clone)]
pub struct ActionChoice {
    pub id: String,
    pub label: String,
}

/// What a transport reports once it is ready for its first prompt.
#[derive(Debug, Clone)]
pub struct AdapterStartInfo {
    pub pid: Option<u32>,
    /// A long-lived session id allocated at start, where the transport has one.
    pub session_id: Option<String>,
}

/// Whether a usage flag is unset (such a flag is left out when serialised).
pub fn is_false(value: &bool) -> (r: bool)
    ensures
        r == !*value,
{
    !*value
}

} // verus!
