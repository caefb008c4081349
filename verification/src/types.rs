use vstd::prelude::*;

verus! {

/// Opaque handle minted by an observation; only recent handles are honoured.
#[derive(Debug, Clone, PartialEq, Eq, Hash)]
pub struct Ref(pub String);

/// Provenance of an externally visible string.
#[derive(Debug, Clone, Copy, PartialEq, Eq, Structural)]
pub enum Trust {
    Trusted,
    AgentAuthored,
    External,
}

#[derive(Debug, Clone)]
pub struct TrustedText {
    pub trust: Trust,
    pub text: String,
}

#[derive(Debug, Clone, Copy, PartialEq, Eq, Structural)]
pub enum Button {
    Left,
    Right,
    Middle,
}

#[derive(Debug, Clone, Copy, PartialEq, Eq, Structural)]
pub struct Bbox {
    pub x: i32,
    pub y: i32,
    pub w: u32,
    pub h: u32,
}

#[derive(Debug, Clone)]
pub struct WindowBrief {
    pub window_ref: Ref,
    pub title: TrustedText,
}

/// Side-effect summary returned by mutating tools; empty fields are omitted.
#[derive(Debug, Clone)]
pub struct Diff {
    pub windows_added: Vec<WindowBrief>,
    pub windows_removed: Vec<String>,
    pub focus_changed: Option<WindowBrief>,
    pub vision_fallback: Option<bool>,
}

/// Every failure is data the model can read and act on.
#[derive(Debug, Clone)]
pub struct ToolError {
    pub code: String,
    pub message: String,
    pub retryable: bool,
}

} // verus!
