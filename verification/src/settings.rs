//! Global settings: the server endpoint and the default model picker that
//! new sessions copy at creation time and diverge from thereafter.

use vstd::prelude::*;

use crate::picker::ModelPicker;

verus! {

/// The endpoint used until the user configures another.
pub const DEFAULT_HOST: &'static str = "http://127.0.0.1:11434";

/// Global settings, owned by the session registry.
pub struct Settings {
    /// The inference server's endpoint.
    pub endpoint: String,
    /// Defaults for new sessions; copied at session creation, never aliased.
    pub model_picker: ModelPicker,
    /// Whether a model change made inside a session is copied back here.
    pub inherit_chat_picker: bool,
    /// The endpoint's validation error, for inline display; empty when the
    /// endpoint is well-formed.
    pub endpoint_error: String,
}

impl Settings {
    /// The settings a fresh installation starts from.
    pub fn new() -> (s: Self)
        ensures
            s.endpoint@ == DEFAULT_HOST@,
            s.model_picker.selected.name@ == Seq::<char>::empty(),
            s.model_picker.info is None,
            s.model_picker.template is None,
            s.inherit_chat_picker,
            s.endpoint_error@ == Seq::<char>::empty(),
    {
        Settings {
            endpoint: DEFAULT_HOST.to_owned(),
            model_picker: ModelPicker::new(),
            inherit_chat_picker: true,
            endpoint_error: String::new(),
        }
    }
}

} // verus!
