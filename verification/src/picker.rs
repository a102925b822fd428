//! The model picker: which model a session sends its prompts to, and the
//! data the picker shows about it. The inference server's model list and
//! model descriptions arrive through the registry's maintenance channel.

use vstd::prelude::*;

use crate::text::str_eq;
use crate::timefmt::{ago_text, ago_text_of_secs, parse_rfc3339_secs, rfc3339_parse};

verus! {

/// One model the inference server has available, as plain data.
pub struct LocalModel {
    pub name: String,
    /// When the model was last modified, as an RFC 3339 string.
    pub modified_at: String,
    /// Size in bytes.
    pub size: u64,
}

impl LocalModel {
    pub fn clone(&self) -> (m: Self)
        ensures
            m.name == self.name,
            m.modified_at == self.modified_at,
            m.size == self.size,
    {
        LocalModel {
            name: self.name.clone(),
            modified_at: self.modified_at.clone(),
            size: self.size,
        }
    }
}

/// A model's description, as plain data.
pub struct ModelInfo {
    pub license: String,
    pub modelfile: String,
    pub parameters: String,
    pub template: String,
}

impl ModelInfo {
    pub fn clone(&self) -> (m: Self)
        ensures
            m.license == self.license,
            m.modelfile == self.modelfile,
            m.parameters == self.parameters,
            m.template == self.template,
    {
        ModelInfo {
            license: self.license.clone(),
            modelfile: self.modelfile.clone(),
            parameters: self.parameters.clone(),
            template: self.template.clone(),
        }
    }
}

/// The "modified … ago" text shown for a model: the rendered distance from
/// its modification time to `now`, or empty text when the modification time
/// does not parse.
pub open spec fn spec_modified_ago(modified_at: Seq<char>, now: int) -> Seq<char> {
    match rfc3339_parse(modified_at) {
        Some(then) => ago_text(clamp_duration(then, now)),
        None => Seq::empty(),
    }
}

/// The non-negative distance from `then` to `now` in seconds, as far as it
/// fits the rendering range.
pub open spec fn clamp_duration(then: int, now: int) -> int {
    if now <= then {
        0
    } else if now - then > u64::MAX {
        u64::MAX as int
    } else {
        now - then
    }
}

/// The model a picker has selected, with the display data derived from it.
pub struct SelectedModel {
    pub name: String,
    /// How long ago the model was modified, as display text.
    pub modified_ago: String,
    /// The model's modification time, as an RFC 3339 string.
    pub modified_at: String,
    /// Size in bytes.
    pub size: u64,
}

impl SelectedModel {
    /// The empty selection: no model picked yet.
    pub fn none_selected() -> (s: Self)
        ensures
            s.name@ == Seq::<char>::empty(),
            s.modified_ago@ == Seq::<char>::empty(),
            s.modified_at@ == Seq::<char>::empty(),
            s.size == 0,
    {
        SelectedModel {
            name: String::new(),
            modified_ago: String::new(),
            modified_at: String::new(),
            size: 0,
        }
    }

    /// Select `model`, rendering its modification distance from `now`
    /// (a UNIX timestamp).
    pub fn from_model(model: &LocalModel, now: i64) -> (s: Self)
        ensures
            s.name == model.name,
            s.modified_at == model.modified_at,
            s.size == model.size,
            s.modified_ago@ == spec_modified_ago(model.modified_at@, now as int),
    {
        let ago: String = match parse_rfc3339_secs(model.modified_at.as_str()) {
            Some(then) => {
                let d: u64 = if now <= then {
                    0
                } else {
                    (now as i128 - then as i128) as u64
                };
                ago_text_of_secs(d)
            },
            None => String::new(),
        };
        SelectedModel {
            name: model.name.clone(),
            modified_ago: ago,
            modified_at: model.modified_at.clone(),
            size: model.size,
        }
    }

    pub fn clone(&self) -> (m: Self)
        ensures
            m.name == self.name,
            m.modified_ago == self.modified_ago,
            m.modified_at == self.modified_at,
            m.size == self.size,
    {
        SelectedModel {
            name: self.name.clone(),
            modified_ago: self.modified_ago.clone(),
            modified_at: self.modified_at.clone(),
            size: self.size,
        }
    }
}

/// The index of the model a fresh picker selects: the last of the largest
/// models, matching a maximum search that replaces its candidate on ties.
pub open spec fn best_model_index(models: Seq<LocalModel>) -> int
    decreases models.len(),
{
    if models.len() <= 1 {
        0
    } else {
        let b = best_model_index(models.take(models.len() - 1));
        if models.last().size >= models[b].size {
            models.len() - 1
        } else {
            b
        }
    }
}

/// The chosen index is a maximum of the sizes.
pub proof fn lemma_best_model_index(models: Seq<LocalModel>)
    requires
        models.len() > 0,
    ensures
        0 <= best_model_index(models) < models.len(),
        forall|j: int|
            0 <= j < models.len() ==> #[trigger] models[j].size <= models[best_model_index(
                models,
            )].size,
    decreases models.len(),
{
    if models.len() > 1 {
        lemma_best_model_index(models.take(models.len() - 1));
        let pre = models.take(models.len() - 1);
        assert(forall|j: int| 0 <= j < pre.len() ==> pre[j] == models[j]);
    }
}

/// Which maintenance request a widget asks the registry to start.
pub enum RequestInfoType<'a> {
    /// Refresh the list of available models.
    Models,
    /// Fetch the description of the named model.
    ModelInfo(&'a str),
}

/// Selects the model a session talks to and holds what is known about it.
pub struct ModelPicker {
    pub selected: SelectedModel,
    pub info: Option<ModelInfo>,
    /// A prompt-template override for the next requests, when set.
    pub template: Option<String>,
}

impl ModelPicker {
    /// A picker with nothing selected.
    pub fn new() -> (p: Self)
        ensures
            p.selected.name@ == Seq::<char>::empty(),
            p.info is None,
            p.template is None,
    {
        ModelPicker { selected: SelectedModel::none_selected(), info: None, template: None }
    }

    pub fn clone(&self) -> (p: Self)
        ensures
            p.selected.name == self.selected.name,
            p.selected.modified_ago == self.selected.modified_ago,
            p.selected.modified_at == self.selected.modified_at,
            p.selected.size == self.selected.size,
            p.info is Some <==> self.info is Some,
            p.info matches Some(i) ==> {
                let s = self.info.unwrap();
                i.license == s.license && i.modelfile == s.modelfile && i.parameters == s.parameters
                    && i.template == s.template
            },
            p.template == self.template,
    {
        ModelPicker {
            selected: self.selected.clone(),
            info: match &self.info {
                Some(i) => Some(i.clone()),
                None => None,
            },
            template: match &self.template {
                Some(t) => Some(t.clone()),
                None => None,
            },
        }
    }

    /// Whether a model has been selected yet.
    pub fn has_selection(&self) -> (r: bool)
        ensures
            r == (self.selected.name@.len() != 0),
    {
        !self.selected.name.as_str().is_empty()
    }

    /// The name of the selected model.
    pub fn selected_model(&self) -> (r: String)
        ensures
            r == self.selected.name,
    {
        self.selected.name.clone()
    }

    /// Select the subjectively best of `models`: the largest one, breaking
    /// ties towards the last. An empty list changes nothing.
    pub fn select_best_model(&mut self, models: &Vec<LocalModel>, now: i64)
        ensures
            models@.len() == 0 ==> final(self).selected == old(self).selected,
            models@.len() > 0 ==> {
                let best = models@[best_model_index(models@)];
                &&& final(self).selected.name == best.name
                &&& final(self).selected.modified_at == best.modified_at
                &&& final(self).selected.size == best.size
                &&& final(self).selected.modified_ago@ == spec_modified_ago(
                    best.modified_at@,
                    now as int,
                )
            },
            final(self).info == old(self).info,
            final(self).template == old(self).template,
    {
        if models.len() == 0 {
            return ;
        }
        let mut b: usize = 0;
        let mut i: usize = 1;
        while i < models.len()
            invariant
                models@.len() > 0,
                b < i <= models@.len(),
                b == best_model_index(models@.take(i as int)),
            decreases models@.len() - i,
        {
            proof {
                assert(models@.take(i as int + 1).take(i as int) =~= models@.take(i as int));
                assert(models@.take(i as int + 1).last() == models@[i as int]);
            }
            if models[i].size >= models[b].size {
                b = i;
            }
            i += 1;
        }
        proof {
            assert(models@.take(models@.len() as int) =~= models@);
        }
        self.selected = SelectedModel::from_model(&models[b], now);
    }

    /// Record a model description that just arrived: it is kept only when it
    /// describes the selected model.
    pub fn on_new_model_info(&mut self, name: &str, info: &ModelInfo)
        ensures
            final(self).selected == old(self).selected,
            final(self).template == old(self).template,
            name@ == old(self).selected.name@ ==> (final(self).info matches Some(i) && i.license
                == info.license && i.modelfile == info.modelfile && i.parameters == info.parameters
                && i.template == info.template),
            name@ != old(self).selected.name@ ==> final(self).info == old(self).info,
    {
        if str_eq(self.selected.name.as_str(), name) {
            self.info = Some(info.clone());
        }
    }
}

/// The sampling flavour a request may ask the server for.
#[derive(Clone, Copy, Debug, PartialEq, Eq, Structural)]
pub enum MirostatKind {
    Disabled,
    Mirostat,
    Mirostat2,
}

impl MirostatKind {
    /// The wire value of this flavour.
    pub fn to_u8(self) -> (r: u8)
        ensures
            r == (match self {
                MirostatKind::Disabled => 0u8,
                MirostatKind::Mirostat => 1u8,
                MirostatKind::Mirostat2 => 2u8,
            }),
    {
        match self {
            MirostatKind::Disabled => 0,
            MirostatKind::Mirostat => 1,
            MirostatKind::Mirostat2 => 2,
        }
    }

    /// The flavour's display name.
    pub fn name(self) -> (r: &'static str)
        ensures
            (self is Disabled ==> r@ == "Disabled"@),
            (self is Mirostat ==> r@ == "Mirostat"@),
            (self is Mirostat2 ==> r@ == "Mirostat 2.0"@),
    {
        match self {
            MirostatKind::Disabled => "Disabled",
            MirostatKind::Mirostat => "Mirostat",
            MirostatKind::Mirostat2 => "Mirostat 2.0",
        }
    }
}

} // verus!
