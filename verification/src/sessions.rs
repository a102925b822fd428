//! The session registry: every chat session, the selection among them, and a
//! second, maintenance channel for requests that are not addressed by message
//! index — model listing, model descriptions, image picking, settings
//! loading — which follow the same activate/resolve/poll discipline.
//!
//! Per frame, the surrounding loop polls every session's completion channel
//! first and the maintenance channel second, so state changed by background
//! work is applied before the same frame renders it.

use vstd::prelude::*;

use crate::channel::{Channel, Terminal};
use crate::chat::Chat;
use crate::export::ChatExportFormat;
use crate::picker::{best_model_index, LocalModel, ModelInfo, ModelPicker};
use crate::settings::Settings;
use crate::text::str_eq;

verus! {

/// The severity of a transient notification.
#[derive(Clone, Copy, Debug, PartialEq, Eq, Structural)]
pub enum ToastKind {
    Info,
    Success,
    Error,
}

/// A transient notification for the notification queue.
pub struct Toast {
    pub kind: ToastKind,
    pub text: String,
}

/// What a maintenance request resolved to.
pub enum OllamaResponse {
    /// Nothing to apply (for instance, a cancelled file dialog).
    Ignore,
    /// The server's model list.
    Models(Vec<LocalModel>),
    /// One model's description.
    ModelInfo { name: String, info: ModelInfo },
    /// A notification to queue.
    Toast(Toast),
    /// Image files picked for the session with the given id.
    Images { id: usize, files: Vec<String> },
    /// Settings loaded from disk.
    Settings(Settings),
}

/// Which maintenance request is in flight, for the loading indicators.
#[derive(Clone, Copy, Debug, PartialEq, Eq, Structural)]
pub enum OllamaFlowerActivity {
    Idle,
    ListModels,
    ModelInfo,
}

/// What `request_model_info` decided.
#[derive(Clone, Copy, Debug, PartialEq, Eq, Structural)]
pub enum ModelInfoRequest {
    /// A session already had the description; it was delivered through the
    /// maintenance channel without a network request.
    Cached,
    /// The surrounding loop must fetch the description.
    Spawn,
    /// The same description is already being fetched; nothing to do.
    AlreadyPending,
    /// Another maintenance request is in flight; nothing was started.
    Busy,
}

/// The registry owning every session and the maintenance channel.
pub struct Sessions {
    pub chats: Vec<Chat>,
    pub selected_chat: usize,
    /// The id the next session will get; ids grow monotonically and are
    /// never reused, so a stale task can never resolve into a newer session.
    pub next_chat_id: usize,
    pub flower: Channel<(), OllamaResponse, String>,
    pub models: Vec<LocalModel>,
    pub flower_activity: OllamaFlowerActivity,
    /// Model names whose descriptions are being fetched.
    pub pending_model_infos: Vec<String>,
    pub chat_export_format: ChatExportFormat,
    pub settings: Settings,
    /// Notifications not yet shown.
    pub toasts: Vec<Toast>,
}

impl Sessions {
    /// Every session is well-formed.
    pub open spec fn chats_wf(self) -> bool {
        forall|j: int| 0 <= j < self.chats@.len() ==> (#[trigger] self.chats@[j]).wf()
    }

    /// Session ids are unique and below the next id to issue, so an id is
    /// never reused.
    pub open spec fn ids_wf(self) -> bool {
        &&& forall|j: int|
            0 <= j < self.chats@.len() ==> (#[trigger] self.chats@[j]).spec_id()
                < self.next_chat_id
        &&& forall|j: int, k: int|
            0 <= j < k < self.chats@.len() ==> (#[trigger] self.chats@[j]).spec_id() != (
            #[trigger] self.chats@[k]).spec_id()
    }

    /// An idle maintenance channel buffers nothing.
    pub open spec fn maintenance_wf(self) -> bool {
        !self.flower@.active ==> self.flower@.queue.len() == 0 && self.flower@.terminal is None
    }

    /// There is always a session to select; ids are unique and below the
    /// next id to issue; every session and the maintenance channel are
    /// well-formed.
    pub open spec fn wf(self) -> bool {
        &&& self.chats@.len() > 0
        &&& self.selected_chat < self.chats@.len()
        &&& self.chats_wf()
        &&& self.ids_wf()
        &&& self.maintenance_wf()
    }

    /// A fresh registry: one empty session, default settings, an idle
    /// maintenance channel.
    pub fn new() -> (s: Self)
        ensures
            s.wf(),
            s.chats@.len() == 1,
            s.chats@[0].messages@.len() == 0,
            !s.chats@[0].spec_flower().active,
            s.selected_chat == 0,
            !s.flower@.active,
            s.models@.len() == 0,
            s.flower_activity == OllamaFlowerActivity::Idle,
            s.pending_model_infos@.len() == 0,
            s.chat_export_format == ChatExportFormat::Plaintext,
            s.toasts@.len() == 0,
    {
        let settings = Settings::new();
        let first = Chat::new(1, settings.model_picker.clone());
        let mut chats: Vec<Chat> = Vec::new();
        chats.push(first);
        Sessions {
            chats,
            selected_chat: 0,
            next_chat_id: 2,
            flower: Channel::new(0),
            models: Vec::new(),
            flower_activity: OllamaFlowerActivity::Idle,
            pending_model_infos: Vec::new(),
            chat_export_format: ChatExportFormat::Plaintext,
            settings,
            toasts: Vec::new(),
        }
    }

    /// The default model picker that new sessions copy.
    pub fn model_picker(&self) -> (r: &ModelPicker)
        ensures
            r == &self.settings.model_picker,
    {
        &self.settings.model_picker
    }

    /// Whether the maintenance channel is busy listing models.
    pub fn is_loading_models(&self) -> (r: bool)
        ensures
            r == (self.flower@.active && self.flower_activity
                == OllamaFlowerActivity::ListModels),
    {
        self.flower.is_active() && self.flower_activity == OllamaFlowerActivity::ListModels
    }

    /// Append a fresh session under the next id, configured from the global
    /// defaults.
    pub fn add_default_chat(&mut self)
        requires
            old(self).chats_wf(),
            old(self).ids_wf(),
            old(self).maintenance_wf(),
            old(self).selected_chat <= old(self).chats@.len(),
            old(self).next_chat_id < usize::MAX,
        ensures
            final(self).chats_wf(),
            final(self).ids_wf(),
            final(self).maintenance_wf(),
            final(self).chats@.len() == old(self).chats@.len() + 1,
            forall|j: int|
                0 <= j < old(self).chats@.len() ==> final(self).chats@[j] == old(self).chats@[j],
            final(self).chats@.last().spec_id() == old(self).next_chat_id,
            final(self).chats@.last().messages@.len() == 0,
            !final(self).chats@.last().spec_flower().active,
            final(self).next_chat_id == old(self).next_chat_id + 1,
            final(self).selected_chat == old(self).selected_chat,
            final(self).flower@ == old(self).flower@,
            final(self).models == old(self).models,
            final(self).settings == old(self).settings,
    {
        let chat = Chat::new(self.next_chat_id, self.settings.model_picker.clone());
        self.chats.push(chat);
        self.next_chat_id = self.next_chat_id + 1;
    }

    /// Remove the session at `idx`. When the last session goes, a fresh one
    /// replaces it; the selection is clamped to the remaining sessions.
    pub fn remove_chat(&mut self, idx: usize)
        requires
            old(self).wf(),
            idx < old(self).chats@.len(),
            old(self).next_chat_id < usize::MAX,
        ensures
            final(self).wf(),
            old(self).chats@.len() > 1 ==> final(self).chats@ == old(self).chats@.remove(
                idx as int,
            ),
            old(self).chats@.len() == 1 ==> {
                &&& final(self).chats@.len() == 1
                &&& final(self).chats@[0].messages@.len() == 0
            },
            final(self).selected_chat < final(self).chats@.len(),
    {
        self.chats.remove(idx);
        if self.chats.len() == 0 {
            self.add_default_chat();
            self.selected_chat = 0;
        } else if self.selected_chat >= self.chats.len() {
            self.selected_chat = self.chats.len() - 1;
        }
    }

    /// Start a model-list refresh: activates the maintenance channel and
    /// tells the surrounding loop to fetch, unless another maintenance
    /// request is still in flight.
    pub fn list_models(&mut self) -> (started: bool)
        requires
            old(self).wf(),
        ensures
            final(self).wf(),
            started <==> !old(self).flower@.active,
            started ==> {
                &&& final(self).flower@ == old(self).flower@.activated()
                &&& final(self).flower_activity == OllamaFlowerActivity::ListModels
            },
            !started ==> *final(self) == *old(self),
            final(self).chats == old(self).chats,
            final(self).settings == old(self).settings,
            final(self).models == old(self).models,
    {
        if self.flower.is_active() {
            return false;
        }
        self.flower.activate();
        self.flower_activity = OllamaFlowerActivity::ListModels;
        true
    }

    /// Ask for a model's description. A session that already holds it
    /// answers through the maintenance channel without a network request;
    /// a name already being fetched, or a busy channel, starts nothing.
    pub fn request_model_info(&mut self, name: &str) -> (r: ModelInfoRequest)
        requires
            old(self).wf(),
        ensures
            final(self).wf(),
            r == ModelInfoRequest::Busy <==> old(self).flower@.active,
            r == ModelInfoRequest::Busy ==> *final(self) == *old(self),
            final(self).chats == old(self).chats,
            final(self).models == old(self).models,
            final(self).settings == old(self).settings,
            final(self).toasts == old(self).toasts,
            r == ModelInfoRequest::Cached ==> exists|j: int|
                {
                    &&& 0 <= j < old(self).chats@.len()
                    &&& is_cached_match(#[trigger] old(self).chats@[j], name@)
                    &&& forall|k: int| 0 <= k < j ==> !is_cached_match(old(self).chats@[k], name@)
                    &&& cached_terminal(final(self).flower@.terminal, name@, old(self).chats@[j])
                },
            r == ModelInfoRequest::Cached ==> {
                &&& final(self).flower@.active
                &&& final(self).pending_model_infos == old(self).pending_model_infos
            },
            r == ModelInfoRequest::AlreadyPending ==> *final(self) == *old(self),
            r == ModelInfoRequest::AlreadyPending <==> !old(self).flower@.active && (forall|j: int|
                0 <= j < old(self).chats@.len() ==> !is_cached_match(
                    #[trigger] old(self).chats@[j],
                    name@,
                )) && (exists|p: int|
                0 <= p < old(self).pending_model_infos@.len() && old(
                    self,
                ).pending_model_infos@[p]@ == name@),
            r == ModelInfoRequest::Spawn ==> {
                &&& final(self).flower@ == old(self).flower@.activated()
                &&& final(self).flower_activity == OllamaFlowerActivity::ModelInfo
                &&& final(self).pending_model_infos@.len() == old(
                    self,
                ).pending_model_infos@.len() + 1
                &&& final(self).pending_model_infos@.drop_last() == old(self).pending_model_infos@
                &&& final(self).pending_model_infos@.last()@ == name@
            },
    {
        if self.flower.is_active() {
            return ModelInfoRequest::Busy;
        }

        // a session may already hold this model's description
        let mut j: usize = 0;
        while j < self.chats.len()
            invariant
                *self == *old(self),
                old(self).wf(),
                !old(self).flower@.active,
                j <= self.chats@.len(),
                forall|k: int| 0 <= k < j ==> !is_cached_match(self.chats@[k], name@),
            decreases self.chats@.len() - j,
        {
            let chat = &self.chats[j];
            if chat.model_picker.has_selection() && str_eq(
                chat.model_picker.selected.name.as_str(),
                name,
            ) {
                match &chat.model_picker.info {
                    Some(info) => {
                        let payload = OllamaResponse::ModelInfo {
                            name: name.to_owned(),
                            info: info.clone(),
                        };
                        self.flower.activate();
                        self.flower.resolve(Terminal::Success(payload));
                        proof {
                            assert(is_cached_match(self.chats@[j as int], name@));
                            assert(cached_terminal(
                                self.flower@.terminal,
                                name@,
                                self.chats@[j as int],
                            ));
                        }
                        return ModelInfoRequest::Cached;
                    },
                    None => {},
                }
            }
            proof {
                assert(!is_cached_match(self.chats@[j as int], name@));
            }
            j += 1;
        }

        // deduplicate in-flight description fetches
        let mut p: usize = 0;
        while p < self.pending_model_infos.len()
            invariant
                *self == *old(self),
                old(self).wf(),
                !old(self).flower@.active,
                forall|k: int| 0 <= k < self.chats@.len() ==> !is_cached_match(
                    #[trigger] self.chats@[k],
                    name@,
                ),
                p <= self.pending_model_infos@.len(),
                forall|k: int| 0 <= k < p ==> self.pending_model_infos@[k]@ != name@,
            decreases self.pending_model_infos@.len() - p,
        {
            if str_eq(self.pending_model_infos[p].as_str(), name) {
                return ModelInfoRequest::AlreadyPending;
            }
            p += 1;
        }

        self.flower_activity = OllamaFlowerActivity::ModelInfo;
        self.pending_model_infos.push(name.to_owned());
        self.flower.activate();
        ModelInfoRequest::Spawn
    }

    /// Copy a session's model selection back into the global defaults, when
    /// settings are configured to inherit from chats and the selection
    /// differs; used when a session's picker asks for a model description.
    pub fn inherit_from_chat(&mut self, chat_idx: usize)
        requires
            old(self).wf(),
            chat_idx < old(self).chats@.len(),
        ensures
            final(self).wf(),
            final(self).chats == old(self).chats,
            final(self).models == old(self).models,
            final(self).flower@ == old(self).flower@,
            final(self).settings.endpoint == old(self).settings.endpoint,
            final(self).settings.inherit_chat_picker == old(self).settings.inherit_chat_picker,
            final(self).settings.endpoint_error == old(self).settings.endpoint_error,
            final(self).settings.model_picker.info == old(self).settings.model_picker.info,
            final(self).settings.model_picker.template == old(self).settings.model_picker.template,
            ({
                let chat_sel = old(self).chats@[chat_idx as int].model_picker.selected;
                if old(self).settings.inherit_chat_picker && chat_sel.name@ != old(
                    self,
                ).settings.model_picker.selected.name@ {
                    final(self).settings.model_picker.selected == chat_sel
                } else {
                    final(self).settings.model_picker.selected == old(
                        self,
                    ).settings.model_picker.selected
                }
            }),
    {
        if self.settings.inherit_chat_picker && !str_eq(
            self.chats[chat_idx].model_picker.selected.name.as_str(),
            self.settings.model_picker.selected.name.as_str(),
        ) {
            self.settings.model_picker.selected =
                self.chats[chat_idx].model_picker.selected.clone();
            proof {
                let chat_sel = old(self).chats@[chat_idx as int].model_picker.selected;
                assert(self.settings.model_picker.selected == chat_sel);
            }
        }
    }

    /// Apply one maintenance response to the registry's state.
    fn apply_response(&mut self, resp: OllamaResponse, now: i64)
        requires
            old(self).wf(),
        ensures
            final(self).wf(),
            response_applied(*old(self), *final(self), resp, now),
            final(self).flower@ == old(self).flower@,
            final(self).flower_activity == old(self).flower_activity,
    {
        match resp {
            OllamaResponse::Ignore => {},
            OllamaResponse::Models(ms) => {
                self.models = ms;
                if !self.settings.model_picker.has_selection() {
                    self.settings.model_picker.select_best_model(&self.models, now);
                    let selection = self.settings.model_picker.selected.clone();
                    let ghost mid = *self;
                    let mut j: usize = 0;
                    while j < self.chats.len()
                        invariant
                            old(self).wf(),
                            j <= self.chats@.len(),
                            self.chats@.len() == old(self).chats@.len(),
                            self.selected_chat == mid.selected_chat,
                            self.next_chat_id == mid.next_chat_id,
                            self.flower == mid.flower,
                            self.models == mid.models,
                            self.flower_activity == mid.flower_activity,
                            self.pending_model_infos == mid.pending_model_infos,
                            self.chat_export_format == mid.chat_export_format,
                            self.settings == mid.settings,
                            self.toasts == mid.toasts,
                            selection.name == mid.settings.model_picker.selected.name,
                            selection.modified_ago == mid.settings.model_picker.selected.modified_ago,
                            selection.modified_at == mid.settings.model_picker.selected.modified_at,
                            selection.size == mid.settings.model_picker.selected.size,
                            forall|k: int| j <= k < self.chats@.len() ==> #[trigger] self.chats@[k]
                                == old(self).chats@[k],
                            forall|k: int|
                                0 <= k < j ==> #[trigger] self.chats@[k] == (if (
                                #[trigger] old(self).chats@[k]).model_picker.selected.name@.len()
                                    == 0 {
                                    Chat {
                                        model_picker: ModelPicker {
                                            selected: mid.settings.model_picker.selected,
                                            ..old(self).chats@[k].model_picker
                                        },
                                        ..old(self).chats@[k]
                                    }
                                } else {
                                    old(self).chats@[k]
                                }),
                        decreases self.chats@.len() - j,
                    {
                        if !self.chats[j].model_picker.has_selection() {
                            self.chats[j].model_picker.selected = selection.clone();
                            proof {
                                assert(self.chats@[j as int].model_picker.selected
                                    == mid.settings.model_picker.selected);
                            }
                        }
                        j += 1;
                    }
                }
            },
            OllamaResponse::ModelInfo { name, info } => {
                self.settings.model_picker.on_new_model_info(name.as_str(), &info);
                proof {
                    assert(self.settings.model_picker == picker_after_info(
                        old(self).settings.model_picker,
                        name@,
                        info,
                    ));
                }
                let ghost mid = *self;
                let mut j: usize = 0;
                while j < self.chats.len()
                    invariant
                        old(self).wf(),
                        j <= self.chats@.len(),
                        self.chats@.len() == old(self).chats@.len(),
                        self.selected_chat == mid.selected_chat,
                        self.next_chat_id == mid.next_chat_id,
                        self.flower == mid.flower,
                        self.models == mid.models,
                        self.flower_activity == mid.flower_activity,
                        self.pending_model_infos == mid.pending_model_infos,
                        self.chat_export_format == mid.chat_export_format,
                        self.settings == mid.settings,
                        self.toasts == mid.toasts,
                        forall|k: int| j <= k < self.chats@.len() ==> #[trigger] self.chats@[k]
                            == old(self).chats@[k],
                        forall|k: int|
                            0 <= k < j ==> #[trigger] self.chats@[k] == (Chat {
                                model_picker: picker_after_info(
                                    old(self).chats@[k].model_picker,
                                    name@,
                                    info,
                                ),
                                ..old(self).chats@[k]
                            }),
                    decreases self.chats@.len() - j,
                {
                    self.chats[j].model_picker.on_new_model_info(name.as_str(), &info);
                    proof {
                        assert(self.chats@[j as int] == (Chat {
                            model_picker: picker_after_info(
                                old(self).chats@[j as int].model_picker,
                                name@,
                                info,
                            ),
                            ..old(self).chats@[j as int]
                        }));
                    }
                    j += 1;
                }
                let mut remaining: Vec<String> = Vec::new();
                let mut p: usize = 0;
                proof {
                    assert(pending_without(self.pending_model_infos@.take(0), name@)
                        =~= Seq::<String>::empty());
                }
                while p < self.pending_model_infos.len()
                    invariant
                        old(self).wf(),
                        p <= self.pending_model_infos@.len(),
                        remaining@ == pending_without(
                            self.pending_model_infos@.take(p as int),
                            name@,
                        ),
                        self.chats@.len() == old(self).chats@.len(),
                    decreases self.pending_model_infos@.len() - p,
                {
                    let keep = !str_eq(self.pending_model_infos[p].as_str(), name.as_str());
                    if keep {
                        remaining.push(self.pending_model_infos[p].clone());
                    }
                    p += 1;
                    proof {
                        lemma_pending_without_push(
                            self.pending_model_infos@.take(p - 1),
                            self.pending_model_infos@[p - 1],
                            name@,
                        );
                        assert(self.pending_model_infos@.take(p as int)
                            =~= self.pending_model_infos@.take(p - 1).push(
                            self.pending_model_infos@[p - 1],
                        ));
                    }
                }
                proof {
                    assert(self.pending_model_infos@.take(self.pending_model_infos@.len() as int)
                        =~= self.pending_model_infos@);
                }
                self.pending_model_infos = remaining;
            },
            OllamaResponse::Toast(t) => {
                self.toasts.push(t);
            },
            OllamaResponse::Images { id, files } => {
                let mut found: Option<usize> = None;
                let mut j: usize = 0;
                while j < self.chats.len()
                    invariant
                        old(self).wf(),
                        *self == *old(self),
                        j <= self.chats@.len(),
                        found matches Some(f) ==> f < j && self.chats@[f as int].spec_id() == id
                            && (forall|k: int|
                            0 <= k < f ==> (#[trigger] self.chats@[k]).spec_id() != id),
                        found is None ==> forall|k: int|
                            0 <= k < j ==> (#[trigger] self.chats@[k]).spec_id() != id,
                    decreases self.chats@.len() - j,
                {
                    if found.is_none() && self.chats[j].id() == id {
                        found = Some(j);
                    }
                    j += 1;
                }
                match found {
                    Some(f) => {
                        let ghost pre = *self;
                        let mut k: usize = 0;
                        while k < files.len()
                            invariant
                                old(self).wf(),
                                f < self.chats@.len(),
                                k <= files@.len(),
                                self.chats@.len() == pre.chats@.len(),
                                self.selected_chat == pre.selected_chat,
                                self.next_chat_id == pre.next_chat_id,
                                self.flower == pre.flower,
                                self.models == pre.models,
                                self.flower_activity == pre.flower_activity,
                                self.pending_model_infos == pre.pending_model_infos,
                                self.chat_export_format == pre.chat_export_format,
                                self.settings == pre.settings,
                                self.toasts == pre.toasts,
                                forall|q: int|
                                    0 <= q < self.chats@.len() && q != f
                                        ==> #[trigger] self.chats@[q] == pre.chats@[q],
                                self.chats@[f as int].images@ == pre.chats@[f as int].images@
                                    + files@.take(k as int),
                                chat_images_extended_except(
                                    pre.chats@[f as int],
                                    self.chats@[f as int],
                                ),
                            decreases files@.len() - k,
                        {
                            self.chats[f].images.push(files[k].clone());
                            k += 1;
                            proof {
                                assert(self.chats@[f as int].images@ =~= pre.chats@[f as int].images@
                                    + files@.take(k as int));
                            }
                        }
                        proof {
                            assert(files@.take(files@.len() as int) =~= files@);
                        }
                    },
                    None => {},
                }
            },
            OllamaResponse::Settings(s) => {
                self.settings = s;
            },
        }
        proof {
            assert forall|j: int| 0 <= j < self.chats@.len() implies (
            #[trigger] self.chats@[j]).wf() && self.chats@[j].spec_id() == old(
                self,
            ).chats@[j].spec_id() by {
                assert(old(self).chats@[j].wf());
            }
        }
    }

    /// Feed the resolution of a maintenance request into the maintenance
    /// channel; rejected when none is in flight or it has already resolved.
    pub fn deliver_maintenance(&mut self, outcome: Terminal<OllamaResponse, String>) -> (r: Result<
        (),
        crate::channel::ChannelError,
    >)
        requires
            old(self).wf(),
        ensures
            final(self).wf(),
            r is Ok <==> old(self).flower@.active && old(self).flower@.terminal is None,
            r is Ok ==> final(self).flower@ == old(self).flower@.resolved(outcome),
            final(self).chats == old(self).chats,
            final(self).models == old(self).models,
            final(self).settings == old(self).settings,
            final(self).flower_activity == old(self).flower_activity,
            final(self).pending_model_infos == old(self).pending_model_infos,
            final(self).toasts == old(self).toasts,
            r is Err ==> final(self).flower@ == old(self).flower@,
    {
        let r = self.flower.try_resolve(outcome);
        proof {
            if r is Err {
                assert(self.flower@ =~= old(self).flower@);
            }
        }
        r
    }

    /// Poll the maintenance channel and apply whatever it resolved to.
    /// Returns the error text to show in a blocking dialog when the request
    /// failed or its task died.
    pub fn poll_ollama_flower(&mut self, now: i64) -> (dialog: Option<String>)
        requires
            old(self).wf(),
        ensures
            final(self).wf(),
            final(self).flower@ == old(self).flower@.polled().2,
            old(self).flower@.terminal is None ==> {
                &&& final(self).chats == old(self).chats
                &&& final(self).models == old(self).models
                &&& final(self).settings == old(self).settings
                &&& final(self).toasts == old(self).toasts
                &&& final(self).pending_model_infos == old(self).pending_model_infos
                &&& final(self).flower_activity == old(self).flower_activity
                &&& dialog is None
            },
            old(self).flower@.terminal is Some ==> final(self).flower_activity
                == OllamaFlowerActivity::Idle,
            old(self).flower@.terminal matches Some(Terminal::Success(resp)) ==> {
                &&& response_applied(*old(self), *final(self), resp, now)
                &&& dialog is None
            },
            old(self).flower@.terminal matches Some(Terminal::Failure(e)) ==> {
                &&& final(self).chats == old(self).chats
                &&& final(self).models == old(self).models
                &&& final(self).settings == old(self).settings
                &&& final(self).toasts == old(self).toasts
                &&& final(self).pending_model_infos == old(self).pending_model_infos
                &&& dialog matches Some(d) && d@ == e@
            },
            old(self).flower@.terminal matches Some(Terminal::Fault(e)) ==> {
                &&& final(self).chats == old(self).chats
                &&& final(self).models == old(self).models
                &&& final(self).settings == old(self).settings
                &&& final(self).toasts == old(self).toasts
                &&& final(self).pending_model_infos == old(self).pending_model_infos
                &&& dialog matches Some(d) && d@ == e@
            },
            final(self).selected_chat == old(self).selected_chat,
            final(self).next_chat_id == old(self).next_chat_id,
            final(self).chat_export_format == old(self).chat_export_format,
    {
        let (_progress, terminal) = self.flower.poll_and_drain();
        match terminal {
            None => None,
            Some(t) => {
                self.flower_activity = OllamaFlowerActivity::Idle;
                match t {
                    Terminal::Success(resp) => {
                        self.apply_response(resp, now);
                        None
                    },
                    Terminal::Failure(e) => Some(e),
                    Terminal::Fault(e) => Some(e),
                }
            },
        }
    }

    /// Poll every session's completion channel, in session order, applying
    /// whatever each drained to its own message list; no session observes
    /// another's payloads. Returns the per-session error dialogs, tagged
    /// with the session index, and whether any session had a request in
    /// flight — in which case the caller keeps repainting. The surrounding
    /// loop calls this before polling the maintenance channel and before
    /// rendering, so a frame renders what its own polls applied.
    pub fn poll_all_chats(&mut self) -> (r: (Vec<(usize, String)>, bool))
        requires
            old(self).wf(),
        ensures
            final(self).wf(),
            final(self).chats@.len() == old(self).chats@.len(),
            forall|j: int|
                0 <= j < old(self).chats@.len() ==> crate::chat::chat_poll_rel(
                    old(self).chats@[j],
                    #[trigger] final(self).chats@[j],
                ),
            r.1 <==> exists|j: int|
                0 <= j < old(self).chats@.len() && (#[trigger] old(
                    self,
                ).chats@[j]).spec_flower().active,
            forall|k: int|
                0 <= k < r.0@.len() ==> (#[trigger] r.0@[k]).0 < old(self).chats@.len()
                    && crate::chat::poll_dialog(
                    old(self).chats@[r.0@[k].0 as int].spec_flower().terminal,
                ) == Some(r.0@[k].1@),
            forall|j: int|
                0 <= j < old(self).chats@.len() && crate::chat::poll_dialog(
                    (#[trigger] old(self).chats@[j]).spec_flower().terminal,
                ) is Some ==> exists|k: int| 0 <= k < r.0@.len() && (#[trigger] r.0@[k]).0 == j,
            final(self).selected_chat == old(self).selected_chat,
            final(self).next_chat_id == old(self).next_chat_id,
            final(self).flower == old(self).flower,
            final(self).models == old(self).models,
            final(self).flower_activity == old(self).flower_activity,
            final(self).pending_model_infos == old(self).pending_model_infos,
            final(self).chat_export_format == old(self).chat_export_format,
            final(self).settings == old(self).settings,
            final(self).toasts == old(self).toasts,
    {
        let mut dialogs: Vec<(usize, String)> = Vec::new();
        let mut any_active = false;
        let mut j: usize = 0;
        while j < self.chats.len()
            invariant
                old(self).wf(),
                j <= self.chats@.len(),
                self.chats@.len() == old(self).chats@.len(),
                self.selected_chat == old(self).selected_chat,
                self.next_chat_id == old(self).next_chat_id,
                self.flower == old(self).flower,
                self.models == old(self).models,
                self.flower_activity == old(self).flower_activity,
                self.pending_model_infos == old(self).pending_model_infos,
                self.chat_export_format == old(self).chat_export_format,
                self.settings == old(self).settings,
                self.toasts == old(self).toasts,
                forall|k: int| j <= k < self.chats@.len() ==> #[trigger] self.chats@[k] == old(
                    self,
                ).chats@[k],
                forall|k: int|
                    0 <= k < j ==> crate::chat::chat_poll_rel(
                        old(self).chats@[k],
                        #[trigger] self.chats@[k],
                    ),
                any_active <==> exists|k: int|
                    0 <= k < j && (#[trigger] old(self).chats@[k]).spec_flower().active,
                forall|k: int|
                    0 <= k < dialogs@.len() ==> (#[trigger] dialogs@[k]).0 < j
                        && crate::chat::poll_dialog(
                        old(self).chats@[dialogs@[k].0 as int].spec_flower().terminal,
                    ) == Some(dialogs@[k].1@),
                forall|k: int|
                    0 <= k < j && crate::chat::poll_dialog(
                        (#[trigger] old(self).chats@[k]).spec_flower().terminal,
                    ) is Some ==> exists|d: int|
                        0 <= d < dialogs@.len() && (#[trigger] dialogs@[d]).0 == k,
            decreases self.chats@.len() - j,
        {
            if self.chats[j].flower_active() {
                any_active = true;
            }
            let ghost pre_dialogs = dialogs@;
            let dialog = self.chats[j].poll_flower();
            match dialog {
                Some(text) => {
                    dialogs.push((j, text));
                },
                None => {},
            }
            j += 1;
            proof {
                assert forall|k: int|
                    0 <= k < j && crate::chat::poll_dialog(
                        (#[trigger] old(self).chats@[k]).spec_flower().terminal,
                    ) is Some implies exists|d: int|
                    0 <= d < dialogs@.len() && (#[trigger] dialogs@[d]).0 == k by {
                    if k == j - 1 {
                        assert(dialogs@[dialogs@.len() - 1].0 == k);
                    } else {
                        let d = choose|d: int|
                            0 <= d < pre_dialogs.len() && (#[trigger] pre_dialogs[d]).0 == k;
                        assert(dialogs@[d].0 == k);
                    }
                }
            }
        }
        proof {
            assert forall|k: int|
                0 <= k < self.chats@.len() implies (#[trigger] self.chats@[k]).wf() by {
                assert(crate::chat::chat_poll_rel(old(self).chats@[k], self.chats@[k]));
            }
        }
        (dialogs, any_active)
    }
}

/// A session with `files` appended to its picked images, and nothing else
/// changed.
pub open spec fn chat_images_extended(pre: Chat, files: Seq<String>, post: Chat) -> bool {
    &&& post.images@ == pre.images@ + files
    &&& post.id == pre.id
    &&& post.chatbox == pre.chatbox
    &&& post.messages == pre.messages
    &&& post.flower == pre.flower
    &&& post.retry_message_idx == pre.retry_message_idx
    &&& post.summary == pre.summary
    &&& post.stop_generating == pre.stop_generating
    &&& post.model_picker == pre.model_picker
    &&& post.prepend_buf == pre.prepend_buf
}

/// A picker after a model description arrived: kept only when it describes
/// the selected model.
pub open spec fn picker_after_info(p: ModelPicker, name: Seq<char>, info: ModelInfo) -> ModelPicker {
    if p.selected.name@ == name {
        ModelPicker { info: Some(info), ..p }
    } else {
        p
    }
}

/// A picker after selecting the subjectively best of `models`, its
/// modification distance rendered from `now`.
pub open spec fn picker_best_applied(
    p: ModelPicker,
    models: Seq<LocalModel>,
    now: i64,
    q: ModelPicker,
) -> bool {
    &&& q.info == p.info
    &&& q.template == p.template
    &&& if models.len() == 0 {
        q.selected == p.selected
    } else {
        let best = models[best_model_index(models)];
        &&& q.selected.name == best.name
        &&& q.selected.modified_at == best.modified_at
        &&& q.selected.size == best.size
        &&& q.selected.modified_ago@ == crate::picker::spec_modified_ago(
            best.modified_at@,
            now as int,
        )
    }
}

/// How applying one maintenance response transforms the registry's state:
/// a model list replaces the known models and, when no default model was
/// selected yet, selects the best one and copies the selection into every
/// session that has none; a model description reaches every picker that
/// selected it and leaves the pending set; a toast joins the queue; picked
/// images join their session; loaded settings replace the settings.
pub open spec fn response_applied(pre: Sessions, post: Sessions, resp: OllamaResponse, now: i64) -> bool {
    &&& post.chats@.len() == pre.chats@.len()
    &&& post.selected_chat == pre.selected_chat
    &&& post.next_chat_id == pre.next_chat_id
    &&& post.chat_export_format == pre.chat_export_format
    &&& match resp {
        OllamaResponse::Ignore => {
            &&& post.chats == pre.chats
            &&& post.models == pre.models
            &&& post.settings == pre.settings
            &&& post.toasts == pre.toasts
            &&& post.pending_model_infos == pre.pending_model_infos
        },
        OllamaResponse::Models(ms) => {
            &&& post.models == ms
            &&& post.toasts == pre.toasts
            &&& post.pending_model_infos == pre.pending_model_infos
            &&& post.settings.endpoint == pre.settings.endpoint
            &&& post.settings.inherit_chat_picker == pre.settings.inherit_chat_picker
            &&& post.settings.endpoint_error == pre.settings.endpoint_error
            &&& if pre.settings.model_picker.selected.name@.len() != 0 {
                &&& post.settings.model_picker == pre.settings.model_picker
                &&& post.chats == pre.chats
            } else {
                &&& picker_best_applied(
                    pre.settings.model_picker,
                    ms@,
                    now,
                    post.settings.model_picker,
                )
                &&& forall|j: int|
                    0 <= j < pre.chats@.len() ==> #[trigger] post.chats@[j] == (if (
                    #[trigger] pre.chats@[j]).model_picker.selected.name@.len() == 0 {
                        Chat {
                            model_picker: ModelPicker {
                                selected: post.settings.model_picker.selected,
                                ..pre.chats@[j].model_picker
                            },
                            ..pre.chats@[j]
                        }
                    } else {
                        pre.chats@[j]
                    })
            }
        },
        OllamaResponse::ModelInfo { name, info } => {
            &&& post.models == pre.models
            &&& post.toasts == pre.toasts
            &&& post.pending_model_infos@ == pre.pending_model_infos@.filter(
                |s: String| s@ != name@,
            )
            &&& post.settings.endpoint == pre.settings.endpoint
            &&& post.settings.inherit_chat_picker == pre.settings.inherit_chat_picker
            &&& post.settings.endpoint_error == pre.settings.endpoint_error
            &&& post.settings.model_picker == picker_after_info(
                pre.settings.model_picker,
                name@,
                info,
            )
            &&& forall|j: int|
                0 <= j < pre.chats@.len() ==> #[trigger] post.chats@[j] == (Chat {
                    model_picker: picker_after_info(
                        (#[trigger] pre.chats@[j]).model_picker,
                        name@,
                        info,
                    ),
                    ..pre.chats@[j]
                })
        },
        OllamaResponse::Toast(t) => {
            &&& post.chats == pre.chats
            &&& post.models == pre.models
            &&& post.settings == pre.settings
            &&& post.pending_model_infos == pre.pending_model_infos
            &&& post.toasts@ == pre.toasts@.push(t)
        },
        OllamaResponse::Images { id, files } => {
            &&& post.models == pre.models
            &&& post.settings == pre.settings
            &&& post.toasts == pre.toasts
            &&& post.pending_model_infos == pre.pending_model_infos
            &&& forall|j: int|
                0 <= j < pre.chats@.len() ==> if (#[trigger] pre.chats@[j]).spec_id() == id {
                    chat_images_extended(pre.chats@[j], files@, post.chats@[j])
                } else {
                    post.chats@[j] == pre.chats@[j]
                }
        },
        OllamaResponse::Settings(s) => {
            &&& post.chats == pre.chats
            &&& post.models == pre.models
            &&& post.settings == s
            &&& post.toasts == pre.toasts
            &&& post.pending_model_infos == pre.pending_model_infos
        },
    }
}

/// The pending names with `name` taken out.
pub open spec fn pending_without(s: Seq<String>, name: Seq<char>) -> Seq<String> {
    s.filter(|t: String| t@ != name)
}

/// Taking a name out distributes over extending the list at the back.
proof fn lemma_pending_without_push(s: Seq<String>, x: String, name: Seq<char>)
    ensures
        pending_without(s.push(x), name) == (if x@ != name {
            pending_without(s, name).push(x)
        } else {
            pending_without(s, name)
        }),
{
    assert(s.push(x).drop_last() =~= s);
    assert(s.push(x).last() == x);
    reveal_with_fuel(Seq::filter, 2);
}

/// Everything of a session except its picked images is unchanged.
pub open spec fn chat_images_extended_except(pre: Chat, post: Chat) -> bool {
    &&& post.id == pre.id
    &&& post.chatbox == pre.chatbox
    &&& post.messages == pre.messages
    &&& post.flower == pre.flower
    &&& post.retry_message_idx == pre.retry_message_idx
    &&& post.summary == pre.summary
    &&& post.stop_generating == pre.stop_generating
    &&& post.model_picker == pre.model_picker
    &&& post.prepend_buf == pre.prepend_buf
}

/// Whether a session's picker already holds the description of the model
/// named `name`.
pub open spec fn is_cached_match(c: Chat, name: Seq<char>) -> bool {
    c.model_picker.selected.name@ == name && c.model_picker.selected.name@.len() != 0
        && c.model_picker.info is Some
}

/// The maintenance terminal produced by answering a description request
/// from session `c`'s cache.
pub open spec fn cached_terminal(
    t: Option<Terminal<OllamaResponse, String>>,
    name: Seq<char>,
    c: Chat,
) -> bool {
    match t {
        Some(Terminal::Success(OllamaResponse::ModelInfo { name: n, info: i })) => {
            &&& n@ == name
            &&& i.license == c.model_picker.info.unwrap().license
            &&& i.modelfile == c.model_picker.info.unwrap().modelfile
            &&& i.parameters == c.model_picker.info.unwrap().parameters
            &&& i.template == c.model_picker.info.unwrap().template
        },
        _ => false,
    }
}

} // verus!
