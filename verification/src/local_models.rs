//! Local models: the user's own ones, and the download of a model.

use vstd::prelude::*;

use crate::i18n::{fill, placeholder, Catalog, Language};
use crate::number::{decimal, decimal_text};
use crate::search::{contains_text, holds_text, replaced};
use crate::settings_search::ModelConfig;
use crate::text::{
    chars_of, is_letter_or_digit, lemma_filter_none, lemma_filter_step, lowercase, same, trim,
    trimmed,
};

verus! {

/// The settings of local models.
#[derive(Clone, Debug, PartialEq)]
pub struct QwenLocalSettings {
    pub enabled: bool,
    pub mirror_url: String,
    pub active_model_id: String,
    pub custom_models: Vec<ModelConfig>,
}

/// The model that is used where the chosen one is gone.
pub const FALLBACK_MODEL: &'static str = "qwen25-coder-1.5b";

/// What a model holds.
#[verifier::ext_equal]
pub struct ModelText {
    pub id: Seq<char>,
    pub name: Seq<char>,
    pub repo_id: Seq<char>,
    pub architecture: Seq<char>,
    pub prompt_template: Seq<char>,
    pub eos_token: Seq<char>,
}

impl View for ModelConfig {
    type V = ModelText;

    open spec fn view(&self) -> ModelText {
        ModelText {
            id: self.id@,
            name: self.name@,
            repo_id: self.repo_id@,
            architecture: self.architecture@,
            prompt_template: self.prompt_template@,
            eos_token: self.eos_token@,
        }
    }
}

/// Whether a model of this id is in the list.
pub open spec fn has_model(models: Seq<ModelConfig>, id: Seq<char>) -> bool {
    exists|i: int| 0 <= i < models.len() && (#[trigger] models[i]).id@ == id
}

/// Having another id.
pub open spec fn model_other(id: Seq<char>) -> spec_fn(ModelConfig) -> bool {
    |m: ModelConfig| m.id@ != id
}

fn model_exists(models: &Vec<ModelConfig>, id: &str) -> (r: bool)
    ensures
        r == has_model(models@, id@),
{
    for i in 0..models.len()
        invariant
            forall|j: int| 0 <= j < i ==> (#[trigger] models@[j]).id@ != id@,
    {
        if same(models[i].id.as_str(), id) {
            return true;
        }
    }
    false
}

/// A character of an id: letters and digits stay, anything else is a hyphen.
pub open spec fn id_char(c: char) -> char {
    if is_letter_or_digit(c) {
        c
    } else {
        '-'
    }
}

/// The id that a name gives.
pub open spec fn model_id(name: Seq<char>) -> Seq<char> {
    hyphenated(lowercase(name))
}

/// A text with hyphens for everything but letters and digits.
pub open spec fn hyphenated(text: Seq<char>) -> Seq<char> {
    text.map_values(|c: char| id_char(c))
}

/// A text with hyphens for everything but letters and digits.
pub fn hyphenate(text: &str) -> (r: String)
    ensures
        r@ == hyphenated(text@),
{
    let v = chars_of(text);
    let mut out = String::new();
    for i in 0..v.len()
        invariant
            v@ == text@,
            out@ == hyphenated(text@).take(i as int),
    {
        let c = v[i];
        if c.is_alphanumeric() {
            out.push(c);
        } else {
            out.push('-');
        }
        assert(hyphenated(text@).take(i + 1) == hyphenated(text@).take(i as int).push(
            hyphenated(text@)[i as int],
        ));
    }
    assert(hyphenated(text@).take(v@.len() as int) == hyphenated(text@));
    out
}

/// The form for a model of the user's own.
#[derive(Clone, Debug, PartialEq)]
pub struct CustomModelForm {
    pub shown: bool,
    pub name: String,
    pub repo: String,
    pub template: String,
    pub eos: String,
    pub error: String,
}

/// What becomes of a filled form.
pub enum ModelCheck {
    /// A field is empty.
    Empty,
    /// The template has no place for the prompt.
    NoPrompt,
    /// There is a model of this id.
    Duplicate,
    Accepted,
}

impl CustomModelForm {
    /// Whether every field is empty and the form is closed.
    pub open spec fn is_blank(&self) -> bool {
        &&& !self.shown
        &&& self.name@.len() == 0
        &&& self.repo@.len() == 0
        &&& self.template@.len() == 0
        &&& self.eos@.len() == 0
        &&& self.error@.len() == 0
    }

    /// The model that the form describes.
    pub open spec fn model(&self) -> ModelText {
        ModelText {
            id: model_id(trimmed(self.name@)),
            name: trimmed(self.name@),
            repo_id: trimmed(self.repo@),
            architecture: "qwen2"@,
            prompt_template: trimmed(self.template@),
            eos_token: trimmed(self.eos@),
        }
    }

    /// What becomes of the form, given the models that there are.
    pub open spec fn check(
        &self,
        custom: Seq<ModelConfig>,
        builtin: Seq<ModelConfig>,
    ) -> ModelCheck {
        let model = self.model();
        if model.name.len() == 0 || model.repo_id.len() == 0 || model.prompt_template.len() == 0
            || model.eos_token.len() == 0 {
            ModelCheck::Empty
        } else if !holds_text(model.prompt_template, "{prompt}"@) {
            ModelCheck::NoPrompt
        } else if has_model(custom, model.id) || has_model(builtin, model.id) {
            ModelCheck::Duplicate
        } else {
            ModelCheck::Accepted
        }
    }

    /// Closes the form and empties it.
    pub fn cancel(&mut self)
        ensures
            final(self).is_blank(),
    {
        self.name = String::new();
        self.repo = String::new();
        self.template = String::new();
        self.eos = String::new();
        self.error = String::new();
        self.shown = false;
    }

    /// Adds the model that the form describes and makes it the active one; `true` means that it
    /// was added. A form that is not complete, has no place for the prompt in its template or
    /// names a model that there is keeps its fields and tells why.
    pub fn add_model(
        &mut self,
        settings: &mut QwenLocalSettings,
        builtin: &Vec<ModelConfig>,
        language: Language,
        catalog: &Catalog,
    ) -> (r: bool)
        ensures
            final(settings).enabled == old(settings).enabled,
            final(settings).mirror_url == old(settings).mirror_url,
            r == (old(self).check(old(settings).custom_models@, builtin@) is Accepted),
            r ==> {
                &&& final(self).is_blank()
                &&& final(settings).active_model_id@ == old(self).model().id
                &&& final(settings).custom_models@.len() == old(settings).custom_models@.len() + 1
                &&& final(settings).custom_models@.drop_last() == old(settings).custom_models@
                &&& final(settings).custom_models@.last()@ == old(self).model()
            },
            !r ==> {
                &&& *final(settings) == *old(settings)
                &&& final(self).shown == old(self).shown
                &&& final(self).name == old(self).name
                &&& final(self).repo == old(self).repo
                &&& final(self).template == old(self).template
                &&& final(self).eos == old(self).eos
                &&& final(self).error@ == catalog.text(
                    language,
                    match old(self).check(old(settings).custom_models@, builtin@) {
                        ModelCheck::Empty => "ai_runtime.local.custom_err_empty"@,
                        ModelCheck::NoPrompt => "ai_runtime.local.custom_err_template"@,
                        _ => "ai_runtime.local.custom_err_dup"@,
                    },
                )
            },
    {
        let name = trim(self.name.as_str());
        let repo = trim(self.repo.as_str());
        let template = trim(self.template.as_str());
        let eos = trim(self.eos.as_str());
        if name.as_str().is_empty() || repo.as_str().is_empty() || template.as_str().is_empty()
            || eos.as_str().is_empty() {
            self.error = catalog.t_for(language, "ai_runtime.local.custom_err_empty");
            return false;
        }
        if !contains_text(template.as_str(), "{prompt}") {
            self.error = catalog.t_for(language, "ai_runtime.local.custom_err_template");
            return false;
        }
        let id = hyphenate(name.as_str().to_lowercase().as_str());
        if model_exists(&settings.custom_models, id.as_str()) || model_exists(
            builtin,
            id.as_str(),
        ) {
            self.error = catalog.t_for(language, "ai_runtime.local.custom_err_dup");
            return false;
        }
        let ghost before = settings.custom_models@;
        let model = ModelConfig {
            id: id.clone(),
            name,
            repo_id: repo,
            architecture: "qwen2".to_owned(),
            prompt_template: template,
            eos_token: eos,
        };
        settings.custom_models.push(model);
        assert(settings.custom_models@.drop_last() == before);
        settings.active_model_id = id;
        self.cancel();
        true
    }
}

/// Deletes a model of the user's own; where it was the active one, the fallback becomes active.
pub fn delete_model(settings: &mut QwenLocalSettings, id: &str)
    ensures
        final(settings).enabled == old(settings).enabled,
        final(settings).mirror_url == old(settings).mirror_url,
        final(settings).custom_models@ == old(settings).custom_models@.filter(model_other(id@)),
        final(settings).active_model_id@ == (if old(settings).active_model_id@ == id@ {
            FALLBACK_MODEL@
        } else {
            old(settings).active_model_id@
        }),
{
    let ghost all = settings.custom_models@;
    let ghost keep = model_other(id@);
    let mut rest: Vec<ModelConfig> = Vec::new();
    std::mem::swap(&mut rest, &mut settings.custom_models);
    let count: usize = rest.len();
    let mut left: usize = count;
    let mut kept: Vec<ModelConfig> = Vec::new();
    proof {
        lemma_filter_none(all, keep);
    }
    while left > 0
        invariant
            left <= count == all.len(),
            rest@ == all.skip(count - left),
            keep == model_other(id@),
            kept@ == all.take(count - left).filter(keep),
        decreases left,
    {
        proof {
            lemma_filter_step(all, count - left, keep);
        }
        let model = rest.remove(0);
        if !same(model.id.as_str(), id) {
            kept.push(model);
        }
        left = left - 1;
    }
    proof {
        lemma_filter_none(all, keep);
    }
    settings.custom_models = kept;
    if same(settings.active_model_id.as_str(), id) {
        settings.active_model_id = FALLBACK_MODEL.to_owned();
    }
}

/// Whether no two models of a list have the same id.
pub open spec fn ids_unique(models: Seq<ModelConfig>) -> bool {
    forall|i: int, j: int|
        0 <= i < j < models.len() ==> (#[trigger] models[i]).id@ != (#[trigger] models[j]).id@
}

/// Adding an accepted model keeps the ids unique and different from the built-in ones.
pub proof fn law_added_model_is_unique(
    form: CustomModelForm,
    custom: Seq<ModelConfig>,
    builtin: Seq<ModelConfig>,
    added: ModelConfig,
)
    requires
        ids_unique(custom),
        form.check(custom, builtin) is Accepted,
        added@ == form.model(),
    ensures
        ids_unique(custom.push(added)),
        !has_model(builtin, added.id@),
{
    let after = custom.push(added);
    assert forall|i: int, j: int| 0 <= i < j < after.len() implies (#[trigger] after[i]).id@ != (
    #[trigger] after[j]).id@ by {
        if j == custom.len() {
            assert(after[i] == custom[i]);
            if after[i].id@ == added.id@ {
                assert(custom[i].id@ == form.model().id);
                assert(has_model(custom, form.model().id));
            }
        } else {
            assert(after[i] == custom[i] && after[j] == custom[j]);
        }
    }
}

/// A deleted model is gone.
pub proof fn law_deleted_model_is_gone(models: Seq<ModelConfig>, id: Seq<char>)
    ensures
        !has_model(models.filter(model_other(id)), id),
{
    broadcast use vstd::seq_lib::group_filter_ensures;

    let kept = models.filter(model_other(id));
    assert forall|i: int| 0 <= i < kept.len() implies (#[trigger] kept[i]).id@ != id by {
        assert(model_other(id)(kept[i]));
    }
}

// ---------------------------------------------------------------------------------------------
// Downloads
// ---------------------------------------------------------------------------------------------

/// The state of a download as it is shown for the active model.
#[derive(Clone, Debug, PartialEq)]
pub enum ModelDownloadState {
    Idle,
    Starting,
    Downloading(String),
    Quantizing { current: usize, total: usize, tensor: String },
    Ready,
    Failed(String),
}

/// What a running download reports.
#[derive(Debug, PartialEq)]
pub enum ModelDownloadEvent {
    Downloading { file: String },
    Quantizing { current: usize, total: usize, tensor: String },
    Done,
    Finished(Result<(), String>),
    /// The download stopped without a word.
    Lost,
}

/// A download: what is shown, and the id and the name of the model that is being downloaded.
#[derive(Clone, Debug, PartialEq)]
pub struct ModelDownload {
    pub state: ModelDownloadState,
    pub task: Option<(String, String)>,
}

/// The state of a model that is not being downloaded.
pub fn model_download_status(ready: bool) -> (r: ModelDownloadState)
    ensures
        r == (if ready {
            ModelDownloadState::Ready
        } else {
            ModelDownloadState::Idle
        }),
{
    if ready {
        ModelDownloadState::Ready
    } else {
        ModelDownloadState::Idle
    }
}

/// What is shown after a report about the active model.
pub open spec fn after_report(state: ModelDownloadState, event: ModelDownloadEvent) -> ModelDownloadState {
    match event {
        ModelDownloadEvent::Downloading { file } => ModelDownloadState::Downloading(file),
        ModelDownloadEvent::Quantizing { current, total, tensor } => ModelDownloadState::Quantizing {
            current,
            total,
            tensor,
        },
        ModelDownloadEvent::Done => state,
        ModelDownloadEvent::Finished(Ok(_)) => ModelDownloadState::Ready,
        ModelDownloadEvent::Finished(Err(error)) => ModelDownloadState::Failed(error),
        ModelDownloadEvent::Lost => state,
    }
}

/// Whether a report is the last one of its download.
pub open spec fn is_last(event: ModelDownloadEvent) -> bool {
    event is Finished || event is Lost
}

impl ModelDownload {
    /// The download button; `true` means that the download is to be started. One download runs
    /// at a time, and none without a place for the files.
    pub fn start(
        &mut self,
        cache_available: bool,
        model_id: String,
        model_name: String,
        language: Language,
        catalog: &Catalog,
    ) -> (r: bool)
        ensures
            r == (old(self).task is None && cache_available),
            r ==> final(self).task == Some((model_id, model_name)) && final(self).state
                == ModelDownloadState::Starting,
            !r ==> final(self).task == old(self).task,
            old(self).task is Some ==> final(self).state == old(self).state,
            old(self).task is None && !cache_available ==> (
            final(self).state matches ModelDownloadState::Failed(why) && why@ == catalog.text(
                language,
                "ai_runtime.local.cache_unavailable"@,
            )),
    {
        if self.task.is_some() {
            return false;
        }
        if !cache_available {
            self.state = ModelDownloadState::Failed(
                catalog.t_for(language, "ai_runtime.local.cache_unavailable"),
            );
            return false;
        }
        self.task = Some((model_id, model_name));
        self.state = ModelDownloadState::Starting;
        true
    }

    /// A report of the download of `model_id`; `true` means that it was the last one. What is
    /// shown changes only where this model is the active one.
    pub fn report(&mut self, event: ModelDownloadEvent, model_id: &str, active_model_id: &str) -> (r:
        bool)
        ensures
            r == is_last(event),
            final(self).task == (if r {
                None
            } else {
                old(self).task
            }),
            model_id@ != active_model_id@ ==> final(self).state == old(self).state,
            model_id@ == active_model_id@ ==> if event is Lost {
                final(self).state matches ModelDownloadState::Failed(why) && why@
                    == "model download thread stopped unexpectedly"@
            } else {
                final(self).state == after_report(old(self).state, event)
            },
    {
        let active = same(model_id, active_model_id);
        match event {
            ModelDownloadEvent::Downloading { file } => {
                if active {
                    self.state = ModelDownloadState::Downloading(file);
                }
                false
            },
            ModelDownloadEvent::Quantizing { current, total, tensor } => {
                if active {
                    self.state = ModelDownloadState::Quantizing { current, total, tensor };
                }
                false
            },
            ModelDownloadEvent::Done => false,
            ModelDownloadEvent::Finished(result) => {
                self.task = None;
                if active {
                    self.state = match result {
                        Ok(_) => ModelDownloadState::Ready,
                        Err(error) => ModelDownloadState::Failed(error),
                    };
                }
                true
            },
            ModelDownloadEvent::Lost => {
                self.task = None;
                if active {
                    self.state = ModelDownloadState::Failed(
                        "model download thread stopped unexpectedly".to_owned(),
                    );
                }
                true
            },
        }
    }

    /// The message of the download button.
    pub fn button_key(&self) -> (r: &'static str)
        ensures
            r@ == (if self.state is Ready {
                "ai_runtime.local.ready"@
            } else {
                "ai_runtime.local.download_model"@
            }),
    {
        match self.state {
            ModelDownloadState::Ready => "ai_runtime.local.ready",
            _ => "ai_runtime.local.download_model",
        }
    }

    /// Whether the button cannot be used.
    pub fn button_disabled(&self) -> (r: bool)
        ensures
            r == (self.task is Some || self.state is Ready),
    {
        let ready = match self.state {
            ModelDownloadState::Ready => true,
            _ => false,
        };
        self.task.is_some() || ready
    }

    /// The text that tells how far the download is.
    pub open spec fn status(&self, language: Language, catalog: &Catalog) -> Seq<char> {
        match self.state {
            ModelDownloadState::Idle => Seq::empty(),
            ModelDownloadState::Ready => Seq::empty(),
            ModelDownloadState::Starting => catalog.text(
                language,
                "ai_runtime.local.download_starting"@,
            ),
            ModelDownloadState::Downloading(file) => catalog.text_with(
                language,
                "ai_runtime.local.downloading"@,
                "file"@,
                file@,
            ),
            ModelDownloadState::Quantizing { current, total, tensor } => replaced(
                replaced(
                    catalog.text_with(
                        language,
                        "ai_runtime.local.quantizing"@,
                        "current"@,
                        decimal(current as nat),
                    ),
                    placeholder("total"@),
                    decimal(total as nat),
                ),
                placeholder("tensor"@),
                tensor@,
            ),
            ModelDownloadState::Failed(error) => catalog.text_with(
                language,
                "ai_runtime.local.download_failed"@,
                "error"@,
                error@,
            ),
        }
    }

    /// Tells how far the download is.
    pub fn status_text(&self, language: Language, catalog: &Catalog) -> (r: String)
        ensures
            r@ == self.status(language, catalog),
    {
        match &self.state {
            ModelDownloadState::Idle => String::new(),
            ModelDownloadState::Ready => String::new(),
            ModelDownloadState::Starting => catalog.t_for(
                language,
                "ai_runtime.local.download_starting",
            ),
            ModelDownloadState::Downloading(file) => catalog.tf_for(
                language,
                "ai_runtime.local.downloading",
                "file",
                file.as_str(),
            ),
            ModelDownloadState::Quantizing { current, total, tensor } => {
                let step = catalog.tf_for(
                    language,
                    "ai_runtime.local.quantizing",
                    "current",
                    decimal_text(*current as u64).as_str(),
                );
                let step = fill(step.as_str(), "total", decimal_text(*total as u64).as_str());
                fill(step.as_str(), "tensor", tensor.as_str())
            },
            ModelDownloadState::Failed(error) => catalog.tf_for(
                language,
                "ai_runtime.local.download_failed",
                "error",
                error.as_str(),
            ),
        }
    }

    /// Tells that another model than the active one is being downloaded.
    pub fn background_text(
        &self,
        active_model_id: &str,
        language: Language,
        catalog: &Catalog,
    ) -> (r: String)
        ensures
            r@ == match self.task {
                Some(task) => if task.0@ != active_model_id@ {
                    catalog.text_with(
                        language,
                        "ai_runtime.local.download_background"@,
                        "model"@,
                        task.1@,
                    )
                } else {
                    Seq::empty()
                },
                None => Seq::empty(),
            },
    {
        match &self.task {
            Some(task) => {
                if same(task.0.as_str(), active_model_id) {
                    String::new()
                } else {
                    catalog.tf_for(
                        language,
                        "ai_runtime.local.download_background",
                        "model",
                        task.1.as_str(),
                    )
                }
            },
            None => String::new(),
        }
    }

    /// The colour of the status.
    pub fn status_color(&self) -> (r: &'static str)
        ensures
            r@ == (if self.state is Failed {
                "var(--settings-danger)"@
            } else {
                "var(--settings-text-muted)"@
            }),
    {
        match self.state {
            ModelDownloadState::Failed(_) => "var(--settings-danger)",
            _ => "var(--settings-text-muted)",
        }
    }
}

/// In an id letters and digits stay and everything else becomes a hyphen, character by character.
pub proof fn law_model_id(text: Seq<char>, name: Seq<char>)
    ensures
        hyphenated(text).len() == text.len(),
        forall|i: int|
            0 <= i < text.len() ==> if is_letter_or_digit(text[i]) {
                #[trigger] hyphenated(text)[i] == text[i]
            } else {
                hyphenated(text)[i] == '-'
            },
        model_id(name) == hyphenated(lowercase(name)),
{
}

/// The model of a form has the form's texts, each in its own field and without the whitespace
/// around it.
pub proof fn law_model_of_the_form(form: CustomModelForm)
    ensures
        form.model().name == trimmed(form.name@),
        form.model().repo_id == trimmed(form.repo@),
        form.model().prompt_template == trimmed(form.template@),
        form.model().eos_token == trimmed(form.eos@),
        form.model().id == hyphenated(lowercase(trimmed(form.name@))),
        form.model().architecture == "qwen2"@,
{
}

/// A model is accepted exactly when all four texts are filled in, its template has a place for the
/// prompt, and no model has its id yet.
pub proof fn law_when_a_model_is_accepted(
    form: CustomModelForm,
    custom: Seq<ModelConfig>,
    builtin: Seq<ModelConfig>,
)
    ensures
        form.check(custom, builtin) is Empty <==> trimmed(form.name@).len() == 0 || trimmed(
            form.repo@,
        ).len() == 0 || trimmed(form.template@).len() == 0 || trimmed(form.eos@).len() == 0,
        form.check(custom, builtin) is Accepted ==> holds_text(
            trimmed(form.template@),
            "{prompt}"@,
        ) && !has_model(custom, form.model().id) && !has_model(builtin, form.model().id),
        form.check(custom, builtin) is NoPrompt <==> trimmed(form.name@).len() > 0 && trimmed(
            form.repo@,
        ).len() > 0 && trimmed(form.template@).len() > 0 && trimmed(form.eos@).len() > 0
            && !holds_text(trimmed(form.template@), "{prompt}"@),
        form.check(custom, builtin) is Duplicate ==> has_model(custom, form.model().id)
            || has_model(builtin, form.model().id),
        form.check(custom, builtin) is Empty || form.check(custom, builtin) is NoPrompt
            || form.check(custom, builtin) is Duplicate || form.check(custom, builtin) is Accepted,
{
}

/// Deleting a model leaves every model of another id, as often as it was there, and none of its
/// own.
pub proof fn law_other_models_stay(models: Seq<ModelConfig>, id: Seq<char>, model: ModelConfig)
    ensures
        model.id@ != id ==> models.filter(model_other(id)).to_multiset().count(model)
            == models.to_multiset().count(model),
        !has_model(models.filter(model_other(id)), id),
{
    crate::text::lemma_filter_count(models, model_other(id), model);
    let kept = models.filter(model_other(id));
    if has_model(kept, id) {
        let i = choose|i: int| 0 <= i < kept.len() && (#[trigger] kept[i]).id@ == id;
        crate::text::lemma_filtered_is_listed(models, model_other(id), i);
    }
}

/// A report of progress shows that progress, a report of the end shows how it ended, and the
/// others change nothing that is shown; only the end and a lost download are the last report.
pub proof fn law_reports_of_a_download(state: ModelDownloadState, event: ModelDownloadEvent)
    ensures
        event matches ModelDownloadEvent::Downloading { file } ==> after_report(state, event)
            == ModelDownloadState::Downloading(file),
        event matches ModelDownloadEvent::Quantizing { current, total, tensor } ==> after_report(
            state,
            event,
        ) == (ModelDownloadState::Quantizing { current, total, tensor }),
        event is Done || event is Lost ==> after_report(state, event) == state,
        event matches ModelDownloadEvent::Finished(outcome) ==> (outcome is Ok ==> after_report(
            state,
            event,
        ) is Ready) && (outcome is Err ==> after_report(state, event) == ModelDownloadState::Failed(
            outcome->Err_0,
        )),
        is_last(event) <==> event is Finished || event is Lost,
{
}

/// A blank form is closed and has nothing in any of its fields.
pub proof fn law_blank_form(form: CustomModelForm)
    ensures
        form.is_blank() <==> !form.shown && form.name@ == Seq::<char>::empty() && form.repo@
            == Seq::<char>::empty() && form.template@ == Seq::<char>::empty() && form.eos@
            == Seq::<char>::empty() && form.error@ == Seq::<char>::empty(),
{
    if form.is_blank() {
        assert(form.name@ == Seq::<char>::empty());
        assert(form.repo@ == Seq::<char>::empty());
        assert(form.template@ == Seq::<char>::empty());
        assert(form.eos@ == Seq::<char>::empty());
        assert(form.error@ == Seq::<char>::empty());
    }
}

} // verus!
