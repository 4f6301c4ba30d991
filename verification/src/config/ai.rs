//! AI connection settings: the partial settings each source supplies, how they
//! layer, and how the final connection is selected.
use vstd::prelude::*;

use crate::config::paths::EnvVars;
use crate::config::source::{ConfigChain, ConfigSource, Mergeable, Preloaded, fold_merge};
use crate::config::sources::ai_builtin::{
    AiBuiltinSource,
    DEFAULT_BASE_URL,
    DEFAULT_MODEL,
    DEFAULT_PROVIDER,
    builtin_model,
};
use crate::config::sources::ai_env::{AiEnvSource, env_load};
use crate::error::AgcError;
use crate::model::{Duplicate, Model};
use crate::text::{join, join_spec, views};

verus! {

/// The model of one connection setting.
pub struct SettingModel {
    pub name: Seq<char>,
    pub kind: Option<Seq<char>>,
    pub api_key: Option<Seq<char>>,
    pub model: Option<Seq<char>>,
    pub base_url: Option<Seq<char>>,
}

/// The model of a partial AI configuration.
pub struct FileModel {
    pub use_provider: Option<Seq<char>>,
    pub providers: Seq<SettingModel>,
    pub provider: Option<Seq<char>>,
    pub api_key: Option<Seq<char>>,
    pub model: Option<Seq<char>>,
    pub base_url: Option<Seq<char>>,
}

/// The model of the resolved AI configuration.
pub struct AiConfigModel {
    pub provider: Seq<char>,
    pub api_key: Option<Seq<char>>,
    pub model: Seq<char>,
    pub base_url: Seq<char>,
}

/// The higher value when it is set, else the lower one.
pub open spec fn pick<A>(lower: Option<A>, higher: Option<A>) -> Option<A> {
    if higher is Some {
        higher
    } else {
        lower
    }
}

/// A partial AI configuration (every field optional), the data that passes
/// between sources.
pub struct FileConfig {
    pub use_provider: Option<String>,
    pub providers: Vec<ProviderSetting>,
    /// Legacy flat layout: turned into a single provider when `providers` is empty.
    pub provider: Option<String>,
    pub api_key: Option<String>,
    pub model: Option<String>,
    pub base_url: Option<String>,
}

/// One connection setting.
pub struct ProviderSetting {
    pub name: String,
    /// Protocol implementation (name registered in `ProviderRegistry`), `openai` by default.
    pub kind: Option<String>,
    pub api_key: Option<String>,
    pub model: Option<String>,
    /// Full chat/completions endpoint.
    pub base_url: Option<String>,
}

/// The resolved AI configuration.
pub struct AiConfig {
    pub provider: String,
    pub api_key: Option<String>,
    pub model: String,
    pub base_url: String,
}

impl Model for ProviderSetting {
    type M = SettingModel;

    open spec fn model(&self) -> SettingModel {
        SettingModel {
            name: self.name@,
            kind: self.kind.model(),
            api_key: self.api_key.model(),
            model: self.model.model(),
            base_url: self.base_url.model(),
        }
    }
}

impl Duplicate for ProviderSetting {
    fn duplicate(&self) -> (r: Self) {
        ProviderSetting {
            name: self.name.clone(),
            kind: self.kind.duplicate(),
            api_key: self.api_key.duplicate(),
            model: self.model.duplicate(),
            base_url: self.base_url.duplicate(),
        }
    }
}

impl Model for FileConfig {
    type M = FileModel;

    open spec fn model(&self) -> FileModel {
        FileModel {
            use_provider: self.use_provider.model(),
            providers: self.providers.model(),
            provider: self.provider.model(),
            api_key: self.api_key.model(),
            model: self.model.model(),
            base_url: self.base_url.model(),
        }
    }
}

impl Duplicate for FileConfig {
    fn duplicate(&self) -> (r: Self) {
        FileConfig {
            use_provider: self.use_provider.duplicate(),
            providers: self.providers.duplicate(),
            provider: self.provider.duplicate(),
            api_key: self.api_key.duplicate(),
            model: self.model.duplicate(),
            base_url: self.base_url.duplicate(),
        }
    }
}

impl Model for AiConfig {
    type M = AiConfigModel;

    open spec fn model(&self) -> AiConfigModel {
        AiConfigModel {
            provider: self.provider@,
            api_key: self.api_key.model(),
            model: self.model@,
            base_url: self.base_url@,
        }
    }
}

impl Duplicate for AiConfig {
    fn duplicate(&self) -> (r: Self) {
        AiConfig {
            provider: self.provider.clone(),
            api_key: self.api_key.duplicate(),
            model: self.model.clone(),
            base_url: self.base_url.clone(),
        }
    }
}

/// The model of an empty partial configuration.
pub open spec fn empty_file_model() -> FileModel {
    FileModel {
        use_provider: None,
        providers: Seq::empty(),
        provider: None,
        api_key: None,
        model: None,
        base_url: None,
    }
}

impl Default for FileConfig {
    fn default() -> (r: Self)
        ensures
            r.model() == empty_file_model(),
    {
        let r = FileConfig {
            use_provider: None,
            providers: Vec::new(),
            provider: None,
            api_key: None,
            model: None,
            base_url: None,
        };
        assert(r.providers.model() =~= Seq::<SettingModel>::empty());
        r
    }
}

/// A setting after a higher-priority one with the same name is layered on it.
pub open spec fn merge_setting(lower: SettingModel, higher: SettingModel) -> SettingModel {
    SettingModel {
        name: lower.name,
        kind: pick(lower.kind, higher.kind),
        api_key: pick(lower.api_key, higher.api_key),
        model: pick(lower.model, higher.model),
        base_url: pick(lower.base_url, higher.base_url),
    }
}

impl Mergeable for ProviderSetting {
    open spec fn merge_model(lower: SettingModel, higher: SettingModel) -> SettingModel {
        merge_setting(lower, higher)
    }

    fn merge_from(&mut self, higher: Self) {
        if higher.kind.is_some() {
            self.kind = higher.kind;
        }
        if higher.api_key.is_some() {
            self.api_key = higher.api_key;
        }
        if higher.model.is_some() {
            self.model = higher.model;
        }
        if higher.base_url.is_some() {
            self.base_url = higher.base_url;
        }
    }
}

/// The index of the first setting named `name`.
pub open spec fn index_of_name(l: Seq<SettingModel>, name: Seq<char>) -> Option<int>
    decreases l.len(),
{
    if l.len() == 0 {
        None
    } else if l[0].name == name {
        Some(0)
    } else {
        match index_of_name(l.drop_first(), name) {
            Some(i) => Some(i + 1),
            None => None,
        }
    }
}

pub proof fn lemma_index_of_name(l: Seq<SettingModel>, name: Seq<char>, i: int)
    requires
        0 <= i <= l.len(),
        forall|j: int| 0 <= j < i ==> (#[trigger] l[j]).name != name,
    ensures
        i < l.len() && l[i].name == name ==> index_of_name(l, name) == Some(i),
        i == l.len() ==> index_of_name(l, name) is None,
    decreases i,
{
    if i > 0 {
        let t = l.drop_first();
        assert(l[0].name != name);
        assert forall|j: int| 0 <= j < i - 1 implies (#[trigger] t[j]).name != name by {
            assert(t[j] == l[j + 1]);
        }
        lemma_index_of_name(t, name, i - 1);
        if i < l.len() {
            assert(t[i - 1] == l[i]);
        }
    }
}

pub proof fn lemma_index_of_name_bounds(l: Seq<SettingModel>, name: Seq<char>)
    ensures
        index_of_name(l, name) matches Some(i) ==> 0 <= i < l.len() && l[i].name == name
            && forall|j: int| 0 <= j < i ==> (#[trigger] l[j]).name != name,
        index_of_name(l, name) is None ==> forall|j: int| 0 <= j < l.len() ==> (#[trigger] l[j]).name != name,
    decreases l.len(),
{
    if l.len() > 0 {
        let t = l.drop_first();
        lemma_index_of_name_bounds(t, name);
        if l[0].name != name {
            match index_of_name(t, name) {
                Some(i) => {
                    assert(l[i + 1] == t[i]);
                    assert forall|j: int| 0 <= j < i + 1 implies (#[trigger] l[j]).name != name by {
                        if j > 0 {
                            assert(l[j] == t[j - 1]);
                        }
                    }
                },
                None => {
                    assert forall|j: int| 0 <= j < l.len() implies (#[trigger] l[j]).name != name by {
                        if j > 0 {
                            assert(l[j] == t[j - 1]);
                        }
                    }
                },
            }
        }
    }
}

/// Finds the first setting named `name`.
pub fn find_setting(l: &Vec<ProviderSetting>, name: &String) -> (r: Option<usize>)
    ensures
        r matches Some(i) ==> i < l@.len() && index_of_name(l.model(), name@) == Some(i as int),
        r is None ==> index_of_name(l.model(), name@) is None,
{
    let n = l.len();
    let mut i: usize = 0;
    while i < n
        invariant
            i <= n == l@.len(),
            forall|j: int| 0 <= j < i ==> (#[trigger] l.model()[j]).name != name@,
        decreases n - i,
    {
        assert(l.model()[i as int] == l@[i as int].model());
        if l[i].name == *name {
            proof {
                lemma_index_of_name(l.model(), name@, i as int);
            }
            return Some(i);
        }
        i = i + 1;
    }
    proof {
        lemma_index_of_name(l.model(), name@, n as int);
    }
    None
}

/// One higher-priority setting layered into a list: merged into the first
/// setting of the same name, or appended.
pub open spec fn merge_one(lower: Seq<SettingModel>, hp: SettingModel) -> Seq<SettingModel> {
    match index_of_name(lower, hp.name) {
        Some(i) => lower.update(i, merge_setting(lower[i], hp)),
        None => lower.push(hp),
    }
}

/// Higher-priority settings layered into a list, in their order.
pub open spec fn merge_settings(lower: Seq<SettingModel>, higher: Seq<SettingModel>) -> Seq<SettingModel>
    decreases higher.len(),
{
    if higher.len() == 0 {
        lower
    } else {
        merge_one(merge_settings(lower, higher.drop_last()), higher.last())
    }
}

/// A partial configuration after a higher-priority one is layered on it:
/// `use_provider` and the settings are merged; the flat legacy fields stay.
pub open spec fn merge_file(lower: FileModel, higher: FileModel) -> FileModel {
    FileModel {
        use_provider: pick(lower.use_provider, higher.use_provider),
        providers: merge_settings(lower.providers, higher.providers),
        ..lower
    }
}

impl Mergeable for FileConfig {
    open spec fn merge_model(lower: FileModel, higher: FileModel) -> FileModel {
        merge_file(lower, higher)
    }

    fn merge_from(&mut self, higher: Self) {
        if higher.use_provider.is_some() {
            self.use_provider = higher.use_provider;
        }
        let hps = higher.providers;
        let ghost low = old(self).providers.model();
        let n = hps.len();
        let mut i: usize = 0;
        assert(hps.model().take(0) =~= Seq::<SettingModel>::empty());
        while i < n
            invariant
                i <= n == hps@.len(),
                self.providers.model() == merge_settings(low, hps.model().take(i as int)),
                self.use_provider.model() == pick(old(self).use_provider.model(), higher.use_provider.model()),
                self.provider == old(self).provider,
                self.api_key == old(self).api_key,
                self.model == old(self).model,
                self.base_url == old(self).base_url,
            decreases n - i,
        {
            let hp = hps[i].duplicate();
            let ghost before = self.providers.model();
            assert(hps.model().take(i + 1).drop_last() =~= hps.model().take(i as int));
            assert(hps.model()[i as int] == hps@[i as int].model());
            match find_setting(&self.providers, &hp.name) {
                Some(k) => {
                    let mut s = self.providers[k].duplicate();
                    s.merge_from(hp);
                    let ghost sm = s.model();
                    self.providers.set(k, s);
                    assert(self.providers.model() =~= before.update(k as int, sm));
                },
                None => {
                    let ghost hm = hp.model();
                    self.providers.push(hp);
                    assert(self.providers.model() =~= before.push(hm));
                },
            }
            i = i + 1;
        }
        assert(hps.model().take(n as int) =~= hps.model());
    }
}

/// The `use_provider` of the highest-priority loaded configuration that sets
/// one; `default` when none does.
pub open spec fn first_use_provider(loads: Seq<Option<FileModel>>, default: Option<Seq<char>>) -> Option<
    Seq<char>,
>
    decreases loads.len(),
{
    if loads.len() == 0 {
        default
    } else {
        match loads[0] {
            Some(p) if p.use_provider is Some => p.use_provider,
            _ => first_use_provider(loads.drop_first(), default),
        }
    }
}

/// Law: in a layered AI configuration, `use_provider` is the one set by the
/// highest-priority source that sets one (the base's when none does).
pub proof fn law_use_provider_priority(loads: Seq<Option<FileModel>>, base: FileModel)
    ensures
        fold_merge::<FileConfig>(loads, base).use_provider == first_use_provider(
            loads,
            base.use_provider,
        ),
    decreases loads.len(),
{
    if loads.len() > 0 {
        law_use_provider_priority(loads.drop_first(), base);
    }
}

/// The first setting named `name`, if any.
pub open spec fn setting_for(l: Seq<SettingModel>, name: Seq<char>) -> Option<SettingModel> {
    match index_of_name(l, name) {
        Some(i) => Some(l[i]),
        None => None,
    }
}

/// No two settings share a name.
pub open spec fn names_distinct(l: Seq<SettingModel>) -> bool {
    forall|i: int, j: int| 0 <= i < j < l.len() ==> (#[trigger] l[i]).name != (#[trigger] l[j]).name
}

/// A lower-priority setting combined with the higher-priority one of the same
/// name: merged field by field when both exist.
pub open spec fn layered(lower: Option<SettingModel>, higher: Option<SettingModel>) -> Option<SettingModel> {
    match (lower, higher) {
        (Some(l), Some(h)) => Some(merge_setting(l, h)),
        (None, Some(h)) => Some(h),
        (l, None) => l,
    }
}

proof fn lemma_index_same_names(a: Seq<SettingModel>, b: Seq<SettingModel>, name: Seq<char>)
    requires
        a.len() == b.len(),
        forall|k: int| 0 <= k < a.len() ==> (#[trigger] a[k]).name == b[k].name,
    ensures
        index_of_name(a, name) == index_of_name(b, name),
    decreases a.len(),
{
    if a.len() > 0 {
        assert(a[0].name == b[0].name);
        assert forall|k: int| 0 <= k < a.len() - 1 implies (#[trigger] a.drop_first()[k]).name
            == b.drop_first()[k].name by {
            assert(a[k + 1].name == b[k + 1].name);
        }
        lemma_index_same_names(a.drop_first(), b.drop_first(), name);
    }
}

proof fn lemma_index_push(l: Seq<SettingModel>, x: SettingModel, name: Seq<char>)
    ensures
        index_of_name(l.push(x), name) == (match index_of_name(l, name) {
            Some(i) => Some(i),
            None => if x.name == name {
                Some(l.len() as int)
            } else {
                None
            },
        }),
    decreases l.len(),
{
    let p = l.push(x);
    if l.len() > 0 {
        let dl = l.drop_first();
        assert(p.drop_first() =~= dl.push(x));
        assert(p[0] == l[0]);
        lemma_index_push(dl, x, name);
        if l[0].name != name {
            assert(index_of_name(p, name) == (match index_of_name(dl.push(x), name) {
                Some(i) => Some(i + 1),
                None => None::<int>,
            }));
            assert(index_of_name(l, name) == (match index_of_name(dl, name) {
                Some(i) => Some(i + 1),
                None => None::<int>,
            }));
            assert(dl.len() + 1 == l.len());
        } else {
            assert(index_of_name(p, name) == Some(0int));
            assert(index_of_name(l, name) == Some(0int));
        }
    } else {
        assert(p.drop_first() =~= Seq::<SettingModel>::empty());
        assert(p[0] == x);
        assert(index_of_name(l, name) is None);
        if x.name == name {
            assert(index_of_name(p, name) == Some(0int));
        } else {
            assert(index_of_name(p.drop_first(), name) is None);
            assert(index_of_name(p, name) is None);
        }
    }
}

proof fn lemma_merge_one_for(l: Seq<SettingModel>, hp: SettingModel, name: Seq<char>)
    ensures
        setting_for(merge_one(l, hp), name) == (if hp.name == name {
            layered(setting_for(l, name), Some(hp))
        } else {
            setting_for(l, name)
        }),
{
    lemma_index_of_name_bounds(l, hp.name);
    lemma_index_of_name_bounds(l, name);
    match index_of_name(l, hp.name) {
        Some(i) => {
            let u = l.update(i, merge_setting(l[i], hp));
            assert forall|k: int| 0 <= k < u.len() implies (#[trigger] u[k]).name == l[k].name by {}
            lemma_index_same_names(u, l, name);
        },
        None => {
            lemma_index_push(l, hp, name);
        },
    }
}

/// Law: layering a list of settings with distinct names over another list
/// gives, for every name, the lower setting merged field by field with the
/// higher one (each field taken from the higher setting when it sets it).
pub proof fn law_settings_layered_by_name(
    lower: Seq<SettingModel>,
    higher: Seq<SettingModel>,
    name: Seq<char>,
)
    requires
        names_distinct(higher),
    ensures
        setting_for(merge_settings(lower, higher), name) == layered(
            setting_for(lower, name),
            setting_for(higher, name),
        ),
    decreases higher.len(),
{
    if higher.len() > 0 {
        let hdl = higher.drop_last();
        let h = higher.last();
        assert(names_distinct(hdl)) by {
            assert forall|i: int, j: int| 0 <= i < j < hdl.len() implies (#[trigger] hdl[i]).name
                != (#[trigger] hdl[j]).name by {
                assert(hdl[i] == higher[i] && hdl[j] == higher[j]);
            }
        }
        law_settings_layered_by_name(lower, hdl, name);
        let mid = merge_settings(lower, hdl);
        assert(merge_settings(lower, higher) == merge_one(mid, h));
        lemma_merge_one_for(mid, h, name);
        lemma_index_push(hdl, h, name);
        assert(hdl.push(h) =~= higher);
        lemma_index_of_name_bounds(hdl, name);
        if h.name == name {
            if index_of_name(hdl, name) is Some {
                let i = index_of_name(hdl, name)->0;
                assert(higher[i] == hdl[i]);
                assert(higher[i].name != higher[higher.len() - 1].name);
            }
            assert(index_of_name(higher, name) == Some(hdl.len() as int));
            assert(setting_for(higher, name) == Some(h));
        } else {
            assert(index_of_name(higher, name) == index_of_name(hdl, name));
            if index_of_name(hdl, name) is Some {
                let i = index_of_name(hdl, name)->0;
                assert(higher[i] == hdl[i]);
            }
            assert(setting_for(higher, name) == setting_for(hdl, name));
        }
    }
}

/// `name` when set, else `default`.
pub open spec fn or_default(v: Option<Seq<char>>, default: Seq<char>) -> Seq<char> {
    match v {
        Some(x) => x,
        None => default,
    }
}

/// API key priority: a non-empty command-line key, then the selected
/// setting's key, then `MESSAGE_API_KEY`.
pub open spec fn key_priority(
    cli: Option<Seq<char>>,
    setting: Option<Seq<char>>,
    env: Option<Seq<char>>,
) -> Option<Seq<char>> {
    match cli {
        Some(k) if k.len() > 0 => Some(k),
        _ => if setting is Some {
            setting
        } else {
            env
        },
    }
}

/// The names of the settings.
pub open spec fn setting_names(l: Seq<SettingModel>) -> Seq<Seq<char>> {
    l.map_values(|s: SettingModel| s.name)
}

/// The message for a `use_provider` that names no setting.
pub open spec fn unknown_selection_message(selected: Seq<char>, names: Seq<Seq<char>>) -> Seq<char> {
    "use_provider '"@ + selected + "' 未在 providers 中定义，可用配置: "@ + (if names.len() == 0 {
        "(无)"@
    } else {
        join_spec(names, ", "@)
    })
}

/// The connection selected from a merged configuration, or the error message.
pub open spec fn select_spec(
    merged: FileModel,
    cli_key: Option<Seq<char>>,
    env_key: Option<Seq<char>>,
) -> Result<AiConfigModel, Seq<char>> {
    let selected = or_default(merged.use_provider, DEFAULT_PROVIDER@);
    match index_of_name(merged.providers, selected) {
        None => Err(unknown_selection_message(selected, setting_names(merged.providers))),
        Some(i) => {
            let s = merged.providers[i];
            Ok(
                AiConfigModel {
                    provider: or_default(s.kind, DEFAULT_PROVIDER@),
                    api_key: key_priority(cli_key, s.api_key, env_key),
                    model: or_default(s.model, DEFAULT_MODEL@),
                    base_url: or_default(s.base_url, DEFAULT_BASE_URL@),
                },
            )
        },
    }
}

/// The partial configuration from the file, the environment and the built-in
/// defaults, layered in that priority.
pub open spec fn merged_spec(file: Option<FileModel>, env: EnvVars) -> FileModel {
    fold_merge::<FileConfig>(seq![file, env_load(env), Some(builtin_model())], empty_file_model())
}

/// What `AiConfigLoader::build` yields for a loaded file configuration and an
/// environment.
pub open spec fn build_spec(
    file: Option<FileModel>,
    cli_key: Option<Seq<char>>,
    env: EnvVars,
) -> Result<AiConfigModel, Seq<char>> {
    select_spec(merged_spec(file, env), cli_key, env.message_api_key.model())
}

/// Law: the API key priority is the command line (when not empty), then the
/// selected connection's key from the layered configuration, then
/// `MESSAGE_API_KEY`.
pub proof fn law_api_key_priority(file: Option<FileModel>, cli_key: Option<Seq<char>>, env: EnvVars)
    ensures
        build_spec(file, cli_key, env) matches Ok(c) ==> (match cli_key {
            Some(k) if k.len() > 0 => c.api_key == cli_key,
            _ => {
                let m = merged_spec(file, env);
                let s = m.providers[index_of_name(m.providers, or_default(m.use_provider, DEFAULT_PROVIDER@))->0];
                c.api_key == (if s.api_key is Some {
                    s.api_key
                } else {
                    env.message_api_key.model()
                })
            },
        }),
{
}

/// `value` when set, else `default`, as an owned string.
fn value_or(value: &Option<String>, default: &str) -> (r: String)
    ensures
        r@ == or_default(value.model(), default@),
{
    match value {
        Some(v) => v.clone(),
        None => String::from_str(default),
    }
}

/// Selects the connection named by `use_provider` and fills its defaults.
pub fn select(merged: FileConfig, cli_key: Option<String>, env_key: Option<String>) -> (r: Result<AiConfig, AgcError>)
    ensures
        match r {
            Ok(c) => select_spec(merged.model(), cli_key.model(), env_key.model()) == Ok::<AiConfigModel, Seq<char>>(c.model()),
            Err(e) => e matches AgcError::Other(m) && select_spec(merged.model(), cli_key.model(), env_key.model()) == Err::<AiConfigModel, Seq<char>>(m@),
        },
{
    let selected = value_or(&merged.use_provider, DEFAULT_PROVIDER);
    match find_setting(&merged.providers, &selected) {
        None => {
            let mut names: Vec<String> = Vec::new();
            let n = merged.providers.len();
            let mut i: usize = 0;
            while i < n
                invariant
                    i <= n == merged.providers@.len(),
                    views(names@) =~= setting_names(merged.providers.model()).take(i as int),
                decreases n - i,
            {
                let ghost before = names@;
                let nm = merged.providers[i].name.clone();
                names.push(nm);
                assert(names@ =~= before.push(nm));
                assert(views(names@) =~= views(before).push(nm@));
                assert(setting_names(merged.providers.model())[i as int] == merged.providers@[i as int].name@);
                assert(setting_names(merged.providers.model()).take(i + 1) =~= setting_names(
                    merged.providers.model(),
                ).take(i as int).push(nm@));
                i = i + 1;
            }
            assert(setting_names(merged.providers.model()).take(n as int) =~= setting_names(merged.providers.model()));
            let mut msg = String::from_str("use_provider '");
            msg.append(selected.as_str());
            msg.append("' 未在 providers 中定义，可用配置: ");
            if names.len() == 0 {
                msg.append("(无)");
            } else {
                let joined = join(&names, ", ");
                msg.append(joined.as_str());
            }
            Err(AgcError::Other(msg))
        },
        Some(i) => {
            let s = &merged.providers[i];
            assert(merged.providers.model()[i as int] == s.model());
            let api_key = match cli_key {
                Some(k) if !k.as_str().is_empty() => Some(k),
                _ => if s.api_key.is_some() {
                    s.api_key.duplicate()
                } else {
                    env_key
                },
            };
            Ok(
                AiConfig {
                    provider: value_or(&s.kind, DEFAULT_PROVIDER),
                    api_key,
                    model: value_or(&s.model, DEFAULT_MODEL),
                    base_url: value_or(&s.base_url, DEFAULT_BASE_URL),
                },
            )
        },
    }
}

/// The sources of the AI configuration chain.
pub enum AiSource {
    File(Preloaded<FileConfig>),
    Env(AiEnvSource),
    Builtin(AiBuiltinSource),
}

impl ConfigSource<FileConfig> for AiSource {
    open spec fn spec_load(&self) -> Option<FileModel> {
        match self {
            AiSource::File(s) => s.spec_load(),
            AiSource::Env(s) => s.spec_load(),
            AiSource::Builtin(s) => s.spec_load(),
        }
    }

    fn load(&self) -> (r: Option<FileConfig>) {
        match self {
            AiSource::File(s) => s.load(),
            AiSource::Env(s) => s.load(),
            AiSource::Builtin(s) => s.load(),
        }
    }
}

/// AI configuration loader (builder): configuration file > environment >
/// built-in defaults, then the connection named by `use_provider` is selected.
pub struct AiConfigLoader {
    config_dir: Option<String>,
    api_key: Option<String>,
}

impl AiConfigLoader {
    pub closed spec fn spec_config_dir(&self) -> Option<Seq<char>> {
        self.config_dir.model()
    }

    pub closed spec fn spec_api_key(&self) -> Option<Seq<char>> {
        self.api_key.model()
    }

    pub fn new() -> (r: Self)
        ensures
            r.spec_config_dir() is None,
            r.spec_api_key() is None,
    {
        AiConfigLoader { config_dir: None, api_key: None }
    }

    pub fn with_config_dir(self, config_dir: Option<String>) -> (r: Self)
        ensures
            r.spec_config_dir() == config_dir.model(),
            r.spec_api_key() == self.spec_api_key(),
    {
        AiConfigLoader { config_dir, api_key: self.api_key }
    }

    pub fn with_api_key(self, api_key: Option<String>) -> (r: Self)
        ensures
            r.spec_api_key() == api_key.model(),
            r.spec_config_dir() == self.spec_config_dir(),
    {
        AiConfigLoader { config_dir: self.config_dir, api_key }
    }

    /// The configuration directory given on the command line.
    pub fn config_dir(&self) -> (r: Option<String>)
        ensures
            r.model() == self.spec_config_dir(),
    {
        self.config_dir.duplicate()
    }

    /// Layers the configuration file's settings (as the file source loaded
    /// them), the environment and the built-in defaults, then selects the
    /// connection.
    pub fn build(self, file_config: Option<FileConfig>, env: &EnvVars) -> (r: Result<AiConfig, AgcError>)
        ensures
            match r {
                Ok(c) => build_spec(file_config.model(), self.spec_api_key(), *env) == Ok::<AiConfigModel, Seq<char>>(c.model()),
                Err(e) => e matches AgcError::Other(m) && build_spec(file_config.model(), self.spec_api_key(), *env) == Err::<AiConfigModel, Seq<char>>(m@),
            },
    {
        let ghost file_model = file_config.model();
        let mut sources: Vec<AiSource> = Vec::new();
        sources.push(AiSource::File(Preloaded(file_config)));
        sources.push(AiSource::Env(AiEnvSource::new(env)));
        sources.push(AiSource::Builtin(AiBuiltinSource));
        let chain = ConfigChain::new(sources);
        assert(chain.loads() =~= seq![file_model, env_load(*env), Some(builtin_model())]);
        let merged = match chain.merge() {
            Some(m) => m,
            None => FileConfig::default(),
        };
        let env_key = env.message_api_key.duplicate();
        select(merged, self.api_key, env_key)
    }
}

impl Default for AiConfigLoader {
    fn default() -> (r: Self)
        ensures
            r.spec_config_dir() is None,
            r.spec_api_key() is None,
    {
        Self::new()
    }
}

} // verus!
