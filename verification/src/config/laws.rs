//! What is configured, in terms of what the files and the environment say.

use crate::config::catalog::{
    all_models, api_named, catalog_warnings, model_of, model_prefix, model_warnings, models_of,
    provider_base, provider_headers, provider_models, provider_warnings, providers_warnings,
    resolution, selected, unknown_members, url_parsed, zero_error, ConfigErrorView,
    ProviderBaseView, RawModelView, RawModelsFileView, RawProviderEntryView,
};
use crate::config::environment::{
    interpolated, is_word_char, value_of, word_length, EnvVariableView, ReferenceError,
};
use crate::config::model::{
    effort_at, limits_of, named_effort, ApiKind, ConfigWarningView, HeaderView, LevelEffortView,
    ResolvedModelView,
};
use crate::config::paths::{joined_path, under_home};
use crate::config::settings::{
    settings_in, settings_loaded, RawField, RawSettingsView, SettingsErrorView, SettingsFileView,
};
use crate::config::state::{
    checked_state, state_update, workspace_recent, RecentModelStateView, RecentModelView,
    StateErrorView, StateReadView,
};
use crate::config::thinking::{lemma_named_level_has_the_name, level_name, ThinkingLevel};
use crate::config::ModelRefView;
use crate::text::{
    ascii_lowered, first_occurrence, is_blank_text, lemma_first_index_is, lemma_first_occurrence,
    occurs_at,
};
use vstd::prelude::*;

verus! {

/// What a file says, where there is one.
pub open spec fn said(file: Option<SettingsFileView>) -> RawSettingsView {
    match file {
        Some(file) => file.raw,
        None => RawSettingsView {
            default_provider: RawField::Missing,
            default_model: RawField::Missing,
            default_thinking_level: RawField::Missing,
            context_enabled: RawField::Missing,
            compaction_enabled: RawField::Missing,
            extra: Seq::empty(),
            context_extra: Seq::empty(),
            compaction_extra: Seq::empty(),
        },
    }
}

/// What a user's file and that of a project say together: the project has the last word.
pub open spec fn last_word<T>(global: RawField<T>, project: RawField<T>) -> Option<T> {
    match (global, project) {
        (_, RawField::Value(value)) => Some(value),
        (RawField::Value(value), _) => Some(value),
        _ => None,
    }
}

/// Each setting is what the project's file says of it, or else what the user's file says, or else
/// its default: no provider, no model, no level, context files and compaction on.
pub proof fn lemma_settings_are_those_of_the_files(
    global: Option<SettingsFileView>,
    project: Option<SettingsFileView>,
)
    ensures
        settings_loaded(global, project) matches Ok(load) ==> {
            let (g, p) = (said(global), said(project));
            &&& load.settings.default_provider == last_word(g.default_provider, p.default_provider)
            &&& load.settings.default_model == last_word(g.default_model, p.default_model)
            &&& load.settings.default_thinking_level is None <==> last_word(
                g.default_thinking_level,
                p.default_thinking_level,
            ) is None
            &&& load.settings.default_thinking_level matches Some(level) ==> last_word(
                g.default_thinking_level,
                p.default_thinking_level,
            ) matches Some(name) && level_name(level) == ascii_lowered(name)
            &&& load.settings.context.enabled == (last_word(g.context_enabled, p.context_enabled)
                != Some(false))
            &&& load.settings.compaction.enabled == (last_word(
                g.compaction_enabled,
                p.compaction_enabled,
            ) != Some(false))
        },
{
    let (g, p) = (said(global), said(project));
    if let RawField::Value(name) = g.default_thinking_level {
        lemma_named_level_has_the_name(name);
    }
    if let RawField::Value(name) = p.default_thinking_level {
        lemma_named_level_has_the_name(name);
    }
}

/// Whether a file says something that can be: nothing is null, no name is blank, and a level is
/// one of the levels.
pub open spec fn can_be(raw: RawSettingsView) -> bool {
    &&& !(raw.default_provider is Null) && !(raw.default_model is Null) && !(
    raw.default_thinking_level is Null) && !(raw.context_enabled is Null) && !(
    raw.compaction_enabled is Null)
    &&& raw.default_provider matches RawField::Value(name) ==> !is_blank_text(name)
    &&& raw.default_model matches RawField::Value(name) ==> !is_blank_text(name)
    &&& raw.default_thinking_level matches RawField::Value(name) ==> exists|level: ThinkingLevel|
        #[trigger] level_name(level) == ascii_lowered(name)
}

/// Settings are loaded where both files can be, and refused where one cannot.
pub proof fn lemma_settings_that_can_be_are_loaded(
    global: Option<SettingsFileView>,
    project: Option<SettingsFileView>,
)
    ensures
        settings_loaded(global, project) is Ok <==> can_be(said(global)) && can_be(said(project)),
{
    lemma_file_can_be(said(global), if global is Some { global->0.path } else { Seq::empty() });
    lemma_file_can_be(said(project), if project is Some { project->0.path } else { Seq::empty() });
}

proof fn lemma_file_can_be(raw: RawSettingsView, path: Seq<char>)
    ensures
        settings_in(raw, path) is Ok <==> can_be(raw),
{
    if let RawField::Value(name) = raw.default_thinking_level {
        lemma_named_level_has_the_name(name);
    }
}

/// A file that cannot be is refused with the path of the first member that cannot be.
pub proof fn lemma_refused_settings_are_named(raw: RawSettingsView, path: Seq<char>)
    ensures
        settings_in(raw, path) matches Err(error) ==> {
            &&& error is Invalid
            &&& can_be(
                RawSettingsView { default_provider: RawField::Missing, ..raw },
            ) ==> error == (SettingsErrorView::Invalid {
                path: path + "."@ + "defaultProvider"@,
                message: "defaultProvider"@ + " must be a non-empty string"@,
            })
            &&& can_be(RawSettingsView { default_model: RawField::Missing, ..raw }) ==> error == (
            SettingsErrorView::Invalid {
                path: path + "."@ + "defaultModel"@,
                message: "defaultModel"@ + " must be a non-empty string"@,
            })
            &&& can_be(
                RawSettingsView { default_thinking_level: RawField::Missing, ..raw },
            ) ==> error->Invalid_path == path + "."@ + "defaultThinkingLevel"@
            &&& can_be(RawSettingsView { context_enabled: RawField::Missing, ..raw }) ==> error == (
            SettingsErrorView::Invalid {
                path: path + "."@ + "context.enabled"@,
                message: "context.enabled"@ + " must be a boolean"@,
            })
            &&& can_be(RawSettingsView { compaction_enabled: RawField::Missing, ..raw }) ==> error
                == (SettingsErrorView::Invalid {
                path: path + "."@ + "compaction.enabled"@,
                message: "compaction.enabled"@ + " must be a boolean"@,
            })
        },
{
    if let RawField::Value(name) = raw.default_thinking_level {
        lemma_named_level_has_the_name(name);
    }
}

/// Every member that settings do not have is warned of, once, those of the user's file first.
pub proof fn lemma_unknown_settings_are_warned_of(
    global: Option<SettingsFileView>,
    project: Option<SettingsFileView>,
    i: int,
)
    ensures
        settings_loaded(global, project) matches Ok(load) ==> {
            let (g, p) = (said(global), said(project));
            let first: int = (g.extra.len() + g.context_extra.len() + g.compaction_extra.len())
                as int;
            &&& load.warnings.len() == first + p.extra.len() + p.context_extra.len()
                + p.compaction_extra.len()
            &&& 0 <= i < g.extra.len() ==> load.warnings[i].path == "settings."@ + g.extra[i]
            &&& 0 <= i < g.context_extra.len() ==> load.warnings[g.extra.len() + i].path
                == "settings.context."@ + g.context_extra[i]
            &&& 0 <= i < g.compaction_extra.len() ==> load.warnings[g.extra.len()
                + g.context_extra.len() + i].path == "settings.compaction."@
                + g.compaction_extra[i]
            &&& 0 <= i < p.extra.len() ==> load.warnings[first + i].path == "settings."@
                + p.extra[i]
            &&& 0 <= i < p.context_extra.len() ==> load.warnings[first + p.extra.len() + i].path
                == "settings.context."@ + p.context_extra[i]
            &&& 0 <= i < p.compaction_extra.len() ==> load.warnings[first + p.extra.len()
                + p.context_extra.len() + i].path == "settings.compaction."@
                + p.compaction_extra[i]
        },
{
}

/// A joined path goes from its base to what was joined to it, with one slash in between.
pub proof fn lemma_paths_are_joined(base: Seq<char>, rest: Seq<char>)
    ensures
        base.is_prefix_of(joined_path(base, rest)),
        rest.is_suffix_of(joined_path(base, rest)),
        base.len() > 0 && base.last() != '/' ==> joined_path(base, rest).len() == base.len() + 1
            + rest.len() && joined_path(base, rest)[base.len() as int] == '/',
        base.len() == 0 || base.last() == '/' ==> joined_path(base, rest).len() == base.len()
            + rest.len(),
{
    reveal_strlit("/");
    let path = joined_path(base, rest);
    assert(path.subrange(0, base.len() as int) =~= base);
    assert(path.subrange(path.len() - rest.len(), path.len() as int) =~= rest);
}

/// A user's files lie under `HOME`, or under the profile where there is no `HOME`, and nowhere
/// where there is neither.
pub proof fn lemma_files_lie_under_home(
    home: Option<Seq<char>>,
    user_profile: Option<Seq<char>>,
    rest: Seq<char>,
)
    ensures
        under_home(home, user_profile, rest) is None <==> home is None && user_profile is None,
        home matches Some(base) ==> (under_home(home, user_profile, rest) matches Some(path)
            && base.is_prefix_of(path) && rest.is_suffix_of(path)),
        home is None ==> (user_profile matches Some(base) ==> under_home(
            home,
            user_profile,
            rest,
        ) matches Some(path) && base.is_prefix_of(path) && rest.is_suffix_of(path)),
{
    if let Some(base) = home {
        lemma_paths_are_joined(base, rest);
    }
    if let Some(base) = user_profile {
        lemma_paths_are_joined(base, rest);
    }
}

/// A variable has the value of the first entry of its name, and none where there is no such entry.
pub proof fn lemma_variables_have_their_values(env: Seq<EnvVariableView>, name: Seq<char>, k: int)
    requires
        0 <= k <= env.len(),
        forall|i: int| 0 <= i < k ==> (#[trigger] env[i]).name != name,
    ensures
        k == env.len() ==> value_of(env, name) is None,
        k < env.len() && env[k].name == name ==> value_of(env, name) == Some(env[k].value),
    decreases env.len(),
{
    if k > 0 {
        let rest = env.drop_first();
        assert forall|i: int| 0 <= i < k - 1 implies (#[trigger] rest[i]).name != name by {
            assert(rest[i] == env[i + 1]);
        }
        lemma_variables_have_their_values(rest, name, k - 1);
    }
}

/// What a text becomes when this much of it was read and the rest is given.
pub open spec fn followed_by(text: Seq<char>, rest: Result<Seq<char>, ReferenceError>) -> Result<
    Seq<char>,
    ReferenceError,
> {
    match rest {
        Ok(rest) => Ok(text + rest),
        Err(error) => Err(error),
    }
}

/// A reference in braces stands for the value of the variable that it names, wherever it stands.
pub proof fn lemma_references_in_braces_are_replaced(
    name: Seq<char>,
    rest: Seq<char>,
    env: Seq<EnvVariableView>,
)
    requires
        !name.contains('}'),
    ensures
        name.len() == 0 ==> interpolated(seq!['$', '{'] + name + seq!['}'] + rest, env) == Err::<
            Seq<char>,
            ReferenceError,
        >(ReferenceError::Empty),
        name.len() > 0 && value_of(env, name) is None ==> interpolated(
            seq!['$', '{'] + name + seq!['}'] + rest,
            env,
        ) == Err::<Seq<char>, ReferenceError>(ReferenceError::Missing(name)),
        name.len() > 0 ==> (value_of(env, name) matches Some(value) ==> interpolated(
            seq!['$', '{'] + name + seq!['}'] + rest,
            env,
        ) == followed_by(value, interpolated(rest, env))),
{
    let s = seq!['$', '{'] + name + seq!['}'] + rest;
    let braced = s.skip(1).skip(1);
    assert(braced =~= name + seq!['}'] + rest);
    assert forall|i: int| 0 <= i < name.len() implies #[trigger] braced[i] != '}' by {
        assert(braced[i] == name[i]);
        assert(name.contains(name[i]));
    }
    lemma_first_index_is(braced, '}', name.len() as int);
    assert(braced.take(name.len() as int) =~= name);
    assert(s.skip(name.len() as int + 3) =~= rest);
    assert(s.skip(1)[0] == '{');
}

/// So does a reference without braces, which ends where a word ends.
pub proof fn lemma_plain_references_are_replaced(
    name: Seq<char>,
    rest: Seq<char>,
    env: Seq<EnvVariableView>,
)
    requires
        name.len() > 0,
        forall|i: int| 0 <= i < name.len() ==> is_word_char(#[trigger] name[i]),
        rest.len() == 0 || !is_word_char(rest[0]),
    ensures
        value_of(env, name) is None ==> interpolated(seq!['$'] + name + rest, env) == Err::<
            Seq<char>,
            ReferenceError,
        >(ReferenceError::Missing(name)),
        value_of(env, name) matches Some(value) ==> interpolated(seq!['$'] + name + rest, env)
            == followed_by(value, interpolated(rest, env)),
{
    let s = seq!['$'] + name + rest;
    assert(s.skip(1) =~= name + rest);
    lemma_words_end(name, rest);
    assert(is_word_char(name[0]));
    assert(s.skip(1)[0] == name[0]);
    assert(s.skip(1).take(name.len() as int) =~= name);
    assert(s.skip(name.len() as int + 1) =~= rest);
}

proof fn lemma_words_end(name: Seq<char>, rest: Seq<char>)
    requires
        forall|i: int| 0 <= i < name.len() ==> is_word_char(#[trigger] name[i]),
        rest.len() == 0 || !is_word_char(rest[0]),
    ensures
        word_length(name + rest) == name.len(),
    decreases name.len(),
{
    let s = name + rest;
    if name.len() > 0 {
        assert(s.drop_first() =~= name.drop_first() + rest);
        assert(is_word_char(name[0]));
        lemma_words_end(name.drop_first(), rest);
    } else {
        assert(s =~= rest);
    }
}

/// All other text is kept, and a doubled dollar sign stands for one.
pub proof fn lemma_other_text_is_kept(c: char, rest: Seq<char>, env: Seq<EnvVariableView>)
    ensures
        c != '$' ==> interpolated(seq![c] + rest, env) == followed_by(
            seq![c],
            interpolated(rest, env),
        ),
        interpolated(seq!['$', '$'] + rest, env) == followed_by(
            seq!['$'],
            interpolated(rest, env),
        ),
        interpolated(Seq::<char>::empty(), env) == Ok::<Seq<char>, ReferenceError>(Seq::empty()),
{
    assert((seq![c] + rest).skip(1) =~= rest);
    let s = seq!['$', '$'] + rest;
    assert(s.skip(2) =~= rest);
    assert(s.skip(1)[0] == '$');
}

/// A model that was configured has what its entry and that of its provider say: its own name,
/// limits, costs and parameters, and the address, the key and the headers of its provider, with
/// the environment's values in the place of references.
pub proof fn lemma_models_are_what_their_entries_say(
    entry: RawProviderEntryView,
    env: Seq<EnvVariableView>,
    j: int,
)
    ensures
        provider_models(entry, env) matches Ok(models) ==> {
            &&& models.len() == entry.provider.models.len()
            &&& 0 <= j < models.len() ==> {
                let raw = entry.provider.models[j];
                let model = models[j];
                &&& model.model_ref.provider == entry.id
                &&& interpolated(raw.id, env) == Ok::<Seq<char>, ReferenceError>(
                    model.model_ref.model,
                )
                &&& model.name == if raw.name is Some {
                    raw.name->0
                } else {
                    model.model_ref.model
                }
                &&& interpolated(entry.provider.base_url, env) == Ok::<Seq<char>, ReferenceError>(
                    model.base_url,
                )
                &&& raw.api matches Some(name) ==> api_named(name) == Ok::<ApiKind, ConfigErrorView>(
                    model.api,
                )
                &&& raw.api is None ==> entry.provider.api is Some && api_named(
                    entry.provider.api->0,
                ) == Ok::<ApiKind, ConfigErrorView>(model.api)
                &&& entry.provider.api_key is None ==> model.api_key is None
                &&& entry.provider.api_key matches Some(key) ==> model.api_key matches Some(value)
                    && interpolated(key, env) == Ok::<Seq<char>, ReferenceError>(value)
                &&& model.auth_header == (entry.provider.auth_header != Some(false))
                &&& model.reasoning == raw.reasoning
                &&& model.input == raw.input
                &&& model.context_window == raw.context_window
                &&& model.max_tokens == raw.max_tokens
                &&& raw.cost matches Some(cost) ==> model.cost == cost
                &&& raw.cost is None ==> model.cost.input is None && model.cost.output is None
                    && model.cost.cache_read is None && model.cost.cache_write is None
                &&& model.sampling_params == raw.sampling_params
                &&& model.thinking_level_map == raw.thinking_level_map
            }
        },
{
    if let Ok(base) = provider_base(entry.id, entry.provider, env) {
        lemma_each_model(entry.id, base, entry.provider.models, env, j);
    }
}

proof fn lemma_each_model(
    id: Seq<char>,
    base: ProviderBaseView,
    models: Seq<RawModelView>,
    env: Seq<EnvVariableView>,
    j: int,
)
    ensures
        models_of(id, base, models, env) matches Ok(made) ==> made.len() == models.len() && (0 <= j
            < made.len() ==> model_of(id, base, models[j], env) == Ok::<
            ResolvedModelView,
            ConfigErrorView,
        >(made[j])),
    decreases models.len(),
{
    if models.len() > 0 {
        lemma_each_model(id, base, models.drop_last(), env, j);
    }
}

/// What a model says of the roles and efforts it takes goes before what its provider says; where
/// neither says anything, it takes them.
pub proof fn lemma_models_take_what_nobody_denies(
    entry: RawProviderEntryView,
    env: Seq<EnvVariableView>,
    j: int,
)
    ensures
        provider_models(entry, env) matches Ok(models) ==> 0 <= j < models.len() ==> {
            let own = entry.provider.models[j].compat;
            let shared = entry.provider.compat;
            let taken = models[j].compatibility;
            &&& own.supports_developer_role matches Some(b) ==> taken.supports_developer_role == b
            &&& own.supports_developer_role is None ==> taken.supports_developer_role == (
            shared.supports_developer_role != Some(false))
            &&& own.supports_reasoning_effort matches Some(b) ==> taken.supports_reasoning_effort
                == b
            &&& own.supports_reasoning_effort is None ==> taken.supports_reasoning_effort == (
            shared.supports_reasoning_effort != Some(false))
        },
{
    if let Ok(base) = provider_base(entry.id, entry.provider, env) {
        lemma_each_model(entry.id, base, entry.provider.models, env, j);
    }
}

/// A model sends the headers of its provider, all of them, in order, each with its value as the
/// environment completes it.
pub proof fn lemma_models_send_the_headers_of_their_provider(
    entry: RawProviderEntryView,
    env: Seq<EnvVariableView>,
    j: int,
    i: int,
)
    ensures
        provider_models(entry, env) matches Ok(models) ==> 0 <= j < models.len() ==> {
            let headers = models[j].headers;
            &&& headers.len() == entry.provider.headers.len()
            &&& 0 <= i < headers.len() ==> headers[i].name == entry.provider.headers[i].name
                && interpolated(entry.provider.headers[i].value, env) == Ok::<
                Seq<char>,
                ReferenceError,
            >(headers[i].value)
        },
{
    if let Ok(base) = provider_base(entry.id, entry.provider, env) {
        lemma_each_model(entry.id, base, entry.provider.models, env, j);
        lemma_each_header(entry.id, entry.provider.headers, env, i);
    }
}

proof fn lemma_each_header(
    id: Seq<char>,
    headers: Seq<HeaderView>,
    env: Seq<EnvVariableView>,
    i: int,
)
    ensures
        provider_headers(id, headers, env) matches Ok(made) ==> made.len() == headers.len() && (0
            <= i < made.len() ==> made[i].name == headers[i].name && interpolated(
            headers[i].value,
            env,
        ) == Ok::<Seq<char>, ReferenceError>(made[i].value)),
    decreases headers.len(),
{
    if headers.len() > 0 {
        lemma_each_header(id, headers.drop_last(), env, i);
    }
}

/// The models of a provider that comes after others follow theirs.
pub proof fn lemma_models_follow_their_providers(
    providers: Seq<RawProviderEntryView>,
    entry: RawProviderEntryView,
    env: Seq<EnvVariableView>,
    models: Seq<ResolvedModelView>,
    more: Seq<ResolvedModelView>,
)
    requires
        all_models(providers, env) == Ok::<Seq<ResolvedModelView>, ConfigErrorView>(models),
        provider_models(entry, env) == Ok::<Seq<ResolvedModelView>, ConfigErrorView>(more),
    ensures
        all_models(providers.push(entry), env) == Ok::<Seq<ResolvedModelView>, ConfigErrorView>(
            models + more,
        ),
        all_models(Seq::<RawProviderEntryView>::empty(), env) == Ok::<
            Seq<ResolvedModelView>,
            ConfigErrorView,
        >(Seq::empty()),
{
    assert(providers.push(entry).drop_last() =~= providers);
}

/// A provider is taken only at an address of the web, and a model only with limits that are not
/// zero and a name.
pub proof fn lemma_what_cannot_be_used_is_refused(
    entry: RawProviderEntryView,
    env: Seq<EnvVariableView>,
    j: int,
)
    ensures
        provider_models(entry, env) matches Ok(models) ==> {
            &&& !is_blank_text(entry.id)
            &&& entry.provider.api is Some
            &&& interpolated(entry.provider.base_url, env) matches Ok(url) && !is_blank_text(url)
                && (url_parsed(url) matches Ok(parts) && parts.has_host && (parts.scheme == "http"@
                || parts.scheme == "https"@))
            &&& 0 <= j < models.len() ==> models[j].context_window != Some(0u64)
                && models[j].max_tokens != Some(0u64) && !is_blank_text(models[j].model_ref.model)
        },
{
    if let Ok(base) = provider_base(entry.id, entry.provider, env) {
        lemma_each_model(entry.id, base, entry.provider.models, env, j);
    }
}

/// A limit of zero is refused, and the limit is named.
pub proof fn lemma_limits_of_zero_are_refused(
    id: Seq<char>,
    base: ProviderBaseView,
    raw: RawModelView,
    env: Seq<EnvVariableView>,
    name: Seq<char>,
)
    requires
        interpolated(raw.id, env) == Ok::<Seq<char>, ReferenceError>(name),
        !is_blank_text(name),
    ensures
        raw.context_window == Some(0u64) ==> (model_of(id, base, raw, env) matches Err(
            ConfigErrorView::Invalid(message),
        ) && ("contextWindow"@ + " must be greater than zero"@).is_suffix_of(message)),
        raw.context_window != Some(0u64) && raw.max_tokens == Some(0u64) ==> (model_of(
            id,
            base,
            raw,
            env,
        ) matches Err(ConfigErrorView::Invalid(message)) && ("maxTokens"@
            + " must be greater than zero"@).is_suffix_of(message)),
{
    let one = zero_error(id, name, "contextWindow"@)->Invalid_0;
    let part = "contextWindow"@ + " must be greater than zero"@;
    assert(one.subrange(one.len() - part.len(), one.len() as int) =~= part);
    let two = zero_error(id, name, "maxTokens"@)->Invalid_0;
    let other = "maxTokens"@ + " must be greater than zero"@;
    assert(two.subrange(two.len() - other.len(), two.len() as int) =~= other);
}

/// What is warned of in the models that a file describes.
pub open spec fn warns_of(
    warnings: Seq<ConfigWarningView>,
    path: Seq<char>,
    message: Seq<char>,
) -> bool {
    warnings.contains(ConfigWarningView { path, message })
}

/// Every member that a file, a provider or a model does not have is warned of under its path, and
/// so is a file without a model; there is no other warning.
pub proof fn lemma_unknown_members_are_warned_of(
    path: Seq<char>,
    raw: RawModelsFileView,
    models: int,
    k: int,
    j: int,
    i: int,
)
    ensures
        0 <= i < raw.extra.len() ==> warns_of(
            catalog_warnings(path, raw, models),
            raw.extra[i],
            "unknown top-level field"@,
        ),
        0 <= k < raw.providers.len() && 0 <= i < raw.providers[k].provider.extra.len() ==> warns_of(
            catalog_warnings(path, raw, models),
            "providers."@ + raw.providers[k].id + "."@ + raw.providers[k].provider.extra[i],
            "unknown provider field"@,
        ),
        0 <= k < raw.providers.len() && 0 <= j < raw.providers[k].provider.models.len() && 0 <= i
            < raw.providers[k].provider.models[j].extra.len() ==> warns_of(
            catalog_warnings(path, raw, models),
            "providers."@ + raw.providers[k].id + (".models."@
                + raw.providers[k].provider.models[j].id + "."@)
                + raw.providers[k].provider.models[j].extra[i],
            "unknown model field"@,
        ),
        models == 0 ==> warns_of(
            catalog_warnings(path, raw, models),
            path,
            "models config contains no selectable models"@,
        ),
        models != 0 && raw.extra.len() == 0 && raw.providers.len() == 0 ==> catalog_warnings(
            path,
            raw,
            models,
        ).len() == 0,
{
    let top = unknown_members(Seq::empty(), raw.extra, "unknown top-level field"@);
    let below = providers_warnings(raw.providers);
    let all = catalog_warnings(path, raw, models);
    assert forall|n: int| 0 <= n < (top + below).len() implies #[trigger] all.contains(
        (top + below)[n],
    ) by {
        assert(all[n] == (top + below)[n]);
    }
    if 0 <= i < raw.extra.len() {
        assert(Seq::<char>::empty() + raw.extra[i] =~= raw.extra[i]);
        assert((top + below)[i] == top[i]);
        assert(all.contains((top + below)[i]));
    }
    if 0 <= k < raw.providers.len() {
        let entry = raw.providers[k];
        let own = provider_warnings(entry);
        if 0 <= i < entry.provider.extra.len() {
            let warning = unknown_members(
                "providers."@ + entry.id + "."@,
                entry.provider.extra,
                "unknown provider field"@,
            )[i];
            assert(own[i] == warning);
            lemma_providers_are_warned_of(raw.providers, k, warning);
            let n: int = choose|n: int| 0 <= n < below.len() && below[n] == warning;
            assert((top + below)[top.len() + n] == warning);
            assert(all.contains((top + below)[top.len() + n]));
        }
        if 0 <= j < entry.provider.models.len() && 0 <= i < entry.provider.models[j].extra.len() {
            let warning = unknown_members(
                model_prefix(entry.id, entry.provider.models[j].id),
                entry.provider.models[j].extra,
                "unknown model field"@,
            )[i];
            lemma_models_are_warned_of(entry.id, entry.provider.models, j, i);
            let m: int = choose|m: int|
                0 <= m < model_warnings(entry.id, entry.provider.models).len() && model_warnings(
                    entry.id,
                    entry.provider.models,
                )[m] == warning;
            assert(own[entry.provider.extra.len() + m] == warning);
            assert(own.contains(warning));
            lemma_providers_are_warned_of(raw.providers, k, warning);
            let n: int = choose|n: int| 0 <= n < below.len() && below[n] == warning;
            assert((top + below)[top.len() + n] == warning);
            assert(all.contains((top + below)[top.len() + n]));
        }
    }
    if models == 0 {
        assert(all.last() == (ConfigWarningView {
            path,
            message: "models config contains no selectable models"@,
        }));
    }
}

proof fn lemma_providers_are_warned_of(
    providers: Seq<RawProviderEntryView>,
    k: int,
    warning: ConfigWarningView,
)
    requires
        0 <= k < providers.len(),
        provider_warnings(providers[k]).contains(warning),
    ensures
        providers_warnings(providers).contains(warning),
    decreases providers.len(),
{
    let rest = providers.drop_last();
    let before = providers_warnings(rest);
    if k < rest.len() {
        lemma_providers_are_warned_of(rest, k, warning);
        let n: int = choose|n: int| 0 <= n < before.len() && before[n] == warning;
        assert(providers_warnings(providers)[n] == warning);
    } else {
        let own = provider_warnings(providers[k]);
        let n: int = choose|n: int| 0 <= n < own.len() && own[n] == warning;
        assert(providers_warnings(providers)[before.len() + n] == warning);
    }
}

proof fn lemma_models_are_warned_of(id: Seq<char>, models: Seq<RawModelView>, j: int, i: int)
    requires
        0 <= j < models.len(),
        0 <= i < models[j].extra.len(),
    ensures
        model_warnings(id, models).contains(
            ConfigWarningView {
                path: model_prefix(id, models[j].id) + models[j].extra[i],
                message: "unknown model field"@,
            },
        ),
    decreases models.len(),
{
    let rest = models.drop_last();
    let before = model_warnings(id, rest);
    if j < rest.len() {
        lemma_models_are_warned_of(id, rest, j, i);
        let warning = ConfigWarningView {
            path: model_prefix(id, models[j].id) + models[j].extra[i],
            message: "unknown model field"@,
        };
        let n: int = choose|n: int| 0 <= n < before.len() && before[n] == warning;
        assert(model_warnings(id, models)[n] == warning);
    } else {
        let own = unknown_members(
            model_prefix(id, models[j].id),
            models[j].extra,
            "unknown model field"@,
        );
        assert(model_warnings(id, models)[before.len() + i] == own[i]);
    }
}

/// Whether the model goes by the name, with its provider or, where none is asked for, with any.
pub open spec fn goes_by(model: ResolvedModelView, provider: Option<Seq<char>>, name: Seq<char>) -> bool {
    (model.model_ref.model == name || model.name == name) && (provider matches Some(wanted)
        ==> model.model_ref.provider == wanted)
}

/// The one model that goes by a name is found under it; where several do, or none, there is no
/// answer.
pub proof fn lemma_models_are_resolved_by_name(
    models: Seq<ResolvedModelView>,
    provider: Option<Seq<char>>,
    name: Seq<char>,
    k: int,
)
    requires
        provider is Some || !name.contains('/'),
    ensures
        0 <= k < models.len() && goes_by(models[k], provider, name) && (forall|i: int|
            0 <= i < models.len() && i != k ==> !goes_by(#[trigger] models[i], provider, name))
            ==> resolution(models, provider, Some(name)) == Ok::<
            ResolvedModelView,
            ConfigErrorView,
        >(models[k]),
        resolution(models, provider, Some(name)) matches Ok(found) ==> exists|i: int|
            0 <= i < models.len() && #[trigger] models[i] == found && goes_by(
                found,
                provider,
                name,
            ),
        (forall|i: int| 0 <= i < models.len() ==> !goes_by(#[trigger] models[i], provider, name))
            ==> resolution(models, provider, Some(name)) is Err,
        forall|i: int, j: int|
            0 <= i < j < models.len() && goes_by(#[trigger] models[i], provider, name) && goes_by(
                #[trigger] models[j],
                provider,
                name,
            ) ==> resolution(models, provider, Some(name)) is Err,
{
    if provider is None {
        lemma_no_slash(name);
    }
    lemma_selected_by_name(models, provider, name, k);
}

proof fn lemma_no_slash(name: Seq<char>)
    requires
        !name.contains('/'),
    ensures
        first_occurrence(name, "/"@, 0) is None,
{
    reveal_strlit("/");
    lemma_first_occurrence(name, "/"@, 0);
    if let Some(at) = first_occurrence(name, "/"@, 0) {
        assert(name.subrange(at, at + 1)[0] == '/');
        assert(name[at] == '/');
    }
}

proof fn lemma_selected_by_name(
    models: Seq<ResolvedModelView>,
    provider: Option<Seq<char>>,
    name: Seq<char>,
    k: int,
)
    ensures
        ({
            let found = selected(models, provider, name);
            &&& forall|n: int|
                0 <= n < found.len() ==> goes_by(#[trigger] found[n], provider, name) && exists|
                    i: int,
                |
                    0 <= i < models.len() && #[trigger] models[i] == found[n]
            &&& (forall|i: int|
                0 <= i < models.len() ==> !goes_by(#[trigger] models[i], provider, name))
                ==> found.len() == 0
            &&& forall|i: int|
                0 <= i < models.len() && goes_by(#[trigger] models[i], provider, name)
                    ==> found.len() > 0
            &&& forall|i: int, j: int|
                0 <= i < j < models.len() && goes_by(#[trigger] models[i], provider, name)
                    && goes_by(#[trigger] models[j], provider, name) ==> found.len() > 1
            &&& 0 <= k < models.len() && goes_by(models[k], provider, name) && (forall|i: int|
                0 <= i < models.len() && i != k ==> !goes_by(#[trigger] models[i], provider, name))
                ==> found == seq![models[k]]
        }),
    decreases models.len(),
{
    if models.len() > 0 {
        let rest = models.drop_last();
        let before = selected(rest, provider, name);
        let found = selected(models, provider, name);
        lemma_selected_by_name(rest, provider, name, k);
        assert forall|n: int| 0 <= n < found.len() implies goes_by(
            #[trigger] found[n],
            provider,
            name,
        ) && exists|i: int| 0 <= i < models.len() && #[trigger] models[i] == found[n] by {
            if n < before.len() {
                let i: int = choose|i: int| 0 <= i < rest.len() && #[trigger] rest[i] == before[n];
                assert(models[i] == found[n]);
            } else {
                assert(models[models.len() - 1] == found[n]);
            }
        }
        assert forall|i: int|
            0 <= i < models.len() && goes_by(#[trigger] models[i], provider, name) implies found.len()
            > 0 by {
            if i < rest.len() {
                assert(rest[i] == models[i]);
            }
        }
        assert forall|i: int, j: int|
            0 <= i < j < models.len() && goes_by(#[trigger] models[i], provider, name) && goes_by(
                #[trigger] models[j],
                provider,
                name,
            ) implies found.len() > 1 by {
            assert(rest[i] == models[i]);
            if j < rest.len() {
                assert(rest[j] == models[j]);
            }
        }
        assert forall|i: int| 0 <= i < rest.len() implies rest[i] == models[i] by {}
        if 0 <= k < models.len() && goes_by(models[k], provider, name) && (forall|i: int|
            0 <= i < models.len() && i != k ==> !goes_by(#[trigger] models[i], provider, name)) {
            assert forall|i: int| 0 <= i < rest.len() && i != k implies !goes_by(
                #[trigger] rest[i],
                provider,
                name,
            ) by {
                assert(!goes_by(models[i], provider, name));
            }
            if k < rest.len() {
                assert(rest[k] == models[k]);
                assert(!goes_by(models[models.len() - 1], provider, name));
            } else {
                assert(before.len() == 0);
                assert(found =~= seq![models[k]]);
            }
        }
    }
}

/// A name with a slash names the provider and the model.
pub proof fn lemma_qualified_names_name_the_provider(
    models: Seq<ResolvedModelView>,
    provider: Seq<char>,
    model: Seq<char>,
)
    requires
        !provider.contains('/'),
    ensures
        resolution(models, None, Some(provider + seq!['/'] + model)) == resolution(
            models,
            Some(provider),
            Some(model),
        ),
{
    reveal_strlit("/");
    let text = provider + seq!['/'] + model;
    lemma_first_occurrence(text, "/"@, 0);
    let n: int = provider.len() as int;
    assert(text.subrange(n, n + 1) =~= "/"@);
    assert(occurs_at(text, "/"@, n));
    let at: int = first_occurrence(text, "/"@, 0)->0;
    assert(text.subrange(at, at + 1)[0] == '/');
    if at < n {
        assert(provider[at] == '/');
    }
    assert(text.take(n) =~= provider);
    assert(text.skip(n + 1) =~= model);
}

/// Where no model is asked for, the first of the provider is taken, and the first of all where no
/// provider is asked for either.
pub proof fn lemma_the_first_model_is_the_default(
    models: Seq<ResolvedModelView>,
    provider: Seq<char>,
    k: int,
)
    ensures
        models.len() > 0 ==> resolution(models, None, None) == Ok::<
            ResolvedModelView,
            ConfigErrorView,
        >(models[0]),
        models.len() == 0 ==> resolution(models, None, None) is Err,
        0 <= k < models.len() && models[k].model_ref.provider == provider && (forall|i: int|
            0 <= i < k ==> (#[trigger] models[i]).model_ref.provider != provider) ==> resolution(
            models,
            Some(provider),
            None,
        ) == Ok::<ResolvedModelView, ConfigErrorView>(models[k]),
        (forall|i: int|
            0 <= i < models.len() ==> (#[trigger] models[i]).model_ref.provider != provider)
            ==> resolution(models, Some(provider), None) is Err,
    decreases models.len(),
{
    if models.len() > 0 {
        let rest = models.drop_first();
        assert forall|i: int| 0 <= i < rest.len() implies rest[i] == models[i + 1] by {}
        lemma_the_first_model_is_the_default(rest, provider, k - 1);
        if models[0].model_ref.provider != provider {
            if 0 <= k < models.len() && models[k].model_ref.provider == provider && (forall|i: int|
                0 <= i < k ==> (#[trigger] models[i]).model_ref.provider != provider) {
                assert(rest[k - 1] == models[k]);
                assert forall|i: int| 0 <= i < k - 1 implies (
                #[trigger] rest[i]).model_ref.provider != provider by {
                    assert(rest[i] == models[i + 1]);
                }
            }
            if forall|i: int|
                0 <= i < models.len() ==> (#[trigger] models[i]).model_ref.provider != provider {
                assert forall|i: int| 0 <= i < rest.len() implies (
                #[trigger] rest[i]).model_ref.provider != provider by {
                    assert(rest[i] == models[i + 1]);
                }
            }
        }
    }
}

/// The effort of a level is that of the last entry for it.
pub proof fn lemma_efforts_are_those_of_their_levels(
    efforts: Seq<LevelEffortView>,
    entry: LevelEffortView,
    level: Seq<char>,
)
    ensures
        named_effort(efforts.push(entry), entry.level) == Some(entry.effort),
        level != entry.level ==> named_effort(efforts.push(entry), level) == named_effort(
            efforts,
            level,
        ),
        named_effort(Seq::<LevelEffortView>::empty(), level) is None,
{
    assert(efforts.push(entry).drop_last() =~= efforts);
}

/// What is remembered of a choice is the provider and the model that were chosen, for the
/// workspace and for all others that have no choice of their own.
pub proof fn lemma_choices_are_remembered(
    read: StateReadView,
    id: Seq<char>,
    model: ModelRefView,
)
    ensures
        state_update(read, id, model) matches Ok(update) ==> {
            let chosen = RecentModelView { provider: model.provider, model: model.model };
            &&& update.state.last_model == Some(chosen)
            &&& workspace_recent(update.state.workspaces, id) == Some(chosen)
            &&& update.state.version == 1
            &&& update.preserve_corrupt <==> (read is Failed && read->Failed_0 is Json)
        },
        state_update(read, id, model) matches Err(error) ==> !(read is Missing) && !(error is Json),
{
    if let StateReadView::Parsed(state) = read {
        crate::config::state::lemma_used_models_are_remembered(state, id, model, id);
    }
    crate::config::state::lemma_used_models_are_remembered(
        crate::config::state::no_state(),
        id,
        model,
        id,
    );
}

/// Choices of other workspaces stay what they were.
pub proof fn lemma_choices_of_others_stay(
    state: RecentModelStateView,
    id: Seq<char>,
    model: ModelRefView,
    other: Seq<char>,
)
    requires
        other != id,
        state.version == 1,
    ensures
        state_update(StateReadView::Parsed(state), id, model) matches Ok(update)
            && workspace_recent(update.state.workspaces, other) == workspace_recent(
            state.workspaces,
            other,
        ),
{
    crate::config::state::lemma_used_models_are_remembered(state, id, model, other);
}

/// A state of this version is read as it was written, one of another version is refused, and none
/// is none.
pub proof fn lemma_states_are_read_as_written(state: RecentModelStateView, error: StateErrorView)
    ensures
        state.version == 1 ==> checked_state(StateReadView::Parsed(state)) == Ok::<
            Option<RecentModelStateView>,
            StateErrorView,
        >(Some(state)),
        state.version != 1 ==> checked_state(StateReadView::Parsed(state)) == Err::<
            Option<RecentModelStateView>,
            StateErrorView,
        >(StateErrorView::UnsupportedVersion { version: state.version }),
        checked_state(StateReadView::Missing) == Ok::<
            Option<RecentModelStateView>,
            StateErrorView,
        >(None),
        checked_state(StateReadView::Failed(error)) == Err::<
            Option<RecentModelStateView>,
            StateErrorView,
        >(error),
{
}

/// The limits of a model are those that were configured: its window is its window, and its output
/// its output.
pub proof fn lemma_limits_are_those_of_the_model(model: ResolvedModelView)
    ensures
        limits_of(model).context_window == model.context_window,
        limits_of(model).max_output_tokens == model.max_tokens,
{
}

/// No effort is asked for where thinking is off; at any other level, the one that was configured
/// last for the name of the level.
pub proof fn lemma_efforts_follow_the_level(
    model: ResolvedModelView,
    level: ThinkingLevel,
    entry: LevelEffortView,
)
    ensures
        level == ThinkingLevel::Off ==> effort_at(model, level) is None,
        level != ThinkingLevel::Off && entry.level == level_name(level) ==> effort_at(
            ResolvedModelView {
                thinking_level_map: model.thinking_level_map.push(entry),
                ..model
            },
            level,
        ) == Some(entry.effort),
        entry.level != level_name(level) ==> effort_at(
            ResolvedModelView {
                thinking_level_map: model.thinking_level_map.push(entry),
                ..model
            },
            level,
        ) == effort_at(model, level),
{
    lemma_efforts_are_those_of_their_levels(
        model.thinking_level_map,
        entry,
        level_name(level),
    );
}

} // verus!
