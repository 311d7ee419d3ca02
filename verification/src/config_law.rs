//! What holds of settings: which model is meant, what a file changes, and what is refused.
use crate::config::{
    active, completed, completed_models, config_fault, default_config, default_model,
    default_policies, effective_models, effective_providers, faulty_model, find_effort, find_model,
    first_thinking, goes_by, is_other, knows_provider, light_effort, model_fault, models_fault,
    next_effort, normalized, others, partly_normalized, provider_fault, providers_fault, remember,
    with_offered_effort, with_settings, ConfigView, ModelView, ProviderApi, ProviderView,
    SettingsView,
};
use crate::layers::{
    current_policies, has_key, key_index, merged, merged_entries, one_provider, renamed, value_at,
    with_provider, without_key, TomlView,
};
use crate::model_catalog::{config_of, defaults_of, family, is_chat_model};
use crate::runtime::{effort_name, ReasoningEffort};
use crate::text::{has_prefix, has_text, lower};
use crate::tool::Approval;
use vstd::prelude::*;
use vstd::seq_lib::*;
use vstd::string::*;

verus! {

// ---------------------------------------------------------------------------
// Models
// ---------------------------------------------------------------------------

/// A model is found by its name or by its id, the first that goes by it, and none is found
/// just where none does.
pub proof fn find_model_law(models: Seq<ModelView>, key: Seq<char>)
    ensures
        ({
            let i = find_model(models, key, 0);
            &&& 0 <= i <= models.len()
            &&& i < models.len() ==> models[i].name == key || models[i].id == key
            &&& forall|k: int|
                0 <= k < i ==> (#[trigger] models[k]).name != key && models[k].id != key
        }),
{
    find_from(models, key, 0);
}

proof fn find_from(models: Seq<ModelView>, key: Seq<char>, from: int)
    requires
        0 <= from <= models.len(),
    ensures
        ({
            let i = find_model(models, key, from);
            &&& from <= i <= models.len()
            &&& i < models.len() ==> models[i].name == key || models[i].id == key
            &&& forall|k: int|
                from <= k < i ==> (#[trigger] models[k]).name != key && models[k].id != key
        }),
    decreases models.len() - from,
{
    if from < models.len() && !goes_by(models[from], key) {
        find_from(models, key, from + 1);
    }
}

/// The model in use is the one that is set, or the first where that one is not known.
pub proof fn active_model_law(config: ConfigView)
    requires
        config.models.len() > 0,
    ensures
        (exists|i: int|
            0 <= i < config.models.len() && ((#[trigger] config.models[i]).name == config.model
                || config.models[i].id == config.model)) ==> active(config).name == config.model
            || active(config).id == config.model,
        (forall|i: int|
            0 <= i < config.models.len() ==> (#[trigger] config.models[i]).name != config.model
                && config.models[i].id != config.model) ==> active(config) == config.models[0],
        config.models.contains(active(config)),
{
    find_model_law(config.models, config.model);
    let i = find_model(config.models, config.model, 0);
    if i < config.models.len() {
        assert(config.models.contains(config.models[i]));
    } else {
        assert(config.models.contains(config.models[0]));
    }
}

/// The effort behind one is the next that the model takes, round and round.
pub proof fn next_effort_law(efforts: Seq<ReasoningEffort>, i: int)
    requires
        0 <= i < efforts.len(),
        efforts.no_duplicates(),
    ensures
        next_effort(efforts, Some(efforts[i])) == Some(
            efforts[if i + 1 < efforts.len() {
                i + 1
            } else {
                0
            }],
        ),
        next_effort(efforts, None) == Some(efforts[0]),
{
    effort_at(efforts, i, 0);
}

proof fn effort_at(efforts: Seq<ReasoningEffort>, i: int, from: int)
    requires
        0 <= from <= i < efforts.len(),
        efforts.no_duplicates(),
    ensures
        find_effort(efforts, efforts[i], from) == i,
    decreases i - from,
{
    if from < i {
        assert(efforts[from] != efforts[i]);
        effort_at(efforts, i, from + 1);
    }
}

/// Side work takes the first effort that thinks at all, and else the first.
pub proof fn light_effort_law(efforts: Seq<ReasoningEffort>, i: int)
    ensures
        0 <= i < efforts.len() && efforts[i] != ReasoningEffort::Off && (forall|k: int|
            0 <= k < i ==> #[trigger] efforts[k] == ReasoningEffort::Off) ==> light_effort(efforts)
            == Some(efforts[i]),
        efforts.len() > 0 && (forall|k: int|
            0 <= k < efforts.len() ==> #[trigger] efforts[k] == ReasoningEffort::Off)
            ==> light_effort(efforts) == Some(efforts[0]),
        efforts.len() == 0 ==> light_effort(efforts) is None,
{
    if 0 <= i < efforts.len() && efforts[i] != ReasoningEffort::Off && (forall|k: int|
        0 <= k < i ==> #[trigger] efforts[k] == ReasoningEffort::Off) {
        thinks_at(efforts, i);
    }
    if forall|k: int| 0 <= k < efforts.len() ==> #[trigger] efforts[k] == ReasoningEffort::Off {
        never_thinks(efforts);
    }
}

proof fn thinks_at(efforts: Seq<ReasoningEffort>, i: int)
    requires
        0 <= i < efforts.len(),
        efforts[i] != ReasoningEffort::Off,
        forall|k: int| 0 <= k < i ==> #[trigger] efforts[k] == ReasoningEffort::Off,
    ensures
        first_thinking(efforts) == Some(efforts[i]),
    decreases efforts.len(),
{
    if i > 0 {
        assert(efforts[0] == ReasoningEffort::Off);
        let rest = efforts.skip(1);
        assert forall|k: int| 0 <= k < i - 1 implies #[trigger] rest[k]
            == ReasoningEffort::Off by {
            assert(rest[k] == efforts[k + 1]);
        }
        thinks_at(rest, i - 1);
    }
}

proof fn never_thinks(efforts: Seq<ReasoningEffort>)
    requires
        forall|k: int| 0 <= k < efforts.len() ==> #[trigger] efforts[k] == ReasoningEffort::Off,
    ensures
        first_thinking(efforts) is None,
    decreases efforts.len(),
{
    if efforts.len() > 0 {
        assert(efforts[0] == ReasoningEffort::Off);
        let rest = efforts.skip(1);
        assert forall|k: int| 0 <= k < rest.len() implies #[trigger] rest[k]
            == ReasoningEffort::Off by {
            assert(rest[k] == efforts[k + 1]);
        }
        never_thinks(rest);
    }
}

/// An effort that the model does not take gives way to that of the model, and one that it
/// takes stays.
pub proof fn offered_effort_law(config: ConfigView)
    ensures
        config.reasoning_effort is Some && active(config).reasoning_efforts.contains(
            config.reasoning_effort->0,
        ) ==> with_offered_effort(config) == config,
        !(config.reasoning_effort is Some && active(config).reasoning_efforts.contains(
            config.reasoning_effort->0,
        )) ==> with_offered_effort(config) == (ConfigView {
            reasoning_effort: active(config).reasoning_effort,
            ..config
        }),
{
}

// ---------------------------------------------------------------------------
// What is remembered
// ---------------------------------------------------------------------------

/// What is remembered is the newest and then the others, as they stood, as many as are kept.
pub proof fn remembered_law(names: Seq<Seq<char>>, name: Seq<char>, q: Seq<char>)
    ensures
        others(names, name).contains(q) <==> names.contains(q) && q != name,
        others(names, name) == names.filter(|n: Seq<char>| n != name),
        remember(names, name).len() == if others(names, name).len() + 1 > 12 {
            12
        } else {
            others(names, name).len() + 1
        },
        forall|i: int|
            1 <= i < remember(names, name).len() ==> #[trigger] remember(names, name)[i] == others(
                names,
                name,
            )[i - 1],
        remember(names, name)[0] == name,
{
    let keep = is_other(name);
    assert(names.filter(|n: Seq<char>| n != name) =~= names.filter(keep)) by {
        assert((|n: Seq<char>| n != name) =~= keep);
    }
    if names.contains(q) && q != name {
        let i = choose|i: int| 0 <= i < names.len() && names[i] == q;
        names.lemma_filter_contains(keep, i);
    }
    if others(names, name).contains(q) {
        names.lemma_filter_contains_rev(keep, q);
        let i = choose|i: int| 0 <= i < others(names, name).len() && others(names, name)[i] == q;
        names.lemma_filter_pred(keep, i);
    }
}

/// What was kept of the settings is taken over: the model, by its name, the effort, the
/// commands, and the models that are still there.
pub proof fn settings_taken_law(config: ConfigView, settings: SettingsView)
    ensures
        ({
            let next = with_settings(config, settings);
            &&& settings.model is None ==> next.model == config.model
            &&& settings.model is Some && find_model(config.models, settings.model->0, 0)
                < config.models.len() ==> next.model == config.models[find_model(
                config.models,
                settings.model->0,
                0,
            )].name
            &&& next.recent_commands == settings.recent_commands
            &&& settings.reasoning_effort is Some ==> next.reasoning_effort
                == settings.reasoning_effort
            &&& settings.reasoning_effort is None ==> next.reasoning_effort
                == config.reasoning_effort
            &&& next.recent_models.len() > 0
            &&& next.recent_models[0] == next.model
            &&& next.models == config.models
            &&& next.providers == config.providers
            &&& next.tools == config.tools
            &&& next.compaction_threshold == config.compaction_threshold
        }),
{
}

// ---------------------------------------------------------------------------
// Validity
// ---------------------------------------------------------------------------

proof fn sound_providers(providers: Seq<ProviderView>, i: int)
    requires
        0 <= i,
    ensures
        providers_fault(providers, i) is None <==> forall|k: int|
            i <= k < providers.len() ==> provider_fault(providers, k) is None,
    decreases providers.len() - i,
{
    if i < providers.len() {
        sound_providers(providers, i + 1);
        if provider_fault(providers, i) is None && providers_fault(providers, i + 1) is None {
            assert forall|k: int| i <= k < providers.len() implies provider_fault(providers, k)
                is None by {
                if k > i {
                }
            }
        }
    }
}

proof fn sound_models(models: Seq<ModelView>, providers: Seq<ProviderView>, i: int)
    requires
        0 <= i,
    ensures
        models_fault(models, providers, i) is None <==> forall|k: int|
            i <= k < models.len() ==> model_fault(#[trigger] models[k], providers) is None,
    decreases models.len() - i,
{
    if i < models.len() {
        sound_models(models, providers, i + 1);
        if model_fault(models[i], providers) is None && models_fault(models, providers, i + 1)
            is None {
            assert forall|k: int| i <= k < models.len() implies model_fault(
                #[trigger] models[k],
                providers,
            ) is None by {
                if k > i {
                }
            }
        }
    }
}

/// Settings are taken just where each provider has a name of its own and an address, each
/// model has a provider that is there and room for a context, and the threshold is a share.
pub proof fn config_rule_law(config: ConfigView)
    ensures
        config_fault(config) is None <==> {
            let providers = effective_providers(config);
            let models = completed_models(config);
            &&& forall|i: int|
                0 <= i < providers.len() ==> (#[trigger] providers[i]).name.len() > 0
                    && providers[i].base_url.len() > 0
            &&& forall|i: int, j: int|
                0 <= i < j < providers.len() ==> (#[trigger] providers[i]).name != (
                #[trigger] providers[j]).name
            &&& forall|i: int|
                0 <= i < models.len() ==> (#[trigger] models[i]).max_context_tokens > 0 && exists|
                    k: int,
                |
                    0 <= k < providers.len() && (#[trigger] providers[k]).name == models[i].provider
            &&& config.compaction_threshold <= 0x3f80_0000 || config.compaction_threshold
                == 0x8000_0000
        },
{
    let providers = effective_providers(config);
    let models = completed_models(config);
    sound_providers(providers, 0);
    sound_models(models, providers, 0);
    if config_fault(config) is None {
        assert forall|i: int| 0 <= i < providers.len() implies (
        #[trigger] providers[i]).name.len() > 0 && providers[i].base_url.len() > 0 by {
            assert(provider_fault(providers, i) is None);
        }
        assert forall|i: int, j: int| 0 <= i < j < providers.len() implies (
        #[trigger] providers[i]).name != (#[trigger] providers[j]).name by {
            assert(provider_fault(providers, j) is None);
            assert(providers.take(j)[i] == providers[i]);
        }
        assert forall|i: int| 0 <= i < models.len() implies (
        #[trigger] models[i]).max_context_tokens > 0 && exists|k: int|
            0 <= k < providers.len() && (#[trigger] providers[k]).name == models[i].provider by {
            assert(model_fault(models[i], providers) is None);
        }
    } else {
        if providers_fault(providers, 0) is Some {
            let k = choose|k: int|
                0 <= k < providers.len() && !(provider_fault(providers, k) is None);
            if providers[k].name.len() > 0 && providers[k].base_url.len() > 0 {
                let before = providers.take(k);
                let m = choose|m: int|
                    0 <= m < before.len() && (#[trigger] before[m]).name == providers[k].name;
                assert(providers[m].name == providers[k].name);
            }
        } else if models_fault(models, providers, 0) is Some {
            let k = choose|k: int|
                0 <= k < models.len() && !(model_fault(#[trigger] models[k], providers) is None);
            assert(models[k].max_context_tokens == 0 || !knows_provider(
                providers,
                models[k].provider,
            ));
        }
    }
}

/// A model is completed where it leaves something open, and else stays as it is: nothing
/// that was set is changed, but for a provider that is not there.
pub proof fn completed_law(model: ModelView, providers: Seq<ProviderView>)
    requires
        providers.len() > 0,
    ensures
        ({
            let done = completed(model, providers);
            &&& model.id.len() > 0 ==> done.id == model.id
            &&& model.id.len() == 0 ==> done.id == model.name
            &&& model.name.len() > 0 ==> done.name == model.name
            &&& model.name.len() == 0 ==> done.name == done.id
            &&& model.provider.len() == 0 ==> done.provider == providers[0].name
            &&& model.provider.len() > 0 && model.provider != "default"@ ==> done.provider
                == model.provider
            &&& model.provider == "default"@ && knows_provider(providers, "default"@)
                ==> done.provider == "default"@
            &&& model.provider == "default"@ && !knows_provider(providers, "default"@)
                && providers.len() == 1 ==> done.provider == providers[0].name
            &&& done == (ModelView {
                id: done.id,
                name: done.name,
                provider: done.provider,
                ..model
            })
        }),
{
    reveal_strlit("default");
}

/// Settings that are taken keep their providers and their models; where none are set there is
/// one, made of what is.
pub proof fn filled_law(config: ConfigView)
    ensures
        config.providers.len() > 0 ==> effective_providers(config) == config.providers,
        config.providers.len() == 0 ==> effective_providers(config) == seq![
            ProviderView {
                name: "default"@,
                base_url: config.base_url,
                api_key: config.api_key,
                api: ProviderApi::Responses,
            },
        ],
        config.models.len() > 0 ==> effective_models(config) == config.models,
        config.models.len() == 0 ==> effective_models(config).len() == 1 && effective_models(
            config,
        )[0].name == config.model && effective_models(config)[0].id == config.model,
        ({
            let done = normalized(config);
            &&& done.providers == effective_providers(config)
            &&& done.models.len() == effective_models(config).len()
            &&& done.tools == config.tools
            &&& done.temperature == config.temperature
            &&& done.compaction_threshold == config.compaction_threshold
            &&& done.paste_collapse_chars == config.paste_collapse_chars
            &&& done.recent_models == config.recent_models
            &&& find_model(completed_models(config), config.model, 0) < completed_models(
                config,
            ).len() ==> done.models == completed_models(config) && done.model
                == completed_models(config)[find_model(
                completed_models(config),
                config.model,
                0,
            )].name
        }),
{
}

/// Tools that only look are allowed, and all others ask, where nothing else is set.
pub proof fn policies_law()
    ensures
        default_policies().read == Approval::Allow,
        default_policies().search_files == Approval::Allow,
        default_policies().list_files == Approval::Allow,
        default_policies().write == Approval::Ask,
        default_policies().edit == Approval::Ask,
        default_policies().shell == Approval::Ask,
        default_policies().web_browser == Approval::Ask,
        default_policies().web_search == Approval::Ask,
        default_policies().external == Approval::Ask,
{
}

// ---------------------------------------------------------------------------
// Files of settings
// ---------------------------------------------------------------------------

/// What stands under a key is the first entry with it.
pub proof fn value_law(entries: Seq<(Seq<char>, TomlView)>, key: Seq<char>)
    ensures
        match value_at(entries, key) {
            Some(value) => exists|i: int|
                {
                    &&& 0 <= i < entries.len()
                    &&& #[trigger] entries[i] == (key, value)
                    &&& forall|k: int| 0 <= k < i ==> (#[trigger] entries[k]).0 != key
                },
            None => forall|k: int| 0 <= k < entries.len() ==> (#[trigger] entries[k]).0 != key,
        },
        has_key(entries, key) <==> value_at(entries, key) is Some,
{
    key_from(entries, key, 0);
    let i = key_index(entries, key, 0);
    if i < entries.len() {
        assert(entries[i] == (key, entries[i].1));
    }
}

proof fn key_from(entries: Seq<(Seq<char>, TomlView)>, key: Seq<char>, from: int)
    requires
        0 <= from <= entries.len(),
    ensures
        ({
            let i = key_index(entries, key, from);
            &&& from <= i <= entries.len()
            &&& i < entries.len() ==> entries[i].0 == key
            &&& forall|k: int| from <= k < i ==> (#[trigger] entries[k]).0 != key
        }),
    decreases entries.len() - from,
{
    if from < entries.len() && entries[from].0 != key {
        key_from(entries, key, from + 1);
    }
}

proof fn value_is(entries: Seq<(Seq<char>, TomlView)>, key: Seq<char>, i: int)
    requires
        0 <= i < entries.len(),
        entries[i].0 == key,
        forall|k: int| 0 <= k < i ==> (#[trigger] entries[k]).0 != key,
    ensures
        value_at(entries, key) == Some(entries[i].1),
        key_index(entries, key, 0) == i,
{
    key_from(entries, key, 0);
}

proof fn value_behind(entries: Seq<(Seq<char>, TomlView)>, key: Seq<char>, value: TomlView, q: Seq<char>)
    ensures
        value_at(entries.push((key, value)), q) == match value_at(entries, q) {
            Some(found) => Some(found),
            None => if q == key {
                Some(value)
            } else {
                None
            },
        },
{
    let all = entries.push((key, value));
    key_from(entries, q, 0);
    key_from(all, q, 0);
    let i = key_index(entries, q, 0);
    if i < entries.len() {
        assert(all[i] == entries[i]);
        value_is(all, q, i);
    } else if q == key {
        assert(all[entries.len() as int] == (key, value));
        value_is(all, q, entries.len() as int);
    } else {
        let j = key_index(all, q, 0);
        if j < all.len() {
            if j < entries.len() {
                assert(entries[j].0 == q);
            }
        }
    }
}

proof fn value_without(entries: Seq<(Seq<char>, TomlView)>, key: Seq<char>, q: Seq<char>)
    ensures
        value_at(without_key(entries, key), q) == if q == key {
            None
        } else {
            value_at(entries, q)
        },
    decreases entries.len(),
{
    if entries.len() > 0 {
        let rest = entries.drop_last();
        let last = entries.last();
        value_without(rest, key, q);
        assert(entries =~= rest.push((last.0, last.1)));
        value_behind(rest, last.0, last.1, q);
        if last.0 != key {
            value_behind(without_key(rest, key), last.0, last.1, q);
        }
    }
}

/// A setting that is no table takes the place of an older one whole; only tables are put
/// together.
pub proof fn replace_law(base: TomlView, overlay: TomlView)
    ensures
        !(base is Table) || !(overlay is Table) ==> merged(base, overlay) == overlay,
        base is Table && overlay is Table ==> merged(base, overlay) is Table,
        overlay == TomlView::Table(Seq::empty()) && base is Table ==> merged(base, overlay) == base,
{
    if overlay == TomlView::Table(Seq::empty()) && base is Table {
        assert(merged_entries(base->Table_0, Seq::empty(), 0) == base->Table_0);
    }
}

/// A policy under an older name holds under the newer one, where that is not set, and the
/// older name is gone; other policies stay.
pub proof fn renamed_law(
    entries: Seq<(Seq<char>, TomlView)>,
    old_key: Seq<char>,
    new_key: Seq<char>,
    q: Seq<char>,
)
    requires
        old_key != new_key,
    ensures
        value_at(renamed(entries, old_key, new_key), q) == if q == old_key {
            None
        } else if q == new_key && value_at(entries, new_key) is None {
            value_at(entries, old_key)
        } else {
            value_at(entries, q)
        },
{
    value_law(entries, new_key);
    value_without(entries, old_key, q);
    value_without(entries, old_key, new_key);
    match value_at(entries, old_key) {
        Some(value) => {
            value_behind(without_key(entries, old_key), new_key, value, q);
        },
        None => {},
    }
}

/// The policies of older files hold under the names that the tools have now.
pub proof fn policies_renamed_law(entries: Seq<(Seq<char>, TomlView)>, q: Seq<char>)
    ensures
        value_at(current_policies(entries), "search_files"@) == match value_at(
            entries,
            "search_files"@,
        ) {
            Some(value) => Some(value),
            None => value_at(entries, "grep"@),
        },
        value_at(current_policies(entries), "list_files"@) == match value_at(
            entries,
            "list_files"@,
        ) {
            Some(value) => Some(value),
            None => value_at(entries, "glob"@),
        },
        q != "grep"@ && q != "glob"@ && q != "search_files"@ && q != "list_files"@ ==> value_at(
            current_policies(entries),
            q,
        ) == value_at(entries, q),
{
    reveal_strlit("grep");
    reveal_strlit("glob");
    reveal_strlit("search_files");
    reveal_strlit("list_files");
    assert("grep"@[1] != "glob"@[1]);
    assert("grep"@.len() != "search_files"@.len());
    assert("grep"@.len() != "list_files"@.len());
    assert("glob"@.len() != "search_files"@.len());
    assert("glob"@.len() != "list_files"@.len());
    assert("search_files"@.len() != "list_files"@.len());
    let first = renamed(entries, "grep"@, "search_files"@);
    renamed_law(entries, "grep"@, "search_files"@, "search_files"@);
    renamed_law(entries, "grep"@, "search_files"@, "list_files"@);
    renamed_law(entries, "grep"@, "search_files"@, "glob"@);
    renamed_law(entries, "grep"@, "search_files"@, q);
    renamed_law(first, "glob"@, "list_files"@, "search_files"@);
    renamed_law(first, "glob"@, "list_files"@, "list_files"@);
    renamed_law(first, "glob"@, "list_files"@, q);
}

/// An older file with one address has one provider, with that address and its key; a file
/// that lists providers, or has no address, stays as it is.
pub proof fn provider_promoted_law(entries: Seq<(Seq<char>, TomlView)>, q: Seq<char>)
    ensures
        ({
            let done = with_provider(TomlView::Table(entries));
            let old_form = value_at(entries, "base_url"@) is Some && value_at(entries, "providers"@)
                is None;
            &&& done is Table
            &&& !old_form ==> done == TomlView::Table(entries)
            &&& q != "providers"@ ==> value_at(done->Table_0, q) == value_at(entries, q)
            &&& old_form ==> {
                let list = value_at(done->Table_0, "providers"@);
                &&& list is Some
                &&& list->0 is Array
                &&& list->0->Array_0.len() == 1
                &&& list->0->Array_0[0] is Table
                &&& value_at(list->0->Array_0[0]->Table_0, "name"@) == Some(
                    TomlView::Text("default"@),
                )
                &&& value_at(list->0->Array_0[0]->Table_0, "base_url"@) == value_at(
                    entries,
                    "base_url"@,
                )
                &&& value_at(list->0->Array_0[0]->Table_0, "api_key"@) == match value_at(
                    entries,
                    "api_key"@,
                ) {
                    Some(key) => Some(key),
                    None => Some(TomlView::Text(Seq::empty())),
                }
            }
        }),
{
    reveal_strlit("name");
    reveal_strlit("base_url");
    reveal_strlit("api_key");
    reveal_strlit("providers");
    assert("name"@.len() != "base_url"@.len());
    assert("name"@.len() != "api_key"@.len());
    assert("name"@.len() != "providers"@.len());
    assert("base_url"@.len() != "api_key"@.len());
    assert("base_url"@.len() != "providers"@.len());
    assert("api_key"@.len() != "providers"@.len());
    value_law(entries, "providers"@);
    if value_at(entries, "base_url"@) is Some && value_at(entries, "providers"@) is None {
        let provider = one_provider(
            value_at(entries, "base_url"@)->0,
            crate::layers::key_of(entries),
        );
        value_behind(entries, "providers"@, provider, q);
        value_behind(entries, "providers"@, provider, "providers"@);
        let table = provider->Array_0[0]->Table_0;
        assert(table[0].0 == "name"@);
        assert(table[1].0 == "base_url"@);
        assert(table[2].0 == "api_key"@);
        value_is(table, "name"@, 0);
        value_is(table, "base_url"@, 1);
        assert forall|k: int| 0 <= k < 2 implies (#[trigger] table[k]).0 != "api_key"@ by {
            assert(k == 0 || k == 1);
        }
        value_is(table, "api_key"@, 2);
    }
}

// ---------------------------------------------------------------------------
// Known models
// ---------------------------------------------------------------------------

proof fn family_of(a: Seq<char>, b: Seq<char>)
    requires
        !b.contains('/'),
    ensures
        family(a + seq!['/'] + b) == b,
    decreases b.len(),
{
    let all = a + seq!['/'] + b;
    if b.len() == 0 {
        assert(all.last() == '/');
        assert(family(all) =~= b);
    } else {
        assert(b.contains(b.last()));
        assert(all.last() == b.last());
        assert(all.drop_last() =~= a + seq!['/'] + b.drop_last());
        assert(!b.drop_last().contains('/')) by {
            if b.drop_last().contains('/') {
                let i = choose|i: int| 0 <= i < b.drop_last().len() && b.drop_last()[i] == '/';
                assert(b[i] == '/');
            }
        }
        family_of(a, b.drop_last());
        assert(family(all) =~= b);
    }
}

proof fn family_plain(b: Seq<char>)
    requires
        !b.contains('/'),
    ensures
        family(b) == b,
    decreases b.len(),
{
    if b.len() > 0 {
        assert(b.contains(b.last()));
        assert(!b.drop_last().contains('/')) by {
            if b.drop_last().contains('/') {
                let i = choose|i: int| 0 <= i < b.drop_last().len() && b.drop_last()[i] == '/';
                assert(b[i] == '/');
            }
        }
        family_plain(b.drop_last());
        assert(family(b) =~= b);
    }
}

/// A model goes by what stands behind the last slash, and whether it can talk does not depend
/// on where it is offered.
pub proof fn family_law(place: Seq<char>, name: Seq<char>)
    requires
        !name.contains('/'),
    ensures
        family(place + seq!['/'] + name) == name,
        family(name) == name,
        is_chat_model(place + seq!['/'] + name) == is_chat_model(name),
{
    family_of(place, name);
    family_plain(name);
    crate::text_law::lower_law(name);
    let low = lower(name);
    assert(!low.contains('/')) by {
        if low.contains('/') {
            let i = choose|i: int| 0 <= i < low.len() && low[i] == '/';
            assert(name[i] == '/' || 65 <= name[i] as u32 <= 90);
            if 65 <= name[i] as u32 <= 90 {
                assert(low[i] as u32 == name[i] as u32 + 32);
            }
        }
    }
    family_of(lower(place), low);
    family_plain(low);
    let all = place + seq!['/'] + name;
    assert(lower(all) =~= lower(place) + seq!['/'] + low) by {
        crate::text_law::lower_law(all);
        crate::text_law::lower_law(place);
    }
}

/// A model that is found is named as it was found, and what is known of it does not depend on
/// capital letters.
pub proof fn config_of_law(id: Seq<char>)
    ensures
        config_of(id).name == id,
        config_of(id).id == id,
        config_of(id).price_per_token is None,
        config_of(id).provider.len() == 0,
        config_of(lower(id)).max_context_tokens == config_of(id).max_context_tokens,
        config_of(lower(id)).reasoning_efforts == config_of(id).reasoning_efforts,
        config_of(lower(id)).vision == config_of(id).vision,
        defaults_of(lower(id)) is None ==> config_of(id).max_context_tokens == 32_768
            && !config_of(id).vision && config_of(id).reasoning_effort is None,
{
    crate::text_law::lower_law(id);
}

/// Models that make or read something else than text hold no conversations, nor do those that
/// search, transcribe or take their time.
pub proof fn other_models_law(id: Seq<char>)
    ensures
        ({
            let name = family(lower(id));
            &&& has_prefix(name, "babbage"@) ==> !is_chat_model(id)
            &&& has_prefix(name, "computer-use"@) ==> !is_chat_model(id)
            &&& has_prefix(name, "dall-e"@) ==> !is_chat_model(id)
            &&& has_prefix(name, "davinci"@) ==> !is_chat_model(id)
            &&& has_prefix(name, "gpt-audio"@) ==> !is_chat_model(id)
            &&& has_prefix(name, "gpt-image"@) ==> !is_chat_model(id)
            &&& has_prefix(name, "gpt-realtime"@) ==> !is_chat_model(id)
            &&& has_prefix(name, "omni-moderation"@) ==> !is_chat_model(id)
            &&& has_prefix(name, "sora"@) ==> !is_chat_model(id)
            &&& has_prefix(name, "text-embedding"@) ==> !is_chat_model(id)
            &&& has_prefix(name, "text-moderation"@) ==> !is_chat_model(id)
            &&& has_prefix(name, "tts"@) ==> !is_chat_model(id)
            &&& has_prefix(name, "whisper"@) ==> !is_chat_model(id)
            &&& has_text(name, "deep-research"@) ==> !is_chat_model(id)
            &&& has_text(name, "search-preview"@) ==> !is_chat_model(id)
            &&& has_text(name, "transcribe"@) ==> !is_chat_model(id)
            &&& has_text(name, "-pro"@) && has_prefix(name, "gpt-5"@) ==> !is_chat_model(id)
            &&& has_text(name, "-pro"@) && has_prefix(name, "o"@) ==> !is_chat_model(id)
            &&& !is_chat_model(id) ==> has_prefix(name, "babbage"@)
                || has_prefix(name, "computer-use"@)
                || has_prefix(name, "dall-e"@)
                || has_prefix(name, "davinci"@)
                || has_prefix(name, "gpt-audio"@)
                || has_prefix(name, "gpt-image"@)
                || has_prefix(name, "gpt-realtime"@)
                || has_prefix(name, "omni-moderation"@)
                || has_prefix(name, "sora"@)
                || has_prefix(name, "text-embedding"@)
                || has_prefix(name, "text-moderation"@)
                || has_prefix(name, "tts"@)
                || has_prefix(name, "whisper"@)
                || has_text(name, "deep-research"@)
                || has_text(name, "search-preview"@)
                || has_text(name, "transcribe"@)
                || has_text(name, "-pro"@)
        }),
{
}

/// What is known of models by a part of their name: how much they hold, how they think, and
/// that they see.
pub proof fn known_models_law(id: Seq<char>)
    ensures
        ({
            let low = lower(id);
            let model = config_of(id);
            let qwen = has_text(low, "qwen3.8"@);
            &&& qwen ==> {
                &&& model.max_context_tokens == 262_144
                &&& model.vision
                &&& model.reasoning_effort == Some(ReasoningEffort::XHigh)
                &&& model.reasoning_efforts == seq![
                    ReasoningEffort::Low,
                    ReasoningEffort::Medium,
                    ReasoningEffort::XHigh,
                ]
            }
            &&& !qwen && has_text(low, "gpt-5.6"@) ==> {
                &&& model.max_context_tokens == 1_050_000
                &&& model.vision
                &&& model.reasoning_effort == Some(ReasoningEffort::Medium)
                &&& model.reasoning_efforts == seq![
                    ReasoningEffort::Off,
                    ReasoningEffort::Low,
                    ReasoningEffort::Medium,
                    ReasoningEffort::High,
                    ReasoningEffort::XHigh,
                    ReasoningEffort::Max,
                ]
            }
            &&& !qwen && has_text(low, "gpt-5"@) ==> {
                &&& model.vision
                &&& model.reasoning_effort is Some
                &&& model.max_context_tokens == 400_000 || model.max_context_tokens == 1_050_000
                &&& model.reasoning_efforts.len() > 0
            }
        }),
{
}

/// An effort is written as providers name it.
pub proof fn effort_words_law()
    ensures
        effort_name(ReasoningEffort::Off) == "none"@,
        effort_name(ReasoningEffort::Minimal) == "minimal"@,
        effort_name(ReasoningEffort::Low) == "low"@,
        effort_name(ReasoningEffort::Medium) == "medium"@,
        effort_name(ReasoningEffort::High) == "high"@,
        effort_name(ReasoningEffort::XHigh) == "xhigh"@,
        effort_name(ReasoningEffort::Max) == "max"@,
{
}

/// Settings that nobody made have one model, which is in use and takes the effort that is
/// set, and ask the usual address.
pub proof fn standard_law()
    ensures
        ({
            let config = default_config();
            &&& config.base_url == "https://api.openai.com/v1"@
            &&& config.api_key.len() == 0
            &&& config.providers.len() == 0
            &&& config.models.len() == 1
            &&& config.models[0] == default_model()
            &&& config.models[0].name == config.model
            &&& config.models[0].reasoning_effort == config.reasoning_effort
            &&& config.reasoning_effort is Some
            &&& config.models[0].reasoning_efforts.contains(config.reasoning_effort->0)
            &&& config.models[0].max_context_tokens == 262_144
            &&& config.models[0].vision
            &&& config.paste_collapse_chars == 200
            &&& config.compaction_threshold == 0x3f40_0000
            &&& config.recent_models.len() == 0
            &&& config.recent_commands.len() == 0
        }),
{
    assert(default_model().reasoning_efforts[2] == ReasoningEffort::XHigh);
}

proof fn faulty_is(models: Seq<ModelView>, providers: Seq<ProviderView>, i: int)
    requires
        0 <= i <= models.len(),
    ensures
        ({
            let k = faulty_model(models, providers, i);
            &&& i <= k <= models.len()
            &&& k < models.len() ==> model_fault(models[k], providers) is Some
            &&& forall|m: int| i <= m < k ==> model_fault(#[trigger] models[m], providers) is None
        }),
    decreases models.len() - i,
{
    if i < models.len() && model_fault(models[i], providers) is None {
        faulty_is(models, providers, i + 1);
    }
}

/// Settings with a fault are filled up to the first fault, and stay as they were behind it.
pub proof fn partly_filled_law(config: ConfigView, i: int)
    requires
        0 <= i < effective_models(config).len(),
    ensures
        ({
            let providers = effective_providers(config);
            let done = completed_models(config);
            let left = partly_normalized(config);
            let sound = providers_fault(providers, 0) is None;
            let before = forall|m: int|
                0 <= m < i ==> model_fault(#[trigger] done[m], providers) is None;
            &&& left.providers == providers
            &&& !sound ==> left.models == config.models && left.model == config.model
            &&& sound && models_fault(done, providers, 0) is Some ==> {
                &&& left.models.len() == effective_models(config).len()
                &&& before ==> left.models[i] == done[i]
                &&& !before ==> left.models[i] == effective_models(config)[i]
                &&& left.model == config.model
                &&& left.tools == config.tools
            }
            &&& sound && models_fault(done, providers, 0) is None ==> left == normalized(config)
        }),
{
    let providers = effective_providers(config);
    let done = completed_models(config);
    faulty_is(done, providers, 0);
    let faulty = faulty_model(done, providers, 0);
    if faulty < i {
        assert(model_fault(done[faulty], providers) is Some);
    }
}

} // verus!
