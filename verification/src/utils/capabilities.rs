//! The models that a capability names.

use vstd::prelude::*;
use crate::capabilities::Dependency;
use crate::config::CapabilityConfig;
use crate::json::JsonTree;
use crate::name_map::NameMap;

verus! {

/// The models that settings name, under the keys of the dependencies on models.
pub open spec fn model_slots(settings: JsonTree, dependencies: Seq<Dependency>) -> Map<
    Seq<char>,
    Seq<char>,
>
    decreases dependencies.len(),
{
    if dependencies.len() == 0 {
        Map::empty()
    } else {
        let earlier = model_slots(settings, dependencies.drop_last());
        match dependencies.last() {
            Dependency::Model { config_key, .. } => match settings.text_field(config_key@) {
                Some(id) => earlier.insert(config_key@, id),
                None => earlier,
            },
            _ => earlier,
        }
    }
}

/// The models that the settings of a capability name, under the keys of its
/// dependencies on models. A key that holds no text is left out.
pub fn capability_model_ids(cap_cfg: &CapabilityConfig, dependencies: &Vec<Dependency>) -> (r:
    NameMap<String>)
    ensures
        r@.map_values(|id: String| id@) == model_slots(cap_cfg.config.tree(), dependencies@),
{
    let mut model_ids: NameMap<String> = NameMap::new();
    let ghost settings = cap_cfg.config.tree();
    let mut i: usize = 0;
    proof {
        assert(dependencies@.take(0) =~= Seq::<Dependency>::empty());
        assert(model_ids@.map_values(|id: String| id@) =~= Map::<Seq<char>, Seq<char>>::empty());
    }
    while i < dependencies.len()
        invariant
            i <= dependencies@.len(),
            settings == cap_cfg.config.tree(),
            model_ids@.map_values(|id: String| id@) == model_slots(
                settings,
                dependencies@.take(i as int),
            ),
        decreases dependencies@.len() - i,
    {
        let ghost before = model_ids@.map_values(|id: String| id@);
        proof {
            let here = dependencies@.take(i + 1);
            assert(here.drop_last() =~= dependencies@.take(i as int));
            assert(here.last() == dependencies@[i as int]);
        }
        if let Dependency::Model { config_key, .. } = &dependencies[i] {
            if let Some(id) = cap_cfg.config.text_field(config_key.as_str()) {
                let owned = id.to_owned();
                model_ids.insert(config_key.clone(), owned);
                proof {
                    assert(model_ids@.map_values(|id: String| id@) =~= before.insert(
                        config_key@,
                        id@,
                    ));
                }
            }
        }
        i += 1;
    }
    proof {
        assert(dependencies@.take(i as int) =~= dependencies@);
    }
    model_ids
}

/// Tells whether a dependency is one on a model under a key.
pub open spec fn is_model_slot(dependency: Dependency, key: Seq<char>) -> bool {
    dependency matches Dependency::Model { config_key, .. } && config_key@ == key
}

/// A key has a model exactly when some dependency on a model has that key and the
/// settings hold a text under it, and the model is that text. So there are none where
/// nothing depends on a model.
pub proof fn law_slots_hold_what_the_settings_name(
    settings: JsonTree,
    dependencies: Seq<Dependency>,
    key: Seq<char>,
)
    ensures
        model_slots(settings, dependencies).contains_key(key) <==> settings.text_field(key) is Some
            && exists|i: int|
            0 <= i < dependencies.len() && is_model_slot(#[trigger] dependencies[i], key),
        model_slots(settings, dependencies).contains_key(key) ==> settings.text_field(key) == Some(
            model_slots(settings, dependencies)[key],
        ),
    decreases dependencies.len(),
{
    if dependencies.len() > 0 {
        let front = dependencies.drop_last();
        law_slots_hold_what_the_settings_name(settings, front, key);
        if is_model_slot(dependencies.last(), key) {
            assert(is_model_slot(dependencies[dependencies.len() - 1], key));
        }
        if exists|i: int| 0 <= i < front.len() && is_model_slot(#[trigger] front[i], key) {
            let i = choose|i: int| 0 <= i < front.len() && is_model_slot(#[trigger] front[i], key);
            assert(is_model_slot(dependencies[i], key));
        }
        if exists|i: int|
            0 <= i < dependencies.len() && is_model_slot(#[trigger] dependencies[i], key) {
            let i = choose|i: int|
                0 <= i < dependencies.len() && is_model_slot(#[trigger] dependencies[i], key);
            if i < front.len() {
                assert(is_model_slot(front[i], key));
            }
        }
    }
}

/// A capability names a model under a key exactly when some dependency on a model has that
/// key and its settings are an object with a text under it, which is the model. Other
/// dependencies and other settings do not count.
pub proof fn law_capability_names_its_models(
    capability: &CapabilityConfig,
    dependencies: &Vec<Dependency>,
    r: NameMap<String>,
    key: Seq<char>,
)
    requires
        call_ensures(capability_model_ids, (capability, dependencies), r),
    ensures
        ({
            let asked = exists|i: int|
                0 <= i < dependencies@.len() && is_model_slot(#[trigger] dependencies@[i], key);
            match capability.config.tree() {
                JsonTree::Object(fields) => {
                    &&& r@.contains_key(key) <==> asked && fields.contains_key(key)
                        && fields[key] is Str
                    &&& r@.contains_key(key) ==> JsonTree::Str(r@[key]@) == fields[key]
                },
                _ => !r@.contains_key(key),
            }
        }),
{
    let settings = capability.config.tree();
    law_slots_hold_what_the_settings_name(settings, dependencies@, key);
    let texts = r@.map_values(|id: String| id@);
    assert(texts.contains_key(key) == r@.contains_key(key));
    if r@.contains_key(key) {
        assert(texts[key] == r@[key]@);
    }
}

} // verus!
