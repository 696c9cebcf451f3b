//! What the implementations that come with the program have in common.

use vstd::prelude::*;
use crate::capabilities::{BindingType, CapabilityFactory, CapabilityKind, Dependency};
use crate::catalog::{
    builtin_catalog, builtin_registries, capability_registry, catalog_entry, catalog_names,
    custom_model, model_registry, CatalogModel, SettingsShape,
};
use crate::launchers::bob::BobLauncher;
use crate::launchers::LauncherMetadata;
use crate::models::{ModelFactory, ModelFunction, ModelKind, ModelMetadata};
use crate::name_map::NameMap;
use crate::providers::ProviderMetadata;
use crate::registry::{Registration, Registries};

verus! {

/// Tells whether a registration has the schema and the defaults that are known for a type
/// name, and none where nothing is known.
pub open spec fn has_known_settings<M, C>(
    registration: Registration<M, C>,
    shapes: Map<Seq<char>, SettingsShape>,
    name: Seq<char>,
) -> bool {
    &&& shapes.contains_key(name) ==> registration.config_schema.tree()
        == shapes[name].schema.tree() && registration.default_config.tree()
        == shapes[name].default_config.tree()
    &&& !shapes.contains_key(name) ==> registration.config_schema.tree() is Null
        && registration.default_config.tree() is Null
}

/// Every capability that comes with the program needs one thing, a model, which has to be
/// named under `model_id` and is not chosen yet. The model has to chat, but for image
/// understanding, which needs just that; and for a sub-agent it has to call tools too. A
/// capability attaches in one way, which goes by its kind.
pub proof fn law_every_capability_needs_a_model(
    shapes: &NameMap<SettingsShape>,
    r: CapabilityFactory,
    name: Seq<char>,
)
    requires
        call_ensures(capability_registry, (shapes,), r),
        r.registry@.contains_key(name),
    ensures
        ({
            let entry = r.registry@[name];
            let kind = entry.constructor;
            &&& entry.metadata.dependencies@.len() == 1
            &&& entry.metadata.dependencies@[0] matches Dependency::Model {
                config_key,
                requirement,
                resolved_id,
                required,
            }
            &&& config_key@ == "model_id"@
            &&& required
            &&& resolved_id is None
            &&& requirement.supported_functions@ == (match kind {
                CapabilityKind::VisionMcp => seq![ModelFunction::ImageUnderstanding],
                CapabilityKind::AgentModel => seq![ModelFunction::Chat],
                _ => seq![ModelFunction::Chat, ModelFunction::ToolCalling],
            })
            &&& entry.metadata.supported_binding_types@ == seq![
                match kind {
                    CapabilityKind::AgentModel => BindingType::AgentModel,
                    CapabilityKind::VisionMcp => BindingType::Mcp,
                    _ => BindingType::SubAgent,
                },
            ]
            &&& has_known_settings(entry, shapes@, name)
        }),
{
}

/// A capability of each kind comes with the program, under a name of its own.
pub proof fn law_every_kind_is_registered(
    shapes: &NameMap<SettingsShape>,
    r: CapabilityFactory,
    kind: CapabilityKind,
    a: Seq<char>,
    b: Seq<char>,
)
    requires
        call_ensures(capability_registry, (shapes,), r),
    ensures
        exists|name: Seq<char>| #[trigger]
            r.registry@.contains_key(name) && r.registry@[name].constructor == kind,
        r.registry@.contains_key(a) && r.registry@.contains_key(b) && r.registry@[a].constructor
            == r.registry@[b].constructor ==> a == b,
        r.registry@.contains_key("agent-model"@) && r.registry@["agent-model"@].constructor
            == CapabilityKind::AgentModel,
        r.registry@.contains_key("vision-mcp"@) && r.registry@["vision-mcp"@].constructor
            == CapabilityKind::VisionMcp,
        r.registry@.contains_key("sub-agent"@) && r.registry@["sub-agent"@].constructor
            == CapabilityKind::SubAgent,
        r.registry@.contains_key("sub-agent-code"@) && r.registry@["sub-agent-code"@].constructor
            == CapabilityKind::SubAgentCode,
        r.registry@.contains_key("sub-agent-explore"@)
            && r.registry@["sub-agent-explore"@].constructor == CapabilityKind::SubAgentExplore,
        r.registry@.contains_key("sub-agent-plan"@) && r.registry@["sub-agent-plan"@].constructor
            == CapabilityKind::SubAgentPlan,
{
    assert(r.registry@.contains_key("agent-model"@));
    assert(r.registry@.contains_key("vision-mcp"@));
    assert(r.registry@.contains_key("sub-agent"@));
    assert(r.registry@.contains_key("sub-agent-code"@));
    assert(r.registry@.contains_key("sub-agent-explore"@));
    assert(r.registry@.contains_key("sub-agent-plan"@));
}

proof fn lemma_catalog(catalog: Seq<CatalogModel>, i: int, name: Seq<char>)
    ensures
        0 <= i < catalog.len() && (forall|j: int|
            i < j < catalog.len() ==> (#[trigger] catalog[j]).name@ != catalog[i].name@)
            ==> catalog_entry(catalog, catalog[i].name@) == catalog[i].metadata,
        catalog_names(catalog).contains(name) <==> exists|j: int|
            0 <= j < catalog.len() && (#[trigger] catalog[j]).name@ == name,
    decreases catalog.len(),
{
    if catalog.len() > 0 {
        let front = catalog.drop_last();
        let n = catalog.len() - 1;
        lemma_catalog(front, i, name);
        assert(catalog[n] == catalog.last());
        if 0 <= i < n && (forall|j: int|
            i < j < catalog.len() ==> (#[trigger] catalog[j]).name@ != catalog[i].name@) {
            assert(front[i] == catalog[i]);
            assert forall|j: int| i < j < front.len() implies (#[trigger] front[j]).name@
                != front[i].name@ by {
                assert(front[j] == catalog[j]);
            }
        }
        if exists|j: int| 0 <= j < front.len() && (#[trigger] front[j]).name@ == name {
            let j = choose|j: int| 0 <= j < front.len() && (#[trigger] front[j]).name@ == name;
            assert(catalog[j].name@ == name);
        }
        if exists|j: int| 0 <= j < catalog.len() && (#[trigger] catalog[j]).name@ == name {
            let j = choose|j: int| 0 <= j < catalog.len() && (#[trigger] catalog[j]).name@ == name;
            if j < n {
                assert(front[j].name@ == name);
            }
        }
    }
}

/// Every model of a catalog is registered under its name with what the catalog says of it,
/// the last entry where a name occurs more than once. The model that the user describes is
/// registered as `custom`. Nothing else is registered.
pub proof fn law_every_model_is_registered(
    catalog: Vec<CatalogModel>,
    custom: ModelMetadata,
    shapes: &NameMap<SettingsShape>,
    r: ModelFactory,
    i: int,
    name: Seq<char>,
)
    requires
        call_ensures(model_registry, (catalog, custom, shapes), r),
    ensures
        0 <= i < catalog@.len() && catalog@[i].name@ != "custom"@ && (forall|j: int|
            i < j < catalog@.len() ==> (#[trigger] catalog@[j]).name@ != catalog@[i].name@) ==> {
            &&& r.registry@.contains_key(catalog@[i].name@)
            &&& r.registry@[catalog@[i].name@].metadata == catalog@[i].metadata
            &&& r.registry@[catalog@[i].name@].constructor == ModelKind::Catalog
        },
        r.registry@.contains_key("custom"@),
        r.registry@["custom"@].metadata == custom,
        r.registry@["custom"@].constructor == ModelKind::Custom,
        r.registry@.contains_key(name) ==> name == "custom"@ || exists|j: int|
            0 <= j < catalog@.len() && (#[trigger] catalog@[j]).name@ == name,
        r.registry@.contains_key(name) ==> has_known_settings(r.registry@[name], shapes@, name),
{
    lemma_catalog(catalog@, i, name);
    if 0 <= i < catalog@.len() {
        lemma_catalog(catalog@, i, catalog@[i].name@);
    }
    assert(r.types().dom().contains("custom"@));
}

/// Tells whether two descriptions of a model agree.
pub open spec fn agree(a: ModelMetadata, b: ModelMetadata) -> bool {
    &&& a.family@ == b.family@
    &&& a.version@ == b.version@
    &&& a.context_length == b.context_length
    &&& a.model_type == b.model_type
    &&& a.supported_functions@ == b.supported_functions@
    &&& a.variants@.len() == b.variants@.len()
    &&& forall|i: int|
        0 <= i < a.variants@.len() ==> {
            &&& (#[trigger] a.variants@[i]).format@ == b.variants@[i].format@
            &&& a.variants@[i].precision@ == b.variants@[i].precision@
            &&& a.variants@[i].size_centi_gb == b.variants@[i].size_centi_gb
        }
}

/// The registries of the program have the models of its catalog and the one that the user
/// describes, Bob among the launchers that they are given, which stay, and the providers
/// that they are given.
pub proof fn law_program_registries_have_everything(
    launchers: NameMap<LauncherMetadata>,
    providers: NameMap<ProviderMetadata>,
    shapes: &NameMap<SettingsShape>,
    r: Registries,
    catalog: Vec<CatalogModel>,
    custom: ModelMetadata,
    bob: LauncherMetadata,
    i: int,
    name: Seq<char>,
)
    requires
        call_ensures(builtin_registries, (launchers, providers, shapes), r),
        call_ensures(builtin_catalog, (), catalog),
        call_ensures(custom_model, (), custom),
        call_ensures(BobLauncher::metadata, (), bob),
    ensures
        0 <= i < catalog@.len() ==> {
            &&& r.models.registry@.contains_key(catalog@[i].name@)
            &&& agree(r.models.registry@[catalog@[i].name@].metadata, catalog@[i].metadata)
            &&& r.models.registry@[catalog@[i].name@].constructor == ModelKind::Catalog
        },
        r.models.registry@.contains_key("custom"@),
        agree(r.models.registry@["custom"@].metadata, custom),
        r.models.registry@["custom"@].constructor == ModelKind::Custom,
        r.models.registry@.contains_key(name) ==> has_known_settings(
            r.models.registry@[name],
            shapes@,
            name,
        ),
        r.launchers@.contains_key("bob"@),
        r.launchers@["bob"@].name@ == bob.name@,
        r.launchers@["bob"@].default_command@ == bob.default_command@,
        r.launchers@["bob"@].supported_capabilities@ == bob.supported_capabilities@,
        name != "bob"@ ==> r.launchers@.contains_key(name) == launchers@.contains_key(name),
        name != "bob"@ && launchers@.contains_key(name) ==> r.launchers@[name]
            == launchers@[name],
        r.providers@ == providers@,
{
    assert(r.launchers@.dom().contains("bob"@));
    assert(r.launchers@.dom().contains(name) == r.launchers@.contains_key(name));
    if 0 <= i < catalog@.len() {
        assert(i == 0 || i == 1 || i == 2 || i == 3 || i == 4);
        assert(r.models.types().dom().contains(catalog@[i].name@));
    }
    assert(r.models.types().dom().contains("custom"@));
}

} // verus!
