//! Stable application capability catalog.
use vstd::prelude::*;

verus! {

/// Stable identifiers consumed by routes, actions and settings.
#[derive(Clone, Copy, Debug, PartialEq, Eq, Structural)]
pub enum AppFeatureId {
    LexiconRead,
    PhraseRead,
    ReverseLookup,
    SystemWrite,
    LexiconEdit,
    PhraseEdit,
    RadicalReference,
    ResourceSync,
    SystemSettings,
    ResourceUpdate,
    LegacyMigration,
    SelfLearning,
}

/// Milestone that owns a capability implementation.
#[derive(Clone, Copy, Debug, PartialEq, Eq, Structural)]
pub enum TargetMilestone {
    S2,
    S3,
    S4,
    S5,
    S6,
    S7,
    S8,
}

/// Typed reason a catalog entry is not available in the current build.
#[derive(Clone, Copy, Debug, PartialEq, Eq, Structural)]
pub enum FeatureUnavailableReason {
    NotIncludedInBuild,
}

/// One stable capability record.
#[derive(Clone, Copy, Debug, PartialEq, Eq, Structural)]
pub struct AppFeature {
    pub id: AppFeatureId,
    pub available: bool,
    pub target_milestone: TargetMilestone,
    pub unavailable_reason: Option<FeatureUnavailableReason>,
}

/// Complete feature snapshot returned at frontend startup.
#[derive(Clone, Debug)]
pub struct AppFeatureCatalog {
    pub features: Vec<AppFeature>,
}

/// Every capability in product order with the milestone that owns it.
pub open spec fn feature_definitions() -> Seq<(AppFeatureId, TargetMilestone)> {
    seq![
        (AppFeatureId::LexiconRead, TargetMilestone::S2),
        (AppFeatureId::PhraseRead, TargetMilestone::S2),
        (AppFeatureId::ReverseLookup, TargetMilestone::S2),
        (AppFeatureId::SystemWrite, TargetMilestone::S3),
        (AppFeatureId::LexiconEdit, TargetMilestone::S4),
        (AppFeatureId::PhraseEdit, TargetMilestone::S4),
        (AppFeatureId::RadicalReference, TargetMilestone::S5),
        (AppFeatureId::ResourceSync, TargetMilestone::S5),
        (AppFeatureId::SystemSettings, TargetMilestone::S6),
        (AppFeatureId::ResourceUpdate, TargetMilestone::S6),
        (AppFeatureId::LegacyMigration, TargetMilestone::S7),
        (AppFeatureId::SelfLearning, TargetMilestone::S8),
    ]
}

/// The record of one capability: none is included in this build.
pub open spec fn feature_record(definition: (AppFeatureId, TargetMilestone)) -> AppFeature {
    AppFeature {
        id: definition.0,
        available: false,
        target_milestone: definition.1,
        unavailable_reason: Some(FeatureUnavailableReason::NotIncludedInBuild),
    }
}

fn record(id: AppFeatureId, target_milestone: TargetMilestone) -> (feature: AppFeature)
    ensures
        feature == feature_record((id, target_milestone)),
{
    let available = false;
    AppFeature {
        id,
        available,
        target_milestone,
        unavailable_reason: if available { None } else { Some(FeatureUnavailableReason::NotIncludedInBuild) },
    }
}

/// Returns the complete, stable catalog in product order, as a build without
/// any of the optional feature sets has it: this crate has no such build
/// options, so every feature is reported as not included.
pub fn catalog() -> (catalog: AppFeatureCatalog)
    ensures
        catalog.features@ == feature_definitions().map_values(|d: (AppFeatureId, TargetMilestone)| feature_record(d)),
{
    let mut features: Vec<AppFeature> = Vec::new();
    features.push(record(AppFeatureId::LexiconRead, TargetMilestone::S2));
    features.push(record(AppFeatureId::PhraseRead, TargetMilestone::S2));
    features.push(record(AppFeatureId::ReverseLookup, TargetMilestone::S2));
    features.push(record(AppFeatureId::SystemWrite, TargetMilestone::S3));
    features.push(record(AppFeatureId::LexiconEdit, TargetMilestone::S4));
    features.push(record(AppFeatureId::PhraseEdit, TargetMilestone::S4));
    features.push(record(AppFeatureId::RadicalReference, TargetMilestone::S5));
    features.push(record(AppFeatureId::ResourceSync, TargetMilestone::S5));
    features.push(record(AppFeatureId::SystemSettings, TargetMilestone::S6));
    features.push(record(AppFeatureId::ResourceUpdate, TargetMilestone::S6));
    features.push(record(AppFeatureId::LegacyMigration, TargetMilestone::S7));
    features.push(record(AppFeatureId::SelfLearning, TargetMilestone::S8));
    assert(features@ =~= feature_definitions().map_values(|d: (AppFeatureId, TargetMilestone)| feature_record(d)));
    AppFeatureCatalog { features }
}

/// Every catalog entry is unavailable exactly when it carries the
/// not-included reason, and no entry is available in this build.
pub proof fn lemma_catalog_reasons_match_availability(i: int)
    requires
        0 <= i < feature_definitions().len(),
    ensures
        ({
            let f = feature_record(feature_definitions()[i]);
            &&& !f.available
            &&& (f.unavailable_reason == if f.available { None } else { Some(FeatureUnavailableReason::NotIncludedInBuild) })
        }),
{
}

} // verus!
