use wubilex::features::{catalog, AppFeatureId, FeatureUnavailableReason, TargetMilestone};

#[test]
fn catalog_is_complete_stable_and_cfg_projected() {
    let catalog = catalog();
    assert_eq!(
        catalog.features.iter().map(|feature| (feature.id, feature.target_milestone)).collect::<Vec<_>>(),
        vec![
            (AppFeatureId::LexiconRead, TargetMilestone::S2),
            (AppFeatureId::PhraseRead, TargetMilestone::S2),
            (AppFeatureId::ReverseLookup, TargetMilestone::S2),
            (AppFeatureId::SystemWrite, TargetMilestone::S3),
            (AppFeatureId::LexiconEdit, TargetMilestone::S4),
            (AppFeatureId::PhraseEdit, TargetMilestone::S4),
            (AppFeatureId::RadicalReference, TargetMilestone::S5),
            (AppFeatureId::ResourceSync, TargetMilestone::S5),
            (AppFeatureId::SystemSettings, TargetMilestone::S6),
            (AppFeatureId::ResourceUpdate, TargetMilestone::S6),
            (AppFeatureId::LegacyMigration, TargetMilestone::S7),
            (AppFeatureId::SelfLearning, TargetMilestone::S8),
        ]
    );
    for feature in catalog.features {
        assert_eq!(
            feature.unavailable_reason,
            (!feature.available).then_some(FeatureUnavailableReason::NotIncludedInBuild)
        );
    }
}

#[test]
fn default_build_leaves_every_future_capability_unavailable() {
    assert!(catalog().features.iter().all(|feature| !feature.available));
}
