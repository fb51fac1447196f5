//! Resolver behavior: dependency closure, ordering, purpose checks, and
//! how resolution depends only on the requested set.

use kaido_core::error::KaidoError;
use kaido_core::features::compose::resolve_features;
use kaido_core::features::{feature_spec, parse_features, Feature};

#[test]
fn test_resolve_adds_dependencies() {
    let features = vec![Feature::ValuePreservation];
    let resolved = resolve_features(&features, "spend").unwrap();
    assert!(resolved.contains(&Feature::DatumContinuity));
    assert!(resolved.contains(&Feature::ValuePreservation));
}

#[test]
fn test_resolve_sorted_by_order() {
    let features = vec![Feature::ValuePreservation, Feature::SignatureAuth];
    let resolved = resolve_features(&features, "spend").unwrap();
    let sig_pos = resolved
        .iter()
        .position(|f| *f == Feature::SignatureAuth)
        .unwrap();
    let val_pos = resolved
        .iter()
        .position(|f| *f == Feature::ValuePreservation)
        .unwrap();
    assert!(sig_pos < val_pos);
}

#[test]
fn test_resolve_purpose_mismatch() {
    let features = vec![Feature::BurnVerification];
    let result = resolve_features(&features, "spend");
    assert!(result.is_err());
}

#[test]
fn test_resolve_purpose_compatible() {
    let features = vec![Feature::SignatureAuth];
    let result = resolve_features(&features, "spend");
    assert!(result.is_ok());
    let result = resolve_features(&features, "mint");
    assert!(result.is_ok());
}

#[test]
fn test_parse_feature_aliases() {
    assert_eq!("sig".parse::<Feature>(), Ok(Feature::SignatureAuth));
    assert_eq!("signature".parse::<Feature>(), Ok(Feature::SignatureAuth));
    assert_eq!(
        "signature-auth".parse::<Feature>(),
        Ok(Feature::SignatureAuth)
    );
    assert_eq!("timelock".parse::<Feature>(), Ok(Feature::TimeLock));
    assert_eq!("time-lock".parse::<Feature>(), Ok(Feature::TimeLock));
    assert_eq!(
        "datum-continuity".parse::<Feature>(),
        Ok(Feature::DatumContinuity)
    );
    assert_eq!("datum".parse::<Feature>(), Ok(Feature::DatumContinuity));
    assert_eq!("value".parse::<Feature>(), Ok(Feature::ValuePreservation));
    assert_eq!("burn".parse::<Feature>(), Ok(Feature::BurnVerification));
    assert_eq!("bounded".parse::<Feature>(), Ok(Feature::BoundedOperations));
    assert_eq!("floor".parse::<Feature>(), Ok(Feature::BoundedOperations));
    assert_eq!(
        "ref-safety".parse::<Feature>(),
        Ok(Feature::ReferenceSafety)
    );
    assert!("unknown".parse::<Feature>().is_err());
}

#[test]
fn test_parse_features_list() {
    let input = vec!["sig".to_string(), "timelock".to_string()];
    let features = parse_features(&input).unwrap();
    assert_eq!(features, vec![Feature::SignatureAuth, Feature::TimeLock]);
}

#[test]
fn test_parse_features_dedup() {
    let input = vec!["sig".to_string(), "signature".to_string()];
    let features = parse_features(&input).unwrap();
    assert_eq!(features, vec![Feature::SignatureAuth]);
}

#[test]
fn test_parse_features_unknown() {
    let input = vec!["sig".to_string(), "foobar".to_string()];
    assert!(parse_features(&input).is_err());
}

#[test]
fn test_feature_spec_dependencies() {
    let spec = feature_spec(Feature::ValuePreservation);
    assert!(spec.depends_on.contains(&Feature::DatumContinuity));
}

#[test]
fn test_feature_spec_purpose() {
    assert_eq!(feature_spec(Feature::SignatureAuth).purpose, None);
    assert_eq!(
        feature_spec(Feature::BurnVerification).purpose,
        Some("mint")
    );
    assert_eq!(
        feature_spec(Feature::DatumContinuity).purpose,
        Some("spend")
    );
}

#[test]
fn unknown_feature_message_lists_catalog() {
    let input = vec!["nope".to_string()];
    let err = parse_features(&input).unwrap_err();
    assert!(matches!(err, KaidoError::UnknownFeature(_)));
    assert_eq!(
        err.message(),
        "Unknown feature 'nope'. Available: signature-auth, timelock, datum-continuity, \
         value-preservation, reference-safety, burn-verification, bounded-operations"
    );
}

#[test]
fn closure_holds_every_dependency() {
    let resolved = resolve_features(&[Feature::BoundedOperations], "spend").unwrap();
    for f in &resolved {
        for d in f.depends_on() {
            assert!(resolved.contains(&d));
        }
    }
    assert!(resolved.contains(&Feature::DatumContinuity));
}

#[test]
fn resolution_is_idempotent() {
    let resolved = resolve_features(
        &[Feature::ValuePreservation, Feature::SignatureAuth],
        "spend",
    )
    .unwrap();
    let again = resolve_features(&resolved, "spend").unwrap();
    assert_eq!(again, resolved);
}

#[test]
fn resolution_order_is_permutation_independent() {
    let a = resolve_features(
        &[
            Feature::ValuePreservation,
            Feature::SignatureAuth,
            Feature::TimeLock,
        ],
        "spend",
    )
    .unwrap();
    let b = resolve_features(
        &[
            Feature::TimeLock,
            Feature::ValuePreservation,
            Feature::SignatureAuth,
        ],
        "spend",
    )
    .unwrap();
    let c = resolve_features(
        &[
            Feature::SignatureAuth,
            Feature::TimeLock,
            Feature::ValuePreservation,
        ],
        "spend",
    )
    .unwrap();
    assert_eq!(a, b);
    assert_eq!(a, c);
    assert_eq!(
        a,
        vec![
            Feature::SignatureAuth,
            Feature::TimeLock,
            Feature::DatumContinuity,
            Feature::ValuePreservation,
        ]
    );
}

#[test]
fn resolution_failure_is_permutation_independent() {
    let e1 = resolve_features(
        &[Feature::BurnVerification, Feature::SignatureAuth],
        "spend",
    )
    .unwrap_err();
    let e2 = resolve_features(
        &[Feature::SignatureAuth, Feature::BurnVerification],
        "spend",
    )
    .unwrap_err();
    assert!(matches!(e1, KaidoError::PurposeMismatch(_)));
    assert!(matches!(e2, KaidoError::PurposeMismatch(_)));
    assert_eq!(e1.message(), e2.message());
}

#[test]
fn value_preservation_resolves_in_rank_order() {
    let features = parse_features(&vec!["value-preservation".to_string()]).unwrap();
    let resolved = resolve_features(&features, "spend").unwrap();
    assert_eq!(
        resolved,
        vec![Feature::DatumContinuity, Feature::ValuePreservation]
    );
    let err = resolve_features(&features, "mint").unwrap_err();
    assert!(matches!(err, KaidoError::PurposeMismatch(_)));
    assert_eq!(
        err.message(),
        "Feature 'datum-continuity' requires purpose 'spend', but got 'mint'"
    );
}

#[test]
fn burn_verification_needs_mint_purpose() {
    let features = parse_features(&vec!["burn-verification".to_string()]).unwrap();
    let err = resolve_features(&features, "spend").unwrap_err();
    assert!(matches!(err, KaidoError::PurposeMismatch(_)));
    assert_eq!(
        err.message(),
        "Feature 'burn-verification' requires purpose 'mint', but got 'spend'"
    );
}

#[test]
fn feature_metadata_is_stable() {
    assert_eq!(Feature::SignatureAuth.name(), "signature-auth");
    assert_eq!(Feature::BoundedOperations.name(), "bounded-operations");
    assert_eq!(Feature::SignatureAuth.order(), 0);
    assert_eq!(Feature::TimeLock.order(), 1);
    assert_eq!(Feature::DatumContinuity.order(), 2);
    assert_eq!(Feature::ReferenceSafety.order(), 3);
    assert_eq!(Feature::ValuePreservation.order(), 4);
    assert_eq!(Feature::BoundedOperations.order(), 5);
    assert_eq!(Feature::BurnVerification.order(), 6);
    assert_eq!(Feature::all().len(), 7);
    assert_eq!(
        Feature::TimeLock.description(),
        "Enforce validity_range before/after a deadline field"
    );
    assert_eq!(Feature::SignatureAuth.purpose_restriction(), None);
    assert_eq!(Feature::TimeLock.purpose_restriction(), Some("spend"));
}

#[test]
fn aliases_fold_case_and_dashes() {
    assert_eq!("Time-Lock".parse::<Feature>(), Ok(Feature::TimeLock));
    assert_eq!("SIG".parse::<Feature>(), Ok(Feature::SignatureAuth));
    assert_eq!("Burn_Verification".parse::<Feature>(), Ok(Feature::BurnVerification));
}
