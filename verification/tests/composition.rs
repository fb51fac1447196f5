//! Composer and synthesizer output: merged imports, parameter collection,
//! fragment substitution, and the synthesized test scenarios; plus the
//! template catalog and its option builders.

use kaido_core::features::compose::{compose, merge_imports, resolve_features};
use kaido_core::features::types::{
    parse_datum_fields, parse_redeemer_actions, DatumField, RedeemerAction,
};
use kaido_core::features::Feature;
use kaido_core::templates::{GenerateOptions, Template};

#[test]
fn test_compose_basic() {
    let features = vec![Feature::SignatureAuth];
    let datum_fields = vec![DatumField {
        name: "admin".to_string(),
        aiken_type: "ByteArray".to_string(),
    }];
    let actions = vec![RedeemerAction {
        name: "Execute".to_string(),
        fields: vec![],
    }];
    let composed = compose(
        &features,
        "spend",
        &datum_fields,
        &actions,
        "test_validator",
    )
    .unwrap();

    assert!(!composed.imports.is_empty());
    assert!(composed
        .validator_params
        .iter()
        .any(|(n, _)| n == "admin_pkh"));
    assert!(!composed.action_checks.is_empty());
}

#[test]
fn test_compose_with_continuity() {
    let features = vec![
        Feature::SignatureAuth,
        Feature::DatumContinuity,
        Feature::ReferenceSafety,
    ];
    let datum_fields = vec![
        DatumField {
            name: "admin".to_string(),
            aiken_type: "ByteArray".to_string(),
        },
        DatumField {
            name: "balance".to_string(),
            aiken_type: "Int".to_string(),
        },
    ];
    let actions = vec![
        RedeemerAction {
            name: "Deposit".to_string(),
            fields: vec![],
        },
        RedeemerAction {
            name: "Withdraw".to_string(),
            fields: vec![],
        },
    ];
    let composed = compose(
        &features,
        "spend",
        &datum_fields,
        &actions,
        "test_validator",
    )
    .unwrap();

    assert!(composed.preamble.contains("own_input"));
    assert!(composed.preamble.contains("cont_output"));
    assert!(composed.preamble.contains("reference_script == None"));
}

#[test]
fn test_compose_mint() {
    let features = vec![Feature::SignatureAuth, Feature::BurnVerification];
    let datum_fields = vec![];
    let actions = vec![
        RedeemerAction {
            name: "Mint".to_string(),
            fields: vec![],
        },
        RedeemerAction {
            name: "Burn".to_string(),
            fields: vec![],
        },
    ];
    let composed = compose(&features, "mint", &datum_fields, &actions, "test_mint").unwrap();

    assert!(composed.imports.iter().any(|i| i.contains("PolicyId")));
    assert!(!composed.test_cases.is_empty());
}

#[test]
fn merged_imports_are_sorted_and_deduplicated() {
    let features = resolve_features(&[Feature::DatumContinuity], "spend").unwrap();
    let datum_fields = parse_datum_fields("owner:ByteArray").unwrap();
    let actions = parse_redeemer_actions("Claim").unwrap();
    let composed = compose(&features, "spend", &datum_fields, &actions, "v").unwrap();
    assert_eq!(
        composed.imports,
        vec![
            "use aiken/collection/list".to_string(),
            "use cardano/address.{Address, Script}".to_string(),
            "use cardano/assets".to_string(),
            "use cardano/transaction".to_string(),
            "use cardano/transaction.{InlineDatum, Input, Output, OutputReference, Transaction}"
                .to_string(),
        ]
    );
}

#[test]
fn merge_is_independent_of_collection_order() {
    let a = vec![
        "use cardano/transaction.{OutputReference, Transaction}".to_string(),
        "use aiken/collection/list".to_string(),
        "use cardano/transaction.{InlineDatum, Input, Output}".to_string(),
        "use cardano/assets".to_string(),
    ];
    let mut b = a.clone();
    b.reverse();
    b.push("use aiken/collection/list".to_string());
    let ma = merge_imports(&a);
    let mb = merge_imports(&b);
    assert_eq!(ma, mb);
    assert_eq!(
        ma,
        vec![
            "use aiken/collection/list".to_string(),
            "use cardano/assets".to_string(),
            "use cardano/transaction.{InlineDatum, Input, Output, OutputReference, Transaction}"
                .to_string(),
        ]
    );
}

#[test]
fn timelock_fragment_takes_the_deadline_field() {
    let features = resolve_features(
        &[Feature::SignatureAuth, Feature::TimeLock],
        "spend",
    )
    .unwrap();
    let datum_fields = parse_datum_fields("owner:ByteArray,deadline:Int").unwrap();
    let actions = parse_redeemer_actions("Claim").unwrap();
    let composed = compose(&features, "spend", &datum_fields, &actions, "vault").unwrap();

    assert_eq!(composed.action_checks.len(), 2);
    assert!(composed.action_checks[0].contains("list.has(self.extra_signatories, admin_pkh)"));
    assert!(composed.action_checks[1]
        .contains("interval.is_entirely_after(self.validity_range, datum.deadline)"));

    let negative = composed
        .test_cases
        .iter()
        .find(|c| c.contains("before_deadline_fails"))
        .unwrap();
    assert!(negative.contains("validity_range: interval.before(test_deadline - 1),"));
    assert!(negative.contains("extra_signatories: [test_admin],"));
    assert!(negative.contains("fail"));
}

#[test]
fn timelock_fragment_prefers_priority_names_then_first_int() {
    let features = vec![Feature::TimeLock];
    let actions = parse_redeemer_actions("Claim").unwrap();

    let fields = parse_datum_fields("owner:ByteArray,lock_until:Int").unwrap();
    let composed = compose(&features, "spend", &fields, &actions, "v").unwrap();
    assert!(composed.action_checks[0].contains("datum.lock_until"));

    let fields = parse_datum_fields("owner:ByteArray,amount:Int").unwrap();
    let composed = compose(&features, "spend", &fields, &actions, "v").unwrap();
    assert!(composed.action_checks[0].contains("datum.amount"));
}

#[test]
fn composing_twice_is_byte_identical() {
    let features = resolve_features(
        &[Feature::ValuePreservation, Feature::SignatureAuth],
        "spend",
    )
    .unwrap();
    let datum_fields = parse_datum_fields("owner:ByteArray,balance:Int").unwrap();
    let actions = parse_redeemer_actions("Deposit,Withdraw(amount:Int)").unwrap();
    let one = compose(&features, "spend", &datum_fields, &actions, "pool").unwrap();
    let two = compose(&features, "spend", &datum_fields, &actions, "pool").unwrap();
    assert_eq!(one.imports, two.imports);
    assert_eq!(one.validator_params, two.validator_params);
    assert_eq!(one.preamble, two.preamble);
    assert_eq!(one.action_checks, two.action_checks);
    assert_eq!(one.test_helpers, two.test_helpers);
    assert_eq!(one.test_cases, two.test_cases);
}

#[test]
fn synthesized_spend_scenarios_cover_each_guard() {
    let features = resolve_features(
        &[
            Feature::SignatureAuth,
            Feature::TimeLock,
            Feature::ReferenceSafety,
        ],
        "spend",
    )
    .unwrap();
    let datum_fields = parse_datum_fields("owner:ByteArray,deadline:Int").unwrap();
    let actions = parse_redeemer_actions("Claim").unwrap();
    let composed = compose(&features, "spend", &datum_fields, &actions, "vault").unwrap();

    assert_eq!(composed.test_cases.len(), 5);
    assert!(composed.test_cases[0].starts_with("test claim_valid() {"));
    assert!(composed.test_cases[1].starts_with("test claim_wrong_signer_fails() fail {"));
    assert!(composed.test_cases[2].starts_with("test claim_before_deadline_fails() fail {"));
    assert!(composed.test_cases[3].starts_with("test no_datum_fails() fail {"));
    assert!(composed.test_cases[4]
        .starts_with("test reference_script_injection_fails() fail {"));
    for case in &composed.test_cases {
        assert!(case.contains("vault.spend("));
        assert!(case.contains("admin_pkh") || case.contains("test_admin"));
    }

    assert!(composed.test_helpers.contains("const test_admin: ByteArray = #\"aabbccdd\""));
    assert!(composed.test_helpers.contains("const test_deadline: Int = 1_000_000"));
    assert!(composed.test_helpers.contains("deadline: test_deadline,"));
    assert!(composed.test_helpers.contains("owner: test_admin,"));
}

#[test]
fn synthesized_mint_scenarios_cover_burn() {
    let features = resolve_features(
        &[Feature::SignatureAuth, Feature::BurnVerification],
        "mint",
    )
    .unwrap();
    let actions = parse_redeemer_actions("Mint,Burn").unwrap();
    let composed = compose(&features, "mint", &[], &actions, "policy").unwrap();

    assert_eq!(composed.test_cases.len(), 4);
    assert!(composed.test_cases[0].starts_with("test mint_valid() {"));
    assert!(composed.test_cases[1].starts_with("test mint_no_signature_fails() fail {"));
    assert!(composed.test_cases[2].starts_with("test burn_valid() {"));
    assert!(composed.test_cases[2].contains("\"token\", -1"));
    assert!(composed.test_cases[3].starts_with("test burn_positive_fails() fail {"));
    assert!(composed.test_helpers.contains("const test_policy: ByteArray = #\"eeff0011\""));
}

#[test]
fn parameters_collect_first_seen_without_duplicates() {
    let features = resolve_features(
        &[Feature::SignatureAuth, Feature::BoundedOperations],
        "spend",
    )
    .unwrap();
    let datum_fields = parse_datum_fields("owner:ByteArray").unwrap();
    let actions = parse_redeemer_actions("Claim").unwrap();
    let composed = compose(&features, "spend", &datum_fields, &actions, "v").unwrap();
    assert_eq!(
        composed.validator_params,
        vec![
            ("admin_pkh".to_string(), "ByteArray".to_string()),
            ("min_lovelace".to_string(), "Int".to_string()),
        ]
    );
    let case = &composed.test_cases[0];
    assert!(case.contains("test_admin, 2_000_000, Some(test_datum())"));
}

#[test]
fn validate_namespace_and_project_rejects_path_traversal() {
    let err =
        GenerateOptions::validate_namespace_and_project("../x", "safe").expect_err("must fail");
    assert!(err.contains("invalid path characters"));
}

#[test]
fn validate_namespace_and_project_accepts_safe_values() {
    assert!(GenerateOptions::validate_namespace_and_project("my_org", "my-project").is_ok());
}

#[test]
fn validate_namespace_and_project_rejects_odd_characters() {
    let err = GenerateOptions::validate_namespace_and_project("my org", "safe")
        .expect_err("must fail");
    assert!(err.contains("invalid characters"));
    let err = GenerateOptions::validate_namespace_and_project("ok", "").expect_err("must fail");
    assert_eq!(err, "project_name cannot be empty");
}

#[test]
fn template_catalog_and_aliases() {
    assert_eq!(Template::all().len(), 13);
    assert_eq!(Template::SimpleMint.slug(), "simple_mint");
    assert_eq!(Template::StreamingPayments.slug(), "streaming_payments");
    assert!(Template::Escrow.supports_sdk());
    assert!(!Template::DexPool.supports_sdk());
    assert_eq!("mint".parse::<Template>(), Ok(Template::SimpleMint));
    assert_eq!("multisig-treasury".parse::<Template>(), Ok(Template::MultisigTreasury));
    assert_eq!("Staking".parse::<Template>(), Ok(Template::StakingPool));
    assert!("nope".parse::<Template>().is_err());
}

#[test]
fn template_builders_derive_names() {
    let opts = GenerateOptions::simple_mint("org", "My-Token", "MyTok", "mytok", true);
    assert_eq!(opts.template, Template::SimpleMint);
    assert_eq!(opts.module_name, "my_token");
    assert_eq!(opts.validator_name, "my_token_mint");
    assert_eq!(opts.description, "MyTok minting policy");
    assert_eq!(opts.purpose, "mint");
    assert!(opts.time_lock);
    assert_eq!(opts.token_name.as_deref(), Some("MyTok"));

    let opts = GenerateOptions::vesting("org", "vest", true, false);
    assert_eq!(opts.validator_name, "vest_vesting");
    assert!(opts.cancellable);
    assert!(!opts.partial_claim);
    assert_eq!(opts.purpose, "spend");

    let opts = GenerateOptions::custom(
        "org",
        "my-vault",
        "spend",
        parse_datum_fields("owner:ByteArray").unwrap(),
        parse_redeemer_actions("Claim").unwrap(),
        vec!["sig".to_string()],
    );
    assert_eq!(opts.template, Template::Custom);
    assert_eq!(opts.validator_name, "my_vault_validator");
    assert_eq!(opts.description, "my-vault custom spend validator");

    let opts = GenerateOptions::custom("org", "pol", "mint", vec![], vec![], vec![]);
    assert_eq!(opts.validator_name, "pol_mint");

    let opts = GenerateOptions::dex_pool("org", "swap");
    assert_eq!(opts.template, Template::DexPool);
    assert_eq!(opts.validator_name, "swap_pool");
    assert_eq!(opts.description, "swap DEX pool");
}
