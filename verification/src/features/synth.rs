//! Test scenario synthesis.
//!
//! From the resolved feature set and the schema, [`build_tests`] derives
//! deterministic constant declarations and helper builders, one positive
//! scenario that satisfies every active feature's precondition, and one
//! negative scenario per active guarding feature that violates exactly that
//! feature's precondition. Every scenario calls the validator with the
//! shared parameter placeholder values, so call arity always matches the
//! composed parameter list.

use vstd::prelude::*;

use crate::features::types::{df_views, DatumField, RedeemerAction};
use crate::features::{param_views, Feature};
use crate::text::{
    contains_sub, fold_lower, join_strs, spec_contains, spec_fold_lower, spec_join, str_eq,
    views,
};

verus! {

/// The deadline-name priority list, most preferred first.
pub open spec fn spec_priority_names() -> Seq<Seq<char>> {
    seq!["deadline"@, "lock_until"@, "expiry"@, "expires_at"@, "lock_time"@]
}

/// The first priority name that some declared field bears.
pub open spec fn spec_first_name_match(
    names: Seq<Seq<char>>,
    fields: Seq<(Seq<char>, Seq<char>)>,
) -> Option<Seq<char>>
    decreases names.len(),
{
    if names.len() == 0 {
        None
    } else if exists|i: int| 0 <= i < fields.len() && (#[trigger] fields[i]).0 == names[0] {
        Some(names[0])
    } else {
        spec_first_name_match(names.drop_first(), fields)
    }
}

/// The name of the first field of type `Int`.
pub open spec fn spec_first_int_field(fields: Seq<(Seq<char>, Seq<char>)>) -> Option<Seq<char>>
    decreases fields.len(),
{
    if fields.len() == 0 {
        None
    } else if fields[0].1 == "Int"@ {
        Some(fields[0].0)
    } else {
        spec_first_int_field(fields.drop_first())
    }
}

/// The concrete deadline field: the most preferred priority name that the
/// schema declares, else the first `Int` field, else nothing.
pub open spec fn spec_find_deadline(fields: Seq<(Seq<char>, Seq<char>)>) -> Option<Seq<char>> {
    match spec_first_name_match(spec_priority_names(), fields) {
        Some(n) => Some(n),
        None => spec_first_int_field(fields),
    }
}

/// The deterministic placeholder for a datum field, from its type and name
/// heuristics: credential-like names get the admin constant, the resolved
/// deadline field gets the deadline constant, amount-like `Int` fields get a
/// large magnitude, `Bool` fields are true, list fields are empty.
pub open spec fn spec_test_value(
    ty: Seq<char>,
    name: Seq<char>,
    has_timelock: bool,
    deadline: Option<Seq<char>>,
) -> Seq<char> {
    if ty == "ByteArray"@ {
        if spec_contains(name, "admin"@) || spec_contains(name, "owner"@) || spec_contains(
            name,
            "signer"@,
        ) {
            "test_admin"@
        } else {
            "#\"aabbccdd\""@
        }
    } else if ty == "Int"@ {
        if has_timelock && deadline == Some(name) {
            "test_deadline"@
        } else if spec_contains(name, "amount"@) || spec_contains(name, "balance"@)
            || spec_contains(name, "total"@) {
            "10_000_000"@
        } else {
            "0"@
        }
    } else if ty == "Bool"@ {
        "True"@
    } else if ty.len() >= 5 && ty.take(5) == "List<"@ {
        "[]"@
    } else {
        "todo"@
    }
}

/// The placeholder argument for a validator parameter.
pub open spec fn spec_param_arg(name: Seq<char>, ty: Seq<char>) -> Seq<char> {
    if ty == "ByteArray"@ {
        if name == "admin_pkh"@ {
            "test_admin"@
        } else {
            "#\"00\""@
        }
    } else if ty == "Int"@ {
        if name == "min_lovelace"@ {
            "2_000_000"@
        } else {
            "100"@
        }
    } else {
        "todo"@
    }
}

/// The comma-joined placeholder arguments for the parameter list.
pub open spec fn spec_params_str(params: Seq<(Seq<char>, Seq<char>)>) -> Seq<char> {
    spec_join(params.map_values(|p: (Seq<char>, Seq<char>)| spec_param_arg(p.0, p.1)), ", "@)
}

/// The default literal for a redeemer field of the given type.
pub open spec fn spec_field_default(ty: Seq<char>) -> Seq<char> {
    if ty == "Int"@ {
        "5_000_000"@
    } else if ty == "ByteArray"@ {
        "#\"aabb\""@
    } else if ty == "Bool"@ {
        "True"@
    } else {
        "todo"@
    }
}

/// The constructor expression for a redeemer action: its bare name, or the
/// name with each field set to its default.
pub open spec fn spec_action_expr(a: (Seq<char>, Seq<(Seq<char>, Seq<char>)>)) -> Seq<char> {
    if a.1.len() == 0 {
        a.0
    } else {
        a.0 + " { "@ + spec_join(
            a.1.map_values(
                |p: (Seq<char>, Seq<char>)| p.0 + ": "@ + spec_field_default(p.1),
            ),
            ", "@,
        ) + " }"@
    }
}

/// One datum-builder line per declared field.
pub open spec fn spec_datum_lines(
    fields: Seq<(Seq<char>, Seq<char>)>,
    has_timelock: bool,
    deadline: Option<Seq<char>>,
) -> Seq<char>
    decreases fields.len(),
{
    if fields.len() == 0 {
        Seq::<char>::empty()
    } else {
        spec_datum_lines(fields.drop_last(), has_timelock, deadline) + "    "@
            + fields.last().0 + ": "@ + spec_test_value(
            fields.last().1,
            fields.last().0,
            has_timelock,
            deadline,
        ) + ",\n"@
    }
}

/// The synthesized helper block: constants for the active features, then,
/// for the spend purpose, the datum, output-reference and continuing-output
/// builders.
pub open spec fn spec_build_helpers(
    features: Seq<Feature>,
    purpose: Seq<char>,
    fields: Seq<(Seq<char>, Seq<char>)>,
) -> Seq<char> {
    let has_sig = features.contains(Feature::SignatureAuth);
    let has_timelock = features.contains(Feature::TimeLock);
    let has_continuity = features.contains(Feature::DatumContinuity);
    let deadline = spec_find_deadline(fields);
    (if has_sig {
        "const test_admin: ByteArray = #\"aabbccdd\"\n"@
    } else {
        Seq::<char>::empty()
    }) + (if purpose == "mint"@ {
        "const test_policy: ByteArray = #\"eeff0011\"\n"@
    } else {
        Seq::<char>::empty()
    }) + (if has_timelock {
        "const test_deadline: Int = 1_000_000\n"@
    } else {
        Seq::<char>::empty()
    }) + "\n"@ + (if purpose == "spend"@ {
        "fn test_datum() -> CustomDatum {\n  CustomDatum {\n"@ + spec_datum_lines(
            fields,
            has_timelock,
            deadline,
        ) + "  }\n}\n\n"@
            + "fn test_oref() -> OutputReference {\n  OutputReference {\n    transaction_id: #\"0000000000000000000000000000000000000000000000000000000000000001\",\n    output_index: 0,\n  }\n}\n"@
            + (if has_continuity {
            "\nfn script_addr() -> Address {\n  Address { payment_credential: Script(#\"ee\"), stake_credential: None }\n}\n"@
                + "\nfn script_input() -> Input {\n  Input {\n    output_reference: test_oref(),\n    output: Output {\n      address: script_addr(),\n      value: assets.from_lovelace(10_000_000),\n      datum: InlineDatum(test_datum()),\n      reference_script: None,\n    },\n  }\n}\n"@
                + "\nfn cont_output_ok() -> Output {\n  Output {\n    address: script_addr(),\n    value: assets.from_lovelace(10_000_000),\n    datum: InlineDatum(test_datum()),\n    reference_script: None,\n  }\n}\n"@
        } else {
            Seq::<char>::empty()
        })
    } else {
        Seq::<char>::empty()
    })
}

/// One synthesized test case: the title, an optional `fail` marker, the
/// transaction overrides, and the validator call.
pub open spec fn spec_case(
    title: Seq<char>,
    fail: bool,
    tx_body: Seq<char>,
    vname: Seq<char>,
    method: Seq<char>,
    call: Seq<char>,
) -> Seq<char> {
    "test "@ + title + (if fail {
        "() fail {"@
    } else {
        "() {"@
    }) + "\n  let tx =\n    Transaction {\n      ..transaction.placeholder,\n"@ + tx_body
        + "\n    }\n  "@ + vname + "."@ + method + "("@ + call + ")\n}"@
}

/// The transaction override line requiring the admin signature.
pub open spec fn line_sig() -> Seq<char> {
    "      extra_signatories: [test_admin],"@
}

/// The override lines for a spend transaction that satisfies every active
/// feature: admin signature, validity window after the deadline, and the
/// continuing input and output.
pub open spec fn spec_pos_tx_lines(has_sig: bool, has_timelock: bool, has_continuity: bool) -> Seq<
    Seq<char>,
> {
    (if has_sig {
        seq![line_sig()]
    } else {
        Seq::<Seq<char>>::empty()
    }) + (if has_timelock {
        seq!["      validity_range: interval.after(test_deadline + 1),"@]
    } else {
        Seq::<Seq<char>>::empty()
    }) + (if has_continuity {
        seq!["      inputs: [script_input()],"@, "      outputs: [cont_output_ok()],"@]
    } else {
        Seq::<Seq<char>>::empty()
    })
}

/// The override lines with a wrong signer and all else satisfied.
pub open spec fn spec_badsig_tx_lines(has_timelock: bool, has_continuity: bool) -> Seq<
    Seq<char>,
> {
    seq!["      extra_signatories: [#\"deadbeef\"],"@] + (if has_timelock {
        seq!["      validity_range: interval.after(test_deadline + 1),"@]
    } else {
        Seq::<Seq<char>>::empty()
    }) + (if has_continuity {
        seq!["      inputs: [script_input()],"@, "      outputs: [cont_output_ok()],"@]
    } else {
        Seq::<Seq<char>>::empty()
    })
}

/// The override lines with the validity window before the deadline and all
/// else satisfied.
pub open spec fn spec_early_tx_lines(has_sig: bool, has_continuity: bool) -> Seq<Seq<char>> {
    (if has_sig {
        seq![line_sig()]
    } else {
        Seq::<Seq<char>>::empty()
    }) + seq!["      validity_range: interval.before(test_deadline - 1),"@] + (if has_continuity {
        seq!["      inputs: [script_input()],"@, "      outputs: [cont_output_ok()],"@]
    } else {
        Seq::<Seq<char>>::empty()
    })
}

/// The override lines with a reference script injected into the continuing
/// output and all else satisfied.
pub open spec fn spec_refinj_tx_lines(has_sig: bool, has_timelock: bool) -> Seq<Seq<char>> {
    (if has_sig {
        seq![line_sig()]
    } else {
        Seq::<Seq<char>>::empty()
    }) + (if has_timelock {
        seq!["      validity_range: interval.after(test_deadline + 1),"@]
    } else {
        Seq::<Seq<char>>::empty()
    }) + seq![
        "      inputs: [script_input()],"@,
        "      outputs: [\n        Output {\n          address: script_addr(),\n          value: assets.from_lovelace(10_000_000),\n          datum: InlineDatum(test_datum()),\n          reference_script: Some(#\"deadbeef\"),\n        },\n      ],"@,
    ]
}

/// The spend-validator call: the parameter placeholders, the datum
/// argument, the action expression, the own reference and the transaction.
pub open spec fn spec_spend_call(
    params_str: Seq<char>,
    datum_arg: Seq<char>,
    expr: Seq<char>,
) -> Seq<char> {
    if params_str.len() == 0 {
        datum_arg + ", "@ + expr + ", test_oref(), tx"@
    } else {
        params_str + ", "@ + datum_arg + ", "@ + expr + ", test_oref(), tx"@
    }
}

/// The mint-validator call: the parameter placeholders, the action
/// expression, the policy constant and the transaction.
pub open spec fn spec_mint_call(params_str: Seq<char>, expr: Seq<char>) -> Seq<char> {
    if params_str.len() == 0 {
        expr + ", test_policy, tx"@
    } else {
        params_str + ", "@ + expr + ", test_policy, tx"@
    }
}

/// The first action whose lowercased name is `burn`, if any.
pub open spec fn spec_first_burn_action(
    actions: Seq<(Seq<char>, Seq<(Seq<char>, Seq<char>)>)>,
) -> Option<(Seq<char>, Seq<(Seq<char>, Seq<char>)>)>
    decreases actions.len(),
{
    if actions.len() == 0 {
        None
    } else if spec_fold_lower(actions[0].0) == "burn"@ {
        Some(actions[0])
    } else {
        spec_first_burn_action(actions.drop_first())
    }
}

/// The synthesized spend cases: a positive scenario on the first action,
/// then one negative scenario per active guarding feature — wrong signer,
/// window before the deadline, absent datum, injected reference script.
pub open spec fn spec_spend_cases(
    features: Seq<Feature>,
    fields: Seq<(Seq<char>, Seq<char>)>,
    actions: Seq<(Seq<char>, Seq<(Seq<char>, Seq<char>)>)>,
    params: Seq<(Seq<char>, Seq<char>)>,
    vname: Seq<char>,
) -> Seq<Seq<char>> {
    if actions.len() == 0 {
        Seq::<Seq<char>>::empty()
    } else {
        let has_sig = features.contains(Feature::SignatureAuth);
        let has_timelock = features.contains(Feature::TimeLock);
        let has_continuity = features.contains(Feature::DatumContinuity);
        let has_ref = features.contains(Feature::ReferenceSafety);
        let a = actions[0];
        let low = spec_fold_lower(a.0);
        let expr = spec_action_expr(a);
        let ps = spec_params_str(params);
        let call = spec_spend_call(ps, "Some(test_datum())"@, expr);
        let call_nd = spec_spend_call(ps, "None"@, expr);
        let pos_body = spec_join(
            spec_pos_tx_lines(has_sig, has_timelock, has_continuity),
            "\n"@,
        );
        seq![spec_case(low + "_valid"@, false, pos_body, vname, "spend"@, call)] + (if has_sig {
            seq![
                spec_case(
                    low + "_wrong_signer_fails"@,
                    true,
                    spec_join(spec_badsig_tx_lines(has_timelock, has_continuity), "\n"@),
                    vname,
                    "spend"@,
                    call,
                ),
            ]
        } else {
            Seq::<Seq<char>>::empty()
        }) + (if has_timelock {
            seq![
                spec_case(
                    low + "_before_deadline_fails"@,
                    true,
                    spec_join(spec_early_tx_lines(has_sig, has_continuity), "\n"@),
                    vname,
                    "spend"@,
                    call,
                ),
            ]
        } else {
            Seq::<Seq<char>>::empty()
        }) + seq![spec_case("no_datum_fails"@, true, pos_body, vname, "spend"@, call_nd)] + (
        if has_ref {
            seq![
                spec_case(
                    "reference_script_injection_fails"@,
                    true,
                    spec_join(spec_refinj_tx_lines(has_sig, has_timelock), "\n"@),
                    vname,
                    "spend"@,
                    call,
                ),
            ]
        } else {
            Seq::<Seq<char>>::empty()
        })
    }
}

/// The synthesized mint cases: a positive mint on the first action, a
/// missing-signature negative if signature auth is active, and a valid-burn
/// and positive-burn pair if burn verification is active and a burn action
/// exists.
pub open spec fn spec_mint_cases(
    features: Seq<Feature>,
    actions: Seq<(Seq<char>, Seq<(Seq<char>, Seq<char>)>)>,
    params: Seq<(Seq<char>, Seq<char>)>,
    vname: Seq<char>,
) -> Seq<Seq<char>> {
    let has_sig = features.contains(Feature::SignatureAuth);
    let has_burn = features.contains(Feature::BurnVerification);
    let ps = spec_params_str(params);
    let mint_line = "      mint: assets.from_asset(test_policy, \"token\", 1),"@;
    (if actions.len() > 0 {
        let expr = spec_action_expr(actions[0]);
        let call = spec_mint_call(ps, expr);
        let pos_body = spec_join(
            (if has_sig {
                seq![line_sig()]
            } else {
                Seq::<Seq<char>>::empty()
            }) + seq![mint_line],
            "\n"@,
        );
        seq![spec_case("mint_valid"@, false, pos_body, vname, "mint"@, call)] + (if has_sig {
            seq![
                spec_case(
                    "mint_no_signature_fails"@,
                    true,
                    spec_join(seq!["      extra_signatories: [],"@, mint_line], "\n"@),
                    vname,
                    "mint"@,
                    call,
                ),
            ]
        } else {
            Seq::<Seq<char>>::empty()
        })
    } else {
        Seq::<Seq<char>>::empty()
    }) + (if has_burn && spec_first_burn_action(actions) is Some {
        let ab = spec_first_burn_action(actions).unwrap();
        let bcall = spec_mint_call(ps, spec_action_expr(ab));
        seq![
            spec_case(
                "burn_valid"@,
                false,
                "      mint: assets.from_asset(test_policy, \"token\", -1),"@,
                vname,
                "mint"@,
                bcall,
            ),
            spec_case("burn_positive_fails"@, true, mint_line, vname, "mint"@, bcall),
        ]
    } else {
        Seq::<Seq<char>>::empty()
    })
}

/// The synthesized cases for either purpose.
pub open spec fn spec_build_cases(
    features: Seq<Feature>,
    purpose: Seq<char>,
    fields: Seq<(Seq<char>, Seq<char>)>,
    actions: Seq<(Seq<char>, Seq<(Seq<char>, Seq<char>)>)>,
    params: Seq<(Seq<char>, Seq<char>)>,
    vname: Seq<char>,
) -> Seq<Seq<char>> {
    if purpose == "spend"@ {
        spec_spend_cases(features, fields, actions, params, vname)
    } else {
        spec_mint_cases(features, actions, params, vname)
    }
}

/// Characterization of [`spec_first_name_match`] when names up to `k` miss.
proof fn lemma_first_name_match_at(
    names: Seq<Seq<char>>,
    fields: Seq<(Seq<char>, Seq<char>)>,
    k: int,
)
    requires
        0 <= k < names.len(),
        exists|i: int| 0 <= i < fields.len() && (#[trigger] fields[i]).0 == names[k],
        forall|e: int, i: int|
            #![trigger fields[i], names[e]]
            0 <= e < k && 0 <= i < fields.len() ==> fields[i].0 != names[e],
    ensures
        spec_first_name_match(names, fields) == Some(names[k]),
    decreases k,
{
    if k > 0 {
        lemma_first_name_match_at(names.drop_first(), fields, k - 1);
    }
}

/// Characterization of [`spec_first_name_match`] when every name misses.
proof fn lemma_first_name_match_none(names: Seq<Seq<char>>, fields: Seq<(Seq<char>, Seq<char>)>)
    requires
        forall|e: int, i: int|
            #![trigger fields[i], names[e]]
            0 <= e < names.len() && 0 <= i < fields.len() ==> fields[i].0 != names[e],
    ensures
        spec_first_name_match(names, fields) == None::<Seq<char>>,
    decreases names.len(),
{
    if names.len() > 0 {
        lemma_first_name_match_none(names.drop_first(), fields);
    }
}

/// Characterization of [`spec_first_int_field`] when the first hit is `i`.
proof fn lemma_first_int_field_at(fields: Seq<(Seq<char>, Seq<char>)>, i: int)
    requires
        0 <= i < fields.len(),
        fields[i].1 == "Int"@,
        forall|j: int| 0 <= j < i ==> (#[trigger] fields[j]).1 != "Int"@,
    ensures
        spec_first_int_field(fields) == Some(fields[i].0),
    decreases i,
{
    if i > 0 {
        lemma_first_int_field_at(fields.drop_first(), i - 1);
    }
}

/// Characterization of [`spec_first_int_field`] when nothing hits.
proof fn lemma_first_int_field_none(fields: Seq<(Seq<char>, Seq<char>)>)
    requires
        forall|j: int| 0 <= j < fields.len() ==> (#[trigger] fields[j]).1 != "Int"@,
    ensures
        spec_first_int_field(fields) == None::<Seq<char>>,
    decreases fields.len(),
{
    if fields.len() > 0 {
        lemma_first_int_field_none(fields.drop_first());
    }
}

/// Finds the concrete deadline field: the most preferred of the priority
/// names that the schema declares, else the first `Int` field.
#[verifier::loop_isolation(false)]
pub fn find_deadline_field(fields: &[DatumField]) -> (r: Option<String>)
    ensures
        match r {
            Some(d) => spec_find_deadline(df_views(fields@)) == Some(d@),
            None => spec_find_deadline(df_views(fields@)) is None,
        },
{
    let names: Vec<&str> = vec!["deadline", "lock_until", "expiry", "expires_at", "lock_time"];
    proof {
        assert(names@.map_values(|s: &str| s@) =~~= spec_priority_names());
    }
    let ghost dv = df_views(fields@);
    let mut k: usize = 0;
    while k < names.len()
        invariant
            0 <= k <= names@.len(),
            forall|e: int, i: int|
                #![trigger dv[i], names@[e]]
                0 <= e < k && 0 <= i < dv.len() ==> dv[i].0 != names@[e]@,
        decreases names@.len() - k,
    {
        let mut i: usize = 0;
        while i < fields.len()
            invariant
                k < names@.len(),
                0 <= i <= fields@.len(),
                forall|j: int| 0 <= j < i ==> (#[trigger] dv[j]).0 != names@[k as int]@,
            decreases fields@.len() - i,
        {
            if str_eq(fields[i].name.as_str(), names[k]) {
                proof {
                    assert(dv[i as int].0 == names@[k as int]@);
                    lemma_first_name_match_at(spec_priority_names(), dv, k as int);
                }
                return Some(names[k].to_owned());
            }
            i = i + 1;
        }
        k = k + 1;
    }
    proof {
        lemma_first_name_match_none(spec_priority_names(), dv);
    }
    let mut i: usize = 0;
    while i < fields.len()
        invariant
            0 <= i <= fields@.len(),
            forall|j: int| 0 <= j < i ==> (#[trigger] dv[j]).1 != "Int"@,
        decreases fields@.len() - i,
    {
        if str_eq(fields[i].aiken_type.as_str(), "Int") {
            proof {
                lemma_first_int_field_at(dv, i as int);
            }
            return Some(fields[i].name.clone());
        }
        i = i + 1;
    }
    proof {
        lemma_first_int_field_none(dv);
    }
    None
}

/// The deterministic placeholder value for a datum field.
pub fn test_value_for_type(
    aiken_type: &str,
    name: &str,
    has_timelock: bool,
    deadline_field: &Option<String>,
) -> (r: String)
    ensures
        r@ == spec_test_value(
            aiken_type@,
            name@,
            has_timelock,
            match deadline_field {
                Some(d) => Some(d@),
                None => None,
            },
        ),
{
    if str_eq(aiken_type, "ByteArray") {
        if contains_sub(name, "admin") || contains_sub(name, "owner") || contains_sub(
            name,
            "signer",
        ) {
            String::from_str("test_admin")
        } else {
            String::from_str("#\"aabbccdd\"")
        }
    } else if str_eq(aiken_type, "Int") {
        let is_deadline = has_timelock && match deadline_field {
            Some(d) => str_eq(d.as_str(), name),
            None => false,
        };
        if is_deadline {
            String::from_str("test_deadline")
        } else if contains_sub(name, "amount") || contains_sub(name, "balance") || contains_sub(
            name,
            "total",
        ) {
            String::from_str("10_000_000")
        } else {
            String::from_str("0")
        }
    } else if str_eq(aiken_type, "Bool") {
        String::from_str("True")
    } else if aiken_type.unicode_len() >= 5 && str_eq(aiken_type.substring_char(0, 5), "List<") {
        proof {
            assert(aiken_type@.subrange(0, 5) == aiken_type@.take(5));
        }
        String::from_str("[]")
    } else {
        proof {
            if aiken_type@.len() >= 5 {
                assert(aiken_type@.subrange(0, 5) == aiken_type@.take(5));
            }
        }
        String::from_str("todo")
    }
}

/// The default literal for a redeemer field of the given type.
pub fn field_default(ty: &str) -> (r: String)
    ensures
        r@ == spec_field_default(ty@),
{
    if str_eq(ty, "Int") {
        String::from_str("5_000_000")
    } else if str_eq(ty, "ByteArray") {
        String::from_str("#\"aabb\"")
    } else if str_eq(ty, "Bool") {
        String::from_str("True")
    } else {
        String::from_str("todo")
    }
}

/// The constructor expression for a redeemer action.
pub fn redeemer_action_expr(action: &RedeemerAction) -> (r: String)
    ensures
        r@ == spec_action_expr(crate::features::types::ra_view(*action)),
{
    if action.fields.len() == 0 {
        proof {
            assert(action.fields@.map_values(|p: (String, String)| (p.0@, p.1@)) =~= Seq::<
                (Seq<char>, Seq<char>),
            >::empty());
        }
        action.name.clone()
    } else {
        let ghost fv = action.fields@.map_values(|p: (String, String)| (p.0@, p.1@));
        let ghost mapped = fv.map_values(
            |p: (Seq<char>, Seq<char>)| p.0 + ": "@ + spec_field_default(p.1),
        );
        let mut exprs: Vec<String> = Vec::new();
        let n = action.fields.len();
        let mut i: usize = 0;
        proof {
            assert(views(exprs@) =~= mapped.take(0));
        }
        while i < n
            invariant
                n == action.fields@.len(),
                0 <= i <= n,
                fv == action.fields@.map_values(|p: (String, String)| (p.0@, p.1@)),
                mapped == fv.map_values(
                    (|p: (Seq<char>, Seq<char>)| p.0 + ": "@ + spec_field_default(p.1)),
                ),
                views(exprs@) =~= mapped.take(i as int),
            decreases n - i,
        {
            let mut e = action.fields[i].0.clone();
            e.append(": ");
            let d = field_default(action.fields[i].1.as_str());
            e.append(d.as_str());
            proof {
                assert(e@ == mapped[i as int]);
                assert(views(exprs@.push(e)) =~= views(exprs@).push(e@));
                assert(mapped.take(i + 1) =~= mapped.take(i as int).push(mapped[i as int]));
            }
            exprs.push(e);
            i = i + 1;
        }
        proof {
            assert(mapped.take(n as int) =~= mapped);
        }
        let joined = join_strs(&exprs, ", ");
        let mut r = action.name.clone();
        r.append(" { ");
        r.append(joined.as_str());
        r.append(" }");
        r
    }
}

/// The comma-joined placeholder arguments for the parameter list.
pub fn params_str_of(params: &[(String, String)]) -> (r: String)
    ensures
        r@ == spec_params_str(param_views(params@)),
{
    let ghost pv = param_views(params@);
    let ghost mapped = pv.map_values(|p: (Seq<char>, Seq<char>)| spec_param_arg(p.0, p.1));
    let mut args: Vec<String> = Vec::new();
    let n = params.len();
    let mut i: usize = 0;
    proof {
        assert(views(args@) =~= mapped.take(0));
    }
    while i < n
        invariant
            n == params@.len(),
            0 <= i <= n,
            pv == param_views(params@),
            mapped == pv.map_values((|p: (Seq<char>, Seq<char>)| spec_param_arg(p.0, p.1))),
            views(args@) =~= mapped.take(i as int),
        decreases n - i,
    {
        let name = params[i].0.as_str();
        let ty = params[i].1.as_str();
        let a: String = if str_eq(ty, "ByteArray") {
            if str_eq(name, "admin_pkh") {
                String::from_str("test_admin")
            } else {
                String::from_str("#\"00\"")
            }
        } else if str_eq(ty, "Int") {
            if str_eq(name, "min_lovelace") {
                String::from_str("2_000_000")
            } else {
                String::from_str("100")
            }
        } else {
            String::from_str("todo")
        };
        proof {
            assert(a@ == mapped[i as int]);
            assert(views(args@.push(a)) =~= views(args@).push(a@));
            assert(mapped.take(i + 1) =~= mapped.take(i as int).push(mapped[i as int]));
        }
        args.push(a);
        i = i + 1;
    }
    proof {
        assert(mapped.take(n as int) =~= mapped);
    }
    join_strs(&args, ", ")
}

/// Renders one synthesized test case.
pub fn case_text(
    title: &str,
    fail: bool,
    tx_body: &str,
    vname: &str,
    method: &str,
    call: &str,
) -> (r: String)
    ensures
        r@ == spec_case(title@, fail, tx_body@, vname@, method@, call@),
{
    let mut r = String::from_str("test ");
    r.append(title);
    if fail {
        r.append("() fail {");
    } else {
        r.append("() {");
    }
    r.append("\n  let tx =\n    Transaction {\n      ..transaction.placeholder,\n");
    r.append(tx_body);
    r.append("\n    }\n  ");
    r.append(vname);
    r.append(".");
    r.append(method);
    r.append("(");
    r.append(call);
    r.append(")\n}");
    r
}

/// Renders the spend-validator call.
pub fn spend_call(params_str: &str, datum_arg: &str, expr: &str) -> (r: String)
    ensures
        r@ == spec_spend_call(params_str@, datum_arg@, expr@),
{
    let mut r = String::new();
    if params_str.unicode_len() != 0 {
        r.append(params_str);
        r.append(", ");
    }
    r.append(datum_arg);
    r.append(", ");
    r.append(expr);
    r.append(", test_oref(), tx");
    r
}

/// Renders the mint-validator call.
pub fn mint_call(params_str: &str, expr: &str) -> (r: String)
    ensures
        r@ == spec_mint_call(params_str@, expr@),
{
    let mut r = String::new();
    if params_str.unicode_len() != 0 {
        r.append(params_str);
        r.append(", ");
    }
    r.append(expr);
    r.append(", test_policy, tx");
    r
}

/// Characterization of [`spec_first_burn_action`] when the first hit is `i`.
proof fn lemma_first_burn_at(actions: Seq<(Seq<char>, Seq<(Seq<char>, Seq<char>)>)>, i: int)
    requires
        0 <= i < actions.len(),
        spec_fold_lower(actions[i].0) == "burn"@,
        forall|j: int| 0 <= j < i ==> spec_fold_lower((#[trigger] actions[j]).0) != "burn"@,
    ensures
        spec_first_burn_action(actions) == Some(actions[i]),
    decreases i,
{
    if i > 0 {
        lemma_first_burn_at(actions.drop_first(), i - 1);
    }
}

/// Characterization of [`spec_first_burn_action`] when nothing hits.
proof fn lemma_first_burn_none(actions: Seq<(Seq<char>, Seq<(Seq<char>, Seq<char>)>)>)
    requires
        forall|j: int|
            0 <= j < actions.len() ==> spec_fold_lower((#[trigger] actions[j]).0) != "burn"@,
    ensures
        spec_first_burn_action(actions) == None::<(Seq<char>, Seq<(Seq<char>, Seq<char>)>)>,
    decreases actions.len(),
{
    if actions.len() > 0 {
        lemma_first_burn_none(actions.drop_first());
    }
}

/// Synthesizes the test helper block and the test cases for the resolved
/// feature set, the schema, and the shared validator parameter placeholder
/// values.
#[verifier::rlimit(100)]
#[verifier::loop_isolation(false)]
pub fn build_tests(
    features: &[Feature],
    purpose: &str,
    datum_fields: &[DatumField],
    redeemer_actions: &[RedeemerAction],
    params: &[(String, String)],
    validator_name: &str,
) -> (r: (String, Vec<String>))
    ensures
        r.0@ == spec_build_helpers(features@, purpose@, df_views(datum_fields@)),
        views(r.1@) == spec_build_cases(
            features@,
            purpose@,
            df_views(datum_fields@),
            crate::features::types::ra_views(redeemer_actions@),
            param_views(params@),
            validator_name@,
        ),
{
    let has_sig = crate::features::types::slice_has_feature(features, Feature::SignatureAuth);
    let has_timelock = crate::features::types::slice_has_feature(features, Feature::TimeLock);
    let has_continuity = crate::features::types::slice_has_feature(
        features,
        Feature::DatumContinuity,
    );
    let has_ref_safety = crate::features::types::slice_has_feature(
        features,
        Feature::ReferenceSafety,
    );
    let has_burn = crate::features::types::slice_has_feature(
        features,
        Feature::BurnVerification,
    );
    let is_spend = str_eq(purpose, "spend");
    let is_mint = str_eq(purpose, "mint");
    let deadline_field = find_deadline_field(datum_fields);
    let ghost dv = df_views(datum_fields@);
    let ghost dlv = spec_find_deadline(dv);

    let mut helpers = String::new();
    if has_sig {
        helpers.append("const test_admin: ByteArray = #\"aabbccdd\"\n");
    }
    if is_mint {
        helpers.append("const test_policy: ByteArray = #\"eeff0011\"\n");
    }
    if has_timelock {
        helpers.append("const test_deadline: Int = 1_000_000\n");
    }
    helpers.append("\n");
    if is_spend {
        helpers.append("fn test_datum() -> CustomDatum {\n  CustomDatum {\n");
        let mut dlines = String::new();
        let n = datum_fields.len();
        let mut i: usize = 0;
        proof {
            assert(dv.take(0) =~= Seq::<(Seq<char>, Seq<char>)>::empty());
        }
        while i < n
            invariant
                n == datum_fields@.len(),
                0 <= i <= n,
                dlines@ == spec_datum_lines(dv.take(i as int), has_timelock, dlv),
            decreases n - i,
        {
            proof {
                assert(dv.take(i + 1).drop_last() =~= dv.take(i as int));
                assert(dv.take(i + 1).last() == dv[i as int]);
            }
            let value = test_value_for_type(
                datum_fields[i].aiken_type.as_str(),
                datum_fields[i].name.as_str(),
                has_timelock,
                &deadline_field,
            );
            dlines.append("    ");
            dlines.append(datum_fields[i].name.as_str());
            dlines.append(": ");
            dlines.append(value.as_str());
            dlines.append(",\n");
            i = i + 1;
        }
        proof {
            assert(dv.take(n as int) =~= dv);
        }
        helpers.append(dlines.as_str());
        helpers.append("  }\n}\n\n");
        helpers.append(
            "fn test_oref() -> OutputReference {\n  OutputReference {\n    transaction_id: #\"0000000000000000000000000000000000000000000000000000000000000001\",\n    output_index: 0,\n  }\n}\n",
        );
        if has_continuity {
            helpers.append(
                "\nfn script_addr() -> Address {\n  Address { payment_credential: Script(#\"ee\"), stake_credential: None }\n}\n",
            );
            helpers.append(
                "\nfn script_input() -> Input {\n  Input {\n    output_reference: test_oref(),\n    output: Output {\n      address: script_addr(),\n      value: assets.from_lovelace(10_000_000),\n      datum: InlineDatum(test_datum()),\n      reference_script: None,\n    },\n  }\n}\n",
            );
            helpers.append(
                "\nfn cont_output_ok() -> Output {\n  Output {\n    address: script_addr(),\n    value: assets.from_lovelace(10_000_000),\n    datum: InlineDatum(test_datum()),\n    reference_script: None,\n  }\n}\n",
            );
        }
    }
    proof {
        assert(helpers@ =~= spec_build_helpers(features@, purpose@, dv));
    }

    let psv = params_str_of(params);
    let ghost av = crate::features::types::ra_views(redeemer_actions@);
    let mut cases: Vec<String> = Vec::new();
    if is_spend {
        if redeemer_actions.len() > 0 {
            let expr = redeemer_action_expr(&redeemer_actions[0]);
            let low = fold_lower(redeemer_actions[0].name.as_str());
            let call = spend_call(psv.as_str(), "Some(test_datum())", expr.as_str());
            let call_nd = spend_call(psv.as_str(), "None", expr.as_str());

            let mut pos_lines: Vec<String> = Vec::new();
            if has_sig {
                pos_lines.push(String::from_str("      extra_signatories: [test_admin],"));
            }
            if has_timelock {
                pos_lines.push(
                    String::from_str(
                        "      validity_range: interval.after(test_deadline + 1),",
                    ),
                );
            }
            if has_continuity {
                pos_lines.push(String::from_str("      inputs: [script_input()],"));
                pos_lines.push(String::from_str("      outputs: [cont_output_ok()],"));
            }
            proof {
                assert(views(pos_lines@) =~~= spec_pos_tx_lines(
                    has_sig,
                    has_timelock,
                    has_continuity,
                ));
            }
            let pos_body = join_strs(&pos_lines, "\n");

            let mut title = low.clone();
            title.append("_valid");
            cases.push(
                case_text(
                    title.as_str(),
                    false,
                    pos_body.as_str(),
                    validator_name,
                    "spend",
                    call.as_str(),
                ),
            );

            if has_sig {
                let mut bad_lines: Vec<String> = Vec::new();
                bad_lines.push(String::from_str("      extra_signatories: [#\"deadbeef\"],"));
                if has_timelock {
                    bad_lines.push(
                        String::from_str(
                            "      validity_range: interval.after(test_deadline + 1),",
                        ),
                    );
                }
                if has_continuity {
                    bad_lines.push(String::from_str("      inputs: [script_input()],"));
                    bad_lines.push(String::from_str("      outputs: [cont_output_ok()],"));
                }
                proof {
                    assert(views(bad_lines@) =~~= spec_badsig_tx_lines(
                        has_timelock,
                        has_continuity,
                    ));
                }
                let bad_body = join_strs(&bad_lines, "\n");
                let mut t2 = low.clone();
                t2.append("_wrong_signer_fails");
                cases.push(
                    case_text(
                        t2.as_str(),
                        true,
                        bad_body.as_str(),
                        validator_name,
                        "spend",
                        call.as_str(),
                    ),
                );
            }

            if has_timelock {
                let mut time_lines: Vec<String> = Vec::new();
                if has_sig {
                    time_lines.push(
                        String::from_str("      extra_signatories: [test_admin],"),
                    );
                }
                time_lines.push(
                    String::from_str(
                        "      validity_range: interval.before(test_deadline - 1),",
                    ),
                );
                if has_continuity {
                    time_lines.push(String::from_str("      inputs: [script_input()],"));
                    time_lines.push(String::from_str("      outputs: [cont_output_ok()],"));
                }
                proof {
                    assert(views(time_lines@) =~~= spec_early_tx_lines(
                        has_sig,
                        has_continuity,
                    ));
                }
                let time_body = join_strs(&time_lines, "\n");
                let mut t3 = low.clone();
                t3.append("_before_deadline_fails");
                cases.push(
                    case_text(
                        t3.as_str(),
                        true,
                        time_body.as_str(),
                        validator_name,
                        "spend",
                        call.as_str(),
                    ),
                );
            }

            cases.push(
                case_text(
                    "no_datum_fails",
                    true,
                    pos_body.as_str(),
                    validator_name,
                    "spend",
                    call_nd.as_str(),
                ),
            );

            if has_ref_safety {
                let mut ref_lines: Vec<String> = Vec::new();
                if has_sig {
                    ref_lines.push(String::from_str("      extra_signatories: [test_admin],"));
                }
                if has_timelock {
                    ref_lines.push(
                        String::from_str(
                            "      validity_range: interval.after(test_deadline + 1),",
                        ),
                    );
                }
                ref_lines.push(String::from_str("      inputs: [script_input()],"));
                ref_lines.push(
                    String::from_str(
                        "      outputs: [\n        Output {\n          address: script_addr(),\n          value: assets.from_lovelace(10_000_000),\n          datum: InlineDatum(test_datum()),\n          reference_script: Some(#\"deadbeef\"),\n        },\n      ],",
                    ),
                );
                proof {
                    assert(views(ref_lines@) =~~= spec_refinj_tx_lines(has_sig, has_timelock));
                }
                let ref_body = join_strs(&ref_lines, "\n");
                cases.push(
                    case_text(
                        "reference_script_injection_fails",
                        true,
                        ref_body.as_str(),
                        validator_name,
                        "spend",
                        call.as_str(),
                    ),
                );
            }
            proof {
                assert(av[0] == crate::features::types::ra_view(redeemer_actions@[0]));
                assert(views(cases@) =~~= spec_spend_cases(
                    features@,
                    dv,
                    av,
                    param_views(params@),
                    validator_name@,
                ));
            }
        } else {
            proof {
                assert(views(cases@) =~~= spec_spend_cases(
                    features@,
                    dv,
                    av,
                    param_views(params@),
                    validator_name@,
                ));
            }
        }
    } else {
        if redeemer_actions.len() > 0 {
            let expr = redeemer_action_expr(&redeemer_actions[0]);
            let call = mint_call(psv.as_str(), expr.as_str());
            let mut mint_lines: Vec<String> = Vec::new();
            if has_sig {
                mint_lines.push(String::from_str("      extra_signatories: [test_admin],"));
            }
            mint_lines.push(
                String::from_str("      mint: assets.from_asset(test_policy, \"token\", 1),"),
            );
            proof {
                assert(views(mint_lines@) =~~= (if has_sig {
                    seq![line_sig()]
                } else {
                    Seq::<Seq<char>>::empty()
                }) + seq!["      mint: assets.from_asset(test_policy, \"token\", 1),"@]);
            }
            let mint_body = join_strs(&mint_lines, "\n");
            cases.push(
                case_text(
                    "mint_valid",
                    false,
                    mint_body.as_str(),
                    validator_name,
                    "mint",
                    call.as_str(),
                ),
            );
            if has_sig {
                let mut nosig_lines: Vec<String> = Vec::new();
                nosig_lines.push(String::from_str("      extra_signatories: [],"));
                nosig_lines.push(
                    String::from_str(
                        "      mint: assets.from_asset(test_policy, \"token\", 1),",
                    ),
                );
                proof {
                    assert(views(nosig_lines@) =~~= seq![
                        "      extra_signatories: [],"@,
                        "      mint: assets.from_asset(test_policy, \"token\", 1),"@,
                    ]);
                }
                let nosig_body = join_strs(&nosig_lines, "\n");
                cases.push(
                    case_text(
                        "mint_no_signature_fails",
                        true,
                        nosig_body.as_str(),
                        validator_name,
                        "mint",
                        call.as_str(),
                    ),
                );
            }
        }
        if has_burn {
            let an = redeemer_actions.len();
            let mut bi: usize = 0;
            let mut found_burn = false;
            while bi < an && !found_burn
                invariant
                    an == redeemer_actions@.len(),
                    0 <= bi <= an,
                    !found_burn ==> (forall|j: int|
                        0 <= j < bi ==> spec_fold_lower((#[trigger] av[j]).0) != "burn"@),
                    found_burn ==> bi < an && spec_fold_lower(av[bi as int].0) == "burn"@ && (
                    forall|j: int|
                        0 <= j < bi ==> spec_fold_lower((#[trigger] av[j]).0) != "burn"@),
                decreases an - bi + (if found_burn {
                    0int
                } else {
                    1int
                }),
            {
                let lowname = fold_lower(redeemer_actions[bi].name.as_str());
                if str_eq(lowname.as_str(), "burn") {
                    found_burn = true;
                } else {
                    bi = bi + 1;
                }
            }
            if found_burn {
                proof {
                    lemma_first_burn_at(av, bi as int);
                }
                let bexpr = redeemer_action_expr(&redeemer_actions[bi]);
                let bcall = mint_call(psv.as_str(), bexpr.as_str());
                cases.push(
                    case_text(
                        "burn_valid",
                        false,
                        "      mint: assets.from_asset(test_policy, \"token\", -1),",
                        validator_name,
                        "mint",
                        bcall.as_str(),
                    ),
                );
                cases.push(
                    case_text(
                        "burn_positive_fails",
                        true,
                        "      mint: assets.from_asset(test_policy, \"token\", 1),",
                        validator_name,
                        "mint",
                        bcall.as_str(),
                    ),
                );
            } else {
                proof {
                    lemma_first_burn_none(av);
                }
            }
        }
        proof {
            if redeemer_actions@.len() > 0 {
                assert(av[0] == crate::features::types::ra_view(redeemer_actions@[0]));
            }
            assert(views(cases@) =~~= spec_mint_cases(
                features@,
                av,
                param_views(params@),
                validator_name@,
            ));
        }
    }
    (helpers, cases)
}

} // verus!
