//! The feature catalog: a small, closed set of composable security features,
//! each mapped by [`feature_spec`] to its registry entry — import lines,
//! validator parameters, code fragments, dependencies, conflicts and the
//! purpose restriction. Free-text names and aliases resolve to catalog
//! members through [`parse_features`].

pub mod compose;
pub mod synth;
pub mod types;

use vstd::prelude::*;

use crate::error::KaidoError;
use crate::text::{is_ascii_upper, join_strs, push_char, spec_join, str_eq};

verus! {

/// Composable security features for custom validators.
#[derive(Debug, Clone, Copy, PartialEq, Eq, Hash, Structural)]
pub enum Feature {
    /// Require a specific signer in `extra_signatories`.
    SignatureAuth,
    /// Enforce `validity_range` after a deadline field.
    TimeLock,
    /// Find the continuing output and validate datum preservation.
    DatumContinuity,
    /// Verify lovelace math between input and output; needs `DatumContinuity`.
    ValuePreservation,
    /// Reject reference script injection; needs `DatumContinuity`.
    ReferenceSafety,
    /// Check all minted quantities are negative; mint purpose only.
    BurnVerification,
    /// Enforce a minimum lovelace floor; needs `DatumContinuity`.
    BoundedOperations,
}

/// The whole catalog, in declaration order.
pub open spec fn spec_all_features() -> Seq<Feature> {
    seq![
        Feature::SignatureAuth,
        Feature::TimeLock,
        Feature::DatumContinuity,
        Feature::ValuePreservation,
        Feature::ReferenceSafety,
        Feature::BurnVerification,
        Feature::BoundedOperations,
    ]
}

/// The stable name of a feature.
pub open spec fn spec_name(f: Feature) -> Seq<char> {
    match f {
        Feature::SignatureAuth => "signature-auth"@,
        Feature::TimeLock => "timelock"@,
        Feature::DatumContinuity => "datum-continuity"@,
        Feature::ValuePreservation => "value-preservation"@,
        Feature::ReferenceSafety => "reference-safety"@,
        Feature::BurnVerification => "burn-verification"@,
        Feature::BoundedOperations => "bounded-operations"@,
    }
}

/// The human-readable description of a feature.
pub open spec fn spec_description(f: Feature) -> Seq<char> {
    match f {
        Feature::SignatureAuth => "Require a specific signer in extra_signatories"@,
        Feature::TimeLock => "Enforce validity_range before/after a deadline field"@,
        Feature::DatumContinuity => "Find continuing output and validate datum preservation"@,
        Feature::ValuePreservation => "Verify lovelace math (input >= output)"@,
        Feature::ReferenceSafety => "Reject reference script injection on continuing output"@,
        Feature::BurnVerification => "Check all minted quantities are negative (mint-only)"@,
        Feature::BoundedOperations => "Enforce minimum lovelace floor on continuing output"@,
    }
}

/// The composition rank of a feature; lower ranks compose earlier. The rank
/// is injective over the catalog, so it induces a total order.
pub open spec fn spec_order(f: Feature) -> int {
    match f {
        Feature::SignatureAuth => 0,
        Feature::TimeLock => 1,
        Feature::DatumContinuity => 2,
        Feature::ReferenceSafety => 3,
        Feature::ValuePreservation => 4,
        Feature::BoundedOperations => 5,
        Feature::BurnVerification => 6,
    }
}

/// The dependencies of a feature.
pub open spec fn spec_depends_on(f: Feature) -> Seq<Feature> {
    match f {
        Feature::ValuePreservation => seq![Feature::DatumContinuity],
        Feature::ReferenceSafety => seq![Feature::DatumContinuity],
        Feature::BoundedOperations => seq![Feature::DatumContinuity],
        _ => Seq::<Feature>::empty(),
    }
}

/// The conflicts of a feature. No current catalog member declares one, but
/// the resolver checks them all the same.
pub open spec fn spec_conflicts_with(f: Feature) -> Seq<Feature> {
    Seq::<Feature>::empty()
}

/// The purpose restriction of a feature: `None` means any purpose.
pub open spec fn spec_purpose_restriction(f: Feature) -> Option<Seq<char>> {
    match f {
        Feature::SignatureAuth => None,
        Feature::TimeLock => Some("spend"@),
        Feature::DatumContinuity => Some("spend"@),
        Feature::ValuePreservation => Some("spend"@),
        Feature::ReferenceSafety => Some("spend"@),
        Feature::BurnVerification => Some("mint"@),
        Feature::BoundedOperations => Some("spend"@),
    }
}

/// The import lines a feature needs.
pub open spec fn spec_imports(f: Feature) -> Seq<Seq<char>> {
    match f {
        Feature::SignatureAuth => seq!["use aiken/collection/list"@],
        Feature::TimeLock => seq!["use aiken/interval"@],
        Feature::DatumContinuity => seq![
            "use aiken/collection/list"@,
            "use cardano/address.{Address, Script}"@,
            "use cardano/assets"@,
            "use cardano/transaction.{InlineDatum, Input, Output}"@,
        ],
        Feature::ValuePreservation => seq!["use cardano/assets.{lovelace_of, without_lovelace}"@],
        Feature::ReferenceSafety => Seq::<Seq<char>>::empty(),
        Feature::BurnVerification => seq!["use aiken/collection/dict"@, "use cardano/assets"@],
        Feature::BoundedOperations => seq!["use cardano/assets.{lovelace_of}"@],
    }
}

/// The validator parameters a feature adds, as `(name, type)` pairs.
pub open spec fn spec_validator_params(f: Feature) -> Seq<(Seq<char>, Seq<char>)> {
    match f {
        Feature::SignatureAuth => seq![("admin_pkh"@, "ByteArray"@)],
        Feature::BoundedOperations => seq![("min_lovelace"@, "Int"@)],
        _ => Seq::<(Seq<char>, Seq<char>)>::empty(),
    }
}

/// The continuity preamble is a template over the concrete datum type name.
pub open spec fn spec_continuity_preamble(datum_ty: Seq<char>) -> Seq<char> {
    "    // Find own input to get address\n    expect Some(own_input) =\n      list.find(self.inputs, fn(i) { i.output_reference == own_ref })\n    let own_address = own_input.output.address\n\n    // Find continuing output at same address\n    expect Some(cont_output) =\n      list.find(self.outputs, fn(o) { o.address == own_address })\n\n    // Validate continuing datum\n    expect InlineDatum(raw) = cont_output.datum\n    expect out_datum: "@
        + datum_ty + " = raw"@
}

/// The time-lock check is a template over the concrete deadline field name.
pub open spec fn spec_timelock_action(field: Seq<char>) -> Seq<char> {
    "    // Validity range must be entirely after the deadline\n    expect interval.is_entirely_after(self.validity_range, datum."@
        + field + ")"@
}

/// The preamble fragment of a feature, over the generic datum type name.
pub open spec fn spec_preamble_code(f: Feature) -> Seq<char> {
    match f {
        Feature::DatumContinuity => spec_continuity_preamble("CustomDatum"@),
        Feature::ValuePreservation => "    let input_lovelace = lovelace_of(own_input.output.value)\n    let output_lovelace = lovelace_of(cont_output.value)\n    let input_non_ada = without_lovelace(own_input.output.value)\n    let output_non_ada = without_lovelace(cont_output.value)"@,
        Feature::ReferenceSafety => "    // Reference script injection protection\n    expect cont_output.reference_script == None"@,
        _ => Seq::<char>::empty(),
    }
}

/// The per-action fragment of a feature, over the generic deadline name.
pub open spec fn spec_per_action_code(f: Feature) -> Seq<char> {
    match f {
        Feature::SignatureAuth => "    // Admin must sign the transaction\n    expect list.has(self.extra_signatories, admin_pkh)"@,
        Feature::TimeLock => spec_timelock_action("deadline"@),
        Feature::ValuePreservation => "    // Preserve non-ADA assets and prevent ADA decrease\n    expect output_non_ada == input_non_ada\n    expect output_lovelace >= input_lovelace"@,
        Feature::BoundedOperations => "    // Enforce minimum lovelace floor on continuing output\n    expect lovelace_of(cont_output.value) >= min_lovelace"@,
        _ => Seq::<char>::empty(),
    }
}

impl Feature {
    /// All available features, in catalog order.
    pub fn all() -> (r: Vec<Feature>)
        ensures
            r@ == spec_all_features(),
    {
        let r = vec![
            Feature::SignatureAuth,
            Feature::TimeLock,
            Feature::DatumContinuity,
            Feature::ValuePreservation,
            Feature::ReferenceSafety,
            Feature::BurnVerification,
            Feature::BoundedOperations,
        ];
        proof {
            assert(r@ =~= spec_all_features());
        }
        r
    }

    /// The feature's stable name.
    pub fn name(&self) -> (r: &'static str)
        ensures
            r@ == spec_name(*self),
    {
        match self {
            Feature::SignatureAuth => "signature-auth",
            Feature::TimeLock => "timelock",
            Feature::DatumContinuity => "datum-continuity",
            Feature::ValuePreservation => "value-preservation",
            Feature::ReferenceSafety => "reference-safety",
            Feature::BurnVerification => "burn-verification",
            Feature::BoundedOperations => "bounded-operations",
        }
    }

    /// The feature's description.
    pub fn description(&self) -> (r: &'static str)
        ensures
            r@ == spec_description(*self),
    {
        match self {
            Feature::SignatureAuth => "Require a specific signer in extra_signatories",
            Feature::TimeLock => "Enforce validity_range before/after a deadline field",
            Feature::DatumContinuity => "Find continuing output and validate datum preservation",
            Feature::ValuePreservation => "Verify lovelace math (input >= output)",
            Feature::ReferenceSafety => "Reject reference script injection on continuing output",
            Feature::BurnVerification => "Check all minted quantities are negative (mint-only)",
            Feature::BoundedOperations => "Enforce minimum lovelace floor on continuing output",
        }
    }

    /// The feature's composition rank; lower means earlier in code.
    pub fn order(&self) -> (r: u8)
        ensures
            r as int == spec_order(*self),
    {
        match self {
            Feature::SignatureAuth => 0,
            Feature::TimeLock => 1,
            Feature::DatumContinuity => 2,
            Feature::ReferenceSafety => 3,
            Feature::ValuePreservation => 4,
            Feature::BoundedOperations => 5,
            Feature::BurnVerification => 6,
        }
    }

    /// The feature's dependencies.
    pub fn depends_on(&self) -> (r: Vec<Feature>)
        ensures
            r@ == spec_depends_on(*self),
    {
        let r = match self {
            Feature::ValuePreservation => vec![Feature::DatumContinuity],
            Feature::ReferenceSafety => vec![Feature::DatumContinuity],
            Feature::BoundedOperations => vec![Feature::DatumContinuity],
            _ => Vec::<Feature>::new(),
        };
        proof {
            assert(r@ =~= spec_depends_on(*self));
        }
        r
    }

    /// The feature's purpose restriction; `None` means any purpose.
    pub fn purpose_restriction(&self) -> (r: Option<&'static str>)
        ensures
            match r {
                Some(p) => spec_purpose_restriction(*self) == Some(p@),
                None => spec_purpose_restriction(*self) is None,
            },
    {
        match self {
            Feature::SignatureAuth => None,
            Feature::BurnVerification => Some("mint"),
            _ => Some("spend"),
        }
    }
}

/// The registry entry for a feature.
pub struct FeatureSpec {
    /// Import lines this feature needs.
    pub imports: Vec<String>,
    /// Validator parameters this feature adds, as `(name, type)` pairs.
    pub validator_params: Vec<(String, String)>,
    /// Code emitted once, before branching on the redeemer action.
    pub preamble_code: String,
    /// Code emitted inside every redeemer branch.
    pub per_action_code: String,
    /// Features this one depends on.
    pub depends_on: Vec<Feature>,
    /// Features this one conflicts with.
    pub conflicts_with: Vec<Feature>,
    /// Purpose restriction: `None` means any purpose.
    pub purpose: Option<&'static str>,
}

/// The views of a vector of `(name, type)` string pairs.
pub open spec fn param_views(q: Seq<(String, String)>) -> Seq<(Seq<char>, Seq<char>)> {
    q.map_values(|p: (String, String)| (p.0@, p.1@))
}

impl FeatureSpec {
    /// The entry matches the catalog row of `f`.
    pub open spec fn matches(&self, f: Feature) -> bool {
        &&& crate::text::views(self.imports@) == spec_imports(f)
        &&& param_views(self.validator_params@) == spec_validator_params(f)
        &&& self.preamble_code@ == spec_preamble_code(f)
        &&& self.per_action_code@ == spec_per_action_code(f)
        &&& self.depends_on@ == spec_depends_on(f)
        &&& self.conflicts_with@ == spec_conflicts_with(f)
        &&& match self.purpose {
            Some(p) => spec_purpose_restriction(f) == Some(p@),
            None => spec_purpose_restriction(f) is None,
        }
    }
}

/// Instantiates the continuity preamble at a concrete datum type name.
pub fn continuity_preamble_text(datum_ty: &str) -> (r: String)
    ensures
        r@ == spec_continuity_preamble(datum_ty@),
{
    let mut r = String::from_str(
        "    // Find own input to get address\n    expect Some(own_input) =\n      list.find(self.inputs, fn(i) { i.output_reference == own_ref })\n    let own_address = own_input.output.address\n\n    // Find continuing output at same address\n    expect Some(cont_output) =\n      list.find(self.outputs, fn(o) { o.address == own_address })\n\n    // Validate continuing datum\n    expect InlineDatum(raw) = cont_output.datum\n    expect out_datum: ",
    );
    r.append(datum_ty);
    r.append(" = raw");
    r
}

/// Instantiates the time-lock check at a concrete deadline field name.
pub fn timelock_action_text(field: &str) -> (r: String)
    ensures
        r@ == spec_timelock_action(field@),
{
    let mut r = String::from_str(
        "    // Validity range must be entirely after the deadline\n    expect interval.is_entirely_after(self.validity_range, datum.",
    );
    r.append(field);
    r.append(")");
    r
}

/// Returns the registry entry for a feature.
pub fn feature_spec(f: Feature) -> (r: FeatureSpec)
    ensures
        r.matches(f),
{
    let r = match f {
        Feature::SignatureAuth => FeatureSpec {
            imports: vec![String::from_str("use aiken/collection/list")],
            validator_params: vec![
                (String::from_str("admin_pkh"), String::from_str("ByteArray")),
            ],
            preamble_code: String::new(),
            per_action_code: String::from_str(
                "    // Admin must sign the transaction\n    expect list.has(self.extra_signatories, admin_pkh)",
            ),
            depends_on: Vec::new(),
            conflicts_with: Vec::new(),
            purpose: None,
        },
        Feature::TimeLock => FeatureSpec {
            imports: vec![String::from_str("use aiken/interval")],
            validator_params: Vec::new(),
            preamble_code: String::new(),
            per_action_code: timelock_action_text("deadline"),
            depends_on: Vec::new(),
            conflicts_with: Vec::new(),
            purpose: Some("spend"),
        },
        Feature::DatumContinuity => FeatureSpec {
            imports: vec![
                String::from_str("use aiken/collection/list"),
                String::from_str("use cardano/address.{Address, Script}"),
                String::from_str("use cardano/assets"),
                String::from_str("use cardano/transaction.{InlineDatum, Input, Output}"),
            ],
            validator_params: Vec::new(),
            preamble_code: continuity_preamble_text("CustomDatum"),
            per_action_code: String::new(),
            depends_on: Vec::new(),
            conflicts_with: Vec::new(),
            purpose: Some("spend"),
        },
        Feature::ValuePreservation => FeatureSpec {
            imports: vec![String::from_str("use cardano/assets.{lovelace_of, without_lovelace}")],
            validator_params: Vec::new(),
            preamble_code: String::from_str(
                "    let input_lovelace = lovelace_of(own_input.output.value)\n    let output_lovelace = lovelace_of(cont_output.value)\n    let input_non_ada = without_lovelace(own_input.output.value)\n    let output_non_ada = without_lovelace(cont_output.value)",
            ),
            per_action_code: String::from_str(
                "    // Preserve non-ADA assets and prevent ADA decrease\n    expect output_non_ada == input_non_ada\n    expect output_lovelace >= input_lovelace",
            ),
            depends_on: f.depends_on(),
            conflicts_with: Vec::new(),
            purpose: Some("spend"),
        },
        Feature::ReferenceSafety => FeatureSpec {
            imports: Vec::new(),
            validator_params: Vec::new(),
            preamble_code: String::from_str(
                "    // Reference script injection protection\n    expect cont_output.reference_script == None",
            ),
            per_action_code: String::new(),
            depends_on: f.depends_on(),
            conflicts_with: Vec::new(),
            purpose: Some("spend"),
        },
        Feature::BurnVerification => FeatureSpec {
            imports: vec![
                String::from_str("use aiken/collection/dict"),
                String::from_str("use cardano/assets"),
            ],
            validator_params: Vec::new(),
            preamble_code: String::new(),
            per_action_code: String::new(),
            depends_on: Vec::new(),
            conflicts_with: Vec::new(),
            purpose: Some("mint"),
        },
        Feature::BoundedOperations => FeatureSpec {
            imports: vec![String::from_str("use cardano/assets.{lovelace_of}")],
            validator_params: vec![
                (String::from_str("min_lovelace"), String::from_str("Int")),
            ],
            preamble_code: String::new(),
            per_action_code: String::from_str(
                "    // Enforce minimum lovelace floor on continuing output\n    expect lovelace_of(cont_output.value) >= min_lovelace",
            ),
            depends_on: f.depends_on(),
            conflicts_with: Vec::new(),
            purpose: Some("spend"),
        },
    };
    proof {
        assert(crate::text::views(r.imports@) =~~= spec_imports(f));
        assert(param_views(r.validator_params@) =~~= spec_validator_params(f));
        match f {
            Feature::ValuePreservation => assert(r.depends_on@ =~= spec_depends_on(f)),
            Feature::ReferenceSafety => assert(r.depends_on@ =~= spec_depends_on(f)),
            Feature::BoundedOperations => assert(r.depends_on@ =~= spec_depends_on(f)),
            _ => assert(r.depends_on@ =~= spec_depends_on(f)),
        }
        assert(r.conflicts_with@ =~= spec_conflicts_with(f));
    }
    r
}


/// Free-text alias folding: uppercase ASCII letters are lowered and `-`
/// becomes `_`, so `Time-Lock` and `time_lock` name the same feature.
pub open spec fn fold_alias_char(c: char) -> char {
    if c == '-' {
        '_'
    } else if is_ascii_upper(c) {
        ((c as int) + 32) as char
    } else {
        c
    }
}

/// The alias-folded form of a name.
pub open spec fn spec_fold_alias(s: Seq<char>) -> Seq<char> {
    s.map_values(|c: char| fold_alias_char(c))
}

/// Folds a free-text name for alias comparison.
pub fn fold_alias(s: &str) -> (r: String)
    ensures
        r@ == spec_fold_alias(s@),
{
    let n = s.unicode_len();
    let mut r = String::new();
    let mut i: usize = 0;
    proof {
        assert(r@ =~= spec_fold_alias(s@.take(0)));
    }
    while i < n
        invariant
            n == s@.len(),
            0 <= i <= n,
            r@ == spec_fold_alias(s@.take(i as int)),
        decreases n - i,
    {
        let c = s.get_char(i);
        let folded: char = if c == '-' {
            '_'
        } else if 'A' <= c && c <= 'Z' {
            (((c as u32) + 32) as u8) as char
        } else {
            c
        };
        proof {
            assert(folded == fold_alias_char(c));
            assert(spec_fold_alias(s@.take(i + 1)) =~= spec_fold_alias(s@.take(i as int)).push(
                fold_alias_char(c),
            ));
        }
        push_char(&mut r, folded);
        i = i + 1;
    }
    proof {
        assert(s@.take(n as int) =~= s@);
    }
    r
}

/// The catalog member a free-text name resolves to, if any.
pub open spec fn spec_feature_of_name(s: Seq<char>) -> Option<Feature> {
    let t = spec_fold_alias(s);
    if t == "sig"@ || t == "signature"@ || t == "signature_auth"@ {
        Some(Feature::SignatureAuth)
    } else if t == "timelock"@ || t == "time_lock"@ {
        Some(Feature::TimeLock)
    } else if t == "datum_continuity"@ || t == "datum"@ || t == "continuity"@ {
        Some(Feature::DatumContinuity)
    } else if t == "value_preservation"@ || t == "value"@ || t == "preservation"@ {
        Some(Feature::ValuePreservation)
    } else if t == "reference_safety"@ || t == "ref_safety"@ || t == "refsafety"@ {
        Some(Feature::ReferenceSafety)
    } else if t == "burn"@ || t == "burn_verification"@ {
        Some(Feature::BurnVerification)
    } else if t == "bounded"@ || t == "bounded_operations"@ || t == "floor"@ {
        Some(Feature::BoundedOperations)
    } else {
        None
    }
}

/// Resolves a free-text feature name through the alias table.
pub fn parse_feature_name(s: &str) -> (r: Option<Feature>)
    ensures
        r == spec_feature_of_name(s@),
{
    let t = fold_alias(s);
    let t = t.as_str();
    if str_eq(t, "sig") || str_eq(t, "signature") || str_eq(t, "signature_auth") {
        Some(Feature::SignatureAuth)
    } else if str_eq(t, "timelock") || str_eq(t, "time_lock") {
        Some(Feature::TimeLock)
    } else if str_eq(t, "datum_continuity") || str_eq(t, "datum") || str_eq(t, "continuity") {
        Some(Feature::DatumContinuity)
    } else if str_eq(t, "value_preservation") || str_eq(t, "value") || str_eq(t, "preservation") {
        Some(Feature::ValuePreservation)
    } else if str_eq(t, "reference_safety") || str_eq(t, "ref_safety") || str_eq(t, "refsafety") {
        Some(Feature::ReferenceSafety)
    } else if str_eq(t, "burn") || str_eq(t, "burn_verification") {
        Some(Feature::BurnVerification)
    } else if str_eq(t, "bounded") || str_eq(t, "bounded_operations") || str_eq(t, "floor") {
        Some(Feature::BoundedOperations)
    } else {
        None
    }
}

impl core::str::FromStr for Feature {
    type Err = ();

    /// Resolves a free-text feature name through the alias table.
    fn from_str(s: &str) -> (r: core::result::Result<Feature, ()>)
        ensures
            match r {
                Ok(f) => spec_feature_of_name(s@) == Some(f),
                Err(()) => spec_feature_of_name(s@) is None,
            },
    {
        match parse_feature_name(s) {
            Some(f) => Ok(f),
            None => Err(()),
        }
    }
}

/// `q` with later repetitions of a member removed; first occurrence wins.
pub open spec fn spec_dedup_features(q: Seq<Feature>) -> Seq<Feature>
    decreases q.len(),
{
    if q.len() == 0 {
        Seq::<Feature>::empty()
    } else {
        let rest = spec_dedup_features(q.drop_last());
        if rest.contains(q.last()) {
            rest
        } else {
            rest.push(q.last())
        }
    }
}

/// Whether `v` holds `f`.
pub fn contains_feature(v: &Vec<Feature>, f: Feature) -> (r: bool)
    ensures
        r == v@.contains(f),
{
    let mut i: usize = 0;
    while i < v.len()
        invariant
            0 <= i <= v@.len(),
            forall|j: int| 0 <= j < i ==> v@[j] != f,
        decreases v@.len() - i,
    {
        if v[i] == f {
            return true;
        }
        i = i + 1;
    }
    false
}

/// The names of all catalog members, in catalog order.
pub open spec fn spec_all_names() -> Seq<Seq<char>> {
    spec_all_features().map_values(|f: Feature| spec_name(f))
}

/// The message reported for an unrecognized feature name.
pub open spec fn spec_unknown_feature_msg(s: Seq<char>) -> Seq<char> {
    "Unknown feature '"@ + s + "'. Available: "@ + spec_join(spec_all_names(), ", "@)
}

/// The features named by the input strings, in order, if every string names
/// one.
pub open spec fn spec_features_of_names(q: Seq<Seq<char>>) -> Seq<Feature> {
    Seq::new(q.len(), |i: int| spec_feature_of_name(q[i]).unwrap())
}

/// Parses a list of free-text feature names into catalog members, keeping
/// the first occurrence of each feature and dropping later repetitions.
/// Fails on the first name that resolves to no catalog member, listing the
/// valid names.
pub fn parse_features(input: &Vec<String>) -> (r: Result<Vec<Feature>, KaidoError>)
    ensures
        match r {
            Ok(v) => {
                &&& forall|j: int|
                    0 <= j < input@.len() ==> spec_feature_of_name(input@[j]@) is Some
                &&& v@ == spec_dedup_features(
                    spec_features_of_names(crate::text::views(input@)),
                )
            },
            Err(e) => {
                &&& exists|k: int|
                    {
                        &&& 0 <= k < input@.len()
                        &&& spec_feature_of_name(input@[k]@) is None
                        &&& (forall|j: int|
                            0 <= j < k ==> spec_feature_of_name(input@[j]@) is Some)
                        &&& e matches KaidoError::UnknownFeature(m) && m@
                            == spec_unknown_feature_msg(input@[k]@)
                    }
            },
        },
{
    let mut feats: Vec<Feature> = Vec::new();
    let n = input.len();
    let ghost name_views = crate::text::views(input@);
    let mut i: usize = 0;
    proof {
        assert(spec_features_of_names(name_views).take(0) =~= Seq::<Feature>::empty());
    }
    while i < n
        invariant
            n == input@.len(),
            0 <= i <= n,
            name_views == crate::text::views(input@),
            forall|j: int| 0 <= j < i ==> spec_feature_of_name(input@[j]@) is Some,
            feats@ == spec_dedup_features(spec_features_of_names(name_views).take(i as int)),
        decreases n - i,
    {
        match parse_feature_name(input[i].as_str()) {
            Some(f) => {
                let ghost mapped = spec_features_of_names(name_views);
                proof {
                    assert(mapped.take(i + 1).drop_last() =~= mapped.take(i as int));
                    assert(mapped.take(i + 1).last() == f);
                }
                if !contains_feature(&feats, f) {
                    feats.push(f);
                }
            },
            None => {
                let all = Feature::all();
                let mut names: Vec<String> = Vec::new();
                let mut k: usize = 0;
                proof {
                    assert(crate::text::views(names@) =~= spec_all_names().take(0));
                }
                while k < all.len()
                    invariant
                        all@ == spec_all_features(),
                        0 <= k <= all@.len(),
                        crate::text::views(names@) =~= spec_all_names().take(k as int),
                    decreases all@.len() - k,
                {
                    let nm = String::from_str(all[k].name());
                    proof {
                        assert(crate::text::views(names@.push(nm)) =~= crate::text::views(
                            names@,
                        ).push(nm@));
                        assert(spec_all_names().take(k + 1) =~= spec_all_names().take(
                            k as int,
                        ).push(spec_all_names()[k as int]));
                    }
                    names.push(nm);
                    k = k + 1;
                }
                proof {
                    assert(spec_all_names().take(spec_all_names().len() as int)
                        =~= spec_all_names());
                }
                let joined = join_strs(&names, ", ");
                let mut msg = String::from_str("Unknown feature '");
                msg.append(input[i].as_str());
                msg.append("'. Available: ");
                msg.append(joined.as_str());
                return Err(KaidoError::UnknownFeature(msg));
            },
        }
        i = i + 1;
    }
    proof {
        assert(spec_features_of_names(name_views).take(n as int) =~= spec_features_of_names(
            name_views,
        ));
    }
    Ok(feats)
}

} // verus!
