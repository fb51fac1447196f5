//! The template catalog and per-template generation options.
//!
//! Each template is a fixed catalog member with a slug, a description and a
//! flag for client-SDK support; [`GenerateOptions`] carries everything a
//! generation request needs, and one constructor per template fills it with
//! that template's canonical names and settings.

use vstd::prelude::*;

use crate::features::types::{DatumField, RedeemerAction};
use crate::features::{fold_alias, spec_fold_alias};
use crate::text::{
    find_char, find_pair, fold_lower, is_ascii_alnum, spec_find_char, spec_find_pair,
    spec_fold_lower, str_eq,
};

verus! {

/// Available contract templates.
#[derive(Debug, Clone, Copy, PartialEq, Eq, Structural)]
pub enum Template {
    SimpleMint,
    Vesting,
    Escrow,
    MultisigTreasury,
    NftMarketplace,
    StakingPool,
    OracleSettlement,
    ReferralSystem,
    DexPool,
    LendingPool,
    DaoGovernance,
    StreamingPayments,
    Custom,
}

/// The whole template catalog, in declaration order.
pub open spec fn spec_all_templates() -> Seq<Template> {
    seq![
        Template::SimpleMint,
        Template::Vesting,
        Template::Escrow,
        Template::MultisigTreasury,
        Template::NftMarketplace,
        Template::StakingPool,
        Template::OracleSettlement,
        Template::ReferralSystem,
        Template::DexPool,
        Template::LendingPool,
        Template::DaoGovernance,
        Template::StreamingPayments,
        Template::Custom,
    ]
}

/// The slug of a template, used in directory and file names.
pub open spec fn spec_slug(t: Template) -> Seq<char> {
    match t {
        Template::SimpleMint => "simple_mint"@,
        Template::Vesting => "vesting"@,
        Template::Escrow => "escrow"@,
        Template::MultisigTreasury => "multisig_treasury"@,
        Template::NftMarketplace => "nft_marketplace"@,
        Template::StakingPool => "staking_pool"@,
        Template::OracleSettlement => "oracle_settlement"@,
        Template::ReferralSystem => "referral_system"@,
        Template::DexPool => "dex_pool"@,
        Template::LendingPool => "lending_pool"@,
        Template::DaoGovernance => "dao_governance"@,
        Template::StreamingPayments => "streaming_payments"@,
        Template::Custom => "custom"@,
    }
}

/// The human-readable description of a template.
pub open spec fn spec_template_description(t: Template) -> Seq<char> {
    match t {
        Template::SimpleMint => "CIP-25 minting policy with admin signature and optional time-lock"@,
        Template::Vesting => "Time-locked fund release with beneficiary claim and optional cancel"@,
        Template::Escrow => "Two-party escrow with deadline, completion, and mutual cancellation"@,
        Template::MultisigTreasury => "N-of-M multisig treasury with deposit, withdraw, datum continuity, and 2 ADA floor"@,
        Template::NftMarketplace => "NFT marketplace with list, buy, and delist actions"@,
        Template::StakingPool => "Staking pool with deposit, withdraw, and admin rewards"@,
        Template::OracleSettlement => "Oracle-gated settlement with deadline and buyer reclaim"@,
        Template::ReferralSystem => "On-chain referral system with mint, treasury, and anti-sybil protection"@,
        Template::DexPool => "DEX/AMM pool with constant-product swaps, liquidity, and fee management"@,
        Template::LendingPool => "Lending pool with supply, borrow, repay, and collateral ratio enforcement"@,
        Template::DaoGovernance => "DAO governance with token-gated treasury and proposal execution"@,
        Template::StreamingPayments => "Streaming payments with time-based tranches and cancel/top-up"@,
        Template::Custom => "Custom validator with composable features (sig, timelock, datum-continuity, ...)"@,
    }
}

/// Whether a template has client-SDK templates available.
pub open spec fn spec_supports_sdk(t: Template) -> bool {
    ||| t == Template::SimpleMint
    ||| t == Template::Vesting
    ||| t == Template::Escrow
    ||| t == Template::MultisigTreasury
    ||| t == Template::NftMarketplace
    ||| t == Template::StakingPool
    ||| t == Template::OracleSettlement
    ||| t == Template::ReferralSystem
}

/// The catalog member a free-text template name resolves to, if any: the
/// lowercased name must be a slug, a dashed slug variant, or a short alias.
pub open spec fn spec_template_of_name(s: Seq<char>) -> Option<Template> {
    let t = spec_fold_lower(s);
    if t == "simple_mint"@ || t == "simple-mint"@ || t == "mint"@ {
        Some(Template::SimpleMint)
    } else if t == "vesting"@ {
        Some(Template::Vesting)
    } else if t == "escrow"@ {
        Some(Template::Escrow)
    } else if t == "multisig_treasury"@ || t == "multisig-treasury"@ || t == "treasury"@ {
        Some(Template::MultisigTreasury)
    } else if t == "nft_marketplace"@ || t == "nft-marketplace"@ || t == "marketplace"@ {
        Some(Template::NftMarketplace)
    } else if t == "staking_pool"@ || t == "staking-pool"@ || t == "staking"@ {
        Some(Template::StakingPool)
    } else if t == "oracle_settlement"@ || t == "oracle-settlement"@ || t == "oracle"@ {
        Some(Template::OracleSettlement)
    } else if t == "referral_system"@ || t == "referral-system"@ || t == "referral"@ {
        Some(Template::ReferralSystem)
    } else if t == "dex_pool"@ || t == "dex-pool"@ || t == "dex"@ {
        Some(Template::DexPool)
    } else if t == "lending_pool"@ || t == "lending-pool"@ || t == "lending"@ {
        Some(Template::LendingPool)
    } else if t == "dao_governance"@ || t == "dao-governance"@ || t == "governance"@ {
        Some(Template::DaoGovernance)
    } else if t == "streaming_payments"@ || t == "streaming-payments"@ || t == "streaming"@ {
        Some(Template::StreamingPayments)
    } else if t == "custom"@ {
        Some(Template::Custom)
    } else {
        None
    }
}

impl Template {
    /// All available templates, in catalog order.
    pub fn all() -> (r: Vec<Template>)
        ensures
            r@ == spec_all_templates(),
    {
        let r = vec![
            Template::SimpleMint,
            Template::Vesting,
            Template::Escrow,
            Template::MultisigTreasury,
            Template::NftMarketplace,
            Template::StakingPool,
            Template::OracleSettlement,
            Template::ReferralSystem,
            Template::DexPool,
            Template::LendingPool,
            Template::DaoGovernance,
            Template::StreamingPayments,
            Template::Custom,
        ];
        proof {
            assert(r@ =~= spec_all_templates());
        }
        r
    }

    /// The template's slug for directory and file naming.
    pub fn slug(&self) -> (r: &'static str)
        ensures
            r@ == spec_slug(*self),
    {
        match self {
            Template::SimpleMint => "simple_mint",
            Template::Vesting => "vesting",
            Template::Escrow => "escrow",
            Template::MultisigTreasury => "multisig_treasury",
            Template::NftMarketplace => "nft_marketplace",
            Template::StakingPool => "staking_pool",
            Template::OracleSettlement => "oracle_settlement",
            Template::ReferralSystem => "referral_system",
            Template::DexPool => "dex_pool",
            Template::LendingPool => "lending_pool",
            Template::DaoGovernance => "dao_governance",
            Template::StreamingPayments => "streaming_payments",
            Template::Custom => "custom",
        }
    }

    /// The template's human-readable description.
    pub fn description(&self) -> (r: &'static str)
        ensures
            r@ == spec_template_description(*self),
    {
        match self {
            Template::SimpleMint => "CIP-25 minting policy with admin signature and optional time-lock",
            Template::Vesting => "Time-locked fund release with beneficiary claim and optional cancel",
            Template::Escrow => "Two-party escrow with deadline, completion, and mutual cancellation",
            Template::MultisigTreasury => "N-of-M multisig treasury with deposit, withdraw, datum continuity, and 2 ADA floor",
            Template::NftMarketplace => "NFT marketplace with list, buy, and delist actions",
            Template::StakingPool => "Staking pool with deposit, withdraw, and admin rewards",
            Template::OracleSettlement => "Oracle-gated settlement with deadline and buyer reclaim",
            Template::ReferralSystem => "On-chain referral system with mint, treasury, and anti-sybil protection",
            Template::DexPool => "DEX/AMM pool with constant-product swaps, liquidity, and fee management",
            Template::LendingPool => "Lending pool with supply, borrow, repay, and collateral ratio enforcement",
            Template::DaoGovernance => "DAO governance with token-gated treasury and proposal execution",
            Template::StreamingPayments => "Streaming payments with time-based tranches and cancel/top-up",
            Template::Custom => "Custom validator with composable features (sig, timelock, datum-continuity, ...)",
        }
    }

    /// Whether this template currently has client-SDK templates available.
    pub fn supports_sdk(&self) -> (r: bool)
        ensures
            r == spec_supports_sdk(*self),
    {
        match self {
            Template::SimpleMint => true,
            Template::Vesting => true,
            Template::Escrow => true,
            Template::MultisigTreasury => true,
            Template::NftMarketplace => true,
            Template::StakingPool => true,
            Template::OracleSettlement => true,
            Template::ReferralSystem => true,
            _ => false,
        }
    }
}

/// Resolves a free-text template name through the alias table.
pub fn parse_template_name(s: &str) -> (r: Option<Template>)
    ensures
        r == spec_template_of_name(s@),
{
    let low = fold_lower(s);
    let t = low.as_str();
    if str_eq(t, "simple_mint") || str_eq(t, "simple-mint") || str_eq(t, "mint") {
        Some(Template::SimpleMint)
    } else if str_eq(t, "vesting") {
        Some(Template::Vesting)
    } else if str_eq(t, "escrow") {
        Some(Template::Escrow)
    } else if str_eq(t, "multisig_treasury") || str_eq(t, "multisig-treasury") || str_eq(
        t,
        "treasury",
    ) {
        Some(Template::MultisigTreasury)
    } else if str_eq(t, "nft_marketplace") || str_eq(t, "nft-marketplace") || str_eq(
        t,
        "marketplace",
    ) {
        Some(Template::NftMarketplace)
    } else if str_eq(t, "staking_pool") || str_eq(t, "staking-pool") || str_eq(t, "staking") {
        Some(Template::StakingPool)
    } else if str_eq(t, "oracle_settlement") || str_eq(t, "oracle-settlement") || str_eq(
        t,
        "oracle",
    ) {
        Some(Template::OracleSettlement)
    } else if str_eq(t, "referral_system") || str_eq(t, "referral-system") || str_eq(
        t,
        "referral",
    ) {
        Some(Template::ReferralSystem)
    } else if str_eq(t, "dex_pool") || str_eq(t, "dex-pool") || str_eq(t, "dex") {
        Some(Template::DexPool)
    } else if str_eq(t, "lending_pool") || str_eq(t, "lending-pool") || str_eq(t, "lending") {
        Some(Template::LendingPool)
    } else if str_eq(t, "dao_governance") || str_eq(t, "dao-governance") || str_eq(
        t,
        "governance",
    ) {
        Some(Template::DaoGovernance)
    } else if str_eq(t, "streaming_payments") || str_eq(t, "streaming-payments") || str_eq(
        t,
        "streaming",
    ) {
        Some(Template::StreamingPayments)
    } else if str_eq(t, "custom") {
        Some(Template::Custom)
    } else {
        None
    }
}

impl core::str::FromStr for Template {
    type Err = ();

    /// Resolves a free-text template name through the alias table.
    fn from_str(s: &str) -> (r: core::result::Result<Template, ()>)
        ensures
            match r {
                Ok(t) => spec_template_of_name(s@) == Some(t),
                Err(()) => spec_template_of_name(s@) is None,
            },
    {
        match parse_template_name(s) {
            Some(t) => Ok(t),
            None => Err(()),
        }
    }
}

/// Options for generating a contract.
#[derive(Debug, Clone)]
pub struct GenerateOptions {
    /// Template to use.
    pub template: Template,
    /// Project namespace.
    pub namespace: String,
    /// Project name, used in the project manifest.
    pub project_name: String,
    /// Module name in snake case, used in library paths and imports.
    pub module_name: String,
    /// Human-readable description.
    pub description: String,
    /// Validator name in snake case.
    pub validator_name: String,
    /// Token display name, for the simple-mint template.
    pub token_name: Option<String>,
    /// On-chain asset name, for the simple-mint template.
    pub asset_name: Option<String>,
    /// Enable the time-lock on minting, for the simple-mint template.
    pub time_lock: bool,
    /// Allow the owner to cancel before the lock period, for vesting.
    pub cancellable: bool,
    /// Allow partial claims with value preservation, for vesting.
    pub partial_claim: bool,
    /// Validator purpose: `spend` or `mint`.
    pub purpose: String,
    /// Custom datum field declarations.
    pub datum_fields: Vec<DatumField>,
    /// Custom redeemer action declarations.
    pub redeemer_actions: Vec<RedeemerAction>,
    /// Selected feature names.
    pub feature_names: Vec<String>,
}

/// The snake-case form of a project name: dashes become underscores and
/// ASCII uppercase letters are lowered.
pub open spec fn spec_snake_case(s: Seq<char>) -> Seq<char> {
    spec_fold_alias(s)
}

/// The common shape of every template constructor's result: the catalog
/// member, the caller's names, the derived module name, description and
/// validator name, the purpose, and empty custom-schema lists.
pub open spec fn spec_std_options(
    r: GenerateOptions,
    t: Template,
    ns: Seq<char>,
    pn: Seq<char>,
    desc: Seq<char>,
    vname: Seq<char>,
    purpose: Seq<char>,
) -> bool {
    &&& r.template == t
    &&& r.namespace@ == ns
    &&& r.project_name@ == pn
    &&& r.module_name@ == spec_snake_case(pn)
    &&& r.description@ == desc
    &&& r.validator_name@ == vname
    &&& r.purpose@ == purpose
    &&& r.datum_fields@.len() == 0
    &&& r.redeemer_actions@.len() == 0
    &&& r.feature_names@.len() == 0
}

/// The message for an empty naming input.
pub open spec fn msg_name_empty(field: Seq<char>) -> Seq<char> {
    field + " cannot be empty"@
}

/// The message for path separators or traversal in a naming input.
pub open spec fn msg_name_path(field: Seq<char>) -> Seq<char> {
    field + " contains invalid path characters; use letters, digits, '-' or '_' only"@
}

/// The message for other characters outside the allowed set.
pub open spec fn msg_name_chars(field: Seq<char>) -> Seq<char> {
    field + " contains invalid characters; use letters, digits, '-' or '_' only"@
}

/// Whether the value holds a path separator, a drive colon or `..`.
pub open spec fn spec_has_path_chars(v: Seq<char>) -> bool {
    ||| spec_find_char(v, '/') is Some
    ||| spec_find_char(v, '\\') is Some
    ||| spec_find_char(v, ':') is Some
    ||| spec_find_pair(v, '.', '.') is Some
}

/// Whether every character is a letter, a digit, `-` or `_`.
pub open spec fn spec_name_chars_ok(v: Seq<char>) -> bool {
    forall|i: int|
        0 <= i < v.len() ==> is_ascii_alnum(#[trigger] v[i]) || v[i] == '-' || v[i] == '_'
}

/// What validating one naming input yields: empty values, path characters
/// and characters outside the allowed set are rejected, in that order.
pub open spec fn spec_validate_name_part(v: Seq<char>, field: Seq<char>) -> Result<
    (),
    Seq<char>,
> {
    if v.len() == 0 {
        Result::Err(msg_name_empty(field))
    } else if spec_has_path_chars(v) {
        Result::Err(msg_name_path(field))
    } else if !spec_name_chars_ok(v) {
        Result::Err(msg_name_chars(field))
    } else {
        Result::Ok(())
    }
}

/// Validates one user-controlled naming input before it is used in paths
/// and imports.
#[verifier::loop_isolation(false)]
pub fn validate_name_part(value: &str, field: &str) -> (r: Result<(), String>)
    ensures
        match r {
            Ok(()) => spec_validate_name_part(value@, field@) is Ok,
            Err(m) => spec_validate_name_part(value@, field@) == Result::<(), Seq<char>>::Err(
                m@,
            ),
        },
{
    let n = value.unicode_len();
    if n == 0 {
        let mut msg = String::from_str(field);
        msg.append(" cannot be empty");
        return Err(msg);
    }
    let slash = find_char(value, '/');
    let back = find_char(value, '\\');
    let colon = find_char(value, ':');
    let dots = find_pair(value, '.', '.');
    if slash.is_some() || back.is_some() || colon.is_some() || dots.is_some() {
        let mut msg = String::from_str(field);
        msg.append(" contains invalid path characters; use letters, digits, '-' or '_' only");
        return Err(msg);
    }
    let mut i: usize = 0;
    while i < n
        invariant
            n == value@.len(),
            0 <= i <= n,
            forall|j: int|
                0 <= j < i ==> is_ascii_alnum(#[trigger] value@[j]) || value@[j] == '-'
                    || value@[j] == '_',
        decreases n - i,
    {
        let c = value.get_char(i);
        let ok = ('a' <= c && c <= 'z') || ('A' <= c && c <= 'Z') || ('0' <= c && c <= '9') || c
            == '-' || c == '_';
        if !ok {
            let mut msg = String::from_str(field);
            msg.append(" contains invalid characters; use letters, digits, '-' or '_' only");
            return Err(msg);
        }
        i = i + 1;
    }
    Ok(())
}

impl GenerateOptions {
    /// Validates the user-controlled namespace and project name before they
    /// are used in paths and imports; the namespace is checked first.
    pub fn validate_namespace_and_project(namespace: &str, project_name: &str) -> (r: Result<
        (),
        String,
    >)
        ensures
            match r {
                Ok(()) => spec_validate_name_part(namespace@, "namespace"@) is Ok
                    && spec_validate_name_part(project_name@, "project_name"@) is Ok,
                Err(m) => {
                    ||| spec_validate_name_part(namespace@, "namespace"@) == Result::<
                        (),
                        Seq<char>,
                    >::Err(m@)
                    ||| (spec_validate_name_part(namespace@, "namespace"@) is Ok
                        && spec_validate_name_part(project_name@, "project_name"@) == Result::<
                        (),
                        Seq<char>,
                    >::Err(m@))
                },
            },
    {
        match validate_name_part(namespace, "namespace") {
            Ok(()) => {},
            Err(m) => {
                return Err(m);
            },
        }
        match validate_name_part(project_name, "project_name") {
            Ok(()) => {},
            Err(m) => {
                return Err(m);
            },
        }
        Ok(())
    }


    /// Creates options for a simple mint template.
    pub fn simple_mint(
        namespace: &str,
        project_name: &str,
        token_name: &str,
        asset_name: &str,
        time_lock: bool,
    ) -> (r: Self)
        ensures
            spec_std_options(
                r,
                Template::SimpleMint,
                namespace@,
                project_name@,
                token_name@ + " minting policy"@,
                spec_snake_case(project_name@) + "_mint"@,
                "mint"@,
            ),
            r.token_name matches Some(t) && t@ == token_name@,
            r.asset_name matches Some(a) && a@ == asset_name@,
            r.time_lock == time_lock,
            !r.cancellable,
            !r.partial_claim,
    {
        let module_name = Self::to_snake_case(project_name);
        let mut description = String::from_str(token_name);
        description.append(" minting policy");
        let mut validator_name = module_name.clone();
        validator_name.append("_mint");
        GenerateOptions {
            template: Template::SimpleMint,
            namespace: namespace.to_owned(),
            project_name: project_name.to_owned(),
            module_name,
            description,
            validator_name,
            token_name: Some(token_name.to_owned()),
            asset_name: Some(asset_name.to_owned()),
            time_lock,
            cancellable: false,
            partial_claim: false,
            purpose: String::from_str("mint"),
            datum_fields: Vec::new(),
            redeemer_actions: Vec::new(),
            feature_names: Vec::new(),
        }
    }

    /// Creates options for a vesting template.
    pub fn vesting(
        namespace: &str,
        project_name: &str,
        cancellable: bool,
        partial_claim: bool,
    ) -> (r: Self)
        ensures
            spec_std_options(
                r,
                Template::Vesting,
                namespace@,
                project_name@,
                project_name@ + " vesting contract"@,
                spec_snake_case(project_name@) + "_vesting"@,
                "spend"@,
            ),
            r.token_name is None,
            r.asset_name is None,
            !r.time_lock,
            r.cancellable == cancellable,
            r.partial_claim == partial_claim,
    {
        let module_name = Self::to_snake_case(project_name);
        let mut description = String::from_str(project_name);
        description.append(" vesting contract");
        let mut validator_name = module_name.clone();
        validator_name.append("_vesting");
        GenerateOptions {
            template: Template::Vesting,
            namespace: namespace.to_owned(),
            project_name: project_name.to_owned(),
            module_name,
            description,
            validator_name,
            token_name: None,
            asset_name: None,
            time_lock: false,
            cancellable,
            partial_claim,
            purpose: String::from_str("spend"),
            datum_fields: Vec::new(),
            redeemer_actions: Vec::new(),
            feature_names: Vec::new(),
        }
    }

    /// Creates options for the custom composable template.
    pub fn custom(
        namespace: &str,
        project_name: &str,
        purpose: &str,
        datum_fields: Vec<DatumField>,
        redeemer_actions: Vec<RedeemerAction>,
        feature_names: Vec<String>,
    ) -> (r: Self)
        ensures
            r.template == Template::Custom,
            r.namespace@ == namespace@,
            r.project_name@ == project_name@,
            r.module_name@ == spec_snake_case(project_name@),
            r.description@ == project_name@ + " custom "@ + purpose@ + " validator"@,
            r.validator_name@ == spec_snake_case(project_name@) + "_"@ + (if purpose@
                == "mint"@ {
                "mint"@
            } else {
                "validator"@
            }),
            r.token_name is None,
            r.asset_name is None,
            !r.time_lock,
            !r.cancellable,
            !r.partial_claim,
            r.purpose@ == purpose@,
            r.datum_fields == datum_fields,
            r.redeemer_actions == redeemer_actions,
            r.feature_names == feature_names,
    {
        let module_name = Self::to_snake_case(project_name);
        let suffix: &str = if str_eq(purpose, "mint") {
            "mint"
        } else {
            "validator"
        };
        let mut description = String::from_str(project_name);
        description.append(" custom ");
        description.append(purpose);
        description.append(" validator");
        let mut validator_name = module_name.clone();
        validator_name.append("_");
        validator_name.append(suffix);
        GenerateOptions {
            template: Template::Custom,
            namespace: namespace.to_owned(),
            project_name: project_name.to_owned(),
            module_name,
            description,
            validator_name,
            token_name: None,
            asset_name: None,
            time_lock: false,
            cancellable: false,
            partial_claim: false,
            purpose: purpose.to_owned(),
            datum_fields,
            redeemer_actions,
            feature_names,
        }
    }

    /// Creates options for an escrow template.
    pub fn escrow(namespace: &str, project_name: &str) -> (r: Self)
        ensures
            spec_std_options(
                r,
                Template::Escrow,
                namespace@,
                project_name@,
                project_name@ + " escrow contract"@,
                spec_snake_case(project_name@) + "_escrow"@,
                "spend"@,
            ),
            r.token_name is None,
            r.asset_name is None,
            !r.time_lock,
            !r.cancellable,
            !r.partial_claim,
    {
        let module_name = Self::to_snake_case(project_name);
        let mut description = String::from_str(project_name);
        description.append(" escrow contract");
        let mut validator_name = module_name.clone();
        validator_name.append("_escrow");
        GenerateOptions {
            template: Template::Escrow,
            namespace: namespace.to_owned(),
            project_name: project_name.to_owned(),
            module_name,
            description,
            validator_name,
            token_name: None,
            asset_name: None,
            time_lock: false,
            cancellable: false,
            partial_claim: false,
            purpose: String::from_str("spend"),
            datum_fields: Vec::new(),
            redeemer_actions: Vec::new(),
            feature_names: Vec::new(),
        }
    }

    /// Creates options for a multisig treasury template.
    pub fn multisig_treasury(namespace: &str, project_name: &str) -> (r: Self)
        ensures
            spec_std_options(
                r,
                Template::MultisigTreasury,
                namespace@,
                project_name@,
                project_name@ + " multisig treasury"@,
                spec_snake_case(project_name@) + "_treasury"@,
                "spend"@,
            ),
            r.token_name is None,
            r.asset_name is None,
            !r.time_lock,
            !r.cancellable,
            !r.partial_claim,
    {
        let module_name = Self::to_snake_case(project_name);
        let mut description = String::from_str(project_name);
        description.append(" multisig treasury");
        let mut validator_name = module_name.clone();
        validator_name.append("_treasury");
        GenerateOptions {
            template: Template::MultisigTreasury,
            namespace: namespace.to_owned(),
            project_name: project_name.to_owned(),
            module_name,
            description,
            validator_name,
            token_name: None,
            asset_name: None,
            time_lock: false,
            cancellable: false,
            partial_claim: false,
            purpose: String::from_str("spend"),
            datum_fields: Vec::new(),
            redeemer_actions: Vec::new(),
            feature_names: Vec::new(),
        }
    }

    /// Creates options for an oracle settlement template.
    pub fn oracle_settlement(namespace: &str, project_name: &str) -> (r: Self)
        ensures
            spec_std_options(
                r,
                Template::OracleSettlement,
                namespace@,
                project_name@,
                project_name@ + " oracle settlement"@,
                spec_snake_case(project_name@) + "_settlement"@,
                "spend"@,
            ),
            r.token_name is None,
            r.asset_name is None,
            !r.time_lock,
            !r.cancellable,
            !r.partial_claim,
    {
        let module_name = Self::to_snake_case(project_name);
        let mut description = String::from_str(project_name);
        description.append(" oracle settlement");
        let mut validator_name = module_name.clone();
        validator_name.append("_settlement");
        GenerateOptions {
            template: Template::OracleSettlement,
            namespace: namespace.to_owned(),
            project_name: project_name.to_owned(),
            module_name,
            description,
            validator_name,
            token_name: None,
            asset_name: None,
            time_lock: false,
            cancellable: false,
            partial_claim: false,
            purpose: String::from_str("spend"),
            datum_fields: Vec::new(),
            redeemer_actions: Vec::new(),
            feature_names: Vec::new(),
        }
    }

    /// Creates options for a staking pool template.
    pub fn staking_pool(namespace: &str, project_name: &str) -> (r: Self)
        ensures
            spec_std_options(
                r,
                Template::StakingPool,
                namespace@,
                project_name@,
                project_name@ + " staking pool"@,
                spec_snake_case(project_name@) + "_pool"@,
                "spend"@,
            ),
            r.token_name is None,
            r.asset_name is None,
            !r.time_lock,
            !r.cancellable,
            !r.partial_claim,
    {
        let module_name = Self::to_snake_case(project_name);
        let mut description = String::from_str(project_name);
        description.append(" staking pool");
        let mut validator_name = module_name.clone();
        validator_name.append("_pool");
        GenerateOptions {
            template: Template::StakingPool,
            namespace: namespace.to_owned(),
            project_name: project_name.to_owned(),
            module_name,
            description,
            validator_name,
            token_name: None,
            asset_name: None,
            time_lock: false,
            cancellable: false,
            partial_claim: false,
            purpose: String::from_str("spend"),
            datum_fields: Vec::new(),
            redeemer_actions: Vec::new(),
            feature_names: Vec::new(),
        }
    }

    /// Creates options for an NFT marketplace template.
    pub fn nft_marketplace(namespace: &str, project_name: &str) -> (r: Self)
        ensures
            spec_std_options(
                r,
                Template::NftMarketplace,
                namespace@,
                project_name@,
                project_name@ + " NFT marketplace"@,
                spec_snake_case(project_name@) + "_marketplace"@,
                "spend"@,
            ),
            r.token_name is None,
            r.asset_name is None,
            !r.time_lock,
            !r.cancellable,
            !r.partial_claim,
    {
        let module_name = Self::to_snake_case(project_name);
        let mut description = String::from_str(project_name);
        description.append(" NFT marketplace");
        let mut validator_name = module_name.clone();
        validator_name.append("_marketplace");
        GenerateOptions {
            template: Template::NftMarketplace,
            namespace: namespace.to_owned(),
            project_name: project_name.to_owned(),
            module_name,
            description,
            validator_name,
            token_name: None,
            asset_name: None,
            time_lock: false,
            cancellable: false,
            partial_claim: false,
            purpose: String::from_str("spend"),
            datum_fields: Vec::new(),
            redeemer_actions: Vec::new(),
            feature_names: Vec::new(),
        }
    }

    /// Creates options for a referral system template.
    pub fn referral_system(namespace: &str, project_name: &str) -> (r: Self)
        ensures
            spec_std_options(
                r,
                Template::ReferralSystem,
                namespace@,
                project_name@,
                project_name@ + " referral system"@,
                spec_snake_case(project_name@) + "_referral"@,
                "spend"@,
            ),
            r.token_name is None,
            r.asset_name is None,
            !r.time_lock,
            !r.cancellable,
            !r.partial_claim,
    {
        let module_name = Self::to_snake_case(project_name);
        let mut description = String::from_str(project_name);
        description.append(" referral system");
        let mut validator_name = module_name.clone();
        validator_name.append("_referral");
        GenerateOptions {
            template: Template::ReferralSystem,
            namespace: namespace.to_owned(),
            project_name: project_name.to_owned(),
            module_name,
            description,
            validator_name,
            token_name: None,
            asset_name: None,
            time_lock: false,
            cancellable: false,
            partial_claim: false,
            purpose: String::from_str("spend"),
            datum_fields: Vec::new(),
            redeemer_actions: Vec::new(),
            feature_names: Vec::new(),
        }
    }

    /// Creates options for a DEX pool template.
    pub fn dex_pool(namespace: &str, project_name: &str) -> (r: Self)
        ensures
            spec_std_options(
                r,
                Template::DexPool,
                namespace@,
                project_name@,
                project_name@ + " DEX pool"@,
                spec_snake_case(project_name@) + "_pool"@,
                "spend"@,
            ),
            r.token_name is None,
            r.asset_name is None,
            !r.time_lock,
            !r.cancellable,
            !r.partial_claim,
    {
        let module_name = Self::to_snake_case(project_name);
        let mut description = String::from_str(project_name);
        description.append(" DEX pool");
        let mut validator_name = module_name.clone();
        validator_name.append("_pool");
        GenerateOptions {
            template: Template::DexPool,
            namespace: namespace.to_owned(),
            project_name: project_name.to_owned(),
            module_name,
            description,
            validator_name,
            token_name: None,
            asset_name: None,
            time_lock: false,
            cancellable: false,
            partial_claim: false,
            purpose: String::from_str("spend"),
            datum_fields: Vec::new(),
            redeemer_actions: Vec::new(),
            feature_names: Vec::new(),
        }
    }

    /// Creates options for a lending pool template.
    pub fn lending_pool(namespace: &str, project_name: &str) -> (r: Self)
        ensures
            spec_std_options(
                r,
                Template::LendingPool,
                namespace@,
                project_name@,
                project_name@ + " lending pool"@,
                spec_snake_case(project_name@) + "_lending"@,
                "spend"@,
            ),
            r.token_name is None,
            r.asset_name is None,
            !r.time_lock,
            !r.cancellable,
            !r.partial_claim,
    {
        let module_name = Self::to_snake_case(project_name);
        let mut description = String::from_str(project_name);
        description.append(" lending pool");
        let mut validator_name = module_name.clone();
        validator_name.append("_lending");
        GenerateOptions {
            template: Template::LendingPool,
            namespace: namespace.to_owned(),
            project_name: project_name.to_owned(),
            module_name,
            description,
            validator_name,
            token_name: None,
            asset_name: None,
            time_lock: false,
            cancellable: false,
            partial_claim: false,
            purpose: String::from_str("spend"),
            datum_fields: Vec::new(),
            redeemer_actions: Vec::new(),
            feature_names: Vec::new(),
        }
    }

    /// Creates options for a DAO governance template.
    pub fn dao_governance(namespace: &str, project_name: &str) -> (r: Self)
        ensures
            spec_std_options(
                r,
                Template::DaoGovernance,
                namespace@,
                project_name@,
                project_name@ + " DAO governance"@,
                spec_snake_case(project_name@) + "_governance"@,
                "spend"@,
            ),
            r.token_name is None,
            r.asset_name is None,
            !r.time_lock,
            !r.cancellable,
            !r.partial_claim,
    {
        let module_name = Self::to_snake_case(project_name);
        let mut description = String::from_str(project_name);
        description.append(" DAO governance");
        let mut validator_name = module_name.clone();
        validator_name.append("_governance");
        GenerateOptions {
            template: Template::DaoGovernance,
            namespace: namespace.to_owned(),
            project_name: project_name.to_owned(),
            module_name,
            description,
            validator_name,
            token_name: None,
            asset_name: None,
            time_lock: false,
            cancellable: false,
            partial_claim: false,
            purpose: String::from_str("spend"),
            datum_fields: Vec::new(),
            redeemer_actions: Vec::new(),
            feature_names: Vec::new(),
        }
    }

    /// Creates options for a streaming payments template.
    pub fn streaming_payments(namespace: &str, project_name: &str) -> (r: Self)
        ensures
            spec_std_options(
                r,
                Template::StreamingPayments,
                namespace@,
                project_name@,
                project_name@ + " streaming payments"@,
                spec_snake_case(project_name@) + "_stream"@,
                "spend"@,
            ),
            r.token_name is None,
            r.asset_name is None,
            !r.time_lock,
            !r.cancellable,
            !r.partial_claim,
    {
        let module_name = Self::to_snake_case(project_name);
        let mut description = String::from_str(project_name);
        description.append(" streaming payments");
        let mut validator_name = module_name.clone();
        validator_name.append("_stream");
        GenerateOptions {
            template: Template::StreamingPayments,
            namespace: namespace.to_owned(),
            project_name: project_name.to_owned(),
            module_name,
            description,
            validator_name,
            token_name: None,
            asset_name: None,
            time_lock: false,
            cancellable: false,
            partial_claim: false,
            purpose: String::from_str("spend"),
            datum_fields: Vec::new(),
            redeemer_actions: Vec::new(),
            feature_names: Vec::new(),
        }
    }

    /// The snake-case form of a project name.
    fn to_snake_case(s: &str) -> (r: String)
        ensures
            r@ == spec_snake_case(s@),
    {
        fold_alias(s)
    }
}

} // verus!
