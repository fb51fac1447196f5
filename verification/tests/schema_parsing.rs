//! Schema parsing: the datum and redeemer grammars, the structural
//! compatibility checks, and serializing a schema back to its text.

use kaido_core::error::KaidoError;
use kaido_core::features::types::{
    parse_datum_fields, parse_redeemer_actions, serialize_datum_fields,
    validate_features_against_types, DatumField,
};
use kaido_core::features::Feature;

#[test]
fn test_parse_datum_simple() {
    let fields = parse_datum_fields("owner:ByteArray,amount:Int").unwrap();
    assert_eq!(fields.len(), 2);
    assert_eq!(fields[0].name, "owner");
    assert_eq!(fields[0].aiken_type, "ByteArray");
    assert_eq!(fields[1].name, "amount");
    assert_eq!(fields[1].aiken_type, "Int");
}

#[test]
fn test_parse_datum_with_list() {
    let fields = parse_datum_fields("signers:List<ByteArray>,count:Int").unwrap();
    assert_eq!(fields.len(), 2);
    assert_eq!(fields[0].aiken_type, "List<ByteArray>");
}

#[test]
fn test_parse_datum_empty() {
    let fields = parse_datum_fields("").unwrap();
    assert!(fields.is_empty());
}

#[test]
fn test_parse_datum_invalid_type() {
    let result = parse_datum_fields("owner:String");
    assert!(result.is_err());
}

#[test]
fn test_parse_datum_bad_format() {
    let result = parse_datum_fields("ownerByteArray");
    assert!(result.is_err());
}

#[test]
fn test_parse_datum_uppercase_name() {
    let result = parse_datum_fields("Owner:ByteArray");
    assert!(result.is_err());
}

#[test]
fn test_parse_redeemer_simple() {
    let actions = parse_redeemer_actions("Claim,Cancel").unwrap();
    assert_eq!(actions.len(), 2);
    assert_eq!(actions[0].name, "Claim");
    assert!(actions[0].fields.is_empty());
    assert_eq!(actions[1].name, "Cancel");
}

#[test]
fn test_parse_redeemer_with_fields() {
    let actions = parse_redeemer_actions("Claim,Withdraw(amount:Int)").unwrap();
    assert_eq!(actions.len(), 2);
    assert_eq!(actions[1].name, "Withdraw");
    assert_eq!(actions[1].fields.len(), 1);
    assert_eq!(actions[1].fields[0].0, "amount");
    assert_eq!(actions[1].fields[0].1, "Int");
}

#[test]
fn test_parse_redeemer_empty() {
    let result = parse_redeemer_actions("");
    assert!(result.is_err());
}

#[test]
fn test_parse_redeemer_lowercase_fails() {
    let result = parse_redeemer_actions("claim");
    assert!(result.is_err());
}

#[test]
fn test_validate_timelock_needs_int() {
    let features = vec![Feature::TimeLock];
    let fields = vec![DatumField {
        name: "owner".to_string(),
        aiken_type: "ByteArray".to_string(),
    }];
    assert!(validate_features_against_types(&features, &fields, "spend").is_err());

    let fields_ok = vec![
        DatumField {
            name: "owner".to_string(),
            aiken_type: "ByteArray".to_string(),
        },
        DatumField {
            name: "deadline".to_string(),
            aiken_type: "Int".to_string(),
        },
    ];
    assert!(validate_features_against_types(&features, &fields_ok, "spend").is_ok());
}

#[test]
fn test_validate_burn_needs_mint_purpose() {
    let features = vec![Feature::BurnVerification];
    assert!(validate_features_against_types(&features, &[], "spend").is_err());
    assert!(validate_features_against_types(&features, &[], "mint").is_ok());
}

#[test]
fn datum_schema_round_trips() {
    let fields = parse_datum_fields("owner:ByteArray,amount:Int").unwrap();
    assert_eq!(fields[0].name, "owner");
    assert_eq!(fields[0].aiken_type, "ByteArray");
    assert_eq!(fields[1].name, "amount");
    assert_eq!(fields[1].aiken_type, "Int");
    let text = serialize_datum_fields(&fields);
    assert_eq!(text, "owner:ByteArray,amount:Int");
    let again = parse_datum_fields(&text).unwrap();
    assert_eq!(again.len(), 2);
    assert_eq!(again[0].name, "owner");
    assert_eq!(again[1].name, "amount");
}

#[test]
fn datum_parse_trims_blanks() {
    let fields = parse_datum_fields("  owner : ByteArray , deadline : Int  ").unwrap();
    assert_eq!(fields.len(), 2);
    assert_eq!(fields[0].name, "owner");
    assert_eq!(fields[1].name, "deadline");
    assert_eq!(fields[1].aiken_type, "Int");
}

#[test]
fn datum_error_names_the_offender() {
    let err = parse_datum_fields("owner:ByteArray,rate:Float").unwrap_err();
    assert!(matches!(err, KaidoError::ParseError(_)));
    assert_eq!(
        err.message(),
        "Unsupported type 'Float'. Supported: ByteArray, Int, Bool, List<ByteArray>, List<Int>"
    );
    let err = parse_datum_fields("Owner:ByteArray").unwrap_err();
    assert_eq!(
        err.message(),
        "Datum field name 'Owner' must start with a lowercase letter"
    );
    let err = parse_datum_fields("ownerByteArray").unwrap_err();
    assert_eq!(
        err.message(),
        "Invalid datum field 'ownerByteArray'. Expected format: name:Type (e.g., owner:ByteArray)"
    );
}

#[test]
fn redeemer_commas_inside_parens_do_not_split() {
    let actions = parse_redeemer_actions("Withdraw(amount:Int, to:ByteArray),Claim").unwrap();
    assert_eq!(actions.len(), 2);
    assert_eq!(actions[0].name, "Withdraw");
    assert_eq!(actions[0].fields.len(), 2);
    assert_eq!(actions[0].fields[0].0, "amount");
    assert_eq!(actions[0].fields[1].0, "to");
    assert_eq!(actions[0].fields[1].1, "ByteArray");
    assert_eq!(actions[1].name, "Claim");
}

#[test]
fn redeemer_trailing_comma_is_tolerated() {
    let actions = parse_redeemer_actions("Claim,").unwrap();
    assert_eq!(actions.len(), 1);
    assert_eq!(actions[0].name, "Claim");
}

#[test]
fn redeemer_rejects_malformed_parens() {
    assert!(parse_redeemer_actions("Foo(").is_err());
    assert!(parse_redeemer_actions("Foo()").is_err());
    let err = parse_redeemer_actions("Foo(x:Float)").unwrap_err();
    assert_eq!(
        err.message(),
        "Unsupported type 'Float' in redeemer field. Supported: ByteArray, Int, Bool, \
         List<ByteArray>, List<Int>"
    );
}

#[test]
fn redeemer_empty_input_message() {
    let err = parse_redeemer_actions("   ").unwrap_err();
    assert!(matches!(err, KaidoError::ParseError(_)));
    assert_eq!(err.message(), "At least one redeemer action is required");
}

#[test]
fn validate_reports_schema_incompatibility() {
    let features = vec![Feature::TimeLock];
    let fields = vec![DatumField {
        name: "owner".to_string(),
        aiken_type: "ByteArray".to_string(),
    }];
    let err = validate_features_against_types(&features, &fields, "spend").unwrap_err();
    assert!(matches!(err, KaidoError::SchemaIncompatibility(_)));
    assert_eq!(
        err.message(),
        "Feature 'timelock' requires at least one Int field in datum (e.g., deadline:Int)"
    );
    let err = validate_features_against_types(&[Feature::DatumContinuity], &[], "mint")
        .unwrap_err();
    assert!(matches!(err, KaidoError::PurposeMismatch(_)));
    assert_eq!(
        err.message(),
        "Feature 'datum-continuity' requires purpose 'spend'"
    );
}

#[test]
fn datum_trailing_comma_is_an_error() {
    let err = parse_datum_fields("owner:ByteArray,").unwrap_err();
    assert_eq!(
        err.message(),
        "Invalid datum field ''. Expected format: name:Type (e.g., owner:ByteArray)"
    );
}

#[test]
fn serialize_empty_schema_is_empty() {
    assert_eq!(serialize_datum_fields(&[]), "");
    let fields = parse_datum_fields("a:Int,b:Bool,c:List<Int>").unwrap();
    assert_eq!(serialize_datum_fields(&fields), "a:Int,b:Bool,c:List<Int>");
}
