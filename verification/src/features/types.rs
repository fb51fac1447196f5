//! The user-declared data schema: typed datum fields and redeemer actions,
//! parsed from two small comma-separated grammars, and the structural
//! compatibility checks between selected features and the schema.
//!
//! The datum grammar is `name:Type(,name:Type)*`; an empty input is an empty
//! schema. The redeemer grammar is `Name` or `Name(field:Type, ...)`,
//! comma-separated, where commas inside parentheses do not separate actions;
//! at least one action is required. Types come from a fixed, finite universe.

use vstd::prelude::*;

use crate::error::KaidoError;
use crate::features::Feature;
use crate::text::{
    find_char, is_ascii_lower, is_ascii_upper, is_space, join_strs, lemma_find_char_at,
    lemma_find_char_props, lemma_fold_parse_err, lemma_split_at_first, lemma_split_no_sep,
    lemma_trim_noop, spec_find_char, spec_fold_parse, spec_join, spec_split, spec_trim,
    split_char, str_eq, trim_str, views,
};

verus! {

/// A field in a custom datum type.
#[derive(Debug, Clone)]
pub struct DatumField {
    pub name: String,
    pub aiken_type: String,
}

/// A redeemer action: one variant of the redeemer enum, with typed fields.
#[derive(Debug, Clone)]
pub struct RedeemerAction {
    pub name: String,
    pub fields: Vec<(String, String)>,
}

/// The view of a datum field: its name and type as character sequences.
pub open spec fn df_view(f: DatumField) -> (Seq<char>, Seq<char>) {
    (f.name@, f.aiken_type@)
}

/// The views of a vector of datum fields.
pub open spec fn df_views(q: Seq<DatumField>) -> Seq<(Seq<char>, Seq<char>)> {
    q.map_values(|f: DatumField| df_view(f))
}

/// The view of a redeemer action: its name and `(name, type)` field pairs.
pub open spec fn ra_view(a: RedeemerAction) -> (Seq<char>, Seq<(Seq<char>, Seq<char>)>) {
    (a.name@, a.fields@.map_values(|p: (String, String)| (p.0@, p.1@)))
}

/// The views of a vector of redeemer actions.
pub open spec fn ra_views(q: Seq<RedeemerAction>) -> Seq<
    (Seq<char>, Seq<(Seq<char>, Seq<char>)>),
> {
    q.map_values(|a: RedeemerAction| ra_view(a))
}

/// Whether `t` belongs to the fixed type universe.
pub open spec fn spec_valid_type(t: Seq<char>) -> bool {
    ||| t == "ByteArray"@
    ||| t == "Int"@
    ||| t == "Bool"@
    ||| t == "List<ByteArray>"@
    ||| t == "List<Int>"@
}

/// The type universe, spelled out for error messages.
pub open spec fn spec_types_list() -> Seq<char> {
    "ByteArray, Int, Bool, List<ByteArray>, List<Int>"@
}

/// The message for a datum entry without a `name:Type` shape.
pub open spec fn msg_invalid_datum_field(part: Seq<char>) -> Seq<char> {
    "Invalid datum field '"@ + part
        + "'. Expected format: name:Type (e.g., owner:ByteArray)"@
}

/// The message for a datum field name that does not start lowercase.
pub open spec fn msg_datum_field_name(name: Seq<char>) -> Seq<char> {
    "Datum field name '"@ + name + "' must start with a lowercase letter"@
}

/// The message for a datum type outside the universe.
pub open spec fn msg_unsupported_datum_type(ty: Seq<char>) -> Seq<char> {
    "Unsupported type '"@ + ty + "'. Supported: "@ + spec_types_list()
}

/// One datum entry: trimmed, split at the first `:`, both sides trimmed; the
/// name must start with a lowercase ASCII letter and the type must belong to
/// the universe.
pub open spec fn spec_parse_datum_part(part: Seq<char>) -> Result<
    (Seq<char>, Seq<char>),
    Seq<char>,
> {
    let pt = spec_trim(part);
    match spec_find_char(pt, ':') {
        None => Result::Err(msg_invalid_datum_field(pt)),
        Some(p) => {
            let name = spec_trim(pt.take(p));
            let ty = spec_trim(pt.skip(p + 1));
            if name.len() == 0 || !is_ascii_lower(name[0]) {
                Result::Err(msg_datum_field_name(name))
            } else if !spec_valid_type(ty) {
                Result::Err(msg_unsupported_datum_type(ty))
            } else {
                Result::Ok((name, ty))
            }
        },
    }
}

/// The whole datum grammar: an all-blank input is an empty schema; otherwise
/// the trimmed input splits at every comma and each piece must parse.
pub open spec fn spec_parse_datum_fields(input: Seq<char>) -> Result<
    Seq<(Seq<char>, Seq<char>)>,
    Seq<char>,
> {
    let t = spec_trim(input);
    if t.len() == 0 {
        Result::Ok(Seq::<(Seq<char>, Seq<char>)>::empty())
    } else {
        spec_fold_parse(spec_split(t, ','), |p: Seq<char>| spec_parse_datum_part(p))
    }
}

/// Whether `t` spells a type of the universe.
pub fn is_valid_type(t: &str) -> (r: bool)
    ensures
        r == spec_valid_type(t@),
{
    str_eq(t, "ByteArray") || str_eq(t, "Int") || str_eq(t, "Bool") || str_eq(
        t,
        "List<ByteArray>",
    ) || str_eq(t, "List<Int>")
}

/// Parses datum field declarations, `name:Type` pairs separated by commas.
/// Succeeds exactly when every entry is well-formed, returning the fields in
/// declaration order; an all-blank input yields an empty schema. Fails on
/// the first offending entry, naming it in the message.
pub fn parse_datum_fields(input: &str) -> (r: Result<Vec<DatumField>, KaidoError>)
    ensures
        match r {
            Ok(v) => spec_parse_datum_fields(input@) == Result::<
                Seq<(Seq<char>, Seq<char>)>,
                Seq<char>,
            >::Ok(df_views(v@)),
            Err(e) => e matches KaidoError::ParseError(m) && spec_parse_datum_fields(input@)
                == Result::<Seq<(Seq<char>, Seq<char>)>, Seq<char>>::Err(m@),
        },
{
    let t = trim_str(input);
    if t.unicode_len() == 0 {
        let v = Vec::<DatumField>::new();
        proof {
            assert(df_views(v@) =~= Seq::<(Seq<char>, Seq<char>)>::empty());
        }
        return Ok(v);
    }
    let parts = split_char(t, ',');
    let ghost pviews = spec_split(t@, ',');
    let ghost pf = |p: Seq<char>| spec_parse_datum_part(p);
    let mut fields: Vec<DatumField> = Vec::new();
    let n = parts.len();
    let mut i: usize = 0;
    proof {
        assert(pviews.take(0) =~= Seq::<Seq<char>>::empty());
        assert(df_views(fields@) =~= Seq::<(Seq<char>, Seq<char>)>::empty());
    }
    while i < n
        invariant
            n == parts@.len(),
            0 <= i <= n,
            views(parts@) == pviews,
            pviews == spec_split(t@, ','),
            t@ == spec_trim(input@),
            t@.len() != 0,
            pf == (|p: Seq<char>| spec_parse_datum_part(p)),
            spec_fold_parse(pviews.take(i as int), pf) == Result::<
                Seq<(Seq<char>, Seq<char>)>,
                Seq<char>,
            >::Ok(df_views(fields@)),
        decreases n - i,
    {
        let ghost prev = df_views(fields@);
        proof {
            assert(pviews.take(i + 1).drop_last() =~= pviews.take(i as int));
            assert(pviews.take(i + 1).last() == parts@[i as int]@);
        }
        let pt = trim_str(parts[i].as_str());
        let ptn = pt.unicode_len();
        match find_char(pt, ':') {
            None => {
                proof {
                    lemma_fold_parse_err(pviews, pf, i + 1);
                }
                let mut msg = String::from_str("Invalid datum field '");
                msg.append(pt);
                msg.append("'. Expected format: name:Type (e.g., owner:ByteArray)");
                return Err(KaidoError::ParseError(msg));
            },
            Some(p) => {
                proof {
                    lemma_find_char_props(pt@, ':');
                }
                let name_s = trim_str(pt.substring_char(0, p));
                let ty_s = trim_str(pt.substring_char(p + 1, ptn));
                proof {
                    assert(pt@.subrange(0, p as int) =~= pt@.take(p as int));
                    assert(pt@.subrange(p + 1, ptn as int) =~= pt@.skip(p + 1));
                }
                if name_s.unicode_len() == 0 || !{
                    let c = name_s.get_char(0);
                    'a' <= c && c <= 'z'
                } {
                    proof {
                        lemma_fold_parse_err(pviews, pf, i + 1);
                    }
                    let mut msg = String::from_str("Datum field name '");
                    msg.append(name_s);
                    msg.append("' must start with a lowercase letter");
                    return Err(KaidoError::ParseError(msg));
                }
                if !is_valid_type(ty_s) {
                    proof {
                        lemma_fold_parse_err(pviews, pf, i + 1);
                    }
                    let mut msg = String::from_str("Unsupported type '");
                    msg.append(ty_s);
                    msg.append("'. Supported: ");
                    msg.append("ByteArray, Int, Bool, List<ByteArray>, List<Int>");
                    return Err(KaidoError::ParseError(msg));
                }
                let field = DatumField { name: name_s.to_owned(), aiken_type: ty_s.to_owned() };
                proof {
                    assert(df_view(field) == (name_s@, ty_s@));
                    assert(df_views(fields@.push(field)) =~= prev.push((name_s@, ty_s@)));
                }
                fields.push(field);
            },
        }
        i = i + 1;
    }
    proof {
        assert(pviews.take(n as int) =~= pviews);
    }
    Ok(fields)
}


/// The message when no redeemer action is declared.
pub open spec fn msg_empty_redeemer() -> Seq<char> {
    "At least one redeemer action is required"@
}

/// The message for an action field without a `name:Type` shape.
pub open spec fn msg_invalid_action_field(fp: Seq<char>, aname: Seq<char>) -> Seq<char> {
    "Invalid field '"@ + fp + "' in redeemer action '"@ + aname + "'. Expected name:Type"@
}

/// The message for an action field type outside the universe.
pub open spec fn msg_unsupported_redeemer_type(ty: Seq<char>) -> Seq<char> {
    "Unsupported type '"@ + ty + "' in redeemer field. Supported: "@ + spec_types_list()
}

/// The message for an action name that does not start uppercase.
pub open spec fn msg_action_name(name: Seq<char>) -> Seq<char> {
    "Redeemer action '"@ + name + "' must start with an uppercase letter"@
}

/// The message for an action whose parenthesis opens at the very end.
pub open spec fn msg_malformed_action(part: Seq<char>) -> Seq<char> {
    "Invalid redeemer action '"@ + part + "'. Expected Name or Name(field:Type, ...)"@
}

/// One action field: trimmed, split at the first `:`, both sides trimmed;
/// the type must belong to the universe. Field names are not constrained.
pub open spec fn spec_parse_action_field(fp: Seq<char>, aname: Seq<char>) -> Result<
    (Seq<char>, Seq<char>),
    Seq<char>,
> {
    let ft = spec_trim(fp);
    match spec_find_char(ft, ':') {
        None => Result::Err(msg_invalid_action_field(ft, aname)),
        Some(p) => {
            let fname = spec_trim(ft.take(p));
            let fty = spec_trim(ft.skip(p + 1));
            if !spec_valid_type(fty) {
                Result::Err(msg_unsupported_redeemer_type(fty))
            } else {
                Result::Ok((fname, fty))
            }
        },
    }
}

/// One action: either a bare `Name`, or `Name(...)` whose field list between
/// the first `(` and the last character splits at commas. The fields are
/// parsed before the name's casing is checked; a `(` as the very last
/// character has nothing to close it and is rejected.
pub open spec fn spec_parse_action(part: Seq<char>) -> Result<
    (Seq<char>, Seq<(Seq<char>, Seq<char>)>),
    Seq<char>,
> {
    match spec_find_char(part, '(') {
        None => {
            if part.len() == 0 || !is_ascii_upper(part[0]) {
                Result::Err(msg_action_name(part))
            } else {
                Result::Ok((part, Seq::<(Seq<char>, Seq<char>)>::empty()))
            }
        },
        Some(p) => {
            let aname = spec_trim(part.take(p));
            if p + 1 > part.len() - 1 {
                Result::Err(msg_malformed_action(part))
            } else {
                let inner = spec_trim(part.subrange(p + 1, part.len() - 1));
                match spec_fold_parse(
                    spec_split(inner, ','),
                    |fp: Seq<char>| spec_parse_action_field(fp, aname),
                ) {
                    Result::Err(m) => Result::Err(m),
                    Result::Ok(fs) => {
                        if aname.len() == 0 || !is_ascii_upper(aname[0]) {
                            Result::Err(msg_action_name(aname))
                        } else {
                            Result::Ok((aname, fs))
                        }
                    },
                }
            }
        },
    }
}

/// The action pieces of a trimmed input: split at depth-zero commas, each
/// piece trimmed, and a trailing all-blank piece dropped.
pub open spec fn spec_redeemer_parts(t: Seq<char>) -> Seq<Seq<char>> {
    let raw = crate::text::spec_split_depth(t, 0).map_values(|p: Seq<char>| spec_trim(p));
    if raw.last().len() == 0 {
        raw.drop_last()
    } else {
        raw
    }
}

/// The whole redeemer grammar: the input must not be all blank; its action
/// pieces must each parse.
pub open spec fn spec_parse_redeemer_actions(input: Seq<char>) -> Result<
    Seq<(Seq<char>, Seq<(Seq<char>, Seq<char>)>)>,
    Seq<char>,
> {
    let t = spec_trim(input);
    if t.len() == 0 {
        Result::Err(msg_empty_redeemer())
    } else {
        spec_fold_parse(spec_redeemer_parts(t), |p: Seq<char>| spec_parse_action(p))
    }
}

/// Parses redeemer action declarations: comma-separated `Name` or
/// `Name(field:Type, ...)` entries, where commas inside parentheses do not
/// separate actions. Succeeds exactly when the input declares at least one
/// action and every entry is well-formed, returning the actions in
/// declaration order; fails on the first offending entry, naming it.
#[verifier::loop_isolation(false)]
pub fn parse_redeemer_actions(input: &str) -> (r: Result<Vec<RedeemerAction>, KaidoError>)
    ensures
        match r {
            Ok(v) => spec_parse_redeemer_actions(input@) == Result::<
                Seq<(Seq<char>, Seq<(Seq<char>, Seq<char>)>)>,
                Seq<char>,
            >::Ok(ra_views(v@)),
            Err(e) => e matches KaidoError::ParseError(m) && spec_parse_redeemer_actions(
                input@,
            ) == Result::<Seq<(Seq<char>, Seq<(Seq<char>, Seq<char>)>)>, Seq<char>>::Err(m@),
        },
{
    let t = trim_str(input);
    if t.unicode_len() == 0 {
        return Err(
            KaidoError::ParseError(String::from_str("At least one redeemer action is required")),
        );
    }
    let raw = crate::text::split_commas_outside_parens(t);
    let ghost rawviews = crate::text::spec_split_depth(t@, 0);
    let mut parts: Vec<String> = Vec::new();
    let rn = raw.len();
    let mut k: usize = 0;
    proof {
        assert(views(parts@) =~= rawviews.map_values(|p: Seq<char>| spec_trim(p)).take(0));
    }
    while k < rn
        invariant
            rn == raw@.len(),
            0 <= k <= rn,
            views(raw@) == rawviews,
            views(parts@) =~= rawviews.map_values(|p: Seq<char>| spec_trim(p)).take(k as int),
        decreases rn - k,
    {
        let piece = trim_str(raw[k].as_str()).to_owned();
        proof {
            let mapped = rawviews.map_values(|p: Seq<char>| spec_trim(p));
            assert(views(parts@.push(piece)) =~= views(parts@).push(piece@));
            assert(mapped.take(k + 1) =~= mapped.take(k as int).push(mapped[k as int]));
        }
        parts.push(piece);
        k = k + 1;
    }
    proof {
        crate::text::lemma_split_depth_len(t@, 0);
        let mapped = rawviews.map_values(|p: Seq<char>| spec_trim(p));
        assert(mapped.take(rn as int) =~= mapped);
    }
    if parts[parts.len() - 1].as_str().unicode_len() == 0 {
        proof {
            let mapped = rawviews.map_values(|p: Seq<char>| spec_trim(p));
            assert(views(parts@)[rn - 1] == mapped.last());
        }
        let ghost before = parts@;
        parts.pop();
        proof {
            assert(views(parts@) =~= views(before).drop_last());
        }
    }
    let ghost aparts = spec_redeemer_parts(t@);
    proof {
        assert(views(parts@) =~= aparts);
    }
    let ghost af = |p: Seq<char>| spec_parse_action(p);
    let mut actions: Vec<RedeemerAction> = Vec::new();
    let n = parts.len();
    let mut i: usize = 0;
    proof {
        assert(aparts.take(0) =~= Seq::<Seq<char>>::empty());
        assert(ra_views(actions@) =~= Seq::<(Seq<char>, Seq<(Seq<char>, Seq<char>)>)>::empty());
    }
    while i < n
        invariant
            n == parts@.len(),
            0 <= i <= n,
            views(parts@) == aparts,
            aparts == spec_redeemer_parts(t@),
            t@ == spec_trim(input@),
            t@.len() != 0,
            af == (|p: Seq<char>| spec_parse_action(p)),
            spec_fold_parse(aparts.take(i as int), af) == Result::<
                Seq<(Seq<char>, Seq<(Seq<char>, Seq<char>)>)>,
                Seq<char>,
            >::Ok(ra_views(actions@)),
        decreases n - i,
    {
        let ghost prev = ra_views(actions@);
        proof {
            assert(aparts.take(i + 1).drop_last() =~= aparts.take(i as int));
            assert(aparts.take(i + 1).last() == parts@[i as int]@);
        }
        let part = parts[i].as_str();
        let plen = part.unicode_len();
        match find_char(part, '(') {
            None => {
                let name_ok = plen != 0 && {
                    let c = part.get_char(0);
                    'A' <= c && c <= 'Z'
                };
                if !name_ok {
                    proof {
                        lemma_fold_parse_err(aparts, af, i + 1);
                    }
                    let mut msg = String::from_str("Redeemer action '");
                    msg.append(part);
                    msg.append("' must start with an uppercase letter");
                    return Err(KaidoError::ParseError(msg));
                }
                let action = RedeemerAction { name: part.to_owned(), fields: Vec::new() };
                proof {
                    assert(ra_view(action) == (
                        part@,
                        Seq::<(Seq<char>, Seq<char>)>::empty(),
                    )) by {
                        assert(action.fields@.map_values(
                            |p: (String, String)| (p.0@, p.1@),
                        ) =~= Seq::<(Seq<char>, Seq<char>)>::empty());
                    }
                    assert(ra_views(actions@.push(action)) =~= prev.push(ra_view(action)));
                }
                actions.push(action);
            },
            Some(p) => {
                proof {
                    lemma_find_char_props(part@, '(');
                }
                let name_s = trim_str(part.substring_char(0, p));
                proof {
                    assert(part@.subrange(0, p as int) =~= part@.take(p as int));
                }
                if p + 1 >= plen {
                    proof {
                        lemma_fold_parse_err(aparts, af, i + 1);
                    }
                    let mut msg = String::from_str("Invalid redeemer action '");
                    msg.append(part);
                    msg.append("'. Expected Name or Name(field:Type, ...)");
                    return Err(KaidoError::ParseError(msg));
                }
                let inner = trim_str(part.substring_char(p + 1, plen - 1));
                let fparts = split_char(inner, ',');
                let ghost fviews = spec_split(inner@, ',');
                let ghost ff = |fp: Seq<char>| spec_parse_action_field(fp, name_s@);
                let mut fields: Vec<(String, String)> = Vec::new();
                let fn_ = fparts.len();
                let mut j: usize = 0;
                proof {
                    assert(fviews.take(0) =~= Seq::<Seq<char>>::empty());
                    assert(crate::features::param_views(fields@) =~= Seq::<
                        (Seq<char>, Seq<char>),
                    >::empty());
                }
                while j < fn_
                    invariant
                        fn_ == fparts@.len(),
                        0 <= j <= fn_,
                        views(fparts@) == fviews,
                        ff == (|fp: Seq<char>| spec_parse_action_field(fp, name_s@)),
                        spec_fold_parse(fviews.take(j as int), ff) == Result::<
                            Seq<(Seq<char>, Seq<char>)>,
                            Seq<char>,
                        >::Ok(crate::features::param_views(fields@)),
                    decreases fn_ - j,
                {
                    let ghost fprev = crate::features::param_views(fields@);
                    proof {
                        assert(fviews.take(j + 1).drop_last() =~= fviews.take(j as int));
                        assert(fviews.take(j + 1).last() == fparts@[j as int]@);
                    }
                    let ft = trim_str(fparts[j].as_str());
                    let ftn = ft.unicode_len();
                    match find_char(ft, ':') {
                        None => {
                            proof {
                                lemma_fold_parse_err(fviews, ff, j + 1);
                            }
                            let mut msg = String::from_str("Invalid field '");
                            msg.append(ft);
                            msg.append("' in redeemer action '");
                            msg.append(name_s);
                            msg.append("'. Expected name:Type");
                            proof {
                                inner_error_propagates(
                                    input@,
                                    t@,
                                    aparts,
                                    af,
                                    i as int,
                                    part@,
                                    p as int,
                                    msg@,
                                );
                            }
                            return Err(KaidoError::ParseError(msg));
                        },
                        Some(q) => {
                            proof {
                                lemma_find_char_props(ft@, ':');
                            }
                            let fname = trim_str(ft.substring_char(0, q));
                            let fty = trim_str(ft.substring_char(q + 1, ftn));
                            proof {
                                assert(ft@.subrange(0, q as int) =~= ft@.take(q as int));
                                assert(ft@.subrange(q + 1, ftn as int) =~= ft@.skip(q + 1));
                            }
                            if !is_valid_type(fty) {
                                proof {
                                    lemma_fold_parse_err(fviews, ff, j + 1);
                                }
                                let mut msg = String::from_str("Unsupported type '");
                                msg.append(fty);
                                msg.append("' in redeemer field. Supported: ");
                                msg.append("ByteArray, Int, Bool, List<ByteArray>, List<Int>");
                                proof {
                                    inner_error_propagates(
                                        input@,
                                        t@,
                                        aparts,
                                        af,
                                        i as int,
                                        part@,
                                        p as int,
                                        msg@,
                                    );
                                }
                                return Err(KaidoError::ParseError(msg));
                            }
                            let pair = (fname.to_owned(), fty.to_owned());
                            proof {
                                assert(crate::features::param_views(fields@.push(pair))
                                    =~= fprev.push((fname@, fty@)));
                            }
                            fields.push(pair);
                        },
                    }
                    j = j + 1;
                }
                proof {
                    assert(fviews.take(fn_ as int) =~= fviews);
                }
                let name_ok = name_s.unicode_len() != 0 && {
                    let c = name_s.get_char(0);
                    'A' <= c && c <= 'Z'
                };
                if !name_ok {
                    proof {
                        lemma_fold_parse_err(aparts, af, i + 1);
                    }
                    let mut msg = String::from_str("Redeemer action '");
                    msg.append(name_s);
                    msg.append("' must start with an uppercase letter");
                    return Err(KaidoError::ParseError(msg));
                }
                let action = RedeemerAction { name: name_s.to_owned(), fields };
                proof {
                    assert(ra_view(action) == (name_s@, crate::features::param_views(
                        action.fields@,
                    )));
                    assert(ra_views(actions@.push(action)) =~= prev.push(ra_view(action)));
                }
                actions.push(action);
            },
        }
        i = i + 1;
    }
    proof {
        assert(aparts.take(n as int) =~= aparts);
    }
    Ok(actions)
}

/// An error among an action's fields is the error of the whole parse.
proof fn inner_error_propagates(
    input: Seq<char>,
    t: Seq<char>,
    aparts: Seq<Seq<char>>,
    af: spec_fn(Seq<char>) -> Result<(Seq<char>, Seq<(Seq<char>, Seq<char>)>), Seq<char>>,
    i: int,
    part: Seq<char>,
    p: int,
    m: Seq<char>,
)
    requires
        t == spec_trim(input),
        t.len() != 0,
        aparts == spec_redeemer_parts(t),
        af == (|q: Seq<char>| spec_parse_action(q)),
        0 <= i < aparts.len(),
        aparts[i] == part,
        spec_fold_parse(aparts.take(i), af) is Ok,
        spec_parse_action(part) == Result::<
            (Seq<char>, Seq<(Seq<char>, Seq<char>)>),
            Seq<char>,
        >::Err(m),
    ensures
        spec_parse_redeemer_actions(input) == Result::<
            Seq<(Seq<char>, Seq<(Seq<char>, Seq<char>)>)>,
            Seq<char>,
        >::Err(m),
{
    assert(aparts.take(i + 1).drop_last() =~= aparts.take(i));
    assert(aparts.take(i + 1).last() == part);
    lemma_fold_parse_err(aparts, af, i + 1);
}


/// Whether some declared datum field has type `Int`.
pub open spec fn spec_has_int_field(fields: Seq<(Seq<char>, Seq<char>)>) -> bool {
    exists|i: int| 0 <= i < fields.len() && (#[trigger] fields[i]).1 == "Int"@
}

/// The message when the time-lock feature finds no `Int` datum field.
pub open spec fn msg_timelock_needs_int() -> Seq<char> {
    "Feature 'timelock' requires at least one Int field in datum (e.g., deadline:Int)"@
}

/// The message when datum continuity is requested outside `spend`.
pub open spec fn msg_continuity_needs_spend() -> Seq<char> {
    "Feature 'datum-continuity' requires purpose 'spend'"@
}

/// The message when burn verification is requested outside `mint`.
pub open spec fn msg_burn_needs_mint() -> Seq<char> {
    "Feature 'burn-verification' requires purpose 'mint'"@
}

/// Validates the selected features against the datum schema and purpose:
/// time-lock needs an `Int` field to serve as the deadline, datum continuity
/// needs the `spend` purpose, and burn verification needs the `mint`
/// purpose; the checks run in that order and the first violation is
/// reported. Succeeds exactly when no selected feature's structural
/// requirement is violated.
pub fn validate_features_against_types(
    features: &[Feature],
    datum_fields: &[DatumField],
    purpose: &str,
) -> (r: Result<(), KaidoError>)
    ensures
        ({
            let fs = features@;
            let dv = df_views(datum_fields@);
            if fs.contains(Feature::TimeLock) && !spec_has_int_field(dv) {
                r matches Err(e) && e matches KaidoError::SchemaIncompatibility(m) && m@
                    == msg_timelock_needs_int()
            } else if fs.contains(Feature::DatumContinuity) && purpose@ != "spend"@ {
                r matches Err(e) && e matches KaidoError::PurposeMismatch(m) && m@
                    == msg_continuity_needs_spend()
            } else if fs.contains(Feature::BurnVerification) && purpose@ != "mint"@ {
                r matches Err(e) && e matches KaidoError::PurposeMismatch(m) && m@
                    == msg_burn_needs_mint()
            } else {
                r is Ok
            }
        }),
{
    if slice_has_feature(features, Feature::TimeLock) && !has_int_field(datum_fields) {
        return Err(
            KaidoError::SchemaIncompatibility(
                String::from_str(
                    "Feature 'timelock' requires at least one Int field in datum (e.g., deadline:Int)",
                ),
            ),
        );
    }
    if slice_has_feature(features, Feature::DatumContinuity) && !str_eq(purpose, "spend") {
        return Err(
            KaidoError::PurposeMismatch(
                String::from_str("Feature 'datum-continuity' requires purpose 'spend'"),
            ),
        );
    }
    if slice_has_feature(features, Feature::BurnVerification) && !str_eq(purpose, "mint") {
        return Err(
            KaidoError::PurposeMismatch(
                String::from_str("Feature 'burn-verification' requires purpose 'mint'"),
            ),
        );
    }
    Ok(())
}

/// Whether the slice holds `f`.
pub fn slice_has_feature(v: &[Feature], f: Feature) -> (r: bool)
    ensures
        r == v@.contains(f),
{
    let mut i: usize = 0;
    while i < v.len()
        invariant
            0 <= i <= v@.len(),
            forall|j: int| 0 <= j < i ==> v@[j] != f,
        decreases v@.len() - i,
    {
        if v[i] == f {
            return true;
        }
        i = i + 1;
    }
    false
}

/// Whether some declared field has type `Int`.
pub fn has_int_field(fields: &[DatumField]) -> (r: bool)
    ensures
        r == spec_has_int_field(df_views(fields@)),
{
    let mut i: usize = 0;
    while i < fields.len()
        invariant
            0 <= i <= fields@.len(),
            forall|j: int| 0 <= j < i ==> (#[trigger] df_views(fields@)[j]).1 != "Int"@,
        decreases fields@.len() - i,
    {
        if str_eq(fields[i].aiken_type.as_str(), "Int") {
            assert(df_views(fields@)[i as int].1 == "Int"@);
            return true;
        }
        i = i + 1;
    }
    false
}


/// The canonical text of a datum schema: its `name:Type` pairs joined by
/// commas, reproducing the declaration order.
pub open spec fn spec_serialize_datum_fields(fields: Seq<(Seq<char>, Seq<char>)>) -> Seq<char> {
    spec_join(fields.map_values(|p: (Seq<char>, Seq<char>)| p.0 + ":"@ + p.1), ","@)
}

/// Serializes datum fields back to the declaration grammar, in order.
pub fn serialize_datum_fields(fields: &[DatumField]) -> (r: String)
    ensures
        r@ == spec_serialize_datum_fields(df_views(fields@)),
{
    let ghost dv = df_views(fields@);
    let ghost mapped = dv.map_values(|p: (Seq<char>, Seq<char>)| p.0 + ":"@ + p.1);
    let mut pieces: Vec<String> = Vec::new();
    let n = fields.len();
    let mut i: usize = 0;
    proof {
        assert(views(pieces@) =~= mapped.take(0));
    }
    while i < n
        invariant
            n == fields@.len(),
            0 <= i <= n,
            dv == df_views(fields@),
            mapped == dv.map_values((|p: (Seq<char>, Seq<char>)| p.0 + ":"@ + p.1)),
            views(pieces@) =~= mapped.take(i as int),
        decreases n - i,
    {
        let mut piece = fields[i].name.clone();
        piece.append(":");
        piece.append(fields[i].aiken_type.as_str());
        proof {
            assert(piece@ == mapped[i as int]);
            assert(views(pieces@.push(piece)) =~= views(pieces@).push(piece@));
            assert(mapped.take(i + 1) =~= mapped.take(i as int).push(mapped[i as int]));
        }
        pieces.push(piece);
        i = i + 1;
    }
    proof {
        assert(mapped.take(n as int) =~= mapped);
    }
    join_strs(&pieces, ",")
}


/// A field that the declaration grammar can express and recover: a nonempty
/// name that starts with a lowercase ASCII letter, holds no separator
/// characters and does not end in a blank, and a type from the universe.
pub open spec fn wf_datum_field(p: (Seq<char>, Seq<char>)) -> bool {
    &&& p.0.len() > 0
    &&& is_ascii_lower(p.0[0])
    &&& !is_space(p.0[p.0.len() - 1])
    &&& (forall|i: int| 0 <= i < p.0.len() ==> p.0[i] != ',' && p.0[i] != ':')
    &&& spec_valid_type(p.1)
}

/// Every type of the universe is nonempty, blank-free at its ends, and
/// holds neither a comma nor a colon.
proof fn lemma_valid_type_chars(t: Seq<char>)
    requires
        spec_valid_type(t),
    ensures
        t.len() > 0,
        !is_space(t[0]),
        !is_space(t[t.len() - 1]),
        forall|i: int| 0 <= i < t.len() ==> t[i] != ',' && t[i] != ':',
{
    reveal_strlit("ByteArray");
    reveal_strlit("Int");
    reveal_strlit("Bool");
    reveal_strlit("List<ByteArray>");
    reveal_strlit("List<Int>");
}

/// The serialized form of one well-formed field parses back to it, is
/// comma-free, and is blank-free at its ends.
proof fn lemma_piece_parses(p: (Seq<char>, Seq<char>))
    requires
        wf_datum_field(p),
    ensures
        ({
            let piece = p.0 + ":"@ + p.1;
            &&& piece.len() > 0
            &&& !is_space(piece[0])
            &&& !is_space(piece[piece.len() - 1])
            &&& (forall|i: int| 0 <= i < piece.len() ==> piece[i] != ',')
            &&& spec_parse_datum_part(piece) == Result::<(Seq<char>, Seq<char>), Seq<char>>::Ok(
                p,
            )
        }),
{
    lemma_valid_type_chars(p.1);
    reveal_strlit(":");
    let piece = p.0 + ":"@ + p.1;
    assert(piece[0] == p.0[0]);
    assert(piece[piece.len() - 1] == p.1[p.1.len() - 1]);
    assert forall|i: int| 0 <= i < piece.len() implies piece[i] != ',' by {
        if i < p.0.len() {
            assert(piece[i] == p.0[i]);
        } else if i == p.0.len() {
            assert(piece[i] == ':');
        } else {
            assert(piece[i] == p.1[i - p.0.len() - 1]);
        }
    }
    lemma_trim_noop(piece);
    assert(piece[p.0.len() as int] == ':');
    assert forall|j: int| 0 <= j < p.0.len() implies piece[j] != ':' by {
        assert(piece[j] == p.0[j]);
    }
    lemma_find_char_at(piece, ':', p.0.len() as int);
    assert(piece.take(p.0.len() as int) =~= p.0);
    assert(piece.skip(p.0.len() as int + 1) =~= p.1);
    lemma_trim_noop(p.0);
    lemma_trim_noop(p.1);
    assert(p == (p.0, p.1));
}

/// Splitting the comma-joined pieces at commas recovers the pieces, as long
/// as no piece holds a comma of its own.
proof fn lemma_join_then_split(q: Seq<Seq<char>>)
    requires
        q.len() >= 1,
        forall|k: int, i: int|
            #![trigger q[k][i]]
            0 <= k < q.len() && 0 <= i < q[k].len() ==> q[k][i] != ',',
    ensures
        spec_split(spec_join(q, ","@), ',') == q,
    decreases q.len(),
{
    reveal_strlit(",");
    if q.len() == 1 {
        assert forall|j: int| 0 <= j < q[0].len() implies q[0][j] != ',' by {
            assert(q[0][j] == q[0][j]);
        }
        lemma_split_no_sep(q[0], ',');
        assert(spec_split(spec_join(q, ","@), ',') =~~= q);
    } else {
        let s = spec_join(q, ","@);
        let rest = spec_join(q.drop_first(), ","@);
        assert(s == q[0] + ","@ + rest);
        let b = q[0].len() as int;
        assert(s[b] == ',');
        assert forall|j: int| 0 <= j < b implies s[j] != ',' by {
            assert(s[j] == q[0][j]);
        }
        lemma_split_at_first(s, ',', b);
        assert(s.take(b) =~= q[0]);
        assert(s.skip(b + 1) =~= rest);
        assert forall|k: int, i: int|
            #![trigger q.drop_first()[k][i]]
            0 <= k < q.drop_first().len() && 0 <= i < q.drop_first()[k].len() implies q.drop_first()[k][i]
            != ',' by {
            assert(q.drop_first()[k] == q[k + 1]);
        }
        lemma_join_then_split(q.drop_first());
        assert(spec_split(s, ',') =~~= q);
    }
}

/// The join of the serialized pieces starts with the first piece's first
/// character and ends with the last piece's last character.
proof fn lemma_join_ends(q: Seq<Seq<char>>)
    requires
        q.len() >= 1,
        forall|k: int| 0 <= k < q.len() ==> (#[trigger] q[k]).len() > 0,
    ensures
        spec_join(q, ","@).len() > 0,
        spec_join(q, ","@)[0] == q[0][0],
        spec_join(q, ","@).last() == q.last().last(),
    decreases q.len(),
{
    if q.len() > 1 {
        assert forall|k: int| 0 <= k < q.drop_first().len() implies (#[trigger] q.drop_first()[k]).len()
            > 0 by {
            assert(q.drop_first()[k] == q[k + 1]);
        }
        lemma_join_ends(q.drop_first());
        assert(q.drop_first().last() == q.last());
    }
}

/// Every serialized prefix parses back to itself.
proof fn lemma_fold_parses_all(fields: Seq<(Seq<char>, Seq<char>)>)
    requires
        forall|k: int| 0 <= k < fields.len() ==> wf_datum_field(#[trigger] fields[k]),
    ensures
        spec_fold_parse(
            fields.map_values(|p: (Seq<char>, Seq<char>)| p.0 + ":"@ + p.1),
            |piece: Seq<char>| spec_parse_datum_part(piece),
        ) == Result::<Seq<(Seq<char>, Seq<char>)>, Seq<char>>::Ok(fields),
    decreases fields.len(),
{
    let pieces = fields.map_values(|p: (Seq<char>, Seq<char>)| p.0 + ":"@ + p.1);
    let pf = |piece: Seq<char>| spec_parse_datum_part(piece);
    if fields.len() == 0 {
        assert(fields =~= Seq::<(Seq<char>, Seq<char>)>::empty());
    } else {
        let front = fields.drop_last();
        assert forall|k: int| 0 <= k < front.len() implies wf_datum_field(
            #[trigger] front[k],
        ) by {
            assert(front[k] == fields[k]);
        }
        lemma_fold_parses_all(front);
        assert(pieces.drop_last() =~~= front.map_values(
            |p: (Seq<char>, Seq<char>)| p.0 + ":"@ + p.1,
        ));
        lemma_piece_parses(fields.last());
        assert(pieces.last() == fields.last().0 + ":"@ + fields.last().1);
        assert(front.push(fields.last()) =~= fields);
    }
}

/// Serializing a well-formed datum schema and parsing the text back
/// yields the same fields in the same declaration order.
pub proof fn lemma_datum_schema_round_trip(fields: Seq<(Seq<char>, Seq<char>)>)
    requires
        forall|k: int| 0 <= k < fields.len() ==> wf_datum_field(#[trigger] fields[k]),
    ensures
        spec_parse_datum_fields(spec_serialize_datum_fields(fields)) == Result::<
            Seq<(Seq<char>, Seq<char>)>,
            Seq<char>,
        >::Ok(fields),
{
    let pieces = fields.map_values(|p: (Seq<char>, Seq<char>)| p.0 + ":"@ + p.1);
    let s = spec_join(pieces, ","@);
    assert(spec_serialize_datum_fields(fields) == s);
    if fields.len() == 0 {
        assert(s =~= Seq::<char>::empty());
        lemma_trim_noop(s);
        assert(fields =~= Seq::<(Seq<char>, Seq<char>)>::empty());
    } else {
        assert forall|k: int| 0 <= k < pieces.len() implies (#[trigger] pieces[k]).len() > 0
            && !is_space(pieces[k][0]) && !is_space(pieces[k][pieces[k].len() - 1]) && (
        forall|i: int| 0 <= i < pieces[k].len() ==> pieces[k][i] != ',') by {
            lemma_piece_parses(fields[k]);
            assert(pieces[k] == fields[k].0 + ":"@ + fields[k].1);
        }
        lemma_join_ends(pieces);
        assert(!is_space(s[0]));
        assert(!is_space(s[s.len() - 1]));
        lemma_trim_noop(s);
        assert forall|k: int, i: int|
            #![trigger pieces[k][i]]
            0 <= k < pieces.len() && 0 <= i < pieces[k].len() implies pieces[k][i] != ',' by {}
        lemma_join_then_split(pieces);
        lemma_fold_parses_all(fields);
    }
}

} // verus!
