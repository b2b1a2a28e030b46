//! Decoding the response JSON into the raw status record. The JSON syntax is
//! serde_json's business, reached through the trusted items below; the schema
//! walk over the parsed document — which fields are required, which shapes and
//! ranges are accepted, and which error each violation raises — is this
//! module's verified logic, and `spec_parse_response` states it exactly over
//! named projections of the parsed document.

use vstd::prelude::*;
use crate::SlpError;
use crate::status::{Description, DescriptionModel, MinecraftResponse, Player, PlayerModel,
    Players, ResponseModel, ServerStatus, Version, description_model, normalize_status,
    player_model, players_model, response_model, sample_model, spec_normalize_status,
    status_model};

verus! {

/// serde_json's document value, declared so the schema walk can hold and pass
/// references to it; what such a value contains is reached only through the
/// named projections below.
#[verifier::external_type_specification]
#[verifier::external_body]
pub struct ExValue(serde_json::Value);

// --- Names for what serde_json computes ---
//
// Each is a function of its arguments alone: parsing a fixed text and reading
// a fixed document are deterministic, on every machine. Verus knows of them
// only what the trusted items below state.

/// The document that serde_json parses `s` to, if it accepts `s`.
pub uninterp spec fn json_parsed(s: Seq<char>) -> Option<serde_json::Value>;

/// The member of `v` under a string key, when `v` is an object that has one.
pub uninterp spec fn value_member(v: serde_json::Value, key: Seq<char>) -> Option<
    serde_json::Value,
>;

/// The text of `v`, when `v` is a string.
pub uninterp spec fn value_text(v: serde_json::Value) -> Option<Seq<char>>;

/// The number `v` holds, when it is an unsigned integer.
pub uninterp spec fn value_unsigned(v: serde_json::Value) -> Option<u64>;

/// The number `v` holds, when it is a signed integer.
pub uninterp spec fn value_signed(v: serde_json::Value) -> Option<i64>;

/// The elements of `v`, when it is an array.
pub uninterp spec fn value_items(v: serde_json::Value) -> Option<Seq<serde_json::Value>>;

/// Whether `v` is an object.
pub uninterp spec fn value_is_object(v: serde_json::Value) -> bool;

/// Whether `v` is the null value.
pub uninterp spec fn value_is_null(v: serde_json::Value) -> bool;

// --- The trusted items ---

/// Relies on `serde_json::from_str::<Value>`: `Some` exactly when serde_json
/// accepts `s` as one JSON document (its syntax, within its recursion limit),
/// a function of the text alone, here named `json_parsed`.
#[verifier::external_body]
fn json_from_str(s: &str) -> (r: Option<serde_json::Value>)
    ensures
        r == json_parsed(s@),
{
    match serde_json::from_str::<serde_json::Value>(s) {
        Ok(v) => Some(v),
        Err(_) => None,
    }
}

/// Relies on `Value::get`: the member under a string key, `None` on anything
/// but an object holding that key.
#[verifier::external_body]
fn json_get<'a>(v: &'a serde_json::Value, key: &str) -> (r: Option<&'a serde_json::Value>)
    ensures
        match r {
            Some(m) => value_member(*v, key@) == Some(*m),
            None => value_member(*v, key@) is None,
        },
{
    v.get(key)
}

/// Relies on `Value::as_str`: the payload exactly when the value is a string.
#[verifier::external_body]
fn json_as_str<'a>(v: &'a serde_json::Value) -> (r: Option<&'a str>)
    ensures
        match r {
            Some(s) => value_text(*v) == Some(s@),
            None => value_text(*v) is None,
        },
{
    v.as_str()
}

/// Relies on `Value::as_u64`: the payload exactly when the value is a number
/// representable as a `u64`.
#[verifier::external_body]
fn json_as_u64(v: &serde_json::Value) -> (r: Option<u64>)
    ensures
        r == value_unsigned(*v),
{
    v.as_u64()
}

/// Relies on `Value::as_i64`: the payload exactly when the value is a number
/// representable as an `i64`.
#[verifier::external_body]
fn json_as_i64(v: &serde_json::Value) -> (r: Option<i64>)
    ensures
        r == value_signed(*v),
{
    v.as_i64()
}

/// Relies on `Value::as_array`: the elements exactly when the value is an
/// array.
#[verifier::external_body]
fn json_as_array<'a>(v: &'a serde_json::Value) -> (r: Option<&'a Vec<serde_json::Value>>)
    ensures
        match r {
            Some(a) => value_items(*v) == Some(a@),
            None => value_items(*v) is None,
        },
{
    v.as_array()
}

/// Relies on `Value::is_object`.
#[verifier::external_body]
fn json_is_object(v: &serde_json::Value) -> (r: bool)
    ensures
        r == value_is_object(*v),
{
    v.is_object()
}

/// Relies on `Value::is_null`.
#[verifier::external_body]
fn json_is_null(v: &serde_json::Value) -> (r: bool)
    ensures
        r == value_is_null(*v),
{
    v.is_null()
}

// --- The schema, stated over the names ---

/// A required string member: absent, or anything but a string, is a mismatch.
pub open spec fn spec_string_field(v: serde_json::Value, key: Seq<char>) -> Result<
    Seq<char>,
    SlpError,
> {
    match value_member(v, key) {
        None => Err(SlpError::SchemaMismatch),
        Some(m) => match value_text(m) {
            Some(t) => Ok(t),
            None => Err(SlpError::SchemaMismatch),
        },
    }
}

/// A required count: a non-negative integer that fits 32 bits.
pub open spec fn spec_u32_field(v: serde_json::Value, key: Seq<char>) -> Result<u32, SlpError> {
    match value_member(v, key) {
        None => Err(SlpError::SchemaMismatch),
        Some(m) => match value_unsigned(m) {
            None => Err(SlpError::SchemaMismatch),
            Some(u) => if u <= u32::MAX as u64 {
                Ok(u as u32)
            } else {
                Err(SlpError::SchemaMismatch)
            },
        },
    }
}

/// A required signed number that fits 32 bits.
pub open spec fn spec_i32_field(v: serde_json::Value, key: Seq<char>) -> Result<i32, SlpError> {
    match value_member(v, key) {
        None => Err(SlpError::SchemaMismatch),
        Some(m) => match value_signed(m) {
            None => Err(SlpError::SchemaMismatch),
            Some(u) => if i32::MIN as i64 <= u && u <= i32::MAX as i64 {
                Ok(u as i32)
            } else {
                Err(SlpError::SchemaMismatch)
            },
        },
    }
}

/// A description's two accepted shapes: a bare string, or an object whose
/// `text` member — the empty text when absent — carries the string; any other
/// shape is a mismatch.
pub open spec fn spec_description(v: serde_json::Value) -> Result<DescriptionModel, SlpError> {
    match value_text(v) {
        Some(s) => Ok(DescriptionModel::Text(s)),
        None => if value_is_object(v) {
            match value_member(v, "text"@) {
                None => Ok(DescriptionModel::Object { text: Seq::empty() }),
                Some(t) => match value_text(t) {
                    Some(s) => Ok(DescriptionModel::Object { text: s }),
                    None => Err(SlpError::SchemaMismatch),
                },
            }
        } else {
            Err(SlpError::SchemaMismatch)
        },
    }
}

/// A sample entry: an object with string `name` and `id` members.
pub open spec fn spec_player(v: serde_json::Value) -> Result<PlayerModel, SlpError> {
    match spec_string_field(v, "name"@) {
        Err(e) => Err(e),
        Ok(name) => match spec_string_field(v, "id"@) {
            Err(e) => Err(e),
            Ok(id) => Ok(PlayerModel { name, id }),
        },
    }
}

/// A list of sample entries, in order, stopping at the first bad one.
pub open spec fn spec_player_list(items: Seq<serde_json::Value>) -> Result<
    Seq<PlayerModel>,
    SlpError,
>
    decreases items.len(),
{
    if items.len() == 0 {
        Ok(Seq::empty())
    } else {
        match spec_player(items[0]) {
            Err(e) => Err(e),
            Ok(p) => match spec_player_list(items.drop_first()) {
                Err(e) => Err(e),
                Ok(rest) => Ok(seq![p] + rest),
            },
        }
    }
}

/// The sample member: an array of entries, else a mismatch.
pub open spec fn spec_sample(v: serde_json::Value) -> Result<Seq<PlayerModel>, SlpError> {
    match value_items(v) {
        None => Err(SlpError::SchemaMismatch),
        Some(items) => spec_player_list(items),
    }
}

/// The players block: required `online` and `max` counts, and the optional
/// sample — absent or null is a valid absence, never an error.
pub open spec fn spec_players(v: serde_json::Value) -> Result<
    (u32, u32, Option<Seq<PlayerModel>>),
    SlpError,
> {
    match spec_u32_field(v, "online"@) {
        Err(e) => Err(e),
        Ok(online) => match spec_u32_field(v, "max"@) {
            Err(e) => Err(e),
            Ok(max) => match value_member(v, "sample"@) {
                None => Ok((online, max, None)),
                Some(s) => if value_is_null(s) {
                    Ok((online, max, None))
                } else {
                    match spec_sample(s) {
                        Err(e) => Err(e),
                        Ok(list) => Ok((online, max, Some(list))),
                    }
                },
            },
        },
    }
}

/// The whole document: `players.online`, `players.max`, `version.name` and
/// `version.protocol` are required; `description` (the empty text when
/// absent), the sample and the favicon (absent or null stays absent) are not.
pub open spec fn spec_extract_status(root: serde_json::Value) -> Result<ResponseModel, SlpError> {
    let description = match value_member(root, "description"@) {
        None => Ok(DescriptionModel::Text(Seq::empty())),
        Some(d) => spec_description(d),
    };
    match description {
        Err(e) => Err(e),
        Ok(description) => match value_member(root, "players"@) {
            None => Err(SlpError::SchemaMismatch),
            Some(p) => match spec_players(p) {
                Err(e) => Err(e),
                Ok((online, max, sample)) => match value_member(root, "version"@) {
                    None => Err(SlpError::SchemaMismatch),
                    Some(vv) => match spec_string_field(vv, "name"@) {
                        Err(e) => Err(e),
                        Ok(version_name) => match spec_i32_field(vv, "protocol"@) {
                            Err(e) => Err(e),
                            Ok(protocol) => match spec_favicon(root) {
                                Err(e) => Err(e),
                                Ok(favicon) => Ok(
                                    ResponseModel {
                                        description,
                                        online,
                                        max,
                                        sample,
                                        version_name,
                                        protocol,
                                        favicon,
                                    },
                                ),
                            },
                        },
                    },
                },
            },
        },
    }
}

/// The favicon member: a string when present, and absent or null stays absent.
pub open spec fn spec_favicon(root: serde_json::Value) -> Result<Option<Seq<char>>, SlpError> {
    match value_member(root, "favicon"@) {
        None => Ok(None),
        Some(f) => if value_is_null(f) {
            Ok(None)
        } else {
            match value_text(f) {
                Some(s) => Ok(Some(s)),
                None => Err(SlpError::SchemaMismatch),
            }
        },
    }
}

/// What `parse_response` returns, as a function of the text: `MalformedJson`
/// exactly when serde_json rejects it, else the schema walk over the document.
pub open spec fn spec_parse_response(s: Seq<char>) -> Result<ResponseModel, SlpError> {
    match json_parsed(s) {
        None => Err(SlpError::MalformedJson),
        Some(doc) => spec_extract_status(doc),
    }
}

// --- Error taxonomy laws ---

proof fn lemma_player_list_errors_are_schema(items: Seq<serde_json::Value>)
    ensures
        spec_player_list(items) matches Err(e) ==> e == SlpError::SchemaMismatch,
    decreases items.len(),
{
    if items.len() > 0 {
        lemma_player_list_errors_are_schema(items.drop_first());
    }
}

/// Law: the schema walk fails only with `SchemaMismatch`.
pub proof fn lemma_extract_errors_are_schema(root: serde_json::Value)
    ensures
        spec_extract_status(root) matches Err(e) ==> e == SlpError::SchemaMismatch,
{
    match value_member(root, "players"@) {
        None => {},
        Some(p) => match value_member(p, "sample"@) {
            None => {},
            Some(s) => match value_items(s) {
                None => {},
                Some(items) => lemma_player_list_errors_are_schema(items),
            },
        },
    }
}

/// Law: the decode fails with `MalformedJson` exactly when serde_json rejects
/// the text, and with `SchemaMismatch` on every schema violation.
pub proof fn lemma_malformed_json_iff(s: Seq<char>)
    ensures
        (spec_parse_response(s) == Err::<ResponseModel, SlpError>(SlpError::MalformedJson))
            <==> json_parsed(s) is None,
{
    match json_parsed(s) {
        None => {},
        Some(doc) => lemma_extract_errors_are_schema(doc),
    }
}

// --- The verified schema walk ---

fn get_string_field(v: &serde_json::Value, key: &str) -> (r: Result<String, SlpError>)
    ensures
        match r {
            Ok(t) => spec_string_field(*v, key@) == Ok::<Seq<char>, SlpError>(t@),
            Err(e) => spec_string_field(*v, key@) == Err::<Seq<char>, SlpError>(e),
        },
{
    match json_get(v, key) {
        None => Err(SlpError::SchemaMismatch),
        Some(s) => match json_as_str(s) {
            Some(text) => Ok(text.to_owned()),
            None => Err(SlpError::SchemaMismatch),
        },
    }
}

fn get_u32_field(v: &serde_json::Value, key: &str) -> (r: Result<u32, SlpError>)
    ensures
        match r {
            Ok(n) => spec_u32_field(*v, key@) == Ok::<u32, SlpError>(n),
            Err(e) => spec_u32_field(*v, key@) == Err::<u32, SlpError>(e),
        },
{
    match json_get(v, key) {
        None => Err(SlpError::SchemaMismatch),
        Some(n) => match json_as_u64(n) {
            None => Err(SlpError::SchemaMismatch),
            Some(u) => if u <= u32::MAX as u64 {
                Ok(u as u32)
            } else {
                Err(SlpError::SchemaMismatch)
            },
        },
    }
}

fn get_i32_field(v: &serde_json::Value, key: &str) -> (r: Result<i32, SlpError>)
    ensures
        match r {
            Ok(n) => spec_i32_field(*v, key@) == Ok::<i32, SlpError>(n),
            Err(e) => spec_i32_field(*v, key@) == Err::<i32, SlpError>(e),
        },
{
    match json_get(v, key) {
        None => Err(SlpError::SchemaMismatch),
        Some(n) => match json_as_i64(n) {
            None => Err(SlpError::SchemaMismatch),
            Some(u) => if i32::MIN as i64 <= u && u <= i32::MAX as i64 {
                Ok(u as i32)
            } else {
                Err(SlpError::SchemaMismatch)
            },
        },
    }
}

fn extract_description(v: &serde_json::Value) -> (r: Result<Description, SlpError>)
    ensures
        match r {
            Ok(d) => spec_description(*v) == Ok::<DescriptionModel, SlpError>(
                description_model(d),
            ),
            Err(e) => spec_description(*v) == Err::<DescriptionModel, SlpError>(e),
        },
{
    match json_as_str(v) {
        Some(s) => Ok(Description::Text(s.to_owned())),
        None => if json_is_object(v) {
            match json_get(v, "text") {
                None => Ok(Description::Object { text: String::new() }),
                Some(t) => match json_as_str(t) {
                    Some(s) => Ok(Description::Object { text: s.to_owned() }),
                    None => Err(SlpError::SchemaMismatch),
                },
            }
        } else {
            Err(SlpError::SchemaMismatch)
        },
    }
}

fn extract_player(v: &serde_json::Value) -> (r: Result<Player, SlpError>)
    ensures
        match r {
            Ok(p) => spec_player(*v) == Ok::<PlayerModel, SlpError>(player_model(p)),
            Err(e) => spec_player(*v) == Err::<PlayerModel, SlpError>(e),
        },
{
    let name = match get_string_field(v, "name") {
        Ok(n) => n,
        Err(e) => {
            return Err(e);
        },
    };
    let id = match get_string_field(v, "id") {
        Ok(i) => i,
        Err(e) => {
            return Err(e);
        },
    };
    Ok(Player { name, id })
}

fn extract_sample(v: &serde_json::Value) -> (r: Result<Vec<Player>, SlpError>)
    ensures
        match r {
            Ok(list) => spec_sample(*v) == Ok::<Seq<PlayerModel>, SlpError>(players_model(list@)),
            Err(e) => spec_sample(*v) == Err::<Seq<PlayerModel>, SlpError>(e),
        },
{
    match json_as_array(v) {
        None => Err(SlpError::SchemaMismatch),
        Some(entries) => {
            let ghost items = entries@;
            let mut players: Vec<Player> = Vec::new();
            let mut i: usize = 0;
            proof {
                assert(items.skip(0int) =~= items);
                match spec_player_list(items) {
                    Ok(rest) => {
                        assert(players_model(players@) + rest =~= rest);
                    },
                    Err(_) => {},
                }
            }
            while i < entries.len()
                invariant
                    i <= items.len(),
                    entries@ == items,
                    value_items(*v) == Some(items),
                    spec_player_list(items) == (match spec_player_list(items.skip(i as int)) {
                        Err(e) => Err::<Seq<PlayerModel>, SlpError>(e),
                        Ok(rest) => Ok::<Seq<PlayerModel>, SlpError>(
                            players_model(players@) + rest,
                        ),
                    }),
                decreases items.len() - i,
            {
                proof {
                    assert(items.skip(i as int)[0] == items[i as int]);
                    assert(items.skip(i as int).drop_first() =~= items.skip(i as int + 1));
                }
                match extract_player(&entries[i]) {
                    Ok(p) => {
                        let ghost prev = players@;
                        let ghost pm = player_model(p);
                        players.push(p);
                        proof {
                            assert(players_model(players@) =~= players_model(prev) + seq![pm]);
                            match spec_player_list(items.skip(i as int + 1)) {
                                Ok(rest) => {
                                    assert(players_model(prev) + (seq![pm] + rest)
                                        =~= players_model(players@) + rest);
                                },
                                Err(_) => {},
                            }
                        }
                    },
                    Err(e) => {
                        proof {
                            assert(spec_player_list(items.skip(i as int))
                                == Err::<Seq<PlayerModel>, SlpError>(e));
                            assert(spec_player_list(items) == Err::<Seq<PlayerModel>, SlpError>(
                                e,
                            ));
                        }
                        return Err(e);
                    },
                }
                i = i + 1;
            }
            proof {
                assert(items.skip(items.len() as int) =~= Seq::<serde_json::Value>::empty());
                assert(players_model(players@) + Seq::<PlayerModel>::empty() =~= players_model(
                    players@,
                ));
            }
            Ok(players)
        },
    }
}

fn extract_players(v: &serde_json::Value) -> (r: Result<Players, SlpError>)
    ensures
        match r {
            Ok(p) => spec_players(*v) == Ok::<(u32, u32, Option<Seq<PlayerModel>>), SlpError>(
                (p.online, p.max, sample_model(p.sample)),
            ),
            Err(e) => spec_players(*v) == Err::<(u32, u32, Option<Seq<PlayerModel>>), SlpError>(e),
        },
{
    let online = match get_u32_field(v, "online") {
        Ok(n) => n,
        Err(e) => {
            return Err(e);
        },
    };
    let max = match get_u32_field(v, "max") {
        Ok(n) => n,
        Err(e) => {
            return Err(e);
        },
    };
    let sample = match json_get(v, "sample") {
        None => None,
        Some(s) => if json_is_null(s) {
            None
        } else {
            match extract_sample(s) {
                Ok(list) => Some(list),
                Err(e) => {
                    return Err(e);
                },
            }
        },
    };
    Ok(Players { online, max, sample })
}

#[verifier::rlimit(60)]
fn extract_status(root: &serde_json::Value) -> (r: Result<MinecraftResponse, SlpError>)
    ensures
        match r {
            Ok(m) => spec_extract_status(*root) == Ok::<ResponseModel, SlpError>(
                response_model(m),
            ),
            Err(e) => spec_extract_status(*root) == Err::<ResponseModel, SlpError>(e),
        },
{
    let description = match json_get(root, "description") {
        None => Description::Text(String::new()),
        Some(d) => match extract_description(d) {
            Ok(d) => d,
            Err(e) => {
                return Err(e);
            },
        },
    };
    let players = match json_get(root, "players") {
        None => {
            return Err(SlpError::SchemaMismatch);
        },
        Some(p) => match extract_players(p) {
            Ok(p) => p,
            Err(e) => {
                return Err(e);
            },
        },
    };
    let version_v = match json_get(root, "version") {
        None => {
            return Err(SlpError::SchemaMismatch);
        },
        Some(v) => v,
    };
    let name = match get_string_field(version_v, "name") {
        Ok(n) => n,
        Err(e) => {
            return Err(e);
        },
    };
    let protocol = match get_i32_field(version_v, "protocol") {
        Ok(p) => p,
        Err(e) => {
            return Err(e);
        },
    };
    let favicon = match json_get(root, "favicon") {
        None => None,
        Some(f) => if json_is_null(f) {
            None
        } else {
            match json_as_str(f) {
                Some(s) => Some(s.to_owned()),
                None => {
                    return Err(SlpError::SchemaMismatch);
                },
            }
        },
    };
    Ok(MinecraftResponse { description, players, version: Version { name, protocol }, favicon })
}

/// Decodes the response JSON into the raw status record, exactly as
/// `spec_parse_response` says: syntactically bad JSON is a `MalformedJson`; a
/// missing required field (`players.online`, `players.max`, `version.name`,
/// `version.protocol`), or a field of the wrong shape or range, is a
/// `SchemaMismatch`; a missing description, sample or favicon is a valid
/// absence, never an error.
pub fn parse_response(response: &str) -> (r: Result<MinecraftResponse, SlpError>)
    ensures
        match r {
            Ok(m) => spec_parse_response(response@) == Ok::<ResponseModel, SlpError>(
                response_model(m),
            ),
            Err(e) => spec_parse_response(response@) == Err::<ResponseModel, SlpError>(e),
        },
{
    match json_from_str(response) {
        None => Err(SlpError::MalformedJson),
        Some(root) => extract_status(&root),
    }
}

/// The decode pipeline from response JSON text to the normalized record:
/// `parse_response`, then `normalize_status` with the caller's host and port.
/// Success is owed exactly when the text parses and the schema holds, and the
/// result is the normalization of the parsed record's model.
pub fn process_response(host: String, port: u16, response: &str) -> (r: Result<
    ServerStatus,
    SlpError,
>)
    ensures
        match r {
            Ok(s) => spec_parse_response(response@) matches Ok(m) && status_model(s)
                == spec_normalize_status(host@, port, m),
            Err(e) => spec_parse_response(response@) == Err::<ResponseModel, SlpError>(e),
        },
{
    match parse_response(response) {
        Err(e) => Err(e),
        Ok(data) => Ok(normalize_status(host, port, data)),
    }
}

} // verus!
