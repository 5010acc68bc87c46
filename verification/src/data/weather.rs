use crate::data::sources::DESCRIPTION_JSON;
use crate::data::sources::ICON_FILE_NAMES_JSON;
use crate::data::sources::WMO_JSON;
use crate::data::wmo_code;
use crate::data::wmo_code::WmoCode;
use crate::data::wmo_code::MAX_VALUE;
use serde_json::Error as JsonError;
use std::collections::HashMap;
use vstd::prelude::*;
use vstd::string::StringExecFns;

verus! {

broadcast use vstd::std_specs::hash::group_hash_axioms;

/// The error of `serde_json`.  Nothing is known of what it holds: it is
/// only carried from the call that returns it to the caller.
#[verifier::external_type_specification]
#[verifier::external_body]
pub struct ExJsonError(JsonError);

/// What a WMO code stands for: a text for the reader and the path of an icon.
#[derive(Clone, Debug)]
pub struct Weather {
    pub description: String,
    pub icon_path: String,
}

/// The description and the icon path of each of the hundred WMO codes.
#[derive(Debug)]
pub struct WeatherRegistry {
    descriptions: HashMap<u8, String>,
    icon_paths: HashMap<u8, String>,
}

#[derive(Debug)]
pub enum Error {
    /// One of the three sources is not a JSON object of the expected shape.
    FailedToDeserializeSources(JsonError),
    /// The code table defines a value that is no WMO code.
    InvalidValueForWmoCode(wmo_code::Error),
    /// The code table gives no key to this code.
    WmoCodeDefinitionMissing(WmoCode),
    /// The description table holds a key that no code stands for.
    DescriptionForUndefinedKey(String),
    /// The key of some code has no description.
    DescriptionMissing(String),
    /// The icon table holds a key that no code stands for.
    IconPathForUndefinedKey(String),
    /// The key of some code has no icon.
    IconPathMissing(String),
}

/// The code table that `serde_json` reads from a JSON text of an object whose
/// member names are numbers and whose values are strings; `None` where it
/// reports an error.
pub uninterp spec fn parsed_code_table(text: Seq<char>) -> Option<Map<u8, Seq<char>>>;

/// The table that `serde_json` reads from a JSON text of an object whose
/// values are strings; `None` where it reports an error.
pub uninterp spec fn parsed_text_table(text: Seq<char>) -> Option<Map<Seq<char>, Seq<char>>>;

/// The code table as plain values: each key of a code as its characters.
pub open spec fn code_keys(codes: Map<u8, String>) -> Map<u8, Seq<char>> {
    codes.map_values(|key: String| key@)
}

/// Whether some entry of `table` stands under `key`.
pub open spec fn has_key(table: Seq<(String, String)>, key: Seq<char>) -> bool {
    exists|i: int| 0 <= i < table.len() && (#[trigger] table[i]).0@ == key
}

/// Whether entry `i` is the first of `table` under `key`.
pub open spec fn is_first_entry(table: Seq<(String, String)>, key: Seq<char>, i: int) -> bool {
    &&& 0 <= i < table.len()
    &&& table[i].0@ == key
    &&& forall|j: int| 0 <= j < i ==> (#[trigger] table[j]).0@ != key
}

/// The text that `table` gives for `key`: that of the first entry under it.
pub open spec fn text_of(table: Seq<(String, String)>, key: Seq<char>) -> Seq<char> {
    table[choose|i: int| is_first_entry(table, key, i)].1@
}

/// A list of entries read as a map; of two entries under one key the first
/// counts.
pub open spec fn table_map(table: Seq<(String, String)>) -> Map<Seq<char>, Seq<char>> {
    Map::new(|key: Seq<char>| has_key(table, key), |key: Seq<char>| text_of(table, key))
}

/// Whether the entries of `table` are those of `map`: each entry is in the
/// map, and each key of the map has an entry.
pub open spec fn enumerates(table: Seq<(String, String)>, map: Map<Seq<char>, Seq<char>>) -> bool {
    &&& forall|i: int|
        0 <= i < table.len() ==> map.contains_pair((#[trigger] table[i]).0@, table[i].1@)
    &&& forall|key: Seq<char>| #[trigger] map.contains_key(key) ==> has_key(table, key)
}

/// Whether some code stands for `key`.
pub open spec fn is_referenced(codes: Map<u8, Seq<char>>, key: Seq<char>) -> bool {
    exists|code: u8| codes.contains_key(code) && #[trigger] codes[code] == key
}

/// No value above [`MAX_VALUE`] is defined.
pub open spec fn all_valid(codes: Map<u8, Seq<char>>) -> bool {
    forall|code: u8| #[trigger] codes.contains_key(code) ==> code <= MAX_VALUE
}

/// `code` is the smallest value above [`MAX_VALUE`] that is defined.
pub open spec fn is_first_invalid(codes: Map<u8, Seq<char>>, code: u8) -> bool {
    &&& code > MAX_VALUE
    &&& codes.contains_key(code)
    &&& forall|other: u8| other < code && #[trigger] codes.contains_key(other) ==> other <= MAX_VALUE
}

/// Every WMO code is defined.
pub open spec fn is_complete(codes: Map<u8, Seq<char>>) -> bool {
    forall|code: u8| code <= MAX_VALUE ==> #[trigger] codes.contains_key(code)
}

/// `code` is the smallest WMO code that is not defined.
pub open spec fn is_first_missing(codes: Map<u8, Seq<char>>, code: u8) -> bool {
    &&& code <= MAX_VALUE
    &&& !codes.contains_key(code)
    &&& forall|other: u8| other < code ==> #[trigger] codes.contains_key(other)
}

/// Every key of `table` is one that some code stands for.
pub open spec fn all_referenced(codes: Map<u8, Seq<char>>, table: Map<Seq<char>, Seq<char>>) -> bool {
    forall|key: Seq<char>| #[trigger] table.contains_key(key) ==> is_referenced(codes, key)
}

/// `key` is the key of the first entry of `table` that no code stands for.
pub open spec fn is_first_orphan(
    codes: Map<u8, Seq<char>>,
    table: Seq<(String, String)>,
    key: Seq<char>,
) -> bool {
    exists|i: int|
        {
            &&& 0 <= i < table.len()
            &&& (#[trigger] table[i]).0@ == key
            &&& !is_referenced(codes, key)
            &&& forall|j: int| 0 <= j < i ==> is_referenced(codes, (#[trigger] table[j]).0@)
        }
}

/// The key of `code` has both a description and an icon.
pub open spec fn is_resolved(
    codes: Map<u8, Seq<char>>,
    descriptions: Map<Seq<char>, Seq<char>>,
    icons: Map<Seq<char>, Seq<char>>,
    code: u8,
) -> bool {
    descriptions.contains_key(codes[code]) && icons.contains_key(codes[code])
}

/// The key of every WMO code has both a description and an icon.
pub open spec fn all_resolved(
    codes: Map<u8, Seq<char>>,
    descriptions: Map<Seq<char>, Seq<char>>,
    icons: Map<Seq<char>, Seq<char>>,
) -> bool {
    forall|code: u8| code <= MAX_VALUE ==> #[trigger] is_resolved(codes, descriptions, icons, code)
}

/// `code` is the smallest WMO code whose key lacks a description or an icon.
pub open spec fn is_first_unresolved(
    codes: Map<u8, Seq<char>>,
    descriptions: Map<Seq<char>, Seq<char>>,
    icons: Map<Seq<char>, Seq<char>>,
    code: u8,
) -> bool {
    &&& code <= MAX_VALUE
    &&& !is_resolved(codes, descriptions, icons, code)
    &&& forall|other: u8| other < code ==> #[trigger] is_resolved(codes, descriptions, icons, other)
}

/// The three tables fit together: the code table defines exactly the WMO
/// codes, the other two hold no key that no code stands for, and both hold
/// the key of every code.
pub open spec fn consistent(
    codes: Map<u8, Seq<char>>,
    descriptions: Map<Seq<char>, Seq<char>>,
    icons: Map<Seq<char>, Seq<char>>,
) -> bool {
    &&& all_valid(codes)
    &&& is_complete(codes)
    &&& all_referenced(codes, descriptions)
    &&& all_referenced(codes, icons)
    &&& all_resolved(codes, descriptions, icons)
}

/// The path of the icon with the given file name.
pub open spec fn icon_path(file_name: Seq<char>) -> Seq<char> {
    "assets/icons/"@ + file_name + ".svg"@
}

/// What building a registry from the three tables gives.  The checks come
/// in a fixed order, and the first that fails decides the error: values
/// that are no codes, codes without a definition, description keys and
/// then icon keys that no code stands for, and at last, code by code, a
/// missing description and a missing icon.
pub open spec fn outcome_matches(
    codes: Map<u8, Seq<char>>,
    descriptions: Map<Seq<char>, Seq<char>>,
    icons: Map<Seq<char>, Seq<char>>,
    result: Result<WeatherRegistry, Error>,
) -> bool {
    match result {
        Ok(registry) => {
            &&& consistent(codes, descriptions, icons)
            &&& registry.wf()
            &&& forall|code: u8|
                code <= MAX_VALUE ==> {
                    &&& (#[trigger] registry.descriptions()[code]) == descriptions[codes[code]]
                    &&& registry.icon_paths()[code] == icon_path(icons[codes[code]])
                }
        },
        Err(Error::FailedToDeserializeSources(_)) => false,
        Err(Error::InvalidValueForWmoCode(wmo_code::Error::InvalidValue(value))) => {
            is_first_invalid(codes, value)
        },
        Err(Error::WmoCodeDefinitionMissing(code)) => {
            &&& all_valid(codes)
            &&& is_first_missing(codes, code@)
        },
        Err(Error::DescriptionForUndefinedKey(key)) => {
            &&& all_valid(codes)
            &&& is_complete(codes)
            &&& descriptions.contains_key(key@)
            &&& !is_referenced(codes, key@)
        },
        Err(Error::IconPathForUndefinedKey(key)) => {
            &&& all_valid(codes)
            &&& is_complete(codes)
            &&& all_referenced(codes, descriptions)
            &&& icons.contains_key(key@)
            &&& !is_referenced(codes, key@)
        },
        Err(Error::DescriptionMissing(key)) => {
            &&& all_valid(codes)
            &&& is_complete(codes)
            &&& all_referenced(codes, descriptions)
            &&& all_referenced(codes, icons)
            &&& exists|code: u8|
                {
                    &&& #[trigger] is_first_unresolved(codes, descriptions, icons, code)
                    &&& key@ == codes[code]
                    &&& !descriptions.contains_key(key@)
                }
        },
        Err(Error::IconPathMissing(key)) => {
            &&& all_valid(codes)
            &&& is_complete(codes)
            &&& all_referenced(codes, descriptions)
            &&& all_referenced(codes, icons)
            &&& exists|code: u8|
                {
                    &&& #[trigger] is_first_unresolved(codes, descriptions, icons, code)
                    &&& key@ == codes[code]
                    &&& descriptions.contains_key(key@)
                    &&& !icons.contains_key(key@)
                }
        },
    }
}

/// Calls `serde_json::from_str` for a map from `u8` to `String`.  The call
/// reads a JSON object with numbers as member names; the contract gives the
/// table it returns a name, as a function of the text, and says no more of
/// it.
#[verifier::external_body]
fn parse_code_table(text: &str) -> (result: Result<HashMap<u8, String>, JsonError>)
    ensures
        match result {
            Ok(table) => parsed_code_table(text@) == Some(code_keys(table@)),
            Err(_) => parsed_code_table(text@) is None,
        },
{
    serde_json::from_str::<HashMap<u8, String>>(text)
}

/// Calls `serde_json::from_str` for a map from `String` to `String` and hands
/// out its entries in the order in which the map yields them.  The contract
/// names the map, as a function of the text, and says that the entries are
/// those of the map; it says nothing of their order.
#[verifier::external_body]
fn parse_text_table(text: &str) -> (result: Result<Vec<(String, String)>, JsonError>)
    ensures
        match result {
            Ok(table) => match parsed_text_table(text@) {
                Some(map) => enumerates(table@, map),
                None => false,
            },
            Err(_) => parsed_text_table(text@) is None,
        },
{
    let map = serde_json::from_str::<HashMap<String, String>>(text)?;
    Ok(map.into_iter().collect())
}

/// The smallest defined value that is no WMO code.
fn first_invalid_code(codes: &HashMap<u8, String>) -> (found: Option<u8>)
    ensures
        match found {
            Some(code) => is_first_invalid(code_keys(codes@), code),
            None => all_valid(code_keys(codes@)),
        },
{
    let mut code: u8 = MAX_VALUE;
    while code < u8::MAX
        invariant
            MAX_VALUE <= code,
            forall|other: u8|
                other <= code && #[trigger] code_keys(codes@).contains_key(other) ==> other
                    <= MAX_VALUE,
        decreases u8::MAX - code,
    {
        code = code + 1;
        if codes.contains_key(&code) {
            return Some(code);
        }
    }
    None
}

/// The smallest WMO code without a definition.
fn first_missing_code(codes: &HashMap<u8, String>) -> (found: Option<u8>)
    ensures
        match found {
            Some(code) => is_first_missing(code_keys(codes@), code),
            None => is_complete(code_keys(codes@)),
        },
{
    let mut code: u8 = 0;
    while code <= MAX_VALUE
        invariant
            code <= MAX_VALUE + 1,
            forall|other: u8| other < code ==> #[trigger] code_keys(codes@).contains_key(other),
        decreases MAX_VALUE + 1 - code,
    {
        if !codes.contains_key(&code) {
            return Some(code);
        }
        code = code + 1;
    }
    None
}

/// Whether some code of `codes` stands for `key`.
fn references(codes: &HashMap<u8, String>, key: &String) -> (found: bool)
    ensures
        found == is_referenced(code_keys(codes@), key@),
{
    let mut code: u8 = 0;
    loop
        invariant
            forall|other: u8|
                other < code && code_keys(codes@).contains_key(other) ==> #[trigger] code_keys(
                    codes@,
                )[other] != key@,
        decreases u8::MAX - code,
    {
        match codes.get(&code) {
            Some(candidate) => {
                if *candidate == *key {
                    assert(code_keys(codes@).contains_key(code) && code_keys(codes@)[code] == key@);
                    return true;
                }
            },
            None => {},
        }
        if code == u8::MAX {
            return false;
        }
        code = code + 1;
    }
}

/// The position of the first entry of `table` whose key no code stands for.
fn first_orphan(codes: &HashMap<u8, String>, table: &Vec<(String, String)>) -> (found: Option<
    usize,
>)
    ensures
        match found {
            Some(i) => {
                &&& i < table@.len()
                &&& !is_referenced(code_keys(codes@), table@[i as int].0@)
                &&& forall|j: int|
                    0 <= j < i ==> is_referenced(code_keys(codes@), (#[trigger] table@[j]).0@)
            },
            None => all_referenced(code_keys(codes@), table_map(table@)),
        },
{
    let mut i: usize = 0;
    while i < table.len()
        invariant
            i <= table@.len(),
            forall|j: int|
                0 <= j < i ==> is_referenced(code_keys(codes@), (#[trigger] table@[j]).0@),
        decreases table@.len() - i,
    {
        if !references(codes, &table[i].0) {
            return Some(i);
        }
        i = i + 1;
    }
    None
}

/// The position of the first entry of `table` under `key`.
fn find_entry(table: &Vec<(String, String)>, key: &String) -> (found: Option<usize>)
    ensures
        match found {
            Some(i) => is_first_entry(table@, key@, i as int),
            None => !has_key(table@, key@),
        },
{
    let mut i: usize = 0;
    while i < table.len()
        invariant
            i <= table@.len(),
            forall|j: int| 0 <= j < i ==> (#[trigger] table@[j]).0@ != key@,
        decreases table@.len() - i,
    {
        if table[i].0 == *key {
            return Some(i);
        }
        i = i + 1;
    }
    None
}

/// The first entry under a key decides what the table gives for it.
pub proof fn lemma_first_entry(table: Seq<(String, String)>, key: Seq<char>, i: int)
    requires
        is_first_entry(table, key, i),
    ensures
        table_map(table).contains_key(key),
        table_map(table)[key] == table[i].1@,
{
    let chosen = choose|k: int| is_first_entry(table, key, k);
    assert(is_first_entry(table, key, chosen));
    assert(chosen == i) by {
        if chosen < i {
            assert(table[chosen].0@ != key);
        }
        if i < chosen {
            assert(table[i].0@ != key);
        }
    }
}

/// A list with the entries of a map reads as that map.
pub proof fn lemma_enumerated_map(table: Seq<(String, String)>, map: Map<Seq<char>, Seq<char>>)
    requires
        enumerates(table, map),
    ensures
        table_map(table) == map,
{
    assert forall|key: Seq<char>| table_map(table).contains_key(key) implies map.contains_key(
        key,
    ) && map[key] == table_map(table)[key] by {
        let i = choose|i: int| 0 <= i < table.len() && (#[trigger] table[i]).0@ == key;
        lemma_has_first_entry(table, key, i);
        let first = choose|k: int| is_first_entry(table, key, k);
        assert(map.contains_pair(table[first].0@, table[first].1@));
    }
    assert(table_map(table) =~= map);
}

/// A key with an entry has a first entry.
proof fn lemma_has_first_entry(table: Seq<(String, String)>, key: Seq<char>, i: int)
    requires
        0 <= i < table.len(),
        table[i].0@ == key,
    ensures
        exists|k: int| is_first_entry(table, key, k),
    decreases i,
{
    if exists|j: int| 0 <= j < i && (#[trigger] table[j]).0@ == key {
        let j = choose|j: int| 0 <= j < i && (#[trigger] table[j]).0@ == key;
        lemma_has_first_entry(table, key, j);
    } else {
        assert(is_first_entry(table, key, i));
    }
}

/// Building succeeds exactly where the three tables fit together.  Where
/// they do not, the first check that fails decides the error: a value that
/// is no code, a code without definition, a description and then an icon
/// for a key that no code stands for, and at last a key without
/// description or icon.
pub proof fn lemma_outcome(
    codes: Map<u8, Seq<char>>,
    descriptions: Map<Seq<char>, Seq<char>>,
    icons: Map<Seq<char>, Seq<char>>,
    result: Result<WeatherRegistry, Error>,
)
    requires
        outcome_matches(codes, descriptions, icons, result),
    ensures
        result is Ok <==> consistent(codes, descriptions, icons),
        result matches Err(Error::InvalidValueForWmoCode(_)) <==> !all_valid(codes),
        result matches Err(Error::WmoCodeDefinitionMissing(_)) <==> all_valid(codes)
            && !is_complete(codes),
        result matches Err(Error::DescriptionForUndefinedKey(_)) <==> all_valid(codes)
            && is_complete(codes) && !all_referenced(codes, descriptions),
        result matches Err(Error::IconPathForUndefinedKey(_)) <==> all_valid(codes) && is_complete(
            codes,
        ) && all_referenced(codes, descriptions) && !all_referenced(codes, icons),
        (result matches Err(Error::DescriptionMissing(_)) || result matches Err(
            Error::IconPathMissing(_),
        )) <==> all_valid(codes) && is_complete(codes) && all_referenced(codes, descriptions)
            && all_referenced(codes, icons) && !all_resolved(codes, descriptions, icons),
{
    match result {
        Ok(_) => {},
        Err(Error::FailedToDeserializeSources(_)) => {},
        Err(Error::InvalidValueForWmoCode(wmo_code::Error::InvalidValue(value))) => {
            assert(codes.contains_key(value));
        },
        Err(Error::WmoCodeDefinitionMissing(code)) => {
            assert(!codes.contains_key(code@));
        },
        Err(Error::DescriptionForUndefinedKey(key)) => {
            assert(descriptions.contains_key(key@));
        },
        Err(Error::IconPathForUndefinedKey(key)) => {
            assert(icons.contains_key(key@));
        },
        Err(Error::DescriptionMissing(key)) => {
            let code = choose|code: u8| #[trigger]
                is_first_unresolved(codes, descriptions, icons, code);
            assert(!is_resolved(codes, descriptions, icons, code));
        },
        Err(Error::IconPathMissing(key)) => {
            let code = choose|code: u8| #[trigger]
                is_first_unresolved(codes, descriptions, icons, code);
            assert(!is_resolved(codes, descriptions, icons, code));
        },
    }
}

impl WeatherRegistry {
    /// The description of each code.
    pub closed spec fn descriptions(&self) -> Map<u8, Seq<char>> {
        code_keys(self.descriptions@)
    }

    /// The icon path of each code.
    pub closed spec fn icon_paths(&self) -> Map<u8, Seq<char>> {
        code_keys(self.icon_paths@)
    }

    /// A registry knows every WMO code, and nothing else.
    #[verifier::type_invariant]
    pub open spec fn wf(&self) -> bool {
        &&& forall|code: u8|
            code <= MAX_VALUE <==> #[trigger] self.descriptions().contains_key(code)
        &&& forall|code: u8|
            code <= MAX_VALUE <==> #[trigger] self.icon_paths().contains_key(code)
    }

    /// Builds the registry from the three tables that come with the crate.
    pub fn load() -> (result: Result<WeatherRegistry, Error>)
        ensures
            match (
                parsed_code_table(WMO_JSON@),
                parsed_text_table(DESCRIPTION_JSON@),
                parsed_text_table(ICON_FILE_NAMES_JSON@),
            ) {
                (Some(codes), Some(descriptions), Some(icons)) => {
                    &&& outcome_matches(codes, descriptions, icons, result)
                    &&& result is Ok <==> consistent(codes, descriptions, icons)
                },
                _ => result matches Err(Error::FailedToDeserializeSources(_)),
            },
    {
        Self::load_from(WMO_JSON, DESCRIPTION_JSON, ICON_FILE_NAMES_JSON)
    }

    /// Reads the three sources as JSON and builds the registry from them.
    ///
    /// `wmo_json` maps each code to a key, `description_json` maps keys to
    /// descriptions, and `icon_file_names_json` maps keys to the file names
    /// of icons.  A source that cannot be read gives
    /// `FailedToDeserializeSources`; otherwise the result is that of
    /// [`WeatherRegistry::build`] on the tables read.
    pub fn load_from(wmo_json: &str, description_json: &str, icon_file_names_json: &str) -> (result:
        Result<WeatherRegistry, Error>)
        ensures
            match (
                parsed_code_table(wmo_json@),
                parsed_text_table(description_json@),
                parsed_text_table(icon_file_names_json@),
            ) {
                (Some(codes), Some(descriptions), Some(icons)) => {
                    &&& outcome_matches(codes, descriptions, icons, result)
                    &&& result is Ok <==> consistent(codes, descriptions, icons)
                },
                _ => result matches Err(Error::FailedToDeserializeSources(_)),
            },
    {
        let wmo_codes = match parse_code_table(wmo_json) {
            Ok(table) => table,
            Err(error) => {
                return Err(Error::FailedToDeserializeSources(error));
            },
        };
        let descriptions = match parse_text_table(description_json) {
            Ok(table) => table,
            Err(error) => {
                return Err(Error::FailedToDeserializeSources(error));
            },
        };
        let icon_file_names = match parse_text_table(icon_file_names_json) {
            Ok(table) => table,
            Err(error) => {
                return Err(Error::FailedToDeserializeSources(error));
            },
        };
        proof {
            lemma_enumerated_map(descriptions@, parsed_text_table(description_json@)->Some_0);
            lemma_enumerated_map(
                icon_file_names@,
                parsed_text_table(icon_file_names_json@)->Some_0,
            );
        }
        Self::build(&wmo_codes, &descriptions, &icon_file_names)
    }

    /// Checks the three tables against each other and, where they fit
    /// together, builds the registry.
    ///
    /// The checks and their order are those of [`outcome_matches`].  Of
    /// several keys that no code stands for, the one that comes first in its
    /// table is reported.
    pub fn build(
        wmo_codes: &HashMap<u8, String>,
        descriptions: &Vec<(String, String)>,
        icon_file_names: &Vec<(String, String)>,
    ) -> (result: Result<WeatherRegistry, Error>)
        ensures
            outcome_matches(
                code_keys(wmo_codes@),
                table_map(descriptions@),
                table_map(icon_file_names@),
                result,
            ),
            result is Ok <==> consistent(
                code_keys(wmo_codes@),
                table_map(descriptions@),
                table_map(icon_file_names@),
            ),
            result matches Err(Error::DescriptionForUndefinedKey(key)) ==> is_first_orphan(
                code_keys(wmo_codes@),
                descriptions@,
                key@,
            ),
            result matches Err(Error::IconPathForUndefinedKey(key)) ==> is_first_orphan(
                code_keys(wmo_codes@),
                icon_file_names@,
                key@,
            ),
    {
        let result = Self::assemble(wmo_codes, descriptions, icon_file_names);
        proof {
            lemma_outcome(
                code_keys(wmo_codes@),
                table_map(descriptions@),
                table_map(icon_file_names@),
                result,
            );
        }
        result
    }

    /// Runs the checks in their order and fills the registry code by code.
    fn assemble(
        wmo_codes: &HashMap<u8, String>,
        descriptions: &Vec<(String, String)>,
        icon_file_names: &Vec<(String, String)>,
    ) -> (result: Result<WeatherRegistry, Error>)
        ensures
            outcome_matches(
                code_keys(wmo_codes@),
                table_map(descriptions@),
                table_map(icon_file_names@),
                result,
            ),
            result matches Err(Error::DescriptionForUndefinedKey(key)) ==> is_first_orphan(
                code_keys(wmo_codes@),
                descriptions@,
                key@,
            ),
            result matches Err(Error::IconPathForUndefinedKey(key)) ==> is_first_orphan(
                code_keys(wmo_codes@),
                icon_file_names@,
                key@,
            ),
    {
        let ghost codes = code_keys(wmo_codes@);
        let ghost texts = table_map(descriptions@);
        let ghost icons = table_map(icon_file_names@);

        if let Some(value) = first_invalid_code(wmo_codes) {
            return Err(Error::InvalidValueForWmoCode(wmo_code::Error::InvalidValue(value)));
        }
        if let Some(value) = first_missing_code(wmo_codes) {
            return Err(Error::WmoCodeDefinitionMissing(WmoCode::from_valid(value)));
        }
        if let Some(i) = first_orphan(wmo_codes, descriptions) {
            let key = descriptions[i].0.clone();
            assert(has_key(descriptions@, key@));
            return Err(Error::DescriptionForUndefinedKey(key));
        }
        if let Some(i) = first_orphan(wmo_codes, icon_file_names) {
            let key = icon_file_names[i].0.clone();
            assert(has_key(icon_file_names@, key@));
            return Err(Error::IconPathForUndefinedKey(key));
        }
        let mut registry_descriptions: HashMap<u8, String> = HashMap::new();
        let mut registry_icon_paths: HashMap<u8, String> = HashMap::new();
        let mut code: u8 = 0;
        while code <= MAX_VALUE
            invariant
                code <= MAX_VALUE + 1,
                codes == code_keys(wmo_codes@),
                texts == table_map(descriptions@),
                icons == table_map(icon_file_names@),
                all_valid(codes),
                is_complete(codes),
                all_referenced(codes, texts),
                all_referenced(codes, icons),
                forall|other: u8|
                    other < code ==> #[trigger] is_resolved(codes, texts, icons, other),
                forall|other: u8|
                    other < code <==> #[trigger] registry_descriptions@.contains_key(other),
                forall|other: u8|
                    other < code ==> (#[trigger] registry_descriptions@[other])@
                        == texts[codes[other]],
                forall|other: u8|
                    other < code <==> #[trigger] registry_icon_paths@.contains_key(other),
                forall|other: u8|
                    other < code ==> (#[trigger] registry_icon_paths@[other])@ == icon_path(
                        icons[codes[other]],
                    ),
            decreases MAX_VALUE + 1 - code,
        {
            assert(codes.contains_key(code));
            let key = wmo_codes.get(&code).unwrap();
            assert(key@ == codes[code]);
            let description = match find_entry(descriptions, key) {
                Some(i) => {
                    proof {
                        lemma_first_entry(descriptions@, key@, i as int);
                    }
                    descriptions[i].1.clone()
                },
                None => {
                    assert(is_first_unresolved(codes, texts, icons, code));
                    return Err(Error::DescriptionMissing(key.clone()));
                },
            };
            let icon_file_name = match find_entry(icon_file_names, key) {
                Some(i) => {
                    proof {
                        lemma_first_entry(icon_file_names@, key@, i as int);
                    }
                    &icon_file_names[i].1
                },
                None => {
                    assert(is_first_unresolved(codes, texts, icons, code));
                    return Err(Error::IconPathMissing(key.clone()));
                },
            };
            let mut path = String::from_str("assets/icons/");
            path.append(icon_file_name.as_str());
            path.append(".svg");
            assert(path@ == icon_path(icons[key@]));
            assert(description@ == texts[key@]);
            assert(is_resolved(codes, texts, icons, code));
            registry_descriptions.insert(code, description);
            registry_icon_paths.insert(code, path);
            code = code + 1;
        }
        let registry = WeatherRegistry {
            descriptions: registry_descriptions,
            icon_paths: registry_icon_paths,
        };
        assert(registry.wf());
        Ok(registry)
    }

    /// The description and the icon path of a code.  Every code has both.
    pub fn get(&self, wmo_code: WmoCode) -> (weather: Weather)
        ensures
            self.descriptions().contains_key(wmo_code@),
            self.icon_paths().contains_key(wmo_code@),
            weather.description@ == self.descriptions()[wmo_code@],
            weather.icon_path@ == self.icon_paths()[wmo_code@],
    {
        proof {
            use_type_invariant(self);
        }
        let code = wmo_code.value();
        assert(self.descriptions().contains_key(code));
        assert(self.icon_paths().contains_key(code));
        let description = self.descriptions.get(&code).unwrap().clone();
        let icon_path = self.icon_paths.get(&code).unwrap().clone();
        Weather { description, icon_path }
    }
}

} // verus!
