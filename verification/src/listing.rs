//! The file listing: a JSON object that maps every source file to the data
//! that the document declares, assembled with the `json` crate.

use crate::classify::{classify, passthrough_applies, BuildAction, ClassifyError, CompileOutput};
use crate::compile::{query_command, renderer_query_command};
use crate::text::texts;
use vstd::utf8::encode_utf8;
use crate::config::{Config, FileListing};
use vstd::prelude::*;

verus! {

/// `json::JsonValue`, a JSON value. Nothing inside it is visible here.
#[verifier::external_type_specification]
#[verifier::external_body]
pub struct ExJsonValue(json::JsonValue);

/// `json::object::Object`, a JSON object that keeps its members in the order
/// in which their keys were first set. Nothing inside it is visible here.
#[verifier::external_type_specification]
#[verifier::external_body]
pub struct ExJsonObject(json::object::Object);

/// `json::Error`, why a text is no JSON. Nothing inside it is visible here.
#[verifier::external_type_specification]
#[verifier::external_body]
pub struct ExJsonError(json::Error);

/// The compact JSON text of a value: what `JsonValue::dump` writes for it.
pub uninterp spec fn json_text(value: json::JsonValue) -> Seq<char>;

/// The compact JSON text of the value that `json::parse` reads from a text,
/// or `None` where it rejects the text.
pub uninterp spec fn json_parsed(text: Seq<char>) -> Option<Seq<char>>;

/// The members of an object in their order: each key with the compact JSON
/// text of its value.
pub uninterp spec fn object_members(object: json::object::Object) -> Seq<(Seq<char>, Seq<char>)>;

/// The compact JSON text that `Object::dump` writes for an object with the
/// given members.
pub uninterp spec fn object_text(members: Seq<(Seq<char>, Seq<char>)>) -> Seq<char>;

/// The index of the member with the given key.
pub open spec fn member_index(members: Seq<(Seq<char>, Seq<char>)>, key: Seq<char>) -> Option<int>
    decreases members.len(),
{
    if members.len() == 0 {
        None
    } else if members.last().0 == key {
        Some(members.len() - 1)
    } else {
        member_index(members.drop_last(), key)
    }
}

/// The members after one is set: the value of an existing key is replaced
/// where it stands, a new key is added at the end.
pub open spec fn with_member(
    members: Seq<(Seq<char>, Seq<char>)>,
    key: Seq<char>,
    text: Seq<char>,
) -> Seq<(Seq<char>, Seq<char>)> {
    match member_index(members, key) {
        Some(i) => members.update(i, (key, text)),
        None => members.push((key, text)),
    }
}

/// The longest run of decimal digits that a text may hold to be read as JSON.
pub const MAX_DIGIT_RUN: usize = 32767;

/// Whether a byte is a decimal digit.
pub open spec fn is_digit(b: u8) -> bool {
    48 <= b <= 57
}

/// The length of the run of decimal digits that ends just before index `end`.
pub open spec fn digit_run_before(s: Seq<u8>, end: int) -> nat
    decreases end,
{
    if end <= 0 || end > s.len() || !is_digit(s[end - 1]) {
        0
    } else {
        1 + digit_run_before(s, end - 1)
    }
}

/// Whether no run of decimal digits in `s` is longer than `MAX_DIGIT_RUN`.
pub open spec fn digit_runs_fit(s: Seq<u8>) -> bool {
    forall|end: int| 0 <= end <= s.len() ==> #[trigger] digit_run_before(s, end) <= MAX_DIGIT_RUN
}

/// Whether a text can be handed to the JSON reader: no run of decimal
/// digits in it is longer than `MAX_DIGIT_RUN`.
pub open spec fn is_readable(text: Seq<char>) -> bool {
    digit_runs_fit(encode_utf8(text))
}

/// Tests that no run of decimal digits is longer than `MAX_DIGIT_RUN`.
pub fn has_short_digit_runs(s: &[u8]) -> (r: bool)
    ensures
        r == digit_runs_fit(s@),
{
    let mut i: usize = 0;
    let mut run: usize = 0;
    while i < s.len()
        invariant
            i <= s.len(),
            run == digit_run_before(s@, i as int),
            run <= MAX_DIGIT_RUN,
            forall|end: int| 0 <= end <= i ==> #[trigger] digit_run_before(s@, end) <= MAX_DIGIT_RUN,
        decreases s.len() - i,
    {
        if 48 <= s[i] && s[i] <= 57 {
            if run == MAX_DIGIT_RUN {
                assert(digit_run_before(s@, i as int + 1) == run + 1);
                return false;
            }
            run = run + 1;
        } else {
            run = 0;
        }
        i = i + 1;
    }
    true
}

/// Calls `json::object::Object::new`.
///
/// Trusted: the new object has no members.
#[verifier::external_body]
fn object_new() -> (r: json::object::Object)
    ensures
        object_members(r) == Seq::<(Seq<char>, Seq<char>)>::empty(),
{
    json::object::Object::new()
}

/// Calls `json::object::Object::insert`.
///
/// Trusted: a key that the object holds keeps its place and gets the new
/// value; any other key is added after the members that are there.
#[verifier::external_body]
fn object_insert(object: &mut json::object::Object, key: &str, value: json::JsonValue)
    ensures
        object_members(*final(object)) == with_member(
            object_members(*old(object)),
            key@,
            json_text(value),
        ),
{
    object.insert(key, value)
}

/// Calls `json::object::Object::dump`.
///
/// Trusted: the text is a function of the members and their order, and an
/// object without members is written as `{}`.
#[verifier::external_body]
fn object_dump(object: &json::object::Object) -> (r: String)
    ensures
        r@ == object_text(object_members(*object)),
        object_members(*object).len() == 0 ==> r@ == "{}"@,
{
    object.dump()
}

/// Calls `json::JsonValue::new_array`.
///
/// Trusted: the compact text of an empty array is `[]`.
#[verifier::external_body]
fn empty_array() -> (r: json::JsonValue)
    ensures
        json_text(r) == "[]"@,
{
    json::JsonValue::new_array()
}

/// Calls `json::parse`.
///
/// Trusted: whether the text is accepted, and the compact text of the value
/// read from it, depend on the text alone. The reader counts the digits of a
/// fraction in a 16-bit exponent, so a text with a longer run of digits is
/// kept from it.
#[verifier::external_body]
fn parse_json(text: &str) -> (r: Result<json::JsonValue, json::Error>)
    requires
        is_readable(text@),
    ensures
        match r {
            Ok(value) => json_parsed(text@) == Some(json_text(value)),
            Err(_) => json_parsed(text@) is None,
        },
{
    json::parse(text)
}

/// One source file in the listing.
#[derive(Debug)]
pub struct ListingEntry {
    /// The path of the source file, as text.
    pub key: String,
    /// What the query of the document's data printed, where the query ran and
    /// succeeded.
    pub data: Option<String>,
}

/// Why a listing cannot be made.
#[derive(Clone, Copy, Debug, PartialEq, Eq, Structural)]
pub enum ListingError {
    /// The data printed for the entry at this index is no JSON, or holds a run
    /// of more than `MAX_DIGIT_RUN` digits.
    InvalidData(usize),
}

/// Whether the data of an entry can be listed: it holds no run of digits
/// that is too long, and it is JSON.
pub open spec fn entry_is_valid(entry: ListingEntry) -> bool {
    match entry.data {
        Some(text) => is_readable(text@) && json_parsed(text@) is Some,
        None => true,
    }
}

/// The JSON text listed for an entry: its data, or an empty array without.
pub open spec fn entry_text(entry: ListingEntry) -> Seq<char> {
    match entry.data {
        Some(text) => json_parsed(text@)->0,
        None => "[]"@,
    }
}

/// The members of the listing of the given entries, set one after another.
pub open spec fn listing_members(entries: Seq<ListingEntry>) -> Seq<(Seq<char>, Seq<char>)>
    decreases entries.len(),
{
    if entries.len() == 0 {
        Seq::empty()
    } else {
        with_member(
            listing_members(entries.drop_last()),
            entries.last().key@,
            entry_text(entries.last()),
        )
    }
}

/// Whether `r` is the listing owed for the entries: the text of the object
/// with the listing's members, which is `{}` without entries, or the first
/// entry whose data cannot be listed.
pub open spec fn is_listing(r: Result<String, ListingError>, entries: Seq<ListingEntry>) -> bool {
    match r {
        Ok(text) => {
            &&& forall|i: int| 0 <= i < entries.len() ==> entry_is_valid(#[trigger] entries[i])
            &&& text@ == object_text(listing_members(entries))
            &&& entries.len() == 0 ==> text@ == "{}"@
        },
        Err(ListingError::InvalidData(i)) => {
            &&& i < entries.len()
            &&& !entry_is_valid(entries[i as int])
            &&& forall|j: int| 0 <= j < i ==> entry_is_valid(#[trigger] entries[j])
        },
    }
}

/// Assembles the listing as JSON text: an object with one member for each
/// entry, in the order of the entries.
pub fn files_as_json(entries: &Vec<ListingEntry>) -> (r: Result<String, ListingError>)
    ensures
        is_listing(r, entries@),
{
    let mut object = object_new();
    let mut i: usize = 0;
    assert(entries@.take(0) =~= Seq::<ListingEntry>::empty());
    while i < entries.len()
        invariant
            i <= entries.len(),
            forall|j: int| 0 <= j < i ==> entry_is_valid(#[trigger] entries@[j]),
            object_members(object) == listing_members(entries@.take(i as int)),
        decreases entries.len() - i,
    {
        let entry = &entries[i];
        let value = match &entry.data {
            Some(text) => {
                if !has_short_digit_runs(text.as_str().as_bytes()) {
                    return Err(ListingError::InvalidData(i));
                }
                match parse_json(text.as_str()) {
                    Ok(value) => value,
                    Err(_) => {
                        return Err(ListingError::InvalidData(i));
                    },
                }
            },
            None => empty_array(),
        };
        assert(json_text(value) == entry_text(entries@[i as int]));
        object_insert(&mut object, entry.key.as_str(), value);
        assert(entries@.take(i as int + 1).drop_last() =~= entries@.take(i as int));
        i = i + 1;
    }
    assert(entries@.take(entries@.len() as int) =~= entries@);
    Ok(object_dump(&object))
}

/// Whether the data of a source file is queried: only for a document that is
/// rendered, and only where the listing includes data.
pub open spec fn wants_data(mode: FileListing, action: BuildAction) -> bool {
    mode == FileListing::IncludeData && action is CompileToPath
}

/// The command that queries the data of a source file, where it is queried.
pub open spec fn data_query(source: Seq<u8>, config: Config) -> Result<
    Option<Seq<Seq<u8>>>,
    ClassifyError,
> {
    match classify(source, config, passthrough_applies(source, config)) {
        Ok(action) => if wants_data(config.file_listing, action) {
            Ok(Some(query_command(source, config)))
        } else {
            Ok(None)
        },
        Err(e) => Err(e),
    }
}

/// Decides whether the data of a source file is queried, and with which
/// command.
pub fn listing_query(source: &[u8], config: &Config) -> (r: Result<
    Option<Vec<Vec<u8>>>,
    ClassifyError,
>)
    ensures
        match r {
            Ok(Some(command)) => data_query(source@, *config) == Ok::<
                Option<Seq<Seq<u8>>>,
                ClassifyError,
            >(Some(texts(command@))),
            Ok(None) => data_query(source@, *config) == Ok::<Option<Seq<Seq<u8>>>, ClassifyError>(
                None,
            ),
            Err(e) => data_query(source@, *config) == Err::<Option<Seq<Seq<u8>>>, ClassifyError>(
                e,
            ),
        },
{
    match CompileOutput::from_full_path(source, config) {
        Ok(action) => {
            let document = match action {
                CompileOutput::CompileToPath(_) => true,
                _ => false,
            };
            let with_data = match config.file_listing {
                FileListing::IncludeData => true,
                _ => false,
            };
            if with_data && document {
                Ok(Some(renderer_query_command(source, config)))
            } else {
                Ok(None)
            }
        },
        Err(e) => Err(e),
    }
}

/// The data listed for a source file after its query ran: what a successful
/// query printed, and nothing after a failed one, which lists the file with
/// an empty value.
pub fn listed_data(success: bool, printed: String) -> (r: Option<String>)
    ensures
        r == if success {
            Some(printed)
        } else {
            None
        },
{
    if success {
        Some(printed)
    } else {
        None
    }
}

} // verus!
