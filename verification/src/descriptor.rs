//! Challenge descriptors and their decoding.
//!
//! A descriptor file is a JSON object with a top-level `id` string and a
//! `challenge` object holding `title`, `category`, `difficulty` and
//! `description` strings and an optional `hint` string. The JSON text is
//! decoded by `serde_json` behind trusted wrappers. What the decoded
//! document holds is a function of the text alone, so it carries a name:
//! `json_doc` names what `serde_json::from_str` makes of a text, and
//! `json_value_snap` names what the `Value` accessors read off a decoded
//! value. Over those names, `parse_descriptor`'s outcome is pinned exactly
//! to the text (`parse_model`), and the schema itself — which fields must be
//! present and of which type, and which error is reported otherwise — is
//! verified code (`build_descriptor`, exact against `descriptor_spec`).

use vstd::prelude::*;

verus! {

/// A decoded challenge descriptor.
///
/// `external_id` is informational only: persistence identity is derived from
/// `(title, category_name)`, not from `external_id`.
#[derive(Debug)]
pub struct ChallengeDescriptor {
    pub external_id: String,
    pub title: String,
    pub category_name: String,
    pub difficulty: String,
    pub description: String,
    pub hint: Option<String>,
}

/// The mathematical value of a descriptor.
#[verifier::ext_equal]
pub struct DescriptorSnap {
    pub external_id: Seq<char>,
    pub title: Seq<char>,
    pub category_name: Seq<char>,
    pub difficulty: Seq<char>,
    pub description: Seq<char>,
    pub hint: Option<Seq<char>>,
}

impl View for ChallengeDescriptor {
    type V = DescriptorSnap;

    open spec fn view(&self) -> DescriptorSnap {
        DescriptorSnap {
            external_id: self.external_id@,
            title: self.title@,
            category_name: self.category_name@,
            difficulty: self.difficulty@,
            description: self.description@,
            hint: crate::models::challenge::hint_view(self.hint),
        }
    }
}

/// The fields of a descriptor file, named for error reports.
#[derive(Clone, Copy, Debug, PartialEq, Eq, Structural)]
pub enum DescriptorField {
    ExternalId,
    Challenge,
    Title,
    Category,
    Difficulty,
    Description,
    Hint,
}

/// Why a descriptor file was rejected.
#[derive(Clone, Copy, Debug, PartialEq, Eq, Structural)]
pub enum ParseError {
    /// The text is not a well-formed JSON document.
    Syntax,
    /// A required field is absent.
    MissingField(DescriptorField),
    /// A field is present but not of the type the schema gives it.
    WrongType(DescriptorField),
}

/// What a lookup of one schema field found in the decoded document.
#[derive(Debug)]
pub enum FieldReading {
    /// The field is absent.
    Missing,
    /// The field holds JSON `null`.
    Null,
    /// The field holds a JSON string.
    Text(String),
    /// The field holds a JSON value of some other type.
    Other,
}

/// The mathematical value of a `FieldReading`.
pub enum FieldReadingSnap {
    Missing,
    Null,
    Text(Seq<char>),
    Other,
}

pub open spec fn field_view(r: FieldReading) -> FieldReadingSnap {
    match r {
        FieldReading::Missing => FieldReadingSnap::Missing,
        FieldReading::Null => FieldReadingSnap::Null,
        FieldReading::Text(s) => FieldReadingSnap::Text(s@),
        FieldReading::Other => FieldReadingSnap::Other,
    }
}

/// What a lookup of the `challenge` object found in the decoded document.
#[derive(Debug)]
pub enum ChallengeReading {
    /// The `challenge` field is absent.
    Missing,
    /// The `challenge` field holds something other than an object.
    NotObject,
    /// The `challenge` field holds an object with these field readings.
    Fields(RawChallengeFields),
}

/// The readings of the fields inside the `challenge` object.
#[derive(Debug)]
pub struct RawChallengeFields {
    pub title: FieldReading,
    pub category: FieldReading,
    pub difficulty: FieldReading,
    pub description: FieldReading,
    pub hint: FieldReading,
}

/// The readings of the whole document.
#[derive(Debug)]
pub struct RawDescriptor {
    pub external_id: FieldReading,
    pub challenge: ChallengeReading,
}

/// The mathematical value of the `challenge` member's readings.
pub enum ChallengeReadingSnap {
    Missing,
    NotObject,
    Fields(RawFieldsSnap),
}

/// The mathematical values of the fields inside the `challenge` object.
pub struct RawFieldsSnap {
    pub title: FieldReadingSnap,
    pub category: FieldReadingSnap,
    pub difficulty: FieldReadingSnap,
    pub description: FieldReadingSnap,
    pub hint: FieldReadingSnap,
}

/// The mathematical value of the whole document's readings.
pub struct RawSnap {
    pub external_id: FieldReadingSnap,
    pub challenge: ChallengeReadingSnap,
}

pub open spec fn raw_view(raw: RawDescriptor) -> RawSnap {
    RawSnap {
        external_id: field_view(raw.external_id),
        challenge: match raw.challenge {
            ChallengeReading::Missing => ChallengeReadingSnap::Missing,
            ChallengeReading::NotObject => ChallengeReadingSnap::NotObject,
            ChallengeReading::Fields(f) => ChallengeReadingSnap::Fields(
                RawFieldsSnap {
                    title: field_view(f.title),
                    category: field_view(f.category),
                    difficulty: field_view(f.difficulty),
                    description: field_view(f.description),
                    hint: field_view(f.hint),
                },
            ),
        },
    }
}

// ---------------------------------------------------------------------------
// Trusted boundary: serde_json.
// ---------------------------------------------------------------------------

#[verifier::external_type_specification]
#[verifier::external_body]
pub struct ExJsonValue(serde_json::Value);

#[verifier::external_type_specification]
#[verifier::external_body]
pub struct ExJsonError(serde_json::Error);

/// What a member lookup finds in a decoded document: nothing, or a value of
/// one of the kinds the schema distinguishes.
pub enum JsonMember {
    /// No member under that key (also: the holder is no object).
    Absent,
    /// JSON `null`.
    Null,
    /// A JSON string with this content.
    Text(Seq<char>),
    /// A JSON object.
    Object,
    /// A value of any other JSON type.
    Other,
}

/// What the `serde_json::Value` accessors read off one decoded value: its
/// own kind (never `Absent`), its members by key, and its members' members —
/// the two levels the descriptor schema reads.
pub struct JsonValueSnap {
    pub kind: JsonMember,
    pub members: Map<Seq<char>, JsonMember>,
    pub nested: Map<(Seq<char>, Seq<char>), JsonMember>,
}

/// The readings of a decoded `serde_json::Value`. The accessors of `Value`
/// are functions of the value alone; this name stands for what they return,
/// and every accessor wrapper below speaks of it.
pub uninterp spec fn json_value_snap(v: serde_json::Value) -> JsonValueSnap;

/// What decoding a text yields: whether it is well-formed JSON, and the
/// readings of the resulting document.
pub struct JsonDocSnap {
    pub wellformed: bool,
    pub members: Map<Seq<char>, JsonMember>,
    pub nested: Map<(Seq<char>, Seq<char>), JsonMember>,
}

/// What `serde_json::from_str` makes of a text — a function of the text
/// alone. `members` and `nested` are meaningful only when `wellformed`.
pub uninterp spec fn json_doc(s: Seq<char>) -> JsonDocSnap;

/// Relies on serde_json::from_str: decodes the text as one JSON document,
/// failing exactly on malformed JSON; the decoded document is a function of
/// the text alone.
#[verifier::external_body]
fn json_parse(text: &String) -> (r: Result<serde_json::Value, serde_json::Error>)
    ensures
        r is Ok <==> json_doc(text@).wellformed,
        match r {
            Ok(root) => json_value_snap(root).members == json_doc(text@).members
                && json_value_snap(root).nested == json_doc(text@).nested,
            Err(_) => true,
        },
{
    serde_json::from_str::<serde_json::Value>(text.as_str())
}

/// Relies on serde_json::Value::get: the member of an object under a key —
/// `None` exactly when the key is absent or the value is no object — whose
/// own readings are the holder's readings under that key.
#[verifier::external_body]
fn json_get<'a>(value: &'a serde_json::Value, key: &str) -> (r: Option<&'a serde_json::Value>)
    ensures
        r is Some <==> !(json_value_snap(*value).members[key@] is Absent),
        match r {
            Some(member) => json_value_snap(*member).kind == json_value_snap(*value).members[key@]
                && (forall|k: Seq<char>|
                (#[trigger] json_value_snap(*member).members[k]) == json_value_snap(
                    *value,
                ).nested[(key@, k)]),
            None => true,
        },
{
    value.get(key)
}

/// Relies on serde_json::Value::as_str: the content of a JSON string,
/// `None` exactly for a value of any other type.
#[verifier::external_body]
fn json_as_string(value: &serde_json::Value) -> (r: Option<String>)
    ensures
        match r {
            Some(s) => json_value_snap(*value).kind == JsonMember::Text(s@),
            None => !(json_value_snap(*value).kind is Text),
        },
{
    match value.as_str() {
        Some(s) => Some(s.to_owned()),
        None => None,
    }
}

/// Relies on serde_json::Value::is_null.
#[verifier::external_body]
fn json_is_null(value: &serde_json::Value) -> (r: bool)
    ensures
        r == (json_value_snap(*value).kind is Null),
{
    value.is_null()
}

/// Relies on serde_json::Value::is_object.
#[verifier::external_body]
fn json_is_object(value: &serde_json::Value) -> (r: bool)
    ensures
        r == (json_value_snap(*value).kind is Object),
{
    value.is_object()
}

// ---------------------------------------------------------------------------
// Reading the decoded document.
// ---------------------------------------------------------------------------

/// The reading of one schema field, given what the member lookup finds.
pub open spec fn field_of_member(j: JsonMember) -> FieldReadingSnap {
    match j {
        JsonMember::Absent => FieldReadingSnap::Missing,
        JsonMember::Null => FieldReadingSnap::Null,
        JsonMember::Text(s) => FieldReadingSnap::Text(s),
        JsonMember::Object => FieldReadingSnap::Other,
        JsonMember::Other => FieldReadingSnap::Other,
    }
}

/// The readings of the whole document, given its member lookups.
pub open spec fn raw_of_doc(
    members: Map<Seq<char>, JsonMember>,
    nested: Map<(Seq<char>, Seq<char>), JsonMember>,
) -> RawSnap {
    RawSnap {
        external_id: field_of_member(members["id"@]),
        challenge: match members["challenge"@] {
            JsonMember::Absent => ChallengeReadingSnap::Missing,
            JsonMember::Object => ChallengeReadingSnap::Fields(
                RawFieldsSnap {
                    title: field_of_member(nested[("challenge"@, "title"@)]),
                    category: field_of_member(nested[("challenge"@, "category"@)]),
                    difficulty: field_of_member(nested[("challenge"@, "difficulty"@)]),
                    description: field_of_member(nested[("challenge"@, "description"@)]),
                    hint: field_of_member(nested[("challenge"@, "hint"@)]),
                },
            ),
            JsonMember::Null => ChallengeReadingSnap::NotObject,
            JsonMember::Text(_) => ChallengeReadingSnap::NotObject,
            JsonMember::Other => ChallengeReadingSnap::NotObject,
        },
    }
}

/// Reads one schema field out of a decoded document.
fn read_field(value: &serde_json::Value, key: &str) -> (r: FieldReading)
    ensures
        field_view(r) == field_of_member(json_value_snap(*value).members[key@]),
{
    match json_get(value, key) {
        None => FieldReading::Missing,
        Some(member) => {
            if json_is_null(member) {
                FieldReading::Null
            } else {
                match json_as_string(member) {
                    Some(text) => FieldReading::Text(text),
                    None => FieldReading::Other,
                }
            }
        },
    }
}

/// Reads the readings of every schema field out of a decoded document.
fn read_descriptor(root: &serde_json::Value) -> (r: RawDescriptor)
    ensures
        raw_view(r) == raw_of_doc(json_value_snap(*root).members, json_value_snap(*root).nested),
{
    let external_id = read_field(root, "id");
    let challenge = match json_get(root, "challenge") {
        None => ChallengeReading::Missing,
        Some(challenge) => {
            if !json_is_object(challenge) {
                ChallengeReading::NotObject
            } else {
                ChallengeReading::Fields(
                    RawChallengeFields {
                        title: read_field(challenge, "title"),
                        category: read_field(challenge, "category"),
                        difficulty: read_field(challenge, "difficulty"),
                        description: read_field(challenge, "description"),
                        hint: read_field(challenge, "hint"),
                    },
                )
            }
        },
    };
    RawDescriptor { external_id, challenge }
}

// ---------------------------------------------------------------------------
// The schema, verified.
// ---------------------------------------------------------------------------

/// What the schema makes of one required string field.
pub open spec fn required_text_spec(r: FieldReadingSnap, field: DescriptorField) -> Result<
    Seq<char>,
    ParseError,
> {
    match r {
        FieldReadingSnap::Missing => Err(ParseError::MissingField(field)),
        FieldReadingSnap::Null => Err(ParseError::WrongType(field)),
        FieldReadingSnap::Text(s) => Ok(s),
        FieldReadingSnap::Other => Err(ParseError::WrongType(field)),
    }
}

/// What the schema makes of the optional `hint` field: absent and `null`
/// both mean "no hint".
pub open spec fn optional_text_spec(r: FieldReadingSnap) -> Result<Option<Seq<char>>, ParseError> {
    match r {
        FieldReadingSnap::Missing => Ok(None),
        FieldReadingSnap::Null => Ok(None),
        FieldReadingSnap::Text(s) => Ok(Some(s)),
        FieldReadingSnap::Other => Err(ParseError::WrongType(DescriptorField::Hint)),
    }
}

/// What the schema makes of a whole document: the descriptor it decodes to,
/// or the first rejection in field order `id`, `challenge`, `title`,
/// `category`, `difficulty`, `description`, `hint`.
pub open spec fn descriptor_spec(raw: RawSnap) -> Result<DescriptorSnap, ParseError> {
    match required_text_spec(raw.external_id, DescriptorField::ExternalId) {
        Err(e) => Err(e),
        Ok(external_id) => match raw.challenge {
            ChallengeReadingSnap::Missing => Err(
                ParseError::MissingField(DescriptorField::Challenge),
            ),
            ChallengeReadingSnap::NotObject => Err(
                ParseError::WrongType(DescriptorField::Challenge),
            ),
            ChallengeReadingSnap::Fields(f) => match required_text_spec(
                f.title,
                DescriptorField::Title,
            ) {
                Err(e) => Err(e),
                Ok(title) => match required_text_spec(f.category, DescriptorField::Category) {
                    Err(e) => Err(e),
                    Ok(category_name) => match required_text_spec(
                        f.difficulty,
                        DescriptorField::Difficulty,
                    ) {
                        Err(e) => Err(e),
                        Ok(difficulty) => match required_text_spec(
                            f.description,
                            DescriptorField::Description,
                        ) {
                            Err(e) => Err(e),
                            Ok(description) => match optional_text_spec(f.hint) {
                                Err(e) => Err(e),
                                Ok(hint) => Ok(
                                    DescriptorSnap {
                                        external_id,
                                        title,
                                        category_name,
                                        difficulty,
                                        description,
                                        hint,
                                    },
                                ),
                            },
                        },
                    },
                },
            },
        },
    }
}

/// The view of a parse outcome.
pub open spec fn parse_view(r: Result<ChallengeDescriptor, ParseError>) -> Result<
    DescriptorSnap,
    ParseError,
> {
    match r {
        Ok(d) => Ok(d@),
        Err(e) => Err(e),
    }
}

/// What parsing a descriptor file yields, as a function of its text alone:
/// a syntax error exactly on malformed JSON, and the schema's verdict on the
/// decoded document's readings otherwise.
pub open spec fn parse_model(s: Seq<char>) -> Result<DescriptorSnap, ParseError> {
    if !json_doc(s).wellformed {
        Err(ParseError::Syntax)
    } else {
        descriptor_spec(raw_of_doc(json_doc(s).members, json_doc(s).nested))
    }
}

/// One required string field of the document.
fn take_required(r: FieldReading, field: DescriptorField) -> (out: Result<String, ParseError>)
    ensures
        (match out {
            Ok(s) => Ok(s@),
            Err(e) => Err(e),
        }) == required_text_spec(field_view(r), field),
{
    match r {
        FieldReading::Missing => Err(ParseError::MissingField(field)),
        FieldReading::Null => Err(ParseError::WrongType(field)),
        FieldReading::Text(s) => Ok(s),
        FieldReading::Other => Err(ParseError::WrongType(field)),
    }
}

/// Validates the field readings of a document against the descriptor
/// schema. This is the exact, verified statement of the schema: it returns
/// `Ok` if and only if `descriptor_spec` accepts the readings, and the same
/// rejection otherwise.
pub fn build_descriptor(raw: RawDescriptor) -> (r: Result<ChallengeDescriptor, ParseError>)
    ensures
        parse_view(r) == descriptor_spec(raw_view(raw)),
{
    let external_id = match take_required(raw.external_id, DescriptorField::ExternalId) {
        Ok(s) => s,
        Err(e) => {
            return Err(e);
        },
    };
    let fields = match raw.challenge {
        ChallengeReading::Missing => {
            return Err(ParseError::MissingField(DescriptorField::Challenge));
        },
        ChallengeReading::NotObject => {
            return Err(ParseError::WrongType(DescriptorField::Challenge));
        },
        ChallengeReading::Fields(f) => f,
    };
    let title = match take_required(fields.title, DescriptorField::Title) {
        Ok(s) => s,
        Err(e) => {
            return Err(e);
        },
    };
    let category_name = match take_required(fields.category, DescriptorField::Category) {
        Ok(s) => s,
        Err(e) => {
            return Err(e);
        },
    };
    let difficulty = match take_required(fields.difficulty, DescriptorField::Difficulty) {
        Ok(s) => s,
        Err(e) => {
            return Err(e);
        },
    };
    let description = match take_required(fields.description, DescriptorField::Description) {
        Ok(s) => s,
        Err(e) => {
            return Err(e);
        },
    };
    let hint = match fields.hint {
        FieldReading::Missing => None,
        FieldReading::Null => None,
        FieldReading::Text(s) => Some(s),
        FieldReading::Other => {
            return Err(ParseError::WrongType(DescriptorField::Hint));
        },
    };
    Ok(ChallengeDescriptor { external_id, title, category_name, difficulty, description, hint })
}

/// Decodes one descriptor file: the outcome is exactly `parse_model` of the
/// text — `serde_json` decides what the text's document holds, under the
/// names above, and the schema's verdict on it is verified.
pub fn parse_descriptor(text: &String) -> (r: Result<ChallengeDescriptor, ParseError>)
    ensures
        parse_view(r) == parse_model(text@),
{
    match json_parse(text) {
        Err(_) => Err(ParseError::Syntax),
        Ok(root) => build_descriptor(read_descriptor(&root)),
    }
}

} // verus!
