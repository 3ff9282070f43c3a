//! How a package is written as a JSON document, and read back from one.
//!
//! A package is an object with the member `id` and one member named after
//! the kind of its payload: `command`, `result` or `hit`. A command is its
//! name, or an object with its name as the only key. A result is the pair of
//! the answered identifier and `{"Ok": null}` or `{"Err": detail}`. A hit is
//! an object of its five fields.
//!
//! Reading is more lenient than writing: members may stand in any order,
//! members that are not known are skipped, a member that comes twice counts
//! as the later one, a command without an argument may come as an object,
//! and a hit may come as the array of its fields.

use vstd::prelude::*;
use vstd::utf8::encode_utf8;
use crate::constants::SOCKET_BUFFER_SIZE;
use crate::json::{
    find, find_from, find_member, is_unit, items_view, json_parse, json_text, lemma_array_view,
    lemma_object_view, members_view, number_free, parse_json, print_json, same_text, Json,
    JsonView, Member,
};
use crate::package::{
    text_view, verdict_view, Command, CommandView, Hit, HitId, HitView, Package, PackageId,
    PackageView, Payload, PayloadView,
};
use crate::socket::{
    bytes_to_string, create_buffer, lemma_frame_round_trip, padded, tight, unframed,
};

verus! {

/// Why no package could be read.
#[derive(Debug, Clone, Copy, PartialEq, Eq, Structural)]
pub enum DecodeError {
    /// The text is no JSON document: it is cut short, or malformed.
    Syntax,
    /// The document is no object, or has no text under `id`.
    Envelope,
    /// No member names a kind of payload, or a command's name is not known.
    UnknownTag,
    /// The payload has not the shape that its kind asks for.
    Payload,
}

impl DecodeError {
    /// A sentence that says what went wrong.
    pub fn message(&self) -> (text: &'static str)
        ensures
            text@ == match self {
                DecodeError::Syntax => "the text is no JSON document"@,
                DecodeError::Envelope => "the document is no object with an id"@,
                DecodeError::UnknownTag => "the document names no known payload"@,
                DecodeError::Payload => "the payload has the wrong shape"@,
            },
    {
        match self {
            DecodeError::Syntax => "the text is no JSON document",
            DecodeError::Envelope => "the document is no object with an id",
            DecodeError::UnknownTag => "the document names no known payload",
            DecodeError::Payload => "the payload has the wrong shape",
        }
    }
}

/// The document of a command.
pub open spec fn command_document(command: CommandView) -> JsonView {
    match command {
        CommandView::Quit => JsonView::Str("quit"@),
        CommandView::Abort => JsonView::Str("abort"@),
        CommandView::Activate(id) => JsonView::Object(seq![("activate"@, JsonView::Str(id))]),
        CommandView::GetData(text) => JsonView::Object(seq![("get_data"@, JsonView::Str(text))]),
    }
}

/// The document of an answer's verdict.
pub open spec fn verdict_document(verdict: Result<(), Seq<char>>) -> JsonView {
    match verdict {
        Ok(_) => JsonView::Object(seq![("Ok"@, JsonView::Null)]),
        Err(detail) => JsonView::Object(seq![("Err"@, JsonView::Str(detail))]),
    }
}

/// The document of an optional text.
pub open spec fn optional_document(text: Option<Seq<char>>) -> JsonView {
    match text {
        Some(text) => JsonView::Str(text),
        None => JsonView::Null,
    }
}

/// The document of a hit.
pub open spec fn hit_document(hit: HitView) -> JsonView {
    JsonView::Object(
        seq![
            ("id"@, JsonView::Str(hit.id)),
            ("title"@, JsonView::Str(hit.title)),
            ("description"@, optional_document(hit.description)),
            ("icon"@, optional_document(hit.icon)),
            ("use_pango"@, JsonView::Bool(hit.use_pango)),
        ],
    )
}

/// The member that a payload adds to the document of its package.
pub open spec fn payload_member(payload: PayloadView) -> (Seq<char>, JsonView) {
    match payload {
        PayloadView::Command(command) => ("command"@, command_document(command)),
        PayloadView::Result(id, verdict) => (
            "result"@,
            JsonView::Array(seq![JsonView::Str(id), verdict_document(verdict)]),
        ),
        PayloadView::Hit(hit) => ("hit"@, hit_document(hit)),
    }
}

/// The document of a package.
pub open spec fn package_document(package: PackageView) -> JsonView {
    JsonView::Object(seq![("id"@, JsonView::Str(package.id)), payload_member(package.payload)])
}

/// Whether `key` names a kind of payload.
pub open spec fn is_tag(key: Seq<char>) -> bool {
    key == "command"@ || key == "result"@ || key == "hit"@
}

/// The first place at or after `from` whose member names a kind of payload.
pub open spec fn tag_from(members: Seq<(Seq<char>, JsonView)>, from: int) -> Option<int>
    decreases members.len() - from,
{
    if from < 0 || from >= members.len() {
        None
    } else if is_tag(members[from].0) {
        Some(from)
    } else {
        tag_from(members, from + 1)
    }
}

/// What `tag_from` finds lies among the members and names a kind of payload.
pub proof fn lemma_tag_from(members: Seq<(Seq<char>, JsonView)>, from: int)
    requires
        0 <= from,
    ensures
        tag_from(members, from) matches Some(at) ==> from <= at < members.len() && is_tag(
            members[at].0,
        ),
    decreases members.len() - from,
{
    if from < members.len() && !is_tag(members[from].0) {
        lemma_tag_from(members, from + 1);
    }
}

/// The command that a document stands for.
///
/// A text is the name of a command without an argument. An object must have
/// one member: the name of a command and its argument, which is a text for
/// `activate` and `get_data`, and nothing for `quit` and `abort`.
pub open spec fn document_command(doc: JsonView) -> Result<CommandView, DecodeError> {
    match doc {
        JsonView::Str(name) => if name == "quit"@ {
            Ok(CommandView::Quit)
        } else if name == "abort"@ {
            Ok(CommandView::Abort)
        } else if name == "activate"@ || name == "get_data"@ {
            Err(DecodeError::Payload)
        } else {
            Err(DecodeError::UnknownTag)
        },
        JsonView::Object(members) => if members.len() != 1 {
            Err(DecodeError::Payload)
        } else {
            let name = members[0].0;
            let argument = members[0].1;
            if name == "quit"@ {
                if is_unit(argument) {
                    Ok(CommandView::Quit)
                } else {
                    Err(DecodeError::Payload)
                }
            } else if name == "abort"@ {
                if is_unit(argument) {
                    Ok(CommandView::Abort)
                } else {
                    Err(DecodeError::Payload)
                }
            } else if name == "activate"@ {
                match argument {
                    JsonView::Str(id) => Ok(CommandView::Activate(id)),
                    _ => Err(DecodeError::Payload),
                }
            } else if name == "get_data"@ {
                match argument {
                    JsonView::Str(text) => Ok(CommandView::GetData(text)),
                    _ => Err(DecodeError::Payload),
                }
            } else {
                Err(DecodeError::UnknownTag)
            }
        },
        _ => Err(DecodeError::Payload),
    }
}

/// The verdict that a document stands for: an object with the one member
/// `Ok`, with nothing under it, or `Err`, with a text under it.
pub open spec fn document_verdict(doc: JsonView) -> Result<Result<(), Seq<char>>, DecodeError> {
    match doc {
        JsonView::Object(members) => if members.len() != 1 {
            Err(DecodeError::Payload)
        } else if members[0].0 == "Ok"@ && is_unit(members[0].1) {
            Ok(Ok(()))
        } else if members[0].0 == "Err"@ {
            match members[0].1 {
                JsonView::Str(detail) => Ok(Err(detail)),
                _ => Err(DecodeError::Payload),
            }
        } else {
            Err(DecodeError::Payload)
        },
        _ => Err(DecodeError::Payload),
    }
}

/// The answer that a document stands for: the array of the answered
/// identifier and the verdict.
pub open spec fn document_result(doc: JsonView) -> Result<PayloadView, DecodeError> {
    match doc {
        JsonView::Array(items) => if items.len() != 2 {
            Err(DecodeError::Payload)
        } else {
            match (items[0], document_verdict(items[1])) {
                (JsonView::Str(id), Ok(verdict)) => Ok(PayloadView::Result(id, verdict)),
                _ => Err(DecodeError::Payload),
            }
        },
        _ => Err(DecodeError::Payload),
    }
}

/// The optional text that a document stands for.
pub open spec fn document_optional(doc: JsonView) -> Result<Option<Seq<char>>, DecodeError> {
    match doc {
        JsonView::Null => Ok(None),
        JsonView::Str(text) => Ok(Some(text)),
        _ => Err(DecodeError::Payload),
    }
}

/// The hit whose five fields are these documents.
pub open spec fn hit_of_fields(
    id: JsonView,
    title: JsonView,
    description: JsonView,
    icon: JsonView,
    use_pango: JsonView,
) -> Result<HitView, DecodeError> {
    match (id, title, document_optional(description), document_optional(icon), use_pango) {
        (
            JsonView::Str(id),
            JsonView::Str(title),
            Ok(description),
            Ok(icon),
            JsonView::Bool(use_pango),
        ) => Ok(HitView { id, title, description, icon, use_pango }),
        _ => Err(DecodeError::Payload),
    }
}

/// The document under `key`, or `null` where the object has no such member.
pub open spec fn field_or_null(members: Seq<(Seq<char>, JsonView)>, key: Seq<char>) -> JsonView {
    match find(members, key) {
        Some(value) => value,
        None => JsonView::Null,
    }
}

/// The hit that a document stands for.
///
/// An object must hold `id`, `title` and `use_pango`; `description` and
/// `icon` may be missing. An array must hold the five fields in the order
/// `id`, `title`, `description`, `icon`, `use_pango`.
pub open spec fn document_hit(doc: JsonView) -> Result<HitView, DecodeError> {
    match doc {
        JsonView::Object(members) => match (
            find(members, "id"@),
            find(members, "title"@),
            find(members, "use_pango"@),
        ) {
            (Some(id), Some(title), Some(use_pango)) => hit_of_fields(
                id,
                title,
                field_or_null(members, "description"@),
                field_or_null(members, "icon"@),
                use_pango,
            ),
            _ => Err(DecodeError::Payload),
        },
        JsonView::Array(items) => if items.len() != 5 {
            Err(DecodeError::Payload)
        } else {
            hit_of_fields(items[0], items[1], items[2], items[3], items[4])
        },
        _ => Err(DecodeError::Payload),
    }
}

/// The payload that the member `tag` stands for.
pub open spec fn document_payload(tag: Seq<char>, doc: JsonView) -> Result<PayloadView, DecodeError> {
    if tag == "command"@ {
        match document_command(doc) {
            Ok(command) => Ok(PayloadView::Command(command)),
            Err(error) => Err(error),
        }
    } else if tag == "result"@ {
        document_result(doc)
    } else {
        match document_hit(doc) {
            Ok(hit) => Ok(PayloadView::Hit(hit)),
            Err(error) => Err(error),
        }
    }
}

/// The package that a document stands for.
///
/// The document must be an object with a text under `id`. Its payload is the
/// first member that names a kind of payload.
pub open spec fn document_package(doc: JsonView) -> Result<PackageView, DecodeError> {
    match doc {
        JsonView::Object(members) => match find(members, "id"@) {
            Some(JsonView::Str(id)) => match tag_from(members, 0) {
                Some(at) => match document_payload(members[at].0, members[at].1) {
                    Ok(payload) => Ok(PackageView { id, payload }),
                    Err(error) => Err(error),
                },
                None => Err(DecodeError::UnknownTag),
            },
            _ => Err(DecodeError::Envelope),
        },
        _ => Err(DecodeError::Envelope),
    }
}

/// The package that a text stands for.
pub open spec fn text_package(text: Seq<char>) -> Result<PackageView, DecodeError> {
    match json_parse(text) {
        Some(doc) => document_package(doc),
        None => Err(DecodeError::Syntax),
    }
}

/// The names that the documents use differ from one another.
pub proof fn lemma_names_differ()
    ensures
        "id"@ != "command"@,
        "id"@ != "result"@,
        "id"@ != "hit"@,
        "command"@ != "result"@,
        "command"@ != "hit"@,
        "result"@ != "hit"@,
        "id"@ != "title"@,
        "id"@ != "description"@,
        "id"@ != "icon"@,
        "id"@ != "use_pango"@,
        "title"@ != "description"@,
        "title"@ != "icon"@,
        "title"@ != "use_pango"@,
        "description"@ != "icon"@,
        "description"@ != "use_pango"@,
        "icon"@ != "use_pango"@,
        "quit"@ != "abort"@,
        "quit"@ != "activate"@,
        "quit"@ != "get_data"@,
        "abort"@ != "activate"@,
        "abort"@ != "get_data"@,
        "activate"@ != "get_data"@,
        "Ok"@ != "Err"@,
{
    reveal_strlit("id");
    reveal_strlit("command");
    reveal_strlit("result");
    reveal_strlit("hit");
    reveal_strlit("title");
    reveal_strlit("description");
    reveal_strlit("icon");
    reveal_strlit("use_pango");
    reveal_strlit("quit");
    reveal_strlit("abort");
    reveal_strlit("activate");
    reveal_strlit("get_data");
    reveal_strlit("Ok");
    reveal_strlit("Err");
    assert("id"@.len() == 2);
    assert("command"@.len() == 7);
    assert("result"@.len() == 6);
    assert("hit"@.len() == 3);
    assert("title"@.len() == 5);
    assert("description"@.len() == 11);
    assert("icon"@.len() == 4);
    assert("use_pango"@.len() == 9);
    assert("quit"@.len() == 4);
    assert("abort"@.len() == 5);
    assert("activate"@.len() == 8);
    assert("get_data"@.len() == 8);
    assert("Ok"@.len() == 2);
    assert("Err"@.len() == 3);
    assert("activate"@[0] == 'a');
    assert("get_data"@[0] == 'g');
}

/// Reading the document of a command gives the command.
pub proof fn lemma_command_round_trip(command: CommandView)
    ensures
        document_command(command_document(command)) == Ok::<CommandView, DecodeError>(command),
{
    lemma_names_differ();
}

/// Reading the document of a verdict gives the verdict.
pub proof fn lemma_verdict_round_trip(verdict: Result<(), Seq<char>>)
    ensures
        document_verdict(verdict_document(verdict)) == Ok::<Result<(), Seq<char>>, DecodeError>(
            verdict,
        ),
{
    lemma_names_differ();
    match verdict {
        Ok(nothing) => {
            assert(nothing == ());
            assert(verdict_document(verdict)->Object_0[0] == ("Ok"@, JsonView::Null));
        },
        Err(detail) => {
            assert(verdict_document(verdict)->Object_0[0] == ("Err"@, JsonView::Str(detail)));
        },
    }
}

/// Reading the document of a hit gives the hit.
pub proof fn lemma_hit_round_trip(hit: HitView)
    ensures
        document_hit(hit_document(hit)) == Ok::<HitView, DecodeError>(hit),
{
    lemma_names_differ();
    reveal_with_fuel(find_from, 6);
}

/// Reading the document of a package gives the package: whatever is
/// written can be read, and reads as what was written.
pub proof fn lemma_round_trip(package: PackageView)
    ensures
        document_package(package_document(package)) == Ok::<PackageView, DecodeError>(package),
{
    lemma_names_differ();
    reveal_with_fuel(find_from, 3);
    reveal_with_fuel(tag_from, 3);
    match package.payload {
        PayloadView::Command(command) => {
            lemma_command_round_trip(command);
        },
        PayloadView::Result(id, verdict) => {
            lemma_verdict_round_trip(verdict);
        },
        PayloadView::Hit(hit) => {
            lemma_hit_round_trip(hit);
        },
    }
}

/// No document of a package holds a number.
pub proof fn lemma_number_free(package: PackageView)
    ensures
        number_free(package_document(package)),
{
    reveal_with_fuel(number_free, 4);
    let doc = package_document(package);
    let members = doc->Object_0;
    assert(number_free(members[0].1));
    match package.payload {
        PayloadView::Command(command) => {
            match command {
                CommandView::Activate(id) => {
                    assert(number_free(command_document(command)->Object_0[0].1));
                },
                CommandView::GetData(text) => {
                    assert(number_free(command_document(command)->Object_0[0].1));
                },
                _ => {},
            }
            assert(number_free(command_document(command)));
        },
        PayloadView::Result(id, verdict) => {
            let items = members[1].1->Array_0;
            assert(number_free(verdict_document(verdict)->Object_0[0].1));
            assert(number_free(verdict_document(verdict)));
            assert(number_free(items[0]));
            assert(number_free(items[1]));
            assert(number_free(members[1].1));
        },
        PayloadView::Hit(hit) => {
            let fields = hit_document(hit)->Object_0;
            assert(number_free(fields[0].1));
            assert(number_free(fields[1].1));
            assert(number_free(fields[2].1));
            assert(number_free(fields[3].1));
            assert(number_free(fields[4].1));
            assert(number_free(hit_document(hit)));
        },
    }
    assert(number_free(members[1].1));
}

/// The member with this key and this document.
fn member(key: &str, value: Json) -> (member: Member)
    ensures
        member.key@ == key@,
        member.value == value,
{
    Member { key: key.to_owned(), value }
}

/// The object with one member.
fn object_of_one(key: &str, value: Json) -> (doc: Json)
    ensures
        doc@ == JsonView::Object(seq![(key@, value@)]),
{
    let mut members: Vec<Member> = Vec::new();
    members.push(member(key, value));
    assert(members_view(members@) =~= seq![(key@, value@)]);
    Json::object(members)
}

/// Writes a command as a document.
pub fn encode_command(command: &Command) -> (doc: Json)
    ensures
        doc@ == command_document(command@),
{
    match command {
        Command::Quit => Json::text("quit"),
        Command::Abort => Json::text("abort"),
        Command::Activate(id) => object_of_one("activate", Json::text(id.as_str())),
        Command::GetData(text) => object_of_one("get_data", Json::text(text.as_str())),
    }
}

/// Writes a hit as a document.
pub fn encode_hit(hit: &Hit) -> (doc: Json)
    ensures
        doc@ == hit_document(hit@),
{
    let mut members: Vec<Member> = Vec::new();
    members.push(member("id", Json::text(hit.id.as_str())));
    members.push(member("title", Json::text(hit.title.as_str())));
    members.push(member("description", Json::optional(&hit.description)));
    members.push(member("icon", Json::optional(&hit.icon)));
    members.push(member("use_pango", Json::Bool(hit.use_pango)));
    assert(members_view(members@) =~= hit_document(hit@)->Object_0);
    Json::object(members)
}

/// Writes a payload as the member that it adds to its package's document.
fn encode_payload(payload: &Payload) -> (member: Member)
    ensures
        (member.key@, member.value@) == payload_member(payload@),
{
    match payload {
        Payload::Command(command) => member("command", encode_command(command)),
        Payload::Result(answer) => {
            let verdict = match &answer.1 {
                Ok(_) => object_of_one("Ok", Json::Null),
                Err(detail) => object_of_one("Err", Json::text(detail.as_str())),
            };
            let mut items: Vec<Json> = Vec::new();
            items.push(Json::text(answer.0.as_str()));
            items.push(verdict);
            assert(items_view(items@) =~= seq![
                JsonView::Str(answer.0@),
                verdict_document(verdict_view(answer.1)),
            ]);
            member("result", Json::array(items))
        },
        Payload::Hit(hit) => member("hit", encode_hit(hit)),
    }
}

/// Writes a package as a document.
pub fn encode_document(package: &Package) -> (doc: Json)
    ensures
        doc@ == package_document(package@),
        number_free(doc@),
{
    let id = package.get_id();
    let mut members: Vec<Member> = Vec::new();
    members.push(member("id", Json::text(id.as_str())));
    members.push(encode_payload(package.payload()));
    proof {
        assert(members_view(members@) =~= package_document(package@)->Object_0);
        lemma_number_free(package@);
    }
    Json::object(members)
}

/// The text under a document, where it is a text.
fn text_of(doc: &Json) -> (text: Option<&String>)
    ensures
        match text {
            Some(text) => doc@ == JsonView::Str(text@),
            None => !(doc@ is Str),
        },
{
    match doc {
        Json::Str(text) => Some(text),
        _ => None,
    }
}

/// Reads a command from a document.
pub fn decode_command(doc: &Json) -> (command: Result<Command, DecodeError>)
    ensures
        match command {
            Ok(command) => document_command(doc@) == Ok::<CommandView, DecodeError>(command@),
            Err(error) => document_command(doc@) == Err::<CommandView, DecodeError>(error),
        },
{
    match doc {
        Json::Str(name) => {
            if same_text(name.as_str(), "quit") {
                Ok(Command::Quit)
            } else if same_text(name.as_str(), "abort") {
                Ok(Command::Abort)
            } else if same_text(name.as_str(), "activate") || same_text(name.as_str(), "get_data") {
                Err(DecodeError::Payload)
            } else {
                Err(DecodeError::UnknownTag)
            }
        },
        Json::Object(members) => {
            proof {
                lemma_object_view(*members);
            }
            if members.len() != 1 {
                return Err(DecodeError::Payload);
            }
            let name = members[0].key.as_str();
            let argument = &members[0].value;
            if same_text(name, "quit") {
                if argument.stands_for_nothing() {
                    Ok(Command::Quit)
                } else {
                    Err(DecodeError::Payload)
                }
            } else if same_text(name, "abort") {
                if argument.stands_for_nothing() {
                    Ok(Command::Abort)
                } else {
                    Err(DecodeError::Payload)
                }
            } else if same_text(name, "activate") {
                match text_of(argument) {
                    Some(id) => Ok(Command::Activate(HitId::from(id.as_str()))),
                    None => Err(DecodeError::Payload),
                }
            } else if same_text(name, "get_data") {
                match text_of(argument) {
                    Some(text) => Ok(Command::GetData(text.clone())),
                    None => Err(DecodeError::Payload),
                }
            } else {
                Err(DecodeError::UnknownTag)
            }
        },
        _ => Err(DecodeError::Payload),
    }
}

/// Reads a verdict from a document.
fn decode_verdict(doc: &Json) -> (verdict: Result<Result<(), String>, DecodeError>)
    ensures
        match verdict {
            Ok(verdict) => document_verdict(doc@) == Ok::<Result<(), Seq<char>>, DecodeError>(
                verdict_view(verdict),
            ),
            Err(error) => document_verdict(doc@) == Err::<Result<(), Seq<char>>, DecodeError>(
                error,
            ),
        },
{
    match doc {
        Json::Object(members) => {
            proof {
                lemma_object_view(*members);
            }
            if members.len() != 1 {
                return Err(DecodeError::Payload);
            }
            let name = members[0].key.as_str();
            let argument = &members[0].value;
            if same_text(name, "Ok") && argument.stands_for_nothing() {
                Ok(Ok(()))
            } else if same_text(name, "Err") {
                match text_of(argument) {
                    Some(detail) => Ok(Err(detail.clone())),
                    None => Err(DecodeError::Payload),
                }
            } else {
                Err(DecodeError::Payload)
            }
        },
        _ => Err(DecodeError::Payload),
    }
}

/// Reads an answer from a document.
fn decode_result(doc: &Json) -> (payload: Result<Payload, DecodeError>)
    ensures
        match payload {
            Ok(payload) => document_result(doc@) == Ok::<PayloadView, DecodeError>(payload@),
            Err(error) => document_result(doc@) == Err::<PayloadView, DecodeError>(error),
        },
{
    match doc {
        Json::Array(items) => {
            proof {
                lemma_array_view(*items);
            }
            if items.len() != 2 {
                return Err(DecodeError::Payload);
            }
            match text_of(&items[0]) {
                Some(id) => match decode_verdict(&items[1]) {
                    Ok(verdict) => Ok(Payload::Result((PackageId::from(id.as_str()), verdict))),
                    Err(_) => Err(DecodeError::Payload),
                },
                None => Err(DecodeError::Payload),
            }
        },
        _ => Err(DecodeError::Payload),
    }
}

/// Reads an optional text from a document.
fn decode_optional(doc: &Json) -> (text: Result<Option<String>, DecodeError>)
    ensures
        match text {
            Ok(text) => document_optional(doc@) == Ok::<Option<Seq<char>>, DecodeError>(
                text_view(text),
            ),
            Err(error) => document_optional(doc@) == Err::<Option<Seq<char>>, DecodeError>(error),
        },
{
    match doc {
        Json::Null => Ok(None),
        Json::Str(text) => Ok(Some(text.clone())),
        _ => Err(DecodeError::Payload),
    }
}

/// Reads a hit from the documents of its five fields.
fn decode_fields(id: &Json, title: &Json, description: &Json, icon: &Json, use_pango: &Json) -> (hit:
    Result<Hit, DecodeError>)
    ensures
        match hit {
            Ok(hit) => hit_of_fields(id@, title@, description@, icon@, use_pango@) == Ok::<
                HitView,
                DecodeError,
            >(hit@),
            Err(error) => hit_of_fields(id@, title@, description@, icon@, use_pango@) == Err::<
                HitView,
                DecodeError,
            >(error),
        },
{
    let id = match text_of(id) {
        Some(id) => id,
        None => {
            return Err(DecodeError::Payload);
        },
    };
    let title = match text_of(title) {
        Some(title) => title,
        None => {
            return Err(DecodeError::Payload);
        },
    };
    let description = match decode_optional(description) {
        Ok(description) => description,
        Err(_) => {
            return Err(DecodeError::Payload);
        },
    };
    let icon = match decode_optional(icon) {
        Ok(icon) => icon,
        Err(_) => {
            return Err(DecodeError::Payload);
        },
    };
    match use_pango {
        Json::Bool(use_pango) => Ok(
            Hit {
                id: HitId::from(id.as_str()),
                title: title.clone(),
                description,
                icon,
                use_pango: *use_pango,
            },
        ),
        _ => Err(DecodeError::Payload),
    }
}

/// Reads a hit from a document.
pub fn decode_hit(doc: &Json) -> (hit: Result<Hit, DecodeError>)
    ensures
        match hit {
            Ok(hit) => document_hit(doc@) == Ok::<HitView, DecodeError>(hit@),
            Err(error) => document_hit(doc@) == Err::<HitView, DecodeError>(error),
        },
{
    let null = Json::Null;
    match doc {
        Json::Object(members) => {
            proof {
                lemma_object_view(*members);
            }
            let id = find_member(members, "id");
            let title = find_member(members, "title");
            let use_pango = find_member(members, "use_pango");
            let description = match find_member(members, "description") {
                Some(description) => description,
                None => &null,
            };
            let icon = match find_member(members, "icon") {
                Some(icon) => icon,
                None => &null,
            };
            match id {
                Some(id) => match title {
                    Some(title) => match use_pango {
                        Some(use_pango) => decode_fields(id, title, description, icon, use_pango),
                        None => Err(DecodeError::Payload),
                    },
                    None => Err(DecodeError::Payload),
                },
                None => Err(DecodeError::Payload),
            }
        },
        Json::Array(items) => {
            proof {
                lemma_array_view(*items);
            }
            if items.len() != 5 {
                return Err(DecodeError::Payload);
            }
            decode_fields(&items[0], &items[1], &items[2], &items[3], &items[4])
        },
        _ => Err(DecodeError::Payload),
    }
}

/// The first member that names a kind of payload.
fn find_tag(members: &Vec<Member>) -> (at: Option<usize>)
    ensures
        match at {
            Some(at) => tag_from(members_view(members@), 0) == Some(at as int) && at
                < members@.len(),
            None => tag_from(members_view(members@), 0).is_none(),
        },
{
    let mut i: usize = 0;
    while i < members.len()
        invariant
            i <= members.len(),
            tag_from(members_view(members@), 0) == tag_from(members_view(members@), i as int),
        decreases members.len() - i,
    {
        let key = members[i].key.as_str();
        if same_text(key, "command") || same_text(key, "result") || same_text(key, "hit") {
            return Some(i);
        }
        i = i + 1;
    }
    None
}

/// Reads a package from a document.
pub fn decode_document(doc: &Json) -> (package: Result<Package, DecodeError>)
    ensures
        match package {
            Ok(package) => document_package(doc@) == Ok::<PackageView, DecodeError>(package@),
            Err(error) => document_package(doc@) == Err::<PackageView, DecodeError>(error),
        },
{
    match doc {
        Json::Object(members) => {
            proof {
                lemma_object_view(*members);
            }
            let id = match find_member(members, "id") {
                Some(id) => match text_of(id) {
                    Some(id) => PackageId::from(id.as_str()),
                    None => {
                        return Err(DecodeError::Envelope);
                    },
                },
                None => {
                    return Err(DecodeError::Envelope);
                },
            };
            match find_tag(members) {
                None => Err(DecodeError::UnknownTag),
                Some(at) => {
                    let tag = members[at].key.as_str();
                    let body = &members[at].value;
                    proof {
                        lemma_tag_from(members_view(members@), 0);
                    }
                    let payload = if same_text(tag, "command") {
                        match decode_command(body) {
                            Ok(command) => Ok(Payload::Command(command)),
                            Err(error) => Err(error),
                        }
                    } else if same_text(tag, "result") {
                        decode_result(body)
                    } else {
                        match decode_hit(body) {
                            Ok(hit) => Ok(Payload::Hit(hit)),
                            Err(error) => Err(error),
                        }
                    };
                    match payload {
                        Ok(payload) => Ok(Package::with_id(id, payload)),
                        Err(error) => Err(error),
                    }
                },
            }
        },
        _ => Err(DecodeError::Envelope),
    }
}

/// Writes a package as text.
pub fn encode_text(package: &Package) -> (text: String)
    ensures
        text@ == json_text(package_document(package@)),
{
    let doc = encode_document(package);
    print_json(&doc).unwrap()
}

/// Reads a package from text.
pub fn decode_text(text: &str) -> (package: Result<Package, DecodeError>)
    ensures
        match package {
            Ok(package) => text_package(text@) == Ok::<PackageView, DecodeError>(package@),
            Err(error) => text_package(text@) == Err::<PackageView, DecodeError>(error),
        },
{
    match parse_json(text) {
        Ok(doc) => decode_document(&doc),
        Err(_) => Err(DecodeError::Syntax),
    }
}

/// The buffer that carries a package: the bytes of the text of its document,
/// laid into the wire's size.
pub open spec fn package_frame(package: PackageView) -> Seq<u8> {
    padded(encode_utf8(json_text(package_document(package))))
}

/// Whether the text of a package's document fits the buffer. What does not
/// fit is cut off on the wire, and the peer cannot read it.
pub open spec fn fits(package: PackageView) -> bool {
    encode_utf8(json_text(package_document(package))).len() <= SOCKET_BUFFER_SIZE
}

/// Says whether a package fits the buffer.
pub fn fits_buffer(package: &Package) -> (fitting: bool)
    ensures
        fitting == fits(package@),
{
    let text = encode_text(package);
    text.as_str().as_bytes().len() <= SOCKET_BUFFER_SIZE
}

/// Writes a package as the buffer that goes on the wire.
pub fn encode(package: &Package) -> (buffer: [u8; SOCKET_BUFFER_SIZE])
    ensures
        buffer@ == package_frame(package@),
{
    let text = encode_text(package);
    create_buffer(text.as_str().as_bytes())
}

/// Reads a package from a buffer off the wire.
pub fn decode(bytes: &[u8]) -> (package: Result<Package, DecodeError>)
    ensures
        match package {
            Ok(package) => text_package(unframed(bytes@)) == Ok::<PackageView, DecodeError>(
                package@,
            ),
            Err(error) => text_package(unframed(bytes@)) == Err::<PackageView, DecodeError>(error),
        },
{
    let text = bytes_to_string(bytes);
    decode_text(text.as_str())
}

/// A package comes off the wire as it went on, wherever the text of its
/// document fits the buffer, is tight, and reads back as the document.
pub proof fn lemma_wire_round_trip(package: PackageView)
    requires
        fits(package),
        tight(json_text(package_document(package))),
        json_parse(json_text(package_document(package))) == Some(package_document(package)),
    ensures
        text_package(unframed(package_frame(package))) == Ok::<PackageView, DecodeError>(package),
{
    lemma_frame_round_trip(json_text(package_document(package)));
    lemma_round_trip(package);
}

} // verus!
