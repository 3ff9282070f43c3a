//! The messages that coordinator and plugins exchange.
//!
//! Every [`Package`] carries an identifier of its own, made when the package
//! is made. A `Result` payload names the package that it answers.

use vstd::prelude::*;

verus! {

/// An opaque identifier, held as text.
#[derive(Debug)]
pub struct Uuid(String);

/// Identifies a [`Package`].
pub type PackageId = Uuid;

/// Identifies a [`Hit`].
pub type HitId = Uuid;

/// Whether `c` is one of `0-9` and `a-f`.
pub open spec fn is_lower_hex(c: char) -> bool {
    ('0' <= c && c <= '9') || ('a' <= c && c <= 'f')
}

/// The text of a random (version 4) identifier: 36 characters in five
/// hyphenated groups of lower-case hexadecimal digits, with the version digit
/// `4` and a variant digit among `8`, `9`, `a`, `b`.
pub open spec fn is_random_uuid_text(s: Seq<char>) -> bool {
    &&& s.len() == 36
    &&& forall|i: int|
        0 <= i < 36 ==> if i == 8 || i == 13 || i == 18 || i == 23 {
            #[trigger] s[i] == '-'
        } else {
            is_lower_hex(s[i])
        }
    &&& s[14] == '4'
    &&& (s[19] == '8' || s[19] == '9' || s[19] == 'a' || s[19] == 'b')
}

/// `uuid::Uuid::new_v4` and the text that `Display` gives it. The identifier
/// is random: the contract says only which shape its text has. The call panics
/// where the operating system hands out no random bytes.
#[verifier::external_body]
fn random_uuid_text() -> (text: String)
    ensures
        is_random_uuid_text(text@),
{
    uuid::Uuid::new_v4().to_string()
}

impl View for Uuid {
    type V = Seq<char>;

    closed spec fn view(&self) -> Seq<char> {
        self.0@
    }
}

impl Uuid {
    /// A fresh random identifier.
    pub fn new() -> (id: Uuid)
        ensures
            is_random_uuid_text(id@),
    {
        Uuid(random_uuid_text())
    }

    /// The identifier whose text is `value`.
    pub fn from(value: &str) -> (id: Uuid)
        ensures
            id@ == value@,
    {
        Uuid(value.to_owned())
    }

    /// The identifier's text.
    pub fn as_str(&self) -> (text: &str)
        ensures
            text@ == self@,
    {
        self.0.as_str()
    }

    /// The identifier's text, owned.
    pub fn to_string(&self) -> (text: String)
        ensures
            text@ == self@,
    {
        self.0.clone()
    }
}

impl Default for Uuid {
    fn default() -> (id: Uuid)
        ensures
            is_random_uuid_text(id@),
    {
        Uuid::new()
    }
}

impl Clone for Uuid {
    fn clone(&self) -> (id: Uuid)
        ensures
            id@ == self@,
    {
        Uuid(self.0.clone())
    }
}

impl PartialEq for Uuid {
    fn eq(&self, other: &Uuid) -> (same: bool) {
        self.0 == other.0
    }
}

impl vstd::std_specs::cmp::PartialEqSpecImpl for Uuid {
    open spec fn obeys_eq_spec() -> bool {
        true
    }

    open spec fn eq_spec(&self, other: &Uuid) -> bool {
        self@ == other@
    }
}

/// What a coordinator asks of a plugin, or of itself.
#[derive(Debug, PartialEq)]
pub enum Command {
    /// End the receiving process.
    Quit,
    /// Perform the action behind the hit with this identifier.
    Activate(HitId),
    /// Search for this text.
    GetData(String),
    /// From a coordinator: drop the search in flight. From a plugin: the
    /// stream of hits has ended.
    Abort,
}

/// The mathematical value of a [`Command`].
pub ghost enum CommandView {
    Quit,
    Activate(Seq<char>),
    GetData(Seq<char>),
    Abort,
}

impl View for Command {
    type V = CommandView;

    open spec fn view(&self) -> CommandView {
        match self {
            Command::Quit => CommandView::Quit,
            Command::Activate(id) => CommandView::Activate(id@),
            Command::GetData(text) => CommandView::GetData(text@),
            Command::Abort => CommandView::Abort,
        }
    }
}

impl Clone for Command {
    fn clone(&self) -> (copy: Command)
        ensures
            copy@ == self@,
    {
        match self {
            Command::Quit => Command::Quit,
            Command::Activate(id) => Command::Activate(id.clone()),
            Command::GetData(text) => Command::GetData(text.clone()),
            Command::Abort => Command::Abort,
        }
    }
}

/// A display-ready record that a plugin offers as one answer to a search.
#[derive(Debug, PartialEq)]
pub struct Hit {
    pub id: HitId,
    pub title: String,
    pub description: Option<String>,
    pub icon: Option<String>,
    pub use_pango: bool,
}

/// The mathematical value of a [`Hit`].
pub ghost struct HitView {
    pub id: Seq<char>,
    pub title: Seq<char>,
    pub description: Option<Seq<char>>,
    pub icon: Option<Seq<char>>,
    pub use_pango: bool,
}

/// The value of an optional text.
pub open spec fn text_view(text: Option<String>) -> Option<Seq<char>> {
    match text {
        Some(t) => Some(t@),
        None => None,
    }
}

/// The value of an optional borrowed text.
pub open spec fn str_view(text: Option<&str>) -> Option<Seq<char>> {
    match text {
        Some(t) => Some(t@),
        None => None,
    }
}

/// A copy of an optional text.
pub fn clone_text(text: &Option<String>) -> (copy: Option<String>)
    ensures
        text_view(copy) == text_view(*text),
{
    match text {
        Some(t) => Some(t.clone()),
        None => None,
    }
}

/// An owned copy of an optional borrowed text.
pub fn own_text(text: Option<&str>) -> (copy: Option<String>)
    ensures
        text_view(copy) == str_view(text),
{
    match text {
        Some(t) => Some(t.to_owned()),
        None => None,
    }
}

impl View for Hit {
    type V = HitView;

    open spec fn view(&self) -> HitView {
        HitView {
            id: self.id@,
            title: self.title@,
            description: text_view(self.description),
            icon: text_view(self.icon),
            use_pango: self.use_pango,
        }
    }
}

impl Hit {
    /// A hit with a fresh random identifier and the given display fields.
    pub fn new(title: &str, description: Option<&str>, icon: Option<&str>, use_pango: bool) -> (hit:
        Hit)
        ensures
            is_random_uuid_text(hit@.id),
            hit@.title == title@,
            hit@.description == str_view(description),
            hit@.icon == str_view(icon),
            hit@.use_pango == use_pango,
    {
        Hit {
            id: HitId::new(),
            title: title.to_owned(),
            description: own_text(description),
            icon: own_text(icon),
            use_pango,
        }
    }

    /// The hit's identifier and title, as `(id, title)`.
    pub fn to_string(&self) -> (text: String)
        ensures
            text@ == seq!['('] + self@.id + seq![',', ' '] + self@.title + seq![')'],
    {
        proof {
            reveal_strlit("(");
            reveal_strlit(", ");
            reveal_strlit(")");
        }
        let mut text = "(".to_owned();
        text.append(self.id.as_str());
        text.append(", ");
        text.append(self.title.as_str());
        text.append(")");
        assert("("@ =~= seq!['(']);
        assert(", "@ =~= seq![',', ' ']);
        assert(")"@ =~= seq![')']);
        text
    }
}

impl Default for Hit {
    fn default() -> (hit: Hit)
        ensures
            is_random_uuid_text(hit@.id),
            hit@.title == Seq::<char>::empty(),
            hit@.description.is_none(),
            hit@.icon.is_none(),
            !hit@.use_pango,
    {
        Hit {
            id: HitId::new(),
            title: String::new(),
            description: None,
            icon: None,
            use_pango: false,
        }
    }
}

impl Clone for Hit {
    fn clone(&self) -> (copy: Hit)
        ensures
            copy@ == self@,
    {
        Hit {
            id: self.id.clone(),
            title: self.title.clone(),
            description: clone_text(&self.description),
            icon: clone_text(&self.icon),
            use_pango: self.use_pango,
        }
    }
}

/// What a [`Package`] carries.
#[derive(Debug, PartialEq)]
pub enum Payload {
    /// A request.
    Command(Command),
    /// The answer to the package with this identifier: done, or failed with
    /// a detail for the user.
    Result((PackageId, Result<(), String>)),
    /// One answer to a search.
    Hit(Hit),
}

/// The mathematical value of a [`Payload`].
pub ghost enum PayloadView {
    Command(CommandView),
    Result(Seq<char>, Result<(), Seq<char>>),
    Hit(HitView),
}

/// The value of an answer's verdict.
pub open spec fn verdict_view(verdict: Result<(), String>) -> Result<(), Seq<char>> {
    match verdict {
        Ok(_) => Ok(()),
        Err(detail) => Err(detail@),
    }
}

/// A copy of an answer's verdict.
pub fn clone_verdict(verdict: &Result<(), String>) -> (copy: Result<(), String>)
    ensures
        verdict_view(copy) == verdict_view(*verdict),
{
    match verdict {
        Ok(_) => Ok(()),
        Err(detail) => Err(detail.clone()),
    }
}

impl View for Payload {
    type V = PayloadView;

    open spec fn view(&self) -> PayloadView {
        match self {
            Payload::Command(command) => PayloadView::Command(command@),
            Payload::Result(answer) => PayloadView::Result(answer.0@, verdict_view(answer.1)),
            Payload::Hit(hit) => PayloadView::Hit(hit@),
        }
    }
}

impl Clone for Payload {
    fn clone(&self) -> (copy: Payload)
        ensures
            copy@ == self@,
    {
        match self {
            Payload::Command(command) => Payload::Command(command.clone()),
            Payload::Result(answer) => Payload::Result((answer.0.clone(), clone_verdict(&answer.1))),
            Payload::Hit(hit) => Payload::Hit(hit.clone()),
        }
    }
}

/// One message on the wire: an identifier and a payload.
#[derive(Debug, PartialEq)]
pub struct Package {
    id: PackageId,
    pub payload: Payload,
}

/// The mathematical value of a [`Package`].
pub ghost struct PackageView {
    pub id: Seq<char>,
    pub payload: PayloadView,
}

impl View for Package {
    type V = PackageView;

    closed spec fn view(&self) -> PackageView {
        PackageView { id: self.id@, payload: self.payload@ }
    }
}

impl Package {
    /// A package with a fresh random identifier around `payload`.
    pub fn new(payload: Payload) -> (package: Package)
        ensures
            is_random_uuid_text(package@.id),
            package@.payload == payload@,
    {
        Package::with_id(PackageId::new(), payload)
    }

    /// The package with this identifier and this payload.
    pub fn with_id(id: PackageId, payload: Payload) -> (package: Package)
        ensures
            package@ == (PackageView { id: id@, payload: payload@ }),
    {
        Package { id, payload }
    }

    /// The package's identifier.
    pub fn get_id(&self) -> (id: PackageId)
        ensures
            id@ == self@.id,
    {
        self.id.clone()
    }

    /// The package's payload.
    pub fn payload(&self) -> (payload: &Payload)
        ensures
            payload@ == self@.payload,
    {
        &self.payload
    }
}

impl Clone for Package {
    fn clone(&self) -> (copy: Package)
        ensures
            copy@ == self@,
    {
        Package { id: self.id.clone(), payload: self.payload.clone() }
    }
}

} // verus!
