//! The wire codec: envelopes and chat payloads, to and from JSON text.
//!
//! An envelope travels as a JSON object with a discriminant `messageType`
//! and one payload member, `data` or `dataArray`. Which member belongs to
//! which discriminant is decided here and nowhere else.

use crate::json::{
    find_given, find_member, flat, given, json_parsed, json_text, json_tree, list_value, lookup,
    member_trees, parse_value, peek, print_value, read_texts, record_value, same_text,
    text_items, text_value, texts, trees, JsonTree, Shape,
};
use vstd::prelude::*;
use vstd::string::StrSliceExecFns;

verus! {

/// The discriminant of an envelope.
#[derive(Clone, Copy, Debug, PartialEq, Eq, Structural)]
pub enum MsgTypes {
    Users,
    Register,
    Message,
}

/// Why a text was not accepted.
#[derive(Clone, Copy, Debug, PartialEq, Eq, Structural)]
pub enum DecodeError {
    /// The frame is not JSON.
    Syntax,
    /// The frame is JSON, but no object with a string `messageType`.
    Structure,
    /// The discriminant names no kind of envelope known here.
    UnknownDiscriminant,
    /// The payload members do not fit the discriminant.
    PayloadMismatch,
    /// The text of a chat envelope is not JSON.
    PayloadSyntax,
    /// The text of a chat envelope is JSON, but no object with strings `from` and `message`.
    PayloadStructure,
}

/// An envelope whose payload members do not fit its discriminant cannot be written.
#[derive(Clone, Copy, Debug, PartialEq, Eq, Structural)]
pub enum EncodeError {
    PayloadMismatch,
}

/// The outer wire record.
#[derive(Clone, Debug)]
pub struct Envelope {
    pub message_type: MsgTypes,
    pub data_array: Option<Vec<String>>,
    pub data: Option<String>,
}

/// An envelope as a mathematical value.
pub struct EnvelopeView {
    pub message_type: MsgTypes,
    pub data_array: Option<Seq<Seq<char>>>,
    pub data: Option<Seq<char>>,
}

impl View for Envelope {
    type V = EnvelopeView;

    open spec fn view(&self) -> EnvelopeView {
        EnvelopeView {
            message_type: self.message_type,
            data_array: match self.data_array {
                Some(names) => Some(texts(names@)),
                None => None,
            },
            data: match self.data {
                Some(text) => Some(text@),
                None => None,
            },
        }
    }
}

/// The body of a chat envelope: who wrote, and what.
#[derive(Clone, Debug)]
pub struct MessageData {
    pub from: String,
    pub message: String,
}

/// A chat payload as a mathematical value.
pub struct MessageView {
    pub from: Seq<char>,
    pub message: Seq<char>,
}

impl View for MessageData {
    type V = MessageView;

    open spec fn view(&self) -> MessageView {
        MessageView { from: self.from@, message: self.message@ }
    }
}

/// The wire name of a discriminant.
pub open spec fn kind_name(kind: MsgTypes) -> Seq<char> {
    match kind {
        MsgTypes::Users => "users"@,
        MsgTypes::Register => "register"@,
        MsgTypes::Message => "message"@,
    }
}

/// The discriminant that a wire name stands for.
pub open spec fn kind_named(name: Seq<char>) -> Option<MsgTypes> {
    if name == "users"@ {
        Some(MsgTypes::Users)
    } else if name == "register"@ {
        Some(MsgTypes::Register)
    } else if name == "message"@ {
        Some(MsgTypes::Message)
    } else {
        None
    }
}

impl EnvelopeView {
    /// A `users` envelope carries the list and no text; the other two carry
    /// the text and no list.
    pub open spec fn valid(self) -> bool {
        match self.message_type {
            MsgTypes::Users => self.data_array is Some && self.data is None,
            MsgTypes::Register | MsgTypes::Message => self.data is Some && self.data_array is None,
        }
    }

    /// The JSON object that carries a valid envelope.
    pub open spec fn tree(self) -> JsonTree {
        let kind = ("messageType"@, JsonTree::Text(kind_name(self.message_type)));
        match self.message_type {
            MsgTypes::Users => {
                let names = self.data_array->Some_0;
                JsonTree::Record(
                    seq![
                        kind,
                        (
                            "dataArray"@,
                            JsonTree::List(Seq::new(names.len(), |i: int| JsonTree::Text(names[i]))),
                        ),
                    ],
                )
            },
            _ => JsonTree::Record(seq![kind, ("data"@, JsonTree::Text(self.data->Some_0))]),
        }
    }
}

/// The envelope that the members of a JSON object carry under the discriminant `kind`.
pub open spec fn envelope_of_members(kind: MsgTypes, members: Seq<(Seq<char>, JsonTree)>) -> Result<
    EnvelopeView,
    DecodeError,
> {
    let list = given(lookup(members, "dataArray"@));
    let text = given(lookup(members, "data"@));
    match kind {
        MsgTypes::Users => match (list, text) {
            (Some(JsonTree::List(items)), None) => match text_items(items) {
                Some(names) => Ok(
                    EnvelopeView { message_type: kind, data_array: Some(names), data: None },
                ),
                None => Err(DecodeError::PayloadMismatch),
            },
            _ => Err(DecodeError::PayloadMismatch),
        },
        _ => match (list, text) {
            (None, Some(JsonTree::Text(t))) => Ok(
                EnvelopeView { message_type: kind, data_array: None, data: Some(t) },
            ),
            _ => Err(DecodeError::PayloadMismatch),
        },
    }
}

/// The envelope that a JSON value carries.
pub open spec fn envelope_of_tree(tree: JsonTree) -> Result<EnvelopeView, DecodeError> {
    match tree {
        JsonTree::Record(members) => match lookup(members, "messageType"@) {
            Some(JsonTree::Text(name)) => match kind_named(name) {
                Some(kind) => envelope_of_members(kind, members),
                None => Err(DecodeError::UnknownDiscriminant),
            },
            _ => Err(DecodeError::Structure),
        },
        _ => Err(DecodeError::Structure),
    }
}

/// The envelope that a frame carries.
pub open spec fn decode_spec(text: Seq<char>) -> Result<EnvelopeView, DecodeError> {
    match json_parsed(text) {
        Some(tree) => envelope_of_tree(tree),
        None => Err(DecodeError::Syntax),
    }
}

/// The frame that carries a valid envelope.
pub open spec fn encode_spec(envelope: EnvelopeView) -> Seq<char> {
    json_text(envelope.tree())
}

/// The chat payload that a JSON value carries.
pub open spec fn message_of_tree(tree: JsonTree) -> Result<MessageView, DecodeError> {
    match tree {
        JsonTree::Record(members) => match (lookup(members, "from"@), lookup(members, "message"@)) {
            (Some(JsonTree::Text(from)), Some(JsonTree::Text(message))) => Ok(
                MessageView { from, message },
            ),
            _ => Err(DecodeError::PayloadStructure),
        },
        _ => Err(DecodeError::PayloadStructure),
    }
}

/// The chat payload that the text of a chat envelope carries.
pub open spec fn payload_spec(text: Seq<char>) -> Result<MessageView, DecodeError> {
    match json_parsed(text) {
        Some(tree) => message_of_tree(tree),
        None => Err(DecodeError::PayloadSyntax),
    }
}

/// Whether a decoding result and its mathematical counterpart agree.
pub open spec fn same_envelope(got: Result<Envelope, DecodeError>, want: Result<
    EnvelopeView,
    DecodeError,
>) -> bool {
    match got {
        Ok(envelope) => want == Ok::<EnvelopeView, DecodeError>(envelope@),
        Err(e) => want == Err::<EnvelopeView, DecodeError>(e),
    }
}

/// Whether a payload decoding result and its mathematical counterpart agree.
pub open spec fn same_message(got: Result<MessageData, DecodeError>, want: Result<
    MessageView,
    DecodeError,
>) -> bool {
    match got {
        Ok(message) => want == Ok::<MessageView, DecodeError>(message@),
        Err(e) => want == Err::<MessageView, DecodeError>(e),
    }
}

impl MsgTypes {
    /// The wire name of this discriminant.
    pub fn name(self) -> (name: &'static str)
        ensures
            name@ == kind_name(self),
    {
        match self {
            MsgTypes::Users => "users",
            MsgTypes::Register => "register",
            MsgTypes::Message => "message",
        }
    }

    /// The discriminant that `name` stands for on the wire.
    pub fn from_name(name: &str) -> (kind: Option<MsgTypes>)
        ensures
            kind == kind_named(name@),
    {
        if same_text(name, "users") {
            Some(MsgTypes::Users)
        } else if same_text(name, "register") {
            Some(MsgTypes::Register)
        } else if same_text(name, "message") {
            Some(MsgTypes::Message)
        } else {
            None
        }
    }
}

impl Envelope {
    /// Reads an envelope out of a JSON value.
    ///
    /// The kind is taken from `messageType` alone, never from which payload
    /// member is there; a payload member that is `null` counts as absent.
    pub fn from_value(value: &serde_json::Value) -> (r: Result<Envelope, DecodeError>)
        ensures
            same_envelope(r, envelope_of_tree(json_tree(*value))),
    {
        let members = match peek(value) {
            Shape::Record(members) => members,
            _ => { return Err(DecodeError::Structure); },
        };
        let kind = match find_member(&members, "messageType") {
            Some(named) => match peek(named) {
                Shape::Text(name) => match MsgTypes::from_name(name) {
                    Some(kind) => kind,
                    None => { return Err(DecodeError::UnknownDiscriminant); },
                },
                _ => { return Err(DecodeError::Structure); },
            },
            None => { return Err(DecodeError::Structure); },
        };
        let list = find_given(&members, "dataArray");
        let text = find_given(&members, "data");
        match kind {
            MsgTypes::Users => {
                if text.is_some() {
                    return Err(DecodeError::PayloadMismatch);
                }
                let items = match list {
                    Some(list) => match peek(list) {
                        Shape::List(items) => items,
                        _ => { return Err(DecodeError::PayloadMismatch); },
                    },
                    None => { return Err(DecodeError::PayloadMismatch); },
                };
                match read_texts(items) {
                    Some(names) => Ok(
                        Envelope { message_type: kind, data_array: Some(names), data: None },
                    ),
                    None => Err(DecodeError::PayloadMismatch),
                }
            },
            _ => {
                if list.is_some() {
                    return Err(DecodeError::PayloadMismatch);
                }
                match text {
                    Some(text) => match peek(text) {
                        Shape::Text(t) => Ok(
                            Envelope {
                                message_type: kind,
                                data_array: None,
                                data: Some(t.to_owned()),
                            },
                        ),
                        _ => Err(DecodeError::PayloadMismatch),
                    },
                    None => Err(DecodeError::PayloadMismatch),
                }
            },
        }
    }
}

impl MessageData {
    /// Reads a chat payload out of a JSON value. Members other than `from`
    /// and `message` are passed over.
    pub fn from_value(value: &serde_json::Value) -> (r: Result<MessageData, DecodeError>)
        ensures
            same_message(r, message_of_tree(json_tree(*value))),
    {
        let members = match peek(value) {
            Shape::Record(members) => members,
            _ => { return Err(DecodeError::PayloadStructure); },
        };
        let from = match find_member(&members, "from") {
            Some(v) => match peek(v) {
                Shape::Text(t) => t,
                _ => { return Err(DecodeError::PayloadStructure); },
            },
            None => { return Err(DecodeError::PayloadStructure); },
        };
        let message = match find_member(&members, "message") {
            Some(v) => match peek(v) {
                Shape::Text(t) => t,
                _ => { return Err(DecodeError::PayloadStructure); },
            },
            None => { return Err(DecodeError::PayloadStructure); },
        };
        Ok(MessageData { from: from.to_owned(), message: message.to_owned() })
    }
}

/// Reads the envelope that a frame carries.
pub fn decode(text: &str) -> (r: Result<Envelope, DecodeError>)
    ensures
        same_envelope(r, decode_spec(text@)),
{
    match parse_value(text) {
        Ok(value) => Envelope::from_value(&value),
        Err(_) => Err(DecodeError::Syntax),
    }
}

/// Reads the chat payload that the text of a chat envelope carries.
pub fn decode_payload(text: &str) -> (r: Result<MessageData, DecodeError>)
    ensures
        same_message(r, payload_spec(text@)),
{
    match parse_value(text) {
        Ok(value) => MessageData::from_value(&value),
        Err(_) => Err(DecodeError::PayloadSyntax),
    }
}

/// The member names and the wire names of the discriminants, told apart by their lengths.
proof fn lemma_wire_names()
    ensures
        "messageType"@.len() == 11,
        "dataArray"@.len() == 9,
        "data"@.len() == 4,
        "users"@.len() == 5,
        "register"@.len() == 8,
        "message"@.len() == 7,
{
    reveal_strlit("messageType");
    reveal_strlit("dataArray");
    reveal_strlit("data");
    reveal_strlit("users");
    reveal_strlit("register");
    reveal_strlit("message");
}

/// Reading the JSON object of a valid envelope gives the envelope back, and
/// that object is made of text alone, two levels deep.
pub proof fn lemma_tree_round_trip(envelope: EnvelopeView)
    requires
        envelope.valid(),
    ensures
        envelope_of_tree(envelope.tree()) == Ok::<EnvelopeView, DecodeError>(envelope),
        flat(envelope.tree()),
{
    lemma_wire_names();
    reveal_with_fuel(lookup, 3);
    let members = envelope.tree()->Record_0;
    assert(members.len() == 2);
    assert(members.drop_first().len() == 1);
    assert(members.drop_first()[0] == members[1]);
    assert(members.drop_first().drop_first().len() == 0);
    assert(lookup(members, "messageType"@) == Some(JsonTree::Text(kind_name(envelope.message_type))));
    assert(kind_named(kind_name(envelope.message_type)) == Some(envelope.message_type));
    match envelope.message_type {
        MsgTypes::Users => {
            let names = envelope.data_array->Some_0;
            let items = Seq::new(names.len(), |i: int| JsonTree::Text(names[i]));
            assert(lookup(members, "dataArray"@) == Some(JsonTree::List(items)));
            assert(lookup(members, "data"@) is None);
            assert(text_items(items)->Some_0 =~= names);
        },
        _ => {
            assert(lookup(members, "data"@) == Some(JsonTree::Text(envelope.data->Some_0)));
            assert(lookup(members, "dataArray"@) is None);
        },
    }
}

impl Envelope {
    /// Builds the JSON object that carries this envelope.
    pub fn to_value(&self) -> (r: Result<serde_json::Value, EncodeError>)
        ensures
            r is Ok <==> self@.valid(),
            r matches Ok(value) ==> json_tree(value) == self@.tree(),
    {
        proof {
            lemma_wire_names();
        }
        let mut members: Vec<(String, serde_json::Value)> = Vec::new();
        members.push(("messageType".to_owned(), text_value(self.message_type.name().to_owned())));
        match self.message_type {
            MsgTypes::Users => {
                let names = match &self.data_array {
                    Some(names) => names,
                    None => { return Err(EncodeError::PayloadMismatch); },
                };
                if self.data.is_some() {
                    return Err(EncodeError::PayloadMismatch);
                }
                let mut items: Vec<serde_json::Value> = Vec::new();
                let mut i: usize = 0;
                while i < names.len()
                    invariant
                        i <= names.len(),
                        items.len() == i,
                        forall|k: int|
                            0 <= k < i ==> #[trigger] json_tree(items@[k]) == JsonTree::Text(
                                names@[k]@,
                            ),
                    decreases names.len() - i,
                {
                    items.push(text_value(names[i].clone()));
                    i += 1;
                }
                let ghost want = self@.data_array->Some_0;
                assert(trees(items@) =~= Seq::new(want.len(), |i: int| JsonTree::Text(want[i])));
                members.push(("dataArray".to_owned(), list_value(items)));
            },
            _ => {
                let text = match &self.data {
                    Some(text) => text,
                    None => { return Err(EncodeError::PayloadMismatch); },
                };
                if self.data_array.is_some() {
                    return Err(EncodeError::PayloadMismatch);
                }
                members.push(("data".to_owned(), text_value(text.clone())));
            },
        }
        assert(member_trees(members@) =~= self@.tree()->Record_0);
        Ok(record_value(members))
    }
}

/// Writes the frame that carries an envelope.
///
/// It fails on an envelope whose payload members do not fit its
/// discriminant, and on no other. The frame it writes is read back by
/// [`decode`] as the same envelope.
pub fn encode(envelope: &Envelope) -> (r: Result<String, EncodeError>)
    ensures
        r is Ok <==> envelope@.valid(),
        r matches Ok(text) ==> text@ == encode_spec(envelope@),
        r matches Ok(text) ==> decode_spec(text@) == Ok::<EnvelopeView, DecodeError>(envelope@),
        r matches Err(e) ==> e == EncodeError::PayloadMismatch,
{
    match envelope.to_value() {
        Ok(value) => {
            proof {
                lemma_tree_round_trip(envelope@);
            }
            Ok(print_value(&value).unwrap())
        },
        Err(e) => Err(e),
    }
}

/// Whatever a frame decodes to fits its own discriminant.
pub proof fn lemma_decoded_is_valid(text: Seq<char>)
    ensures
        decode_spec(text) matches Ok(envelope) ==> envelope.valid(),
{
}

/// Whether a text ends in `suffix`.
pub open spec fn ends_with(text: Seq<char>, suffix: Seq<char>) -> bool {
    text.len() >= suffix.len() && text.subrange(text.len() - suffix.len(), text.len() as int)
        == suffix
}

impl MessageData {
    /// Whether the message names an animated picture: its text ends in `.gif`.
    pub fn is_gif(&self) -> (yes: bool)
        ensures
            yes == ends_with(self.message@, ".gif"@),
    {
        proof {
            reveal_strlit(".gif");
        }
        let text = self.message.as_str();
        let n = text.unicode_len();
        if n < 4 {
            false
        } else {
            same_text(text.substring_char(n - 4, n), ".gif")
        }
    }
}

} // verus!
