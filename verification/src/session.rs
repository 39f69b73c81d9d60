//! The session state machine.
//!
//! A session registers a display name, then follows the frames that the
//! server sends: a `users` frame replaces the presence list, a `message`
//! frame adds one record to the message log. It decides; the caller owns the
//! connection, hands each inbound frame in and carries each outbound frame
//! away.

use crate::json::{same_text, texts};
use crate::wire::{
    decode, decode_payload, decode_spec, encode, encode_spec, lemma_decoded_is_valid,
    payload_spec, DecodeError, Envelope, EnvelopeView, MessageData, MessageView, MsgTypes,
};
use vstd::prelude::*;
use vstd::string::StringExecFns;

verus! {

/// Where a session stands.
#[derive(Clone, Copy, Debug, PartialEq, Eq, Structural)]
pub enum Phase {
    /// Made, and nothing sent yet.
    Connecting,
    /// The display name is on its way; no presence list has come back.
    Registering,
    /// A presence list has been received.
    Active,
    /// The connection is gone. Nothing leaves this phase.
    Closed,
}

/// What the caller hands to a session.
#[derive(Clone, Debug)]
pub enum Msg {
    /// A frame that the transport received.
    HandleMsg(String),
    /// A text that the user submitted.
    SubmitMessage(String),
}

/// What a session asks of its caller after a step.
#[derive(Clone, Debug)]
pub enum Effect {
    /// The presence list or the message log changed: show them again.
    Render,
    /// Nothing changed.
    Idle,
    /// Hand this frame to the transport.
    Transmit(String),
    /// The inbound frame was discarded for this reason; nothing changed.
    Dropped(DecodeError),
    /// The submission was refused: the session is not connected.
    Refused,
}

/// One entry of the presence list.
#[derive(Clone, Debug)]
pub struct UserProfile {
    pub name: String,
    pub avatar: String,
}

/// The presence list: who is connected, in the order the server gave.
/// Every entry's avatar is the one derived from its name.
pub struct Presence {
    entries: Vec<UserProfile>,
}

/// A chat session.
pub struct Chat {
    phase: Phase,
    username: String,
    presence: Presence,
    messages: Vec<MessageData>,
}

/// A session as a mathematical value.
pub struct ChatView {
    pub phase: Phase,
    pub username: Seq<char>,
    /// The names of the presence list, in the order of the last `users` frame.
    pub users: Seq<Seq<char>>,
    /// The message log, in the order of arrival.
    pub messages: Seq<MessageView>,
}

/// A step's input as a mathematical value.
pub enum MsgView {
    HandleMsg(Seq<char>),
    SubmitMessage(Seq<char>),
}

/// A step's outcome as a mathematical value.
pub enum EffectView {
    Render,
    Idle,
    Transmit(Seq<char>),
    Dropped(DecodeError),
    Refused,
}

impl View for Msg {
    type V = MsgView;

    open spec fn view(&self) -> MsgView {
        match self {
            Msg::HandleMsg(frame) => MsgView::HandleMsg(frame@),
            Msg::SubmitMessage(text) => MsgView::SubmitMessage(text@),
        }
    }
}

impl View for Effect {
    type V = EffectView;

    open spec fn view(&self) -> EffectView {
        match self {
            Effect::Render => EffectView::Render,
            Effect::Idle => EffectView::Idle,
            Effect::Transmit(frame) => EffectView::Transmit(frame@),
            Effect::Dropped(e) => EffectView::Dropped(*e),
            Effect::Refused => EffectView::Refused,
        }
    }
}

/// The avatar reference of a display name.
pub open spec fn avatar_spec(name: Seq<char>) -> Seq<char> {
    "https://avatars.dicebear.com/api/adventurer-neutral/"@ + name + ".svg"@
}

/// Derives the avatar reference from a display name, and from nothing else.
pub fn avatar_url(name: &str) -> (url: String)
    ensures
        url@ == avatar_spec(name@),
{
    let mut url = "https://avatars.dicebear.com/api/adventurer-neutral/".to_owned();
    url.append(name);
    url.append(".svg");
    url
}

/// The names of a presence list.
pub open spec fn names_of(users: Seq<UserProfile>) -> Seq<Seq<char>> {
    Seq::new(users.len(), |i: int| users[i].name@)
}

/// The records of a message log.
pub open spec fn records_of(messages: Seq<MessageData>) -> Seq<MessageView> {
    Seq::new(messages.len(), |i: int| messages[i]@)
}

/// Whether every entry's avatar is the one derived from its name.
pub open spec fn avatars_derived(users: Seq<UserProfile>) -> bool {
    forall|i: int| 0 <= i < users.len() ==> (#[trigger] users[i]).avatar@ == avatar_spec(users[i].name@)
}

/// A session exchanges frames while it registers and while it is active.
pub open spec fn connected(phase: Phase) -> bool {
    phase is Registering || phase is Active
}

/// The envelope that registers a display name.
pub open spec fn register_envelope(name: Seq<char>) -> EnvelopeView {
    EnvelopeView { message_type: MsgTypes::Register, data_array: None, data: Some(name) }
}

/// The envelope that carries a submitted text. The sender is not in it: the
/// server knows who registered on the connection.
pub open spec fn chat_envelope(text: Seq<char>) -> EnvelopeView {
    EnvelopeView { message_type: MsgTypes::Message, data_array: None, data: Some(text) }
}

/// The session after the payload of a chat envelope was decoded.
pub open spec fn record_spec(s: ChatView, payload: Result<MessageView, DecodeError>) -> ChatView {
    match payload {
        Ok(message) => ChatView { messages: s.messages.push(message), ..s },
        Err(_) => s,
    }
}

/// What the caller is asked after the payload of a chat envelope was decoded.
pub open spec fn record_effect(payload: Result<MessageView, DecodeError>) -> EffectView {
    match payload {
        Ok(_) => EffectView::Render,
        Err(e) => EffectView::Dropped(e),
    }
}

/// The session after an envelope was received.
pub open spec fn accept_spec(s: ChatView, envelope: EnvelopeView) -> ChatView {
    if !connected(s.phase) || !envelope.valid() {
        s
    } else {
        match envelope.message_type {
            MsgTypes::Users => ChatView {
                phase: Phase::Active,
                users: envelope.data_array->Some_0,
                ..s
            },
            MsgTypes::Message => record_spec(s, payload_spec(envelope.data->Some_0)),
            MsgTypes::Register => s,
        }
    }
}

/// What the caller is asked after an envelope was received.
pub open spec fn accept_effect(s: ChatView, envelope: EnvelopeView) -> EffectView {
    if !connected(s.phase) {
        EffectView::Idle
    } else if !envelope.valid() {
        EffectView::Dropped(DecodeError::PayloadMismatch)
    } else {
        match envelope.message_type {
            MsgTypes::Users => EffectView::Render,
            MsgTypes::Message => record_effect(payload_spec(envelope.data->Some_0)),
            MsgTypes::Register => EffectView::Idle,
        }
    }
}

/// The session after a frame was decoded.
pub open spec fn receive_spec(s: ChatView, decoded: Result<EnvelopeView, DecodeError>) -> ChatView {
    match decoded {
        Ok(envelope) => accept_spec(s, envelope),
        Err(_) => s,
    }
}

/// What the caller is asked after a frame was decoded. A discriminant that
/// is not known is passed over in silence; any other fault is reported.
pub open spec fn receive_effect(s: ChatView, decoded: Result<EnvelopeView, DecodeError>) -> EffectView {
    match decoded {
        Ok(envelope) => accept_effect(s, envelope),
        Err(e) => if !connected(s.phase) || e == DecodeError::UnknownDiscriminant {
            EffectView::Idle
        } else {
            EffectView::Dropped(e)
        },
    }
}

/// What the caller is asked after a text was submitted.
pub open spec fn submit_effect(s: ChatView, text: Seq<char>) -> EffectView {
    if connected(s.phase) {
        EffectView::Transmit(encode_spec(chat_envelope(text)))
    } else {
        EffectView::Refused
    }
}

/// The session after one step.
pub open spec fn step_spec(s: ChatView, msg: MsgView) -> ChatView {
    match msg {
        MsgView::HandleMsg(frame) => receive_spec(s, decode_spec(frame)),
        MsgView::SubmitMessage(_) => s,
    }
}

/// What the caller is asked after one step.
pub open spec fn step_effect(s: ChatView, msg: MsgView) -> EffectView {
    match msg {
        MsgView::HandleMsg(frame) => receive_effect(s, decode_spec(frame)),
        MsgView::SubmitMessage(text) => submit_effect(s, text),
    }
}

impl View for Presence {
    type V = Seq<Seq<char>>;

    closed spec fn view(&self) -> Seq<Seq<char>> {
        names_of(self.entries@)
    }
}

impl Presence {
    #[verifier::type_invariant]
    spec fn well_formed(self) -> bool {
        avatars_derived(self.entries@)
    }

    /// The empty list.
    pub fn new() -> (presence: Presence)
        ensures
            presence@ == Seq::<Seq<char>>::empty(),
    {
        let presence = Presence { entries: Vec::new() };
        assert(presence@ =~= Seq::empty());
        presence
    }

    /// The list of these names, in this order, each with its avatar.
    pub fn from_names(names: &Vec<String>) -> (presence: Presence)
        ensures
            presence@ == texts(names@),
    {
        let mut entries: Vec<UserProfile> = Vec::new();
        let mut i: usize = 0;
        while i < names.len()
            invariant
                i <= names.len(),
                entries.len() == i,
                avatars_derived(entries@),
                forall|k: int| 0 <= k < i ==> (#[trigger] entries@[k]).name@ == names@[k]@,
            decreases names.len() - i,
        {
            let avatar = avatar_url(names[i].as_str());
            entries.push(UserProfile { name: names[i].clone(), avatar });
            i += 1;
        }
        assert(names_of(entries@) =~= texts(names@));
        Presence { entries }
    }

    /// The entry of `name`, where the list has one.
    pub fn find(&self, name: &str) -> (found: Option<&UserProfile>)
        ensures
            found is Some <==> self@.contains(name@),
            found matches Some(entry) ==> entry.name@ == name@ && entry.avatar@ == avatar_spec(
                name@,
            ),
    {
        proof {
            use_type_invariant(self);
        }
        let mut i: usize = 0;
        while i < self.entries.len()
            invariant
                i <= self.entries.len(),
                avatars_derived(self.entries@),
                forall|k: int| 0 <= k < i ==> (#[trigger] self.entries@[k]).name@ != name@,
            decreases self.entries.len() - i,
        {
            if same_text(self.entries[i].name.as_str(), name) {
                assert(self@[i as int] == name@);
                return Some(&self.entries[i]);
            }
            i += 1;
        }
        assert forall|k: int| 0 <= k < self@.len() implies self@[k] != name@ by {
            assert(self.entries@[k].name@ != name@);
        }
        None
    }

    /// The entries, in order.
    pub fn entries(&self) -> (entries: &Vec<UserProfile>)
        ensures
            names_of(entries@) == self@,
            avatars_derived(entries@),
    {
        proof {
            use_type_invariant(self);
        }
        &self.entries
    }
}

impl View for Chat {
    type V = ChatView;

    closed spec fn view(&self) -> ChatView {
        ChatView {
            phase: self.phase,
            username: self.username@,
            users: self.presence@,
            messages: records_of(self.messages@),
        }
    }
}

impl Chat {
    /// A session for `username`, with nothing sent yet.
    pub fn new(username: String) -> (chat: Chat)
        ensures
            chat@ == (ChatView {
                phase: Phase::Connecting,
                username: username@,
                users: Seq::empty(),
                messages: Seq::empty(),
            }),
    {
        let chat = Chat {
            phase: Phase::Connecting,
            username,
            presence: Presence::new(),
            messages: Vec::new(),
        };
        assert(chat@.messages =~= Seq::empty());
        chat
    }

    /// Sends the display name: the first step of a session, from
    /// `Connecting` to `Registering`. In any other phase nothing happens.
    pub fn register(&mut self) -> (effect: Effect)
        ensures
            final(self)@ == (ChatView {
                phase: if old(self)@.phase is Connecting {
                    Phase::Registering
                } else {
                    old(self)@.phase
                },
                ..old(self)@
            }),
            effect@ == if old(self)@.phase is Connecting {
                EffectView::Transmit(encode_spec(register_envelope(old(self)@.username)))
            } else {
                EffectView::Idle
            },
            effect matches Effect::Transmit(frame) ==> decode_spec(frame@) == Ok::<
                EnvelopeView,
                DecodeError,
            >(register_envelope(old(self)@.username)),
    {
        match self.phase {
            Phase::Connecting => {
                let envelope = Envelope {
                    message_type: MsgTypes::Register,
                    data_array: None,
                    data: Some(self.username.clone()),
                };
                let frame = encode(&envelope).unwrap();
                self.phase = Phase::Registering;
                Effect::Transmit(frame)
            },
            _ => Effect::Idle,
        }
    }

    /// Makes a session for `username` and registers it: the session comes
    /// back in `Registering`, with the frame that the transport is to send.
    /// Whether the transport could send it does not matter here.
    pub fn create(username: String) -> (made: (Chat, String))
        ensures
            made.0@ == (ChatView {
                phase: Phase::Registering,
                username: username@,
                users: Seq::empty(),
                messages: Seq::empty(),
            }),
            made.1@ == encode_spec(register_envelope(username@)),
            decode_spec(made.1@) == Ok::<EnvelopeView, DecodeError>(register_envelope(username@)),
    {
        let envelope = Envelope {
            message_type: MsgTypes::Register,
            data_array: None,
            data: Some(username.clone()),
        };
        let frame = encode(&envelope).unwrap();
        let chat = Chat {
            phase: Phase::Registering,
            username,
            presence: Presence::new(),
            messages: Vec::new(),
        };
        assert(chat@.messages =~= Seq::empty());
        (chat, frame)
    }

    /// The connection is gone: the session is closed for good.
    pub fn close(&mut self)
        ensures
            final(self)@ == (ChatView { phase: Phase::Closed, ..old(self)@ }),
    {
        self.phase = Phase::Closed;
    }

    /// Takes in the decoded payload of a chat envelope: a record is added to
    /// the log, whether or not its sender is in the presence list; a payload
    /// that could not be decoded is dropped and changes nothing.
    pub fn record(&mut self, payload: Result<MessageData, DecodeError>) -> (effect: Effect)
        ensures
            match payload {
                Ok(message) => final(self)@ == record_spec(
                    old(self)@,
                    Ok::<MessageView, DecodeError>(message@),
                ) && effect@ == EffectView::Render,
                Err(e) => final(self)@ == old(self)@ && effect@ == EffectView::Dropped(e),
            },
    {
        match payload {
            Ok(message) => {
                let ghost before = self.messages@;
                self.messages.push(message);
                assert(records_of(self.messages@) =~= records_of(before).push(message@));
                Effect::Render
            },
            Err(e) => Effect::Dropped(e),
        }
    }

    /// Takes in an envelope.
    ///
    /// A `users` envelope replaces the whole presence list and makes the
    /// session active. A `message` envelope has its text decoded as a chat
    /// payload and recorded. A `register` envelope is passed over. A session
    /// that is not connected passes everything over.
    pub fn accept(&mut self, envelope: Envelope) -> (effect: Effect)
        ensures
            final(self)@ == accept_spec(old(self)@, envelope@),
            effect@ == accept_effect(old(self)@, envelope@),
    {
        match self.phase {
            Phase::Registering | Phase::Active => {},
            _ => { return Effect::Idle; },
        }
        match envelope.message_type {
            MsgTypes::Users => {
                let names = match envelope.data_array {
                    Some(names) => names,
                    None => { return Effect::Dropped(DecodeError::PayloadMismatch); },
                };
                if envelope.data.is_some() {
                    return Effect::Dropped(DecodeError::PayloadMismatch);
                }
                self.presence = Presence::from_names(&names);
                self.phase = Phase::Active;
                Effect::Render
            },
            MsgTypes::Message => {
                if envelope.data_array.is_some() {
                    return Effect::Dropped(DecodeError::PayloadMismatch);
                }
                match envelope.data {
                    Some(text) => {
                        let payload = decode_payload(text.as_str());
                        self.record(payload)
                    },
                    None => Effect::Dropped(DecodeError::PayloadMismatch),
                }
            },
            MsgTypes::Register => {
                if envelope.data_array.is_some() || envelope.data.is_none() {
                    return Effect::Dropped(DecodeError::PayloadMismatch);
                }
                Effect::Idle
            },
        }
    }

    /// Takes in what decoding a frame gave.
    ///
    /// A frame that could not be decoded changes nothing. It is reported as
    /// dropped, unless its discriminant was merely unknown: such a frame is
    /// passed over in silence.
    pub fn receive(&mut self, decoded: Result<Envelope, DecodeError>) -> (effect: Effect)
        ensures
            match decoded {
                Ok(envelope) => final(self)@ == accept_spec(old(self)@, envelope@) && effect@
                    == accept_effect(old(self)@, envelope@),
                Err(e) => final(self)@ == old(self)@ && effect@ == receive_effect(
                    old(self)@,
                    Err::<EnvelopeView, DecodeError>(e),
                ),
            },
    {
        match decoded {
            Ok(envelope) => self.accept(envelope),
            Err(e) => {
                match self.phase {
                    Phase::Registering | Phase::Active => {},
                    _ => { return Effect::Idle; },
                }
                match e {
                    DecodeError::UnknownDiscriminant => Effect::Idle,
                    _ => Effect::Dropped(e),
                }
            },
        }
    }

    /// Writes the frame that carries a submitted text.
    ///
    /// A connected session may send at once, before any presence list has
    /// come; no acknowledgement is waited for. The session itself does not
    /// change. The frame's text is the submitted text: [`decode`] reads it
    /// back as such.
    pub fn submit(&self, text: String) -> (effect: Effect)
        ensures
            effect@ == submit_effect(self@, text@),
            effect matches Effect::Transmit(frame) ==> decode_spec(frame@) == Ok::<
                EnvelopeView,
                DecodeError,
            >(chat_envelope(text@)),
    {
        match self.phase {
            Phase::Registering | Phase::Active => {},
            _ => { return Effect::Refused; },
        }
        let envelope = Envelope { message_type: MsgTypes::Message, data_array: None, data: Some(text) };
        Effect::Transmit(encode(&envelope).unwrap())
    }

    /// One step of the session: an inbound frame or a submitted text.
    pub fn update(&mut self, msg: Msg) -> (effect: Effect)
        ensures
            final(self)@ == step_spec(old(self)@, msg@),
            effect@ == step_effect(old(self)@, msg@),
            msg matches Msg::SubmitMessage(text) ==> (effect matches Effect::Transmit(frame)
                ==> decode_spec(frame@) == Ok::<EnvelopeView, DecodeError>(chat_envelope(text@))),
    {
        match msg {
            Msg::HandleMsg(frame) => {
                let decoded = decode(frame.as_str());
                self.receive(decoded)
            },
            Msg::SubmitMessage(text) => self.submit(text),
        }
    }

    /// Where the session stands.
    pub fn phase(&self) -> (phase: Phase)
        ensures
            phase == self@.phase,
    {
        self.phase
    }

    /// The display name that the session was made for.
    pub fn username(&self) -> (name: &str)
        ensures
            name@ == self@.username,
    {
        self.username.as_str()
    }

    /// The presence list as it stands, for display.
    pub fn users(&self) -> (users: &Vec<UserProfile>)
        ensures
            names_of(users@) == self@.users,
            avatars_derived(users@),
    {
        self.presence.entries()
    }

    /// The message log as it stands, for display.
    pub fn messages(&self) -> (messages: &Vec<MessageData>)
        ensures
            records_of(messages@) == self@.messages,
    {
        &self.messages
    }

    /// The presence entry of a sender; `None` for a sender who is no longer,
    /// or never was, in the presence list.
    pub fn profile_of(&self, sender: &str) -> (found: Option<&UserProfile>)
        ensures
            found is Some <==> self@.users.contains(sender@),
            found matches Some(entry) ==> entry.name@ == sender@ && entry.avatar@ == avatar_spec(
                sender@,
            ),
    {
        self.presence.find(sender)
    }

    /// The avatar to show beside a message of `sender`. A sender without a
    /// presence entry gets the avatar derived from the name, so the answer
    /// is the same either way.
    pub fn avatar_for(&self, sender: &str) -> (avatar: String)
        ensures
            avatar@ == avatar_spec(sender@),
    {
        match self.profile_of(sender) {
            Some(entry) => entry.avatar.clone(),
            None => avatar_url(sender),
        }
    }
}

impl Effect {
    /// Whether the display is stale after this step.
    pub fn should_render(&self) -> (stale: bool)
        ensures
            stale == (self@ is Render),
    {
        match self {
            Effect::Render => true,
            _ => false,
        }
    }
}

/// Who a session is made for.
#[derive(Clone, Debug)]
pub struct User {
    pub username: String,
}

/// Admits a display name: any but the empty one.
pub fn login(username: String) -> (user: Option<User>)
    ensures
        user is Some <==> username@.len() > 0,
        user matches Some(u) ==> u.username@ == username@,
{
    if username.as_str().is_empty() {
        None
    } else {
        Some(User { username })
    }
}

/// The session after a run of inbound frames, taken in one by one.
pub open spec fn run(s: ChatView, frames: Seq<Seq<char>>) -> ChatView
    decreases frames.len(),
{
    if frames.len() == 0 {
        s
    } else {
        step_spec(run(s, frames.drop_last()), MsgView::HandleMsg(frames.last()))
    }
}

/// A frame that decodes to a `users` envelope.
pub open spec fn users_frame(frame: Seq<char>) -> bool {
    decode_spec(frame) matches Ok(envelope) && envelope.message_type is Users
}

/// A frame that decodes to a `message` envelope whose text decodes to a chat payload.
pub open spec fn message_frame(frame: Seq<char>) -> bool {
    decode_spec(frame) matches Ok(envelope) && envelope.message_type is Message && payload_spec(
        envelope.data->Some_0,
    ) is Ok
}

/// The chat payload inside a message frame.
pub open spec fn payload_of(frame: Seq<char>) -> MessageView {
    payload_spec(decode_spec(frame)->Ok_0.data->Some_0)->Ok_0
}

/// A step that does not ask for a new display has changed nothing.
pub proof fn lemma_only_render_changes(s: ChatView, msg: MsgView)
    ensures
        !(step_effect(s, msg) is Render) ==> step_spec(s, msg) == s,
{
    if let MsgView::HandleMsg(frame) = msg {
        lemma_decoded_is_valid(frame);
    }
}

/// A `message` frame whose text is no chat payload leaves the presence list
/// and the message log as they were.
pub proof fn lemma_bad_payload_changes_nothing(s: ChatView, frame: Seq<char>)
    requires
        decode_spec(frame) matches Ok(envelope) && envelope.message_type is Message && payload_spec(
            envelope.data->Some_0,
        ) is Err,
    ensures
        step_spec(s, MsgView::HandleMsg(frame)) == s,
{
}

/// No inbound frame disconnects a session.
pub proof fn lemma_run_stays_connected(s: ChatView, frames: Seq<Seq<char>>)
    requires
        connected(s.phase),
    ensures
        connected(run(s, frames).phase),
        run(s, frames).username == s.username,
    decreases frames.len(),
{
    if frames.len() > 0 {
        lemma_run_stays_connected(s, frames.drop_last());
    }
}

/// After a run of frames that ends in a `users` frame, the presence list
/// holds the names of that last frame, in its order, and nothing else.
pub proof fn lemma_presence_is_last_users_frame(s: ChatView, frames: Seq<Seq<char>>)
    requires
        connected(s.phase),
        frames.len() > 0,
        users_frame(frames.last()),
    ensures
        run(s, frames).users == decode_spec(frames.last())->Ok_0.data_array->Some_0,
        run(s, frames).phase is Active,
{
    lemma_run_stays_connected(s, frames.drop_last());
    lemma_decoded_is_valid(frames.last());
}

/// A run of message frames adds their payloads to the log, one record a
/// frame, in the order of arrival, and leaves the presence list alone:
/// whether a sender is present plays no part.
pub proof fn lemma_log_grows_in_arrival_order(s: ChatView, frames: Seq<Seq<char>>)
    requires
        connected(s.phase),
        forall|i: int| 0 <= i < frames.len() ==> message_frame(#[trigger] frames[i]),
    ensures
        run(s, frames).messages == s.messages + Seq::new(
            frames.len(),
            |i: int| payload_of(frames[i]),
        ),
        run(s, frames).users == s.users,
        run(s, frames).phase == s.phase,
    decreases frames.len(),
{
    if frames.len() == 0 {
        assert(s.messages + Seq::new(frames.len(), |i: int| payload_of(frames[i])) =~= s.messages);
    } else {
        let earlier = frames.drop_last();
        lemma_log_grows_in_arrival_order(s, earlier);
        lemma_decoded_is_valid(frames.last());
        assert(message_frame(frames[frames.len() - 1]));
        assert(run(s, frames).messages =~= s.messages + Seq::new(
            frames.len(),
            |i: int| payload_of(frames[i]),
        ));
    }
}

} // verus!
