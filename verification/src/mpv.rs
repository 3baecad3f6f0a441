//! The conversation with the player.
//!
//! When the user pauses, resumes or seeks, the player says so. The other peers
//! are then told of the position and of whether playback is paused. What the
//! event does not say is asked of the player first.

use crate::clock::now_ms;
use crate::message::{Event, EventModel, StateUpdate, UpdateTrigger};
use crate::peers::EndpointId;
use vstd::prelude::*;

pub mod events;

verus! {

/// A message of the player.
#[derive(Clone, Copy, Debug, PartialEq, Eq, Structural)]
pub enum MpvMessage {
    Event(events::Event),
}

/// A value in a reply of the player.
#[derive(Clone, Copy, Debug, PartialEq, Eq, Structural)]
pub enum ReplyValue {
    /// No value, or `null`.
    Null,
    Bool(bool),
    /// A number, as the bits of a double-precision one.
    Number(u64),
    /// A string, an array or an object.
    Other,
}

/// Why a reply of the player is of no use.
#[derive(Clone, Copy, Debug, PartialEq, Eq, Structural)]
pub enum MpvError {
    /// The JSON parser refuses it.
    InvalidReply,
    /// Its value is not a number.
    NotNumber,
    /// Its value is not a truth value.
    NotBool,
}

impl MpvError {
    /// The message for the user, or `None` where the parser has one.
    pub fn message(&self) -> (text: Option<String>)
        ensures
            match *self {
                MpvError::InvalidReply => text is None,
                MpvError::NotNumber => text matches Some(text) && text@ == "not f64"@,
                MpvError::NotBool => text matches Some(text) && text@ == "not bool"@,
            },
    {
        match self {
            MpvError::InvalidReply => None,
            MpvError::NotNumber => Some("not f64".to_owned()),
            MpvError::NotBool => Some("not bool".to_owned()),
        }
    }
}

/// The error of a JSON parse, as `serde_json` holds it.
#[verifier::external_type_specification]
#[verifier::external_body]
pub struct ExJsonError(serde_json::Error);

/// The value under `key` in the JSON document `text`, or `None` where the parser
/// refuses the text.
pub uninterp spec fn json_member(text: Seq<char>, key: Seq<char>) -> Option<ReplyValue>;

/// Parses a JSON document with `serde_json::from_str` and looks up a key.
///
/// Trusted: what is found depends on the text and the key alone, which
/// `json_member` names, and there is an error exactly where the parser refuses
/// the text. It refuses what is not JSON, and also nesting beyond its limit and
/// numbers out of its range.
#[verifier::external_body]
fn read_member(text: &str, key: &str) -> (found: Result<ReplyValue, serde_json::Error>)
    ensures
        match found {
            Ok(value) => json_member(text@, key@) == Some(value),
            Err(_) => json_member(text@, key@) is None,
        },
{
    let document: serde_json::Value = serde_json::from_str(text)?;
    Ok(match &document[key] {
        serde_json::Value::Null => ReplyValue::Null,
        serde_json::Value::Bool(value) => ReplyValue::Bool(*value),
        serde_json::Value::Number(value) => match value.as_f64() {
            Some(value) => ReplyValue::Number(value.to_bits()),
            None => ReplyValue::Other,
        },
        serde_json::Value::String(_) => ReplyValue::Other,
        serde_json::Value::Array(_) => ReplyValue::Other,
        serde_json::Value::Object(_) => ReplyValue::Other,
    })
}

/// The value in a reply of the player, under the key `data`.
pub open spec fn reply_model(reply: Seq<char>) -> Result<ReplyValue, MpvError> {
    match json_member(reply, "data"@) {
        Some(value) => Ok(value),
        None => Err(MpvError::InvalidReply),
    }
}

/// The value in a reply of the player, under the key `data`.
pub fn reply_value(reply: &str) -> (value: Result<ReplyValue, MpvError>)
    ensures
        value == reply_model(reply@),
        match json_member(reply@, "data"@) {
            Some(found) => value == Ok::<ReplyValue, MpvError>(found),
            None => value == Err::<ReplyValue, MpvError>(MpvError::InvalidReply),
        },
{
    match read_member(reply, "data") {
        Ok(value) => Ok(value),
        Err(_) => Err(MpvError::InvalidReply),
    }
}

/// The number that a value is.
pub open spec fn number_in(value: Result<ReplyValue, MpvError>) -> Result<u64, MpvError> {
    match value {
        Ok(ReplyValue::Number(bits)) => Ok(bits),
        Ok(_) => Err(MpvError::NotNumber),
        Err(error) => Err(error),
    }
}

/// The truth value that a value is.
pub open spec fn bool_in(value: Result<ReplyValue, MpvError>) -> Result<bool, MpvError> {
    match value {
        Ok(ReplyValue::Bool(value)) => Ok(value),
        Ok(_) => Err(MpvError::NotBool),
        Err(error) => Err(error),
    }
}

/// The number that a value is.
pub fn number_of(value: Result<ReplyValue, MpvError>) -> (number: Result<u64, MpvError>)
    ensures
        number == number_in(value),
{
    match value {
        Ok(ReplyValue::Number(bits)) => Ok(bits),
        Ok(_) => Err(MpvError::NotNumber),
        Err(error) => Err(error),
    }
}

/// The truth value that a value is.
pub fn bool_of(value: Result<ReplyValue, MpvError>) -> (truth: Result<bool, MpvError>)
    ensures
        truth == bool_in(value),
{
    match value {
        Ok(ReplyValue::Bool(value)) => Ok(value),
        Ok(_) => Err(MpvError::NotBool),
        Err(error) => Err(error),
    }
}

/// The playback position in a reply to [`Property::PlaybackTime`], as the bits
/// of a double-precision number of seconds.
pub fn get_playback_time(reply: &str) -> (position: Result<u64, MpvError>)
    ensures
        position == number_in(reply_model(reply@)),
{
    number_of(reply_value(reply))
}

/// Whether playback is paused, by a reply to [`Property::Pause`].
pub fn get_paused(reply: &str) -> (is_paused: Result<bool, MpvError>)
    ensures
        is_paused == bool_in(reply_model(reply@)),
{
    bool_of(reply_value(reply))
}

/// A property of the player that can be asked for.
#[derive(Clone, Copy, Debug, PartialEq, Eq, Structural)]
pub enum Property {
    PlaybackTime,
    Pause,
}

impl Property {
    /// The command that asks the player for the property.
    pub open spec fn command_text(self) -> Seq<char> {
        match self {
            Property::PlaybackTime => "{ \"command\": [\"get_property\", \"playback-time\"] }"@,
            Property::Pause => "{ \"command\": [\"get_property\", \"pause\"] }"@,
        }
    }

    /// The command that asks the player for the property.
    pub fn command(&self) -> (command: String)
        ensures
            command@ == self.command_text(),
    {
        match self {
            Property::PlaybackTime => {
                "{ \"command\": [\"get_property\", \"playback-time\"] }".to_owned()
            },
            Property::Pause => "{ \"command\": [\"get_property\", \"pause\"] }".to_owned(),
        }
    }
}

/// What the player was asked, and what is known besides the answer.
#[derive(Clone, Copy, Debug, PartialEq, Eq, Structural)]
pub enum Question {
    /// The position at which playback was paused or resumed.
    TimeOfPause { is_paused: bool },
    /// The position to which playback was moved.
    TimeOfSeek,
    /// Whether playback is paused at the position to which it was moved.
    PauseAfterSeek { position: u64 },
}

impl Question {
    /// The property that is asked for.
    pub open spec fn asks_for(self) -> Property {
        match self {
            Question::TimeOfPause { .. } => Property::PlaybackTime,
            Question::TimeOfSeek => Property::PlaybackTime,
            Question::PauseAfterSeek { .. } => Property::Pause,
        }
    }

    /// The property that is asked for.
    pub fn property(&self) -> (property: Property)
        ensures
            property == self.asks_for(),
    {
        match self {
            Question::TimeOfPause { .. } => Property::PlaybackTime,
            Question::TimeOfSeek => Property::PlaybackTime,
            Question::PauseAfterSeek { .. } => Property::Pause,
        }
    }
}

/// What to do next with a message of the player.
#[derive(Clone, Copy, Debug, PartialEq, Eq, Structural)]
pub enum MpvStep {
    /// Nothing more.
    Done,
    /// Ask the player.
    Ask(Question),
    /// Tell the peers of the position and of whether playback is paused.
    Broadcast { position: u64, is_paused: bool },
    /// Give up.
    Fail(MpvError),
}

/// A mark that the next seek event is not the user's and is to be passed over.
#[derive(Debug, PartialEq, Eq)]
pub struct SkipNextSeek {
    pub marked: bool,
}

impl SkipNextSeek {
    /// No mark.
    pub fn new() -> (skip: SkipNextSeek)
        ensures
            !skip.marked,
    {
        SkipNextSeek { marked: false }
    }

    /// Sets the mark.
    pub fn mark(&mut self)
        ensures
            final(self).marked,
    {
        self.marked = true;
    }

    /// Takes the mark away, and says whether it was set.
    pub fn take(&mut self) -> (marked: bool)
        ensures
            marked == old(self).marked,
            !final(self).marked,
    {
        let marked = self.marked;
        self.marked = false;
        marked
    }
}

/// What to do first with a message, where `skip` says whether the next seek is
/// to be passed over.
pub open spec fn first_step(message: MpvMessage, skip: bool) -> MpvStep {
    match message {
        MpvMessage::Event(events::Event::PropertyChange(events::PropertyChange::Pause(is_paused)))
            => MpvStep::Ask(Question::TimeOfPause { is_paused }),
        MpvMessage::Event(events::Event::Seek) => if skip {
            MpvStep::Done
        } else {
            MpvStep::Ask(Question::TimeOfSeek)
        },
    }
}

/// What to do when the player has answered a question with a value or with
/// something of no use.
///
/// A position that is no number is an error after a pause, and is passed over
/// after a seek.
pub open spec fn step_after(question: Question, value: Result<ReplyValue, MpvError>) -> MpvStep {
    match question {
        Question::TimeOfPause { is_paused } => match number_in(value) {
            Ok(position) => MpvStep::Broadcast { position, is_paused },
            Err(error) => MpvStep::Fail(error),
        },
        Question::TimeOfSeek => match value {
            Ok(ReplyValue::Number(position)) => MpvStep::Ask(Question::PauseAfterSeek { position }),
            Ok(_) => MpvStep::Done,
            Err(error) => MpvStep::Fail(error),
        },
        Question::PauseAfterSeek { position } => match bool_in(value) {
            Ok(is_paused) => MpvStep::Broadcast { position, is_paused },
            Err(error) => MpvStep::Fail(error),
        },
    }
}

/// What to do first with a message of the player. A seek takes the mark away.
pub fn handle_mpv_messages(message: MpvMessage, skip: &mut SkipNextSeek) -> (step: MpvStep)
    ensures
        step == first_step(message, old(skip).marked),
        final(skip).marked == (old(skip).marked && message != MpvMessage::Event(
            events::Event::Seek,
        )),
{
    match message {
        MpvMessage::Event(event) => match event {
            events::Event::PropertyChange(property_change) => match property_change {
                events::PropertyChange::Pause(is_paused) => MpvStep::Ask(
                    Question::TimeOfPause { is_paused },
                ),
            },
            events::Event::Seek => {
                if skip.take() {
                    return MpvStep::Done;
                }
                MpvStep::Ask(Question::TimeOfSeek)
            },
        },
    }
}

/// What to do when the player has answered a question with a value or with
/// something of no use.
pub fn handle_value(question: Question, value: Result<ReplyValue, MpvError>) -> (step: MpvStep)
    ensures
        step == step_after(question, value),
{
    match question {
        Question::TimeOfPause { is_paused } => match number_of(value) {
            Ok(position) => MpvStep::Broadcast { position, is_paused },
            Err(error) => MpvStep::Fail(error),
        },
        Question::TimeOfSeek => match value {
            Ok(ReplyValue::Number(position)) => MpvStep::Ask(Question::PauseAfterSeek { position }),
            Ok(_) => MpvStep::Done,
            Err(error) => MpvStep::Fail(error),
        },
        Question::PauseAfterSeek { position } => match bool_of(value) {
            Ok(is_paused) => MpvStep::Broadcast { position, is_paused },
            Err(error) => MpvStep::Fail(error),
        },
    }
}

/// What to do when the player has answered a question with a text.
pub fn handle_reply(question: Question, reply: &str) -> (step: MpvStep)
    ensures
        step == step_after(question, reply_model(reply@)),
{
    handle_value(question, reply_value(reply))
}

/// The broadcast that tells the peers what the user did, at the time `now`.
pub fn user_action_at(
    peer_id: EndpointId,
    position: u64,
    is_paused: bool,
    now: u64,
) -> (content: Vec<u8>)
    ensures
        content@ == user_action_model(peer_id@, position, is_paused, now).wire(),
        EventModel::parse(content@) == Some(
            user_action_model(peer_id@, position, is_paused, now),
        ),
        EventModel::parse(content@) == Some(
            EventModel::StateUpdate {
                peer_id: peer_id@,
                timestamp_ms: now,
                position: position,
                is_paused: is_paused,
                trigger: UpdateTrigger::UserAction,
            },
        ),
{
    let update = StateUpdate::stamped(
        peer_id,
        position,
        is_paused,
        UpdateTrigger::UserAction,
        now,
    );
    Event::StateUpdate(update).encode()
}

/// The broadcast that tells the peers what the user did, by the wall clock, or
/// `None` where the clock stands before the epoch.
pub fn user_action(peer_id: EndpointId, position: u64, is_paused: bool) -> (content: Option<
    Vec<u8>,
>)
    ensures
        content matches Some(content) ==> exists|now: u64|
            content@ == (#[trigger] user_action_model(peer_id@, position, is_paused, now)).wire(),
        content matches Some(content) ==> EventModel::parse(content@) matches Some(
            EventModel::StateUpdate {
                peer_id: told_id,
                position: told_position,
                is_paused: told_pause,
                trigger,
                ..
            },
        ) && told_id == peer_id@ && told_position == position && told_pause == is_paused
            && trigger == UpdateTrigger::UserAction,
{
    user_action_by(peer_id, position, is_paused, now_ms())
}

/// The broadcast that tells the peers what the user did, by a reading of the
/// clock, or `None` where the clock gave none.
pub fn user_action_by(
    peer_id: EndpointId,
    position: u64,
    is_paused: bool,
    reading: Option<u64>,
) -> (content: Option<Vec<u8>>)
    ensures
        match reading {
            Some(now) => content matches Some(content) && content@ == user_action_model(
                peer_id@,
                position,
                is_paused,
                now,
            ).wire() && EventModel::parse(content@) == Some(
                EventModel::StateUpdate {
                    peer_id: peer_id@,
                    timestamp_ms: now,
                    position: position,
                    is_paused: is_paused,
                    trigger: UpdateTrigger::UserAction,
                },
            ),
            None => content is None,
        },
{
    match reading {
        Some(now) => Some(user_action_at(peer_id, position, is_paused, now)),
        None => None,
    }
}

/// The event that tells of what the user of a peer did.
pub open spec fn user_action_model(
    peer_id: Seq<u8>,
    position: u64,
    is_paused: bool,
    now: u64,
) -> EventModel {
    EventModel::StateUpdate {
        peer_id,
        timestamp_ms: now,
        position,
        is_paused,
        trigger: UpdateTrigger::UserAction,
    }
}

/// The seek event.
pub open spec fn seek_message() -> MpvMessage {
    MpvMessage::Event(events::Event::Seek)
}

/// What the player answers to a question, where `time` and `pause` are its
/// answers for the two properties.
pub open spec fn answer_to(
    question: Question,
    time: Result<ReplyValue, MpvError>,
    pause: Result<ReplyValue, MpvError>,
) -> Result<ReplyValue, MpvError> {
    match question.asks_for() {
        Property::PlaybackTime => time,
        Property::Pause => pause,
    }
}

/// What a message comes to when at most `questions` questions are put.
pub open spec fn conversation(
    step: MpvStep,
    time: Result<ReplyValue, MpvError>,
    pause: Result<ReplyValue, MpvError>,
    questions: nat,
) -> MpvStep
    decreases questions,
{
    match step {
        MpvStep::Ask(question) => if questions == 0 {
            step
        } else {
            conversation(
                step_after(question, answer_to(question, time, pause)),
                time,
                pause,
                (questions - 1) as nat,
            )
        },
        _ => step,
    }
}

/// A message is dealt with after at most two questions. The peers are told
/// exactly where the player gave a position, and either the user paused or
/// resumed, or sought and the player said whether it is paused. They are told
/// that position, and that state.
pub proof fn lemma_conversation(
    message: MpvMessage,
    skip: bool,
    time: Result<ReplyValue, MpvError>,
    pause: Result<ReplyValue, MpvError>,
    position: u64,
    is_paused: bool,
)
    ensures
        !(conversation(first_step(message, skip), time, pause, 2) is Ask),
        conversation(first_step(message, skip), time, pause, 2) == (MpvStep::Broadcast {
            position,
            is_paused,
        }) <==> {
            &&& time == Ok::<ReplyValue, MpvError>(ReplyValue::Number(position))
            &&& {
                ||| message == MpvMessage::Event(
                    events::Event::PropertyChange(events::PropertyChange::Pause(is_paused)),
                )
                ||| message == seek_message() && !skip && pause == Ok::<ReplyValue, MpvError>(
                    ReplyValue::Bool(is_paused),
                )
            }
        },
{
    reveal_with_fuel(conversation, 3);
}

/// Whether the mark is still set after some messages.
pub open spec fn mark_after(messages: Seq<MpvMessage>, marked: bool) -> bool
    decreases messages.len(),
{
    if messages.len() == 0 {
        marked
    } else {
        mark_after(messages.drop_last(), marked) && messages.last() != seek_message()
    }
}

/// The mark stays until a seek takes it away.
proof fn lemma_mark_after(messages: Seq<MpvMessage>, marked: bool)
    ensures
        mark_after(messages, marked) == (marked && !messages.contains(seek_message())),
    decreases messages.len(),
{
    if messages.len() > 0 {
        lemma_mark_after(messages.drop_last(), marked);
        assert forall|message: MpvMessage| messages.contains(message) == (
        messages.drop_last().contains(message) || message == messages.last()) by {
            if messages.contains(message) {
                let i = choose|i: int| 0 <= i < messages.len() && messages[i] == message;
                if i < messages.len() - 1 {
                    assert(messages.drop_last()[i] == message);
                }
            }
            if messages.drop_last().contains(message) {
                let i = choose|i: int|
                    0 <= i < messages.len() - 1 && messages.drop_last()[i] == message;
                assert(messages[i] == message);
            }
            assert(messages[messages.len() - 1] == messages.last());
        }
    }
}

/// A mark passes over the first seek that follows it, and nothing else.
pub proof fn lemma_mark_skips_first_seek(messages: Seq<MpvMessage>, marked: bool, i: int)
    requires
        0 <= i < messages.len(),
    ensures
        first_step(messages[i], mark_after(messages.take(i), marked)) == MpvStep::Done <==> {
            &&& marked
            &&& messages[i] == seek_message()
            &&& !messages.take(i).contains(seek_message())
        },
{
    lemma_mark_after(messages.take(i), marked);
}

/// What a peer is told of the user is where playback stands, whether it is
/// paused, who says so and when, exactly as they were, and that it was the user.
/// So what is told of two actions is the same only where all of that is.
pub proof fn lemma_user_action(
    peer_id: Seq<u8>,
    position: u64,
    is_paused: bool,
    now: u64,
    other_position: u64,
    other_paused: bool,
    other_now: u64,
)
    ensures
        user_action_model(peer_id, position, is_paused, now) == (EventModel::StateUpdate {
            peer_id: peer_id,
            timestamp_ms: now,
            position: position,
            is_paused: is_paused,
            trigger: UpdateTrigger::UserAction,
        }),
        user_action_model(peer_id, position, is_paused, now) == user_action_model(
            peer_id,
            other_position,
            other_paused,
            other_now,
        ) ==> position == other_position && is_paused == other_paused && now == other_now,
{
}

/// A value is a number exactly where it is one, and then that number; a truth
/// value likewise. All other values are errors of their kind, and errors stay
/// what they are.
pub proof fn lemma_values(
    value: Result<ReplyValue, MpvError>,
    number: u64,
    truth: bool,
    error: MpvError,
)
    ensures
        number_in(value) == Ok::<u64, MpvError>(number) <==> value == Ok::<ReplyValue, MpvError>(
            ReplyValue::Number(number),
        ),
        number_in(value) == Err::<u64, MpvError>(error) <==> {
            ||| value == Err::<ReplyValue, MpvError>(error)
            ||| value is Ok && !(value->Ok_0 is Number) && error == MpvError::NotNumber
        },
        bool_in(value) == Ok::<bool, MpvError>(truth) <==> value == Ok::<ReplyValue, MpvError>(
            ReplyValue::Bool(truth),
        ),
        bool_in(value) == Err::<bool, MpvError>(error) <==> {
            ||| value == Err::<ReplyValue, MpvError>(error)
            ||| value is Ok && !(value->Ok_0 is Bool) && error == MpvError::NotBool
        },
{
}

/// The value in a reply is the one under `data`, and a reply that cannot be read
/// is an error.
pub proof fn lemma_reply(reply: Seq<char>, value: ReplyValue, error: MpvError)
    ensures
        reply_model(reply) == Ok::<ReplyValue, MpvError>(value) <==> json_member(reply, "data"@)
            == Some(value),
        reply_model(reply) == Err::<ReplyValue, MpvError>(error) <==> json_member(reply, "data"@)
            is None && error == MpvError::InvalidReply,
{
}

/// What is asked of the player, and when. The first question is for the position,
/// and what the player said of pausing is kept with it. The second comes only
/// behind a seek to a position, which is kept with it, and is for the pause.
pub proof fn lemma_questions(
    message: MpvMessage,
    skip: bool,
    question: Question,
    value: Result<ReplyValue, MpvError>,
    next: Question,
)
    ensures
        first_step(message, skip) == MpvStep::Ask(next) <==> {
            ||| next matches Question::TimeOfPause { is_paused } && message == MpvMessage::Event(
                events::Event::PropertyChange(events::PropertyChange::Pause(is_paused)),
            )
            ||| next == Question::TimeOfSeek && message == MpvMessage::Event(events::Event::Seek)
                && !skip
        },
        first_step(message, skip) == MpvStep::Done <==> message == MpvMessage::Event(
            events::Event::Seek,
        ) && skip,
        step_after(question, value) == MpvStep::Ask(next) <==> {
            &&& question == Question::TimeOfSeek
            &&& next matches Question::PauseAfterSeek { position }
            &&& value == Ok::<ReplyValue, MpvError>(ReplyValue::Number(position))
        },
        next.asks_for() == Property::Pause <==> next is PauseAfterSeek,
{
}

/// What becomes of an answer that is not asked on: the peers are told exactly
/// where the position and the pause are known, and told just these. Nothing
/// happens where a seek went nowhere. All else is an error, the one that came.
pub proof fn lemma_answers(
    question: Question,
    value: Result<ReplyValue, MpvError>,
    position: u64,
    is_paused: bool,
    error: MpvError,
)
    ensures
        step_after(question, value) == (MpvStep::Broadcast { position, is_paused }) <==> {
            ||| question == (Question::TimeOfPause { is_paused }) && value == Ok::<
                ReplyValue,
                MpvError,
            >(ReplyValue::Number(position))
            ||| question == (Question::PauseAfterSeek { position }) && value == Ok::<
                ReplyValue,
                MpvError,
            >(ReplyValue::Bool(is_paused))
        },
        step_after(question, value) == MpvStep::Done <==> question == Question::TimeOfSeek && value
            is Ok && !(value->Ok_0 is Number),
        step_after(question, value) == MpvStep::Fail(error) <==> {
            ||| value == Err::<ReplyValue, MpvError>(error)
            ||| question is TimeOfPause && value is Ok && !(value->Ok_0 is Number) && error
                == MpvError::NotNumber
            ||| question is PauseAfterSeek && value is Ok && !(value->Ok_0 is Bool) && error
                == MpvError::NotBool
        },
{
}

} // verus!
