use crate::recency::RecencySet;
use vstd::prelude::*;

verus! {

/// A message received by the bot.
pub struct IncomingMessage {
    /// Identifier of the sender.
    pub author: String,
    /// The message was written by the bot itself.
    pub self_authored: bool,
    /// The message text.
    pub content: String,
}

/// The events the bot reacts to.
pub enum Event {
    /// The connection is up.
    Ready,
    Message(IncomingMessage),
    Other,
}

/// What the caller performs for one event.
#[derive(PartialEq, Eq, Structural, Clone, Copy, Debug)]
pub enum Action {
    /// Nothing at all: the event is of no interest or came from the bot.
    Ignore,
    /// Announce the login and set the bot's presence.
    Announce,
    /// Tell the sender by private message that they are rate limited.
    Warn,
    /// Reply to the trigger and react to it, then record the sender.
    Respond,
    /// A message from a sender that is not limited and did not trigger.
    Pass,
}

/// The payload that makes the bot respond.
pub open spec fn trigger() -> Seq<char> {
    seq!['h']
}

/// The action for a message, given the senders recorded as recent.
pub open spec fn message_action(
    recent: Seq<Seq<char>>,
    author: Seq<char>,
    self_authored: bool,
    content: Seq<char>,
) -> Action {
    if self_authored {
        Action::Ignore
    } else if recent.contains(author) {
        Action::Warn
    } else if content == trigger() {
        Action::Respond
    } else {
        Action::Pass
    }
}

/// The recent senders once a message's action is done: the sender is
/// recorded only after a response that was delivered.
pub open spec fn state_after(
    recent: Seq<Seq<char>>,
    author: Seq<char>,
    action: Action,
    delivered: bool,
) -> Seq<Seq<char>> {
    if action == Action::Respond && delivered {
        recent.push(author)
    } else {
        recent
    }
}

/// The action for any event.
pub open spec fn event_action(recent: Seq<Seq<char>>, event: Event) -> Action {
    match event {
        Event::Ready => Action::Announce,
        Event::Message(m) => message_action(recent, m.author@, m.self_authored, m.content@),
        Event::Other => Action::Ignore,
    }
}

/// Whether `content` is the trigger payload.
pub fn is_trigger(content: &String) -> (r: bool)
    ensures
        r == (content@ == trigger()),
{
    let t: String = "h".to_owned();
    proof {
        reveal_strlit("h");
        assert(t@ =~= trigger());
    }
    *content == t
}

/// Decides what to do with a message. Reading the recent senders is the
/// only access to them: the decision itself changes nothing.
pub fn decide(recent: &RecencySet, msg: &IncomingMessage) -> (r: Action)
    ensures
        r == message_action(recent@, msg.author@, msg.self_authored, msg.content@),
{
    if msg.self_authored {
        Action::Ignore
    } else if recent.contains(&msg.author) {
        Action::Warn
    } else if is_trigger(&msg.content) {
        Action::Respond
    } else {
        Action::Pass
    }
}

/// Decides what to do with any event.
pub fn route(recent: &RecencySet, event: &Event) -> (r: Action)
    ensures
        r == event_action(recent@, *event),
{
    match event {
        Event::Ready => Action::Announce,
        Event::Message(m) => decide(recent, m),
        Event::Other => Action::Ignore,
    }
}

/// Finishes a message once its action was performed: records the sender
/// when `action` was a response and it was delivered.
pub fn complete(recent: &mut RecencySet, msg: &IncomingMessage, action: Action, delivered: bool)
    ensures
        final(recent)@ == state_after(old(recent)@, msg.author@, action, delivered),
{
    if action == Action::Respond && delivered {
        recent.insert(msg.author.clone());
    }
}

/// A message from the bot itself is ignored whatever it says, and leaves
/// the recent senders as they were.
pub proof fn lemma_self_authored_inert(
    recent: Seq<Seq<char>>,
    author: Seq<char>,
    content: Seq<char>,
    delivered: bool,
)
    ensures
        message_action(recent, author, true, content) == Action::Ignore,
        state_after(recent, author, message_action(recent, author, true, content), delivered)
            == recent,
{
}

/// A trigger from a sender who is not recent gets the response, and once it
/// was delivered the sender is recent; any later message of theirs before a
/// clear, a trigger or not, takes the warning path alone and records nothing.
pub proof fn lemma_trigger_then_warn(
    recent: Seq<Seq<char>>,
    author: Seq<char>,
    later: Seq<char>,
    delivered: bool,
)
    requires
        !recent.contains(author),
    ensures
        message_action(recent, author, false, trigger()) == Action::Respond,
        state_after(recent, author, Action::Respond, true).contains(author),
        message_action(state_after(recent, author, Action::Respond, true), author, false, later)
            == Action::Warn,
        state_after(
            state_after(recent, author, Action::Respond, true),
            author,
            Action::Warn,
            delivered,
        ) == state_after(recent, author, Action::Respond, true),
{
    let after = recent.push(author);
    assert(after[recent.len() as int] == author);
}

} // verus!
