//! Chat history and the command-line chat loops built on it: a history
//! that always opens with its system prompt, REPL command parsing, and
//! the media marker placed in the latest user turn.

use vstd::prelude::*;
use crate::text::{same_text, strip_prefix, trim, trimmed};

verus! {

/// Who wrote a message.
#[derive(Clone, Copy, Debug, PartialEq, Eq, Structural)]
pub enum Role {
    System,
    User,
    Assistant,
}

/// One chat message.
#[derive(Clone, Debug, PartialEq, Eq)]
pub struct Message {
    pub role: Role,
    pub content: String,
}

/// A message as values.
pub struct MessageView {
    pub role: Role,
    pub content: Seq<char>,
}

impl View for Message {
    type V = MessageView;

    open spec fn view(&self) -> MessageView {
        MessageView { role: self.role, content: self.content@ }
    }
}

/// The values of a list of messages.
pub open spec fn messages_view(messages: Seq<Message>) -> Seq<MessageView> {
    messages.map_values(|m: Message| m@)
}

impl Message {
    /// A message from `role` with `content`.
    pub fn new(role: Role, content: &str) -> (m: Message)
        ensures
            m@ == (MessageView { role: role, content: content@ }),
    {
        Message { role, content: content.to_owned() }
    }

    /// A copy of this message.
    pub fn duplicate(&self) -> (m: Message)
        ensures
            m@ == self@,
    {
        Message { role: self.role, content: self.content.clone() }
    }
}

/// A line typed at one of the chat loops, read.
#[derive(Clone, Debug, PartialEq, Eq)]
pub enum Command {
    /// Nothing but white space.
    Empty,
    /// `/exit`, `/quit` or `/q`.
    Quit,
    /// `/clear`.
    Clear,
    /// `/save`.
    Save,
    /// `/image <path>`, with the path trimmed.
    SetImage(String),
    /// Anything else: a user message, trimmed.
    Say(String),
}

/// A command as values.
pub enum CommandView {
    Empty,
    Quit,
    Clear,
    Save,
    SetImage(Seq<char>),
    Say(Seq<char>),
}

impl View for Command {
    type V = CommandView;

    open spec fn view(&self) -> CommandView {
        match self {
            Command::Empty => CommandView::Empty,
            Command::Quit => CommandView::Quit,
            Command::Clear => CommandView::Clear,
            Command::Save => CommandView::Save,
            Command::SetImage(p) => CommandView::SetImage(p@),
            Command::Say(t) => CommandView::Say(t@),
        }
    }
}

/// The words that end a chat loop.
pub open spec fn is_quit_word(input: Seq<char>) -> bool {
    input == "/exit"@ || input == "/quit"@ || input == "/q"@
}

/// A line of the text chat loop: `/exit` (`/quit`, `/q`), `/clear`,
/// `/save`, or a message; the line is trimmed first.
pub open spec fn chat_command(line: Seq<char>) -> CommandView {
    let input = trimmed(line);
    if input.len() == 0 {
        CommandView::Empty
    } else if is_quit_word(input) {
        CommandView::Quit
    } else if input == "/clear"@ {
        CommandView::Clear
    } else if input == "/save"@ {
        CommandView::Save
    } else {
        CommandView::Say(input)
    }
}

/// A line of the vision chat loop: `/image <path>` first, then `/exit`
/// (`/quit`, `/q`), `/clear`, or a message; the line is trimmed first.
pub open spec fn vision_command(line: Seq<char>) -> CommandView {
    let input = trimmed(line);
    if input.len() == 0 {
        CommandView::Empty
    } else if "/image "@.is_prefix_of(input) {
        CommandView::SetImage(trimmed(input.skip("/image "@.len() as int)))
    } else if is_quit_word(input) {
        CommandView::Quit
    } else if input == "/clear"@ {
        CommandView::Clear
    } else {
        CommandView::Say(input)
    }
}

fn is_quit(input: &str) -> (b: bool)
    ensures
        b == is_quit_word(input@),
{
    same_text(input, "/exit") || same_text(input, "/quit") || same_text(input, "/q")
}

/// Reads a line of the text chat loop.
pub fn parse_chat_command(line: &str) -> (command: Command)
    ensures
        command@ == chat_command(line@),
{
    let input = trim(line);
    if input.is_empty() {
        Command::Empty
    } else if is_quit(input) {
        Command::Quit
    } else if same_text(input, "/clear") {
        Command::Clear
    } else if same_text(input, "/save") {
        Command::Save
    } else {
        Command::Say(input.to_owned())
    }
}

/// Reads a line of the vision chat loop.
pub fn parse_vision_command(line: &str) -> (command: Command)
    ensures
        command@ == vision_command(line@),
{
    let input = trim(line);
    if input.is_empty() {
        return Command::Empty;
    }
    if let Some(rest) = strip_prefix(input, "/image ") {
        return Command::SetImage(trim(rest).to_owned());
    }
    if is_quit(input) {
        Command::Quit
    } else if same_text(input, "/clear") {
        Command::Clear
    } else {
        Command::Say(input.to_owned())
    }
}

/// What a chat loop does after a command.
#[derive(Clone, Debug, PartialEq, Eq)]
pub enum Action {
    /// Read the next line.
    Ignore,
    /// Leave the loop.
    Quit,
    /// The history was reset to its system prompt.
    Cleared,
    /// Print the history.
    Save,
    /// Use the image at this path from now on.
    SetImage(String),
    /// Send the history, which now ends with the new user message.
    Ask,
}

/// The shape every chat history keeps: the system prompt first, then user
/// and assistant messages in turn; a reply is awaited exactly when the
/// last message is the user's.
pub open spec fn session_shape(history: Seq<MessageView>, awaiting_reply: bool) -> bool {
    &&& history.len() >= 1
    &&& history[0].role == Role::System
    &&& forall|i: int|
        1 <= i < history.len() ==> #[trigger] history[i].role == if i % 2 == 1 {
            Role::User
        } else {
            Role::Assistant
        }
    &&& awaiting_reply == (history.len() % 2 == 0)
}

/// A session as values.
pub struct SessionView {
    pub history: Seq<MessageView>,
    pub awaiting_reply: bool,
}

/// A session after a command read between turns: `/clear` keeps only the
/// first message, a message is appended as the user's, and every other
/// command leaves the session as it was.
pub open spec fn after_command(s: SessionView, c: CommandView) -> SessionView {
    match c {
        CommandView::Clear => SessionView { history: s.history.take(1), awaiting_reply: false },
        CommandView::Say(t) => SessionView {
            history: s.history.push(MessageView { role: Role::User, content: t }),
            awaiting_reply: true,
        },
        _ => s,
    }
}

/// A session after the model answered (`Some`) or failed (`None`): the
/// trimmed reply is appended as the assistant's, or the user's message is
/// dropped.
pub open spec fn after_reply(s: SessionView, reply: Option<Seq<char>>) -> SessionView {
    match reply {
        Some(r) => SessionView {
            history: s.history.push(MessageView { role: Role::Assistant, content: trimmed(r) }),
            awaiting_reply: false,
        },
        None => SessionView { history: s.history.drop_last(), awaiting_reply: false },
    }
}

/// The text of an optional reply.
pub open spec fn reply_text(reply: Option<&str>) -> Option<Seq<char>> {
    match reply {
        Some(r) => Some(r@),
        None => None,
    }
}

/// A chat conversation: the history sent to the model on each turn.
pub struct ChatSession {
    history: Vec<Message>,
    awaiting_reply: bool,
}

impl View for ChatSession {
    type V = SessionView;

    closed spec fn view(&self) -> SessionView {
        SessionView { history: messages_view(self.history@), awaiting_reply: self.awaiting_reply }
    }
}

impl ChatSession {
    pub open spec fn well_formed(&self) -> bool {
        session_shape(self@.history, self@.awaiting_reply)
    }

    /// A session whose history holds only the system prompt.
    pub fn new(system_prompt: &str) -> (session: ChatSession)
        ensures
            session.well_formed(),
            session@.history == seq![MessageView { role: Role::System, content: system_prompt@ }],
            !session@.awaiting_reply,
    {
        let mut history: Vec<Message> = Vec::new();
        history.push(Message::new(Role::System, system_prompt));
        let session = ChatSession { history, awaiting_reply: false };
        assert(session@.history =~= seq![MessageView { role: Role::System, content: system_prompt@ }]);
        session
    }

    /// The history, oldest message first.
    pub fn history(&self) -> (history: &Vec<Message>)
        ensures
            messages_view(history@) == self@.history,
    {
        &self.history
    }

    /// Whether the last message is the user's, with no reply yet.
    pub fn awaiting_reply(&self) -> (b: bool)
        ensures
            b == self@.awaiting_reply,
    {
        self.awaiting_reply
    }

    /// Applies a command read between turns.
    pub fn handle(&mut self, command: Command) -> (action: Action)
        requires
            old(self).well_formed(),
            !old(self)@.awaiting_reply,
        ensures
            final(self).well_formed(),
            final(self)@ == after_command(old(self)@, command@),
            match command@ {
                CommandView::Empty => action is Ignore,
                CommandView::Quit => action is Quit,
                CommandView::Clear => action is Cleared,
                CommandView::Save => action is Save,
                CommandView::SetImage(p) => action matches Action::SetImage(q) && q@ == p,
                CommandView::Say(_) => action is Ask,
            },
    {
        match command {
            Command::Empty => Action::Ignore,
            Command::Quit => Action::Quit,
            Command::Clear => {
                self.history.truncate(1);
                proof {
                    assert(messages_view(self.history@) =~= old(self)@.history.take(1));
                }
                Action::Cleared
            },
            Command::Save => Action::Save,
            Command::SetImage(path) => Action::SetImage(path),
            Command::Say(text) => {
                let ghost before = messages_view(self.history@);
                self.history.push(Message { role: Role::User, content: text });
                self.awaiting_reply = true;
                proof {
                    assert(messages_view(self.history@) =~= before.push(
                        MessageView { role: Role::User, content: text@ },
                    ));
                }
                Action::Ask
            },
        }
    }

    /// Ends the turn that the last user message opened: a reply is trimmed
    /// and kept as the assistant's message and handed back; a failure drops
    /// the user message again.
    pub fn record_reply(&mut self, reply: Option<&str>) -> (kept: Option<String>)
        requires
            old(self).well_formed(),
            old(self)@.awaiting_reply,
        ensures
            final(self).well_formed(),
            final(self)@ == after_reply(old(self)@, reply_text(reply)),
            match reply {
                Some(r) => kept matches Some(k) && k@ == trimmed(r@),
                None => kept is None,
            },
    {
        let ghost before = messages_view(self.history@);
        match reply {
            Some(r) => {
                let text = trim(r).to_owned();
                self.history.push(Message { role: Role::Assistant, content: text.clone() });
                self.awaiting_reply = false;
                proof {
                    assert(messages_view(self.history@) =~= before.push(
                        MessageView { role: Role::Assistant, content: text@ },
                    ));
                }
                Some(text)
            },
            None => {
                self.history.pop();
                self.awaiting_reply = false;
                proof {
                    assert(messages_view(self.history@) =~= before.drop_last());
                }
                None
            },
        }
    }
}

/// The roles of a history, in order.
pub open spec fn roles(history: Seq<MessageView>) -> Seq<Role> {
    history.map_values(|m: MessageView| m.role)
}

/// The history as rendered for an image turn: the latest user message
/// gets the media marker and a line break in front of its text.
pub open spec fn marked_history(history: Seq<MessageView>, marker: Seq<char>) -> Seq<MessageView> {
    match roles(history).index_of_last(Role::User) {
        Some(k) => history.update(
            k,
            MessageView { role: Role::User, content: marker + "\n"@ + history[k].content },
        ),
        None => history,
    }
}

/// A copy of `history` with the media marker placed in its latest user
/// message.
pub fn with_media_marker(history: &Vec<Message>, marker: &str) -> (marked: Vec<Message>)
    ensures
        messages_view(marked@) == marked_history(messages_view(history@), marker@),
{
    let ghost h = messages_view(history@);
    let n = history.len();
    let mut k: usize = n;
    while k > 0 && history[k - 1].role != Role::User
        invariant
            n == history@.len(),
            h == messages_view(history@),
            k <= n,
            forall|j: int| k <= j < n ==> #[trigger] roles(h)[j] != Role::User,
        decreases k,
    {
        k = k - 1;
    }
    proof {
        roles(h).index_of_last_ensures(Role::User);
        if k > 0 {
            assert(roles(h)[k - 1] == Role::User);
        }
    }
    let mut marked: Vec<Message> = Vec::new();
    let mut i: usize = 0;
    while i < n
        invariant
            n == history@.len(),
            h == messages_view(history@),
            k <= n,
            k == 0 ==> roles(h).index_of_last(Role::User) is None,
            k > 0 ==> roles(h).index_of_last(Role::User) == Some(k - 1),
            i <= n,
            messages_view(marked@) == marked_history(h, marker@).take(i as int),
        decreases n - i,
    {
        let ghost before = messages_view(marked@);
        if k > 0 && i == k - 1 {
            let mut content = marker.to_owned();
            content.append("\n");
            content.append(history[i].content.as_str());
            marked.push(Message { role: Role::User, content });
        } else {
            marked.push(history[i].duplicate());
        }
        proof {
            assert(messages_view(marked@) =~= before.push(messages_view(marked@).last()));
            assert(marked_history(h, marker@).take(i + 1) =~= marked_history(h, marker@).take(
                i as int,
            ).push(marked_history(h, marker@)[i as int]));
        }
        i = i + 1;
    }
    proof {
        assert(marked_history(h, marker@).take(n as int) =~= marked_history(h, marker@));
    }
    marked
}

/// Every command keeps the first message of the history, the system
/// prompt.
pub proof fn lemma_command_keeps_system_prompt(s: SessionView, c: CommandView)
    requires
        session_shape(s.history, s.awaiting_reply),
        !s.awaiting_reply,
    ensures
        after_command(s, c).history[0] == s.history[0],
        session_shape(after_command(s, c).history, after_command(s, c).awaiting_reply),
{
}

/// Ending a turn keeps the first message of the history, the system prompt.
pub proof fn lemma_reply_keeps_system_prompt(s: SessionView, reply: Option<Seq<char>>)
    requires
        session_shape(s.history, s.awaiting_reply),
        s.awaiting_reply,
    ensures
        after_reply(s, reply).history[0] == s.history[0],
        session_shape(after_reply(s, reply).history, after_reply(s, reply).awaiting_reply),
{
}

/// `/clear` resets the history to just its system prompt.
pub proof fn lemma_clear_leaves_system_prompt(s: SessionView)
    requires
        session_shape(s.history, s.awaiting_reply),
    ensures
        after_command(s, CommandView::Clear).history == seq![s.history[0]],
{
    assert(s.history.take(1) =~= seq![s.history[0]]);
}

/// A turn whose request fails leaves the session as it was before the
/// message was sent.
pub proof fn lemma_failed_turn_restores(s: SessionView, text: Seq<char>)
    requires
        session_shape(s.history, s.awaiting_reply),
        !s.awaiting_reply,
    ensures
        after_reply(after_command(s, CommandView::Say(text)), None) == s,
{
    assert(s.history.push(MessageView { role: Role::User, content: text }).drop_last() =~= s.history);
}

/// A turn that gets a reply appends the user's message and the trimmed
/// reply, and keeps everything before: the history is never truncated
/// between turns.
pub proof fn lemma_answered_turn_appends(s: SessionView, text: Seq<char>, reply: Seq<char>)
    requires
        session_shape(s.history, s.awaiting_reply),
        !s.awaiting_reply,
    ensures
        after_reply(after_command(s, CommandView::Say(text)), Some(reply)).history == s.history
            + seq![
            MessageView { role: Role::User, content: text },
            MessageView { role: Role::Assistant, content: trimmed(reply) },
        ],
        !after_reply(after_command(s, CommandView::Say(text)), Some(reply)).awaiting_reply,
{
    assert(after_reply(after_command(s, CommandView::Say(text)), Some(reply)).history =~= s.history
        + seq![
        MessageView { role: Role::User, content: text },
        MessageView { role: Role::Assistant, content: trimmed(reply) },
    ]);
}

/// Only `/clear` and a user message change the session: every other
/// command leaves the history, and whether a reply is awaited, as they were.
pub proof fn lemma_only_clear_and_messages_change_history(s: SessionView, c: CommandView)
    requires
        !(c is Clear),
        !(c is Say),
    ensures
        after_command(s, c) == s,
{
}

/// A user message is appended to the history as the user's, whole, and a
/// reply is then awaited.
pub proof fn lemma_message_is_appended(s: SessionView, text: Seq<char>)
    ensures
        after_command(s, CommandView::Say(text)).history.len() == s.history.len() + 1,
        after_command(s, CommandView::Say(text)).history.take(s.history.len() as int) == s.history,
        after_command(s, CommandView::Say(text)).history.last() == (MessageView {
            role: Role::User,
            content: text,
        }),
        after_command(s, CommandView::Say(text)).awaiting_reply,
{
    assert(after_command(s, CommandView::Say(text)).history.take(s.history.len() as int)
        =~= s.history);
}

/// The latest user message of a history gets the marker and a line break in
/// front of its text; every other message, and the length, stay as they
/// were.
pub proof fn lemma_marker_on_latest_user_message(h: Seq<MessageView>, marker: Seq<char>, k: int)
    requires
        0 <= k < h.len(),
        h[k].role == Role::User,
        forall|j: int| k < j < h.len() ==> h[j].role != Role::User,
    ensures
        marked_history(h, marker).len() == h.len(),
        marked_history(h, marker)[k] == (MessageView {
            role: Role::User,
            content: marker + "\n"@ + h[k].content,
        }),
        forall|j: int| 0 <= j < h.len() && j != k ==> marked_history(h, marker)[j] == h[j],
{
    roles(h).index_of_last_ensures(Role::User);
    assert(roles(h)[k] == Role::User);
    let found = roles(h).index_of_last(Role::User)->0;
    if found < k {
        assert(roles(h)[k] == Role::User);
    } else if k < found {
        assert(roles(h)[found] == Role::User);
        assert(h[found].role == Role::User);
    }
}

/// A history with no user message is left as it is.
pub proof fn lemma_marker_without_user_message(h: Seq<MessageView>, marker: Seq<char>)
    requires
        forall|j: int| 0 <= j < h.len() ==> h[j].role != Role::User,
    ensures
        marked_history(h, marker) == h,
{
    roles(h).index_of_last_ensures(Role::User);
    if roles(h).index_of_last(Role::User) is Some {
        let found = roles(h).index_of_last(Role::User)->0;
        assert(h[found].role == Role::User);
    }
}

proof fn lemma_quit_words_are_not_image_commands(input: Seq<char>)
    requires
        input == "/exit"@ || input == "/quit"@ || input == "/q"@ || input == "/clear"@,
    ensures
        !"/image "@.is_prefix_of(input),
        input.len() > 0,
{
    reveal_strlit("/image ");
    reveal_strlit("/exit");
    reveal_strlit("/quit");
    reveal_strlit("/q");
    reveal_strlit("/clear");
    assert("/image "@.len() == 7);
    if input == "/clear"@ {
        assert(input.len() == 6);
    } else if input == "/exit"@ {
        assert(input.len() == 5);
    } else if input == "/quit"@ {
        assert(input.len() == 5);
    } else {
        assert(input.len() == 2);
    }
}

/// `/exit`, `/quit` and `/q`, with any white space around them, end both
/// chat loops.
pub proof fn lemma_quit_words_quit(line: Seq<char>)
    requires
        trimmed(line) == "/exit"@ || trimmed(line) == "/quit"@ || trimmed(line) == "/q"@,
    ensures
        chat_command(line) == CommandView::Quit,
        vision_command(line) == CommandView::Quit,
{
    lemma_quit_words_are_not_image_commands(trimmed(line));
}

/// `/clear`, with any white space around it, clears in both chat loops.
pub proof fn lemma_clear_word_clears(line: Seq<char>)
    requires
        trimmed(line) == "/clear"@,
    ensures
        chat_command(line) == CommandView::Clear,
        vision_command(line) == CommandView::Clear,
{
    lemma_quit_words_are_not_image_commands(trimmed(line));
    reveal_strlit("/exit");
    reveal_strlit("/quit");
    reveal_strlit("/q");
    reveal_strlit("/clear");
    assert("/exit"@.len() == 5);
    assert("/quit"@.len() == 5);
    assert("/q"@.len() == 2);
    assert("/clear"@.len() == 6);
}

/// A line of only white space is no command in either chat loop, and any
/// other line that is no command word is sent trimmed, as the user's
/// message, in the text loop.
pub proof fn lemma_plain_lines(line: Seq<char>)
    ensures
        trimmed(line).len() == 0 ==> chat_command(line) == CommandView::Empty && vision_command(
            line,
        ) == CommandView::Empty,
        (trimmed(line).len() > 0 && trimmed(line) != "/exit"@ && trimmed(line) != "/quit"@
            && trimmed(line) != "/q"@ && trimmed(line) != "/clear"@ && trimmed(line) != "/save"@)
            ==> chat_command(line) == CommandView::Say(trimmed(line)),
{
}

/// `/image <path>` sets the image in the vision loop, with the path
/// trimmed.
pub proof fn lemma_image_command(line: Seq<char>, path: Seq<char>)
    requires
        trimmed(line) == "/image "@ + path,
    ensures
        vision_command(line) == CommandView::SetImage(trimmed(path)),
{
    let input = trimmed(line);
    assert(input.len() > 0) by {
        reveal_strlit("/image ");
        assert("/image "@.len() == 7);
    }
    assert("/image "@.is_prefix_of(input));
    assert(input.skip("/image "@.len() as int) =~= path);
}

} // verus!
