//! The decisions of the interactive client.
//!
//! The client reads a line, and sends it to the server unless it is a word
//! for the client itself.  Reading, sending and printing are not done here.

use crate::config::{Config, ConfigView};
use crate::decimal::{decimal, push_decimal};
use crate::text::same_text;
use vstd::prelude::*;
use vstd::string::StrSliceExecFns;
use vstd::utf8::encode_utf8;

verus! {

/// The text that the client shows: at its start, or when asked for help.
pub open spec fn help_text(startup: bool) -> Seq<char> {
    let title = "UDP Client REPL Version: "@ + crate::VERSION@ + ".\n\n"@;
    if startup {
        title + "Enter 'quit' to exit, 'help' for a list of commands."@
    } else {
        title + "Commands\n"@ + " get key -> value\n"@ + " set key value -> ok\n"@
            + " del key -> ok\n"@ + " keys -> [list]\n"@ + " dbsize -> [list]\n"@
            + " loaddb [filename] -> size\n"@ + " savedb [filename] -> size\n"@
            + " ping -> PONG\n"@ + " now -> unix ts\n"@ + " now_ns -> nano-seconds\n"@
            + " status -> uptime\n"@
    }
}

/// The text that the client shows: at its start, or when asked for help.
pub fn help(startup: bool) -> (text: String)
    ensures
        text@ == help_text(startup),
{
    let mut buf = String::from_str("UDP Client REPL Version: ");
    buf.append(crate::VERSION);
    buf.append(".\n\n");
    if startup {
        buf.append("Enter 'quit' to exit, 'help' for a list of commands.");
    } else {
        buf.append("Commands\n");
        buf.append(" get key -> value\n");
        buf.append(" set key value -> ok\n");
        buf.append(" del key -> ok\n");
        buf.append(" keys -> [list]\n");
        buf.append(" dbsize -> [list]\n");
        buf.append(" loaddb [filename] -> size\n");
        buf.append(" savedb [filename] -> size\n");
        buf.append(" ping -> PONG\n");
        buf.append(" now -> unix ts\n");
        buf.append(" now_ns -> nano-seconds\n");
        buf.append(" status -> uptime\n");
    }
    buf
}

/// Whether `text` begins with `prefix`.
pub open spec fn begins_with(text: Seq<char>, prefix: Seq<char>) -> bool {
    prefix.len() <= text.len() && text.take(prefix.len() as int) == prefix
}

/// Whether `text` begins with `prefix`.
pub fn starts_with(text: &str, prefix: &str) -> (b: bool)
    ensures
        b == begins_with(text@, prefix@),
{
    let n = prefix.unicode_len();
    if text.unicode_len() < n {
        return false;
    }
    same_text(text.substring_char(0, n), prefix)
}

/// What the client does with a line.
#[derive(Debug, Clone, PartialEq, Eq)]
pub enum ReplAction {
    /// End the session.
    Quit,
    /// Show the list of commands.
    Help,
    /// Send these bytes to the server, and show what comes back.
    Send(Vec<u8>),
}

/// The mathematical value of a `ReplAction`.
pub enum ReplActionView {
    Quit,
    Help,
    Send(Seq<u8>),
}

impl View for ReplAction {
    type V = ReplActionView;

    open spec fn view(&self) -> ReplActionView {
        match self {
            ReplAction::Quit => ReplActionView::Quit,
            ReplAction::Help => ReplActionView::Help,
            ReplAction::Send(bytes) => ReplActionView::Send(bytes@),
        }
    }
}

/// What the client does with the line `input`: a line that begins with
/// `quit` ends the session, one that begins with `help` is answered by the
/// client, and any other goes to the server as it is.
pub open spec fn action_for(input: Seq<char>) -> ReplActionView {
    if begins_with(input, "quit"@) {
        ReplActionView::Quit
    } else if begins_with(input, "help"@) {
        ReplActionView::Help
    } else {
        ReplActionView::Send(encode_utf8(input))
    }
}

/// The prompt for the line with the number `ln`.
pub open spec fn prompt_text(ln: nat, prompt: Seq<char>) -> Seq<char> {
    decimal(ln) + prompt + seq![' ']
}

/// An interactive client: its configuration, and the number of lines that
/// it has asked for.
#[derive(Debug, Clone)]
pub struct Client {
    ctx: Config,
    lines: usize,
}

/// The mathematical value of a `Client`.
pub struct ClientView {
    pub config: ConfigView,
    pub lines: nat,
}

impl View for Client {
    type V = ClientView;

    closed spec fn view(&self) -> ClientView {
        ClientView { config: self.ctx@, lines: self.lines as nat }
    }
}

impl Client {
    /// A client that has asked for no line yet.
    pub fn new(config: Config) -> (client: Client)
        ensures
            client@ == (ClientView { config: config@, lines: 0 }),
    {
        Client { ctx: config, lines: 0 }
    }

    /// The address of the server.
    pub fn server_address(&self) -> (s: String)
        ensures
            s@ == self@.config.address(),
    {
        self.ctx.address()
    }

    /// Counts one more line, as far as the counter can count, and gives the
    /// prompt for it.
    pub fn next_prompt(&mut self, prompt: &str) -> (s: String)
        ensures
            final(self)@.config == old(self)@.config,
            final(self)@.lines == if old(self)@.lines < usize::MAX {
                old(self)@.lines + 1
            } else {
                old(self)@.lines
            },
            s@ == prompt_text(final(self)@.lines, prompt@),
    {
        if self.lines < usize::MAX {
            self.lines = self.lines + 1;
        }
        let mut s = String::new();
        push_decimal(&mut s, self.lines as u128);
        s.append(prompt);
        s.append(" ");
        proof {
            reveal_strlit(" ");
            assert(" "@ =~= seq![' ']);
            assert(s@ =~= prompt_text(self.lines as nat, prompt@));
        }
        s
    }

    /// What the client does with the line `input`.
    pub fn decide(input: &str) -> (action: ReplAction)
        ensures
            action@ == action_for(input@),
    {
        if starts_with(input, "quit") {
            ReplAction::Quit
        } else if starts_with(input, "help") {
            ReplAction::Help
        } else {
            ReplAction::Send(input.as_bytes_vec())
        }
    }
}

} // verus!
