//! What a registered connection's inbound line does: a slash command run against
//! the registry, or plain chat broadcast to everyone.
use vstd::prelude::*;
use vstd::string::*;
use vstd::utf8::is_ascii_chars;

use crate::color::{
    color_from_text, debug_text, is_named, lower_name_of, name_of, parse_color, Color,
};
use crate::message::{
    deliveries_view, error_envelope, server_envelope, Delivery, Envelope, Message,
};
use crate::registry::{broadcast_plan, has_id, held_by_other, lemma_pos_of_id, lemma_pos_of_name, pos_of_id,
    pos_of_name, Member, Registry};
use crate::text::{all_ascii, same_text, split_words, trim_text, trimmed, words3};

verus! {

/// A command, with its arguments.
pub enum Command {
    SetColor(String),
    SetName(String),
    Whisper(String, String),
    Invalid,
}

/// A command as its arguments' text.
pub enum Request {
    SetColor(Seq<char>),
    SetName(Seq<char>),
    Whisper(Seq<char>, Seq<char>),
    Invalid,
}

impl View for Command {
    type V = Request;

    open spec fn view(&self) -> Request {
        match self {
            Command::SetColor(c) => Request::SetColor(c@),
            Command::SetName(n) => Request::SetName(n@),
            Command::Whisper(u, m) => Request::Whisper(u@, m@),
            Command::Invalid => Request::Invalid,
        }
    }
}

/// The command that `cmd` (the text after the slash) asks for.
pub open spec fn request_of(cmd: Seq<char>) -> Request {
    let w = words3(cmd);
    if w.len() == 2 && w[0] == "setcolor"@ {
        Request::SetColor(w[1])
    } else if w.len() == 2 && w[0] == "setname"@ {
        Request::SetName(w[1])
    } else if w.len() == 3 && (w[0] == "whisper"@ || w[0] == "msg"@ || w[0] == "w"@) {
        Request::Whisper(w[1], w[2])
    } else {
        Request::Invalid
    }
}

/// A name may be taken when it is ASCII and shorter than fifteen characters.
pub open spec fn valid_name(name: Seq<char>) -> bool {
    is_ascii_chars(name) && name.len() < 15
}

/// The private message that `from` whispers.
pub open spec fn whisper_envelope(from: Seq<char>, msg: Seq<char>) -> Envelope {
    Envelope { user_name: "Whisper from '"@ + from + "'"@, content: msg, color: Color::Magenta }
}

/// The confirmation that a whisper to `to` went out.
pub open spec fn whispered_envelope(to: Seq<char>, msg: Seq<char>) -> Envelope {
    Envelope { user_name: "Whispered to '"@ + to + "' message"@, content: msg, color: Color::Magenta }
}

/// The members after connection `sender` runs `req`, and the deliveries that it makes.
pub open spec fn command_outcome(ms: Seq<Member>, sender: u64, req: Request) -> (
    Seq<Member>,
    Seq<(u64, Envelope)>,
) {
    let k = pos_of_id(ms, sender);
    match req {
        Request::SetColor(text) => match color_from_text(text) {
            Some(c) => (
                ms.update(k, Member { color: c, ..ms[k] }),
                seq![(sender, server_envelope("Set Color to "@ + debug_text(c) + " succesfully!"@))],
            ),
            None => (ms, seq![(sender, error_envelope("Invalid Color: '"@ + text + "'"@))]),
        },
        Request::SetName(name) => if !valid_name(name) {
            (ms, seq![(sender, error_envelope("Invalid Username"@))])
        } else if held_by_other(ms, sender, name) {
            (ms, seq![(sender, error_envelope("Username already exists"@))])
        } else {
            (
                ms.update(k, Member { name, ..ms[k] }),
                seq![(sender, server_envelope("Set username succesfully"@))],
            )
        },
        Request::Whisper(to, msg) => if pos_of_name(ms, to) < ms.len() {
            (
                ms,
                seq![
                    (ms[pos_of_name(ms, to)].id, whisper_envelope(ms[k].name, msg)),
                    (sender, whispered_envelope(to, msg)),
                ],
            )
        } else {
            (ms, seq![(sender, error_envelope("No user named: "@ + to))])
        },
        Request::Invalid => (ms, seq![(sender, error_envelope("Invalid Command"@))]),
    }
}

/// A line asks for a command when it starts with a slash and has more after it.
pub open spec fn is_command_line(line: Seq<char>) -> bool {
    line.len() > 1 && line[0] == '/'
}

/// What connection `sender` says when it sends `line` as chat.
pub open spec fn chat_envelope(ms: Seq<Member>, sender: u64, line: Seq<char>) -> Envelope {
    let m = ms[pos_of_id(ms, sender)];
    Envelope { user_name: m.name, content: line, color: m.color }
}

/// The lower-case form of `s`, as `str::to_lowercase` gives it.
pub uninterp spec fn lower_of(s: Seq<char>) -> Seq<char>;

/// The members after connection `sender` sends the inbound line `raw`, and the
/// deliveries that it makes.
pub open spec fn line_outcome(ms: Seq<Member>, sender: u64, raw: Seq<char>) -> (
    Seq<Member>,
    Seq<(u64, Envelope)>,
) {
    let line = trimmed(raw);
    if is_command_line(line) {
        command_outcome(ms, sender, request_of(lower_of(line.drop_first())))
    } else {
        (ms, broadcast_plan(ms, chat_envelope(ms, sender, line), None))
    }
}

/// Relies on `str::to_lowercase`: the result depends on the characters alone.
#[verifier::external_body]
fn lowercase(s: &str) -> (r: String)
    ensures
        r@ == lower_of(s@),
{
    s.to_lowercase()
}

/// The command that `cmd`, the text after the slash, asks for.
pub fn parse_command(cmd: &str) -> (r: Command)
    ensures
        r@ == request_of(cmd@),
{
    let w = split_words(cmd);
    if w.len() == 2 && same_text(w[0], "setcolor") {
        Command::SetColor(String::from_str(w[1]))
    } else if w.len() == 2 && same_text(w[0], "setname") {
        Command::SetName(String::from_str(w[1]))
    } else if w.len() == 3 && (same_text(w[0], "whisper") || same_text(w[0], "msg") || same_text(
        w[0],
        "w",
    )) {
        Command::Whisper(String::from_str(w[1]), String::from_str(w[2]))
    } else {
        Command::Invalid
    }
}

/// One delivery.
fn single(to: u64, message: Message) -> (r: Vec<Delivery>)
    ensures
        deliveries_view(r@) == seq![(to, message@)],
{
    let mut v: Vec<Delivery> = Vec::new();
    v.push(Delivery { to, message });
    assert(deliveries_view(v@) =~= seq![(to, message@)]);
    v
}

impl<H> Registry<H> {
    /// `setcolor`: gives connection `sender` the colour that `new_color` names, or
    /// tells it that there is none. A colour's name in lower case (`blue`) sets that
    /// colour and is answered with its name (`Blue`).
    pub fn handle_new_color(&mut self, sender: u64, new_color: &str) -> (r: Vec<Delivery>)
        requires
            old(self).wf(),
            has_id(old(self).members(), sender),
        ensures
            final(self).wf(),
            (final(self).members(), deliveries_view(r@)) == command_outcome(
                old(self).members(),
                sender,
                Request::SetColor(new_color@),
            ),
            forall|c: Color|
                is_named(c) && new_color@ == lower_name_of(c) ==> {
                    &&& color_from_text(new_color@) == Some(c)
                    &&& final(self).members() == old(self).members().update(
                        pos_of_id(old(self).members(), sender),
                        Member { color: c, ..old(self).members()[pos_of_id(old(self).members(), sender)] },
                    )
                    &&& deliveries_view(r@) == seq![
                        (sender, server_envelope("Set Color to "@ + name_of(c) + " succesfully!"@)),
                    ]
                },
    {
        match parse_color(new_color) {
            Some(c) => {
                self.set_color(sender, c);
                let mut reply = String::from_str("Set Color to ");
                let label = c.debug_label();
                reply.append(label.as_str());
                reply.append(" succesfully!");
                single(sender, Message::server(reply.as_str()))
            },
            None => {
                let mut reply = String::from_str("Invalid Color: '");
                reply.append(new_color);
                reply.append("'");
                single(sender, Message::error(reply.as_str()))
            },
        }
    }

    /// `setname`: renames connection `sender` to `new_name` where that name is valid
    /// and no other connection has it.
    pub fn handle_change_username(&mut self, sender: u64, new_name: String) -> (r: Vec<Delivery>)
        requires
            old(self).wf(),
            has_id(old(self).members(), sender),
        ensures
            final(self).wf(),
            (final(self).members(), deliveries_view(r@)) == command_outcome(
                old(self).members(),
                sender,
                Request::SetName(new_name@),
            ),
    {
        if !(all_ascii(new_name.as_str()) && new_name.as_str().unicode_len() < 15) {
            single(sender, Message::error("Invalid Username"))
        } else if self.name_held_by_other(sender, new_name.as_str()) {
            single(sender, Message::error("Username already exists"))
        } else {
            self.set_name(sender, new_name);
            single(sender, Message::server("Set username succesfully"))
        }
    }

    /// `whisper`: sends `message` privately to the first connection called
    /// `username` and confirms it to `sender`, or tells `sender` that nobody has
    /// that name.
    pub fn handle_whisper(&self, sender: u64, username: &str, message: &str) -> (r: Vec<Delivery>)
        requires
            self.wf(),
            has_id(self.members(), sender),
        ensures
            (self.members(), deliveries_view(r@)) == command_outcome(
                self.members(),
                sender,
                Request::Whisper(username@, message@),
            ),
    {
        proof {
            lemma_pos_of_id(self.members(), sender);
            lemma_pos_of_name(self.members(), username@);
        }
        let k = self.find_by_name(username);
        if k < self.len() {
            let target = self.id_at(k);
            let from = self.profile_of(sender);
            let mut label = String::from_str("Whisper from '");
            label.append(from.name.as_str());
            label.append("'");
            let mut v: Vec<Delivery> = Vec::new();
            v.push(
                Delivery {
                    to: target,
                    message: Message {
                        user_name: label,
                        content: String::from_str(message),
                        color: Color::Magenta,
                    },
                },
            );
            let mut done = String::from_str("Whispered to '");
            done.append(username);
            done.append("' message");
            v.push(
                Delivery {
                    to: sender,
                    message: Message {
                        user_name: done,
                        content: String::from_str(message),
                        color: Color::Magenta,
                    },
                },
            );
            assert(deliveries_view(v@) =~= command_outcome(
                self.members(),
                sender,
                Request::Whisper(username@, message@),
            ).1);
            v
        } else {
            let mut reply = String::from_str("No user named: ");
            reply.append(username);
            single(sender, Message::error(reply.as_str()))
        }
    }

    /// Runs `cmd`, the text after the slash, for connection `sender`. Every reply
    /// goes to `sender` alone; a whisper also goes to the first connection of that
    /// name.
    pub fn run_command(&mut self, sender: u64, cmd: &str) -> (r: Vec<Delivery>)
        requires
            old(self).wf(),
            has_id(old(self).members(), sender),
        ensures
            final(self).wf(),
            (final(self).members(), deliveries_view(r@)) == command_outcome(
                old(self).members(),
                sender,
                request_of(cmd@),
            ),
    {
        match parse_command(cmd) {
            Command::SetColor(text) => self.handle_new_color(sender, text.as_str()),
            Command::SetName(name) => self.handle_change_username(sender, name),
            Command::Whisper(to, msg) => self.handle_whisper(sender, to.as_str(), msg.as_str()),
            Command::Invalid => single(sender, Message::error("Invalid Command")),
        }
    }

    /// Handles the inbound line `raw` of connection `sender`: once trimmed, a line
    /// that starts with a slash and has more after it is a command, lower-cased
    /// and run; any other line is chat, delivered to every registered connection,
    /// the sender included, under the sender's name and colour.
    pub fn receive(&mut self, sender: u64, raw: &str) -> (r: Vec<Delivery>)
        requires
            old(self).wf(),
            has_id(old(self).members(), sender),
        ensures
            final(self).wf(),
            (final(self).members(), deliveries_view(r@)) == line_outcome(
                old(self).members(),
                sender,
                raw@,
            ),
    {
        proof {
            lemma_pos_of_id(self.members(), sender);
        }
        let line = trim_text(raw);
        let n = line.unicode_len();
        if n > 1 && line.get_char(0) == '/' {
            let rest = line.substring_char(1, n);
            assert(rest@ =~= line@.drop_first());
            let cmd = lowercase(rest);
            self.run_command(sender, cmd.as_str())
        } else {
            let from = self.profile_of(sender);
            let msg = Message {
                user_name: String::from_str(from.name.as_str()),
                content: String::from_str(line),
                color: from.color,
            };
            self.broadcast(&msg, None)
        }
    }
}

} // verus!
