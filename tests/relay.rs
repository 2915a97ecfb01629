use chat_relay::color::{color_from_display, parse_color, Color};
use chat_relay::command::{parse_command, Command};
use chat_relay::message::{welcome, Delivery, Message, NewUserSet};
use chat_relay::registry::{Profile, Registry};
use chat_relay::text::{split_words, trim_text};

fn profile(name: &str, color: Color) -> Profile {
    Profile { name: name.to_string(), color }
}

fn relay_of(names: &[(u64, &str)]) -> Registry<u32> {
    let mut r: Registry<u32> = Registry::new();
    for (id, name) in names {
        assert!(r.register(*id, profile(name, Color::Green), *id as u32 + 100));
    }
    r
}

fn only(d: &[Delivery]) -> &Message {
    assert_eq!(d.len(), 1);
    &d[0].message
}

#[test]
fn chat_reaches_everyone_including_sender() {
    let mut r = relay_of(&[(1, "ann"), (2, "bob"), (3, "cid")]);
    let d = r.receive(2, "  hello there \n");
    let to: Vec<u64> = d.iter().map(|x| x.to).collect();
    assert_eq!(to, vec![1, 2, 3]);
    for x in &d {
        assert_eq!(x.message.user_name, "bob");
        assert_eq!(x.message.content, "hello there");
        assert_eq!(x.message.color, Color::Green);
    }
}

#[test]
fn second_claim_of_a_name_is_refused() {
    let mut r = relay_of(&[(1, "ann"), (2, "cid")]);
    let first = r.receive(1, "/setname bob");
    assert_eq!(first[0].to, 1);
    assert_eq!(only(&first).user_name, "SERVER");
    assert_eq!(only(&first).content, "Set username succesfully");
    assert_eq!(only(&first).color, Color::Cyan);
    let second = r.receive(2, "/setname bob");
    assert_eq!(second[0].to, 2);
    assert_eq!(only(&second).user_name, "ERROR");
    assert_eq!(only(&second).content, "Username already exists");
    assert_eq!(only(&second).color, Color::Red);
    assert_eq!(r.profile_of(1).name, "bob");
    assert_eq!(r.profile_of(2).name, "cid");
}

#[test]
fn own_name_can_be_taken_again() {
    let mut r = relay_of(&[(1, "ann"), (2, "bob")]);
    let d = r.receive(1, "/setname ann");
    assert_eq!(d[0].to, 1);
    assert_eq!(only(&d).user_name, "SERVER");
    assert_eq!(only(&d).content, "Set username succesfully");
    assert_eq!(r.profile_of(1).name, "ann");
    let d = r.receive(2, "/setname ann");
    assert_eq!(only(&d).content, "Username already exists");
}

#[test]
fn color_text_that_would_split_a_character() {
    let mut r = relay_of(&[(1, "ann"), (2, "bob")]);
    assert_eq!(parse_color("#a\u{e9}bcd"), None);
    let d = r.receive(1, "/setcolor #a\u{e9}bcd");
    assert_eq!(d[0].to, 1);
    assert_eq!(only(&d).content, "Invalid Color: '#a\u{e9}bcd'");
    assert_eq!(r.profile_of(1).color, Color::Green);
    let d = r.receive(2, "still fine");
    assert_eq!(d.len(), 2);
}

#[test]
fn invalid_names_are_refused() {
    let mut r = relay_of(&[(1, "ann")]);
    let long = r.receive(1, "/setname abcdefghijklmno");
    assert_eq!(only(&long).content, "Invalid Username");
    let non_ascii = r.receive(1, "/setname zoë");
    assert_eq!(only(&non_ascii).content, "Invalid Username");
    let fourteen = r.receive(1, "/setname abcdefghijklmn");
    assert_eq!(only(&fourteen).content, "Set username succesfully");
    assert_eq!(r.profile_of(1).name, "abcdefghijklmn");
}

#[test]
fn names_are_lower_cased() {
    let mut r = relay_of(&[(1, "ann")]);
    let d = r.receive(1, "/SetName BOB");
    assert_eq!(only(&d).content, "Set username succesfully");
    assert_eq!(r.profile_of(1).name, "bob");
}

#[test]
fn unknown_color_is_refused() {
    let mut r = relay_of(&[(1, "ann")]);
    let d = r.receive(1, "/setcolor purple");
    assert_eq!(d[0].to, 1);
    assert_eq!(only(&d).user_name, "ERROR");
    assert_eq!(only(&d).content, "Invalid Color: 'purple'");
    assert_eq!(r.profile_of(1).color, Color::Green);
}

#[test]
fn color_change_shows_in_later_chat() {
    let mut r = relay_of(&[(1, "ann"), (2, "bob")]);
    let d = r.receive(1, "/setcolor Blue");
    assert_eq!(d[0].to, 1);
    assert_eq!(only(&d).user_name, "SERVER");
    assert_eq!(only(&d).content, "Set Color to Blue succesfully!");
    let chat = r.receive(1, "hi");
    assert_eq!(chat.len(), 2);
    assert!(chat.iter().all(|x| x.message.color == Color::Blue));
}

#[test]
fn color_forms_of_the_terminal_library() {
    let mut r = relay_of(&[(1, "ann")]);
    let d = r.receive(1, "/setcolor #ff0000");
    assert_eq!(only(&d).content, "Set Color to Rgb(255, 0, 0) succesfully!");
    assert_eq!(r.profile_of(1).color, Color::Rgb(255, 0, 0));
    let d = r.receive(1, "/setcolor 10");
    assert_eq!(only(&d).content, "Set Color to Indexed(10) succesfully!");
    let d = r.receive(1, "/setcolor light-blue");
    assert_eq!(only(&d).content, "Set Color to LightBlue succesfully!");
    let d = r.receive(1, "/setcolor ");
    assert_eq!(only(&d).content, "Invalid Command");
    let d = r.run_command(1, "setcolor ");
    assert_eq!(only(&d).content, "Invalid Color: ''");
}

#[test]
fn whisper_to_nobody_is_an_error() {
    let mut r = relay_of(&[(1, "ann"), (2, "cid")]);
    let d = r.receive(1, "/whisper bob hello");
    assert_eq!(d[0].to, 1);
    assert_eq!(only(&d).user_name, "ERROR");
    assert_eq!(only(&d).content, "No user named: bob");
}

#[test]
fn whisper_reaches_only_its_target() {
    let mut r = relay_of(&[(1, "ann"), (2, "bob"), (3, "cid")]);
    let d = r.receive(1, "/whisper bob hello");
    assert_eq!(d.len(), 2);
    assert_eq!(d[0].to, 2);
    assert_eq!(d[0].message.user_name, "Whisper from 'ann'");
    assert_eq!(d[0].message.content, "hello");
    assert_eq!(d[0].message.color, Color::Magenta);
    assert_eq!(d[1].to, 1);
    assert_eq!(d[1].message.user_name, "Whispered to 'bob' message");
    assert_eq!(d[1].message.content, "hello");
    assert_eq!(d[1].message.color, Color::Magenta);
}

#[test]
fn whisper_aliases_and_long_bodies() {
    let mut r = relay_of(&[(1, "ann"), (2, "bob")]);
    let d = r.receive(2, "/w ann see you  later");
    assert_eq!(d[0].to, 1);
    assert_eq!(d[0].message.content, "see you  later");
    let d = r.receive(2, "/msg ann x");
    assert_eq!(d[0].to, 1);
    let d = r.receive(2, "/whisper ann");
    assert_eq!(only(&d).content, "Invalid Command");
}

#[test]
fn unknown_command_is_refused() {
    let mut r = relay_of(&[(1, "ann"), (2, "bob")]);
    let d = r.receive(1, "/dance now");
    assert_eq!(d[0].to, 1);
    assert_eq!(only(&d).content, "Invalid Command");
    let d = r.receive(1, "/setcolor red extra");
    assert_eq!(only(&d).content, "Invalid Command");
}

#[test]
fn leaving_connection_gets_no_more_broadcasts() {
    let mut r = relay_of(&[(1, "ann"), (2, "bob"), (3, "cid")]);
    r.deregister(1);
    assert!(!r.contains(1));
    assert!(r.handle_of(1).is_none());
    let d = r.receive(2, "still here");
    let to: Vec<u64> = d.iter().map(|x| x.to).collect();
    assert_eq!(to, vec![2, 3]);
    r.deregister(1);
    assert_eq!(r.len(), 2);
}

#[test]
fn lone_slash_is_chat() {
    let mut r = relay_of(&[(1, "ann"), (2, "bob")]);
    let d = r.receive(1, "/");
    assert_eq!(d.len(), 2);
    assert!(d.iter().all(|x| x.message.content == "/" && x.message.user_name == "ann"));
}

#[test]
fn registering_an_identity_twice_is_refused() {
    let mut r = relay_of(&[(1, "ann")]);
    assert!(!r.register(1, profile("eve", Color::Red), 7));
    assert_eq!(r.len(), 1);
    assert_eq!(r.profile_of(1).name, "ann");
    assert_eq!(r.handle_of(1), Some(&101));
}

#[test]
fn broadcast_can_exclude_one() {
    let r = relay_of(&[(1, "ann"), (2, "bob"), (3, "cid")]);
    let d = r.broadcast(&Message::server("x"), Some(2));
    let to: Vec<u64> = d.iter().map(|x| x.to).collect();
    assert_eq!(to, vec![1, 3]);
    assert_eq!(r.find_by_name("cid"), 2);
    assert_eq!(r.find_by_name("dan"), 3);
    assert!(r.user_name_exists("bob"));
}

#[test]
fn relay_messages() {
    let e = Message::error("oops");
    assert_eq!((e.user_name.as_str(), e.content.as_str(), e.color), ("ERROR", "oops", Color::Red));
    let s = Message::server("ok");
    assert_eq!((s.user_name.as_str(), s.content.as_str(), s.color), ("SERVER", "ok", Color::Cyan));
    let w = welcome("bob");
    assert_eq!(w.user_name, "SERVER");
    assert_eq!(w.content, "connected succesfully as 'bob'");
}

#[test]
fn display_text_of_colors() {
    assert_eq!(color_from_display("DarkGray"), Some(Color::DarkGray));
    assert_eq!(color_from_display("#0A0B0C"), Some(Color::Rgb(10, 11, 12)));
    assert_eq!(color_from_display("#0a0b0c"), None);
    assert_eq!(color_from_display("255"), Some(Color::Indexed(255)));
    assert_eq!(color_from_display("256"), None);
    assert_eq!(color_from_display("007"), None);
    assert_eq!(color_from_display("0"), Some(Color::Indexed(0)));
    assert_eq!(color_from_display("purple"), None);
}

#[test]
fn color_names_parse() {
    assert_eq!(parse_color("Bright White"), Some(Color::White));
    assert_eq!(parse_color("grey"), Some(Color::Gray));
    assert_eq!(parse_color("blue"), Some(Color::Blue));
    assert_eq!(parse_color("purple"), None);
    assert_eq!(Color::Rgb(1, 20, 255).debug_label(), "Rgb(1, 20, 255)");
    assert_eq!(Color::Indexed(7).debug_label(), "Indexed(7)");
    assert_eq!(Color::LightMagenta.debug_label(), "LightMagenta");
}

#[test]
fn text_helpers() {
    assert_eq!(trim_text("\t a b \u{3000}"), "a b");
    assert_eq!(trim_text("   "), "");
    assert_eq!(split_words("w bob hi there"), vec!["w", "bob", "hi there"]);
    assert_eq!(split_words("setname "), vec!["setname", ""]);
    assert_eq!(split_words("x"), vec!["x"]);
    assert!(matches!(parse_command("setname bob"), Command::SetName(n) if n == "bob"));
    assert!(matches!(parse_command("setname"), Command::Invalid));
}

#[test]
fn join_registers_and_greets_only_the_newcomer() {
    let mut r = relay_of(&[(1, "ann")]);
    let user = NewUserSet { user_name: "bob".to_string(), color: Color::Yellow };
    let d = r.join(2, user, 102).expect("a new identity joins");
    assert_eq!(d.to, 2);
    assert_eq!(d.message.user_name, "SERVER");
    assert_eq!(d.message.content, "connected succesfully as 'bob'");
    assert_eq!(d.message.color, Color::Cyan);
    assert_eq!(r.profile_of(2).color, Color::Yellow);
    let again = NewUserSet { user_name: "eve".to_string(), color: Color::Red };
    assert!(r.join(2, again, 7).is_none());
    assert_eq!(r.profile_of(2).name, "bob");
}

#[test]
fn display_text_reads_back() {
    let all = [
        (ratatui::style::Color::Reset, Color::Reset),
        (ratatui::style::Color::DarkGray, Color::DarkGray),
        (ratatui::style::Color::LightCyan, Color::LightCyan),
        (ratatui::style::Color::Rgb(1, 171, 255), Color::Rgb(1, 171, 255)),
        (ratatui::style::Color::Indexed(42), Color::Indexed(42)),
        (ratatui::style::Color::Indexed(200), Color::Indexed(200)),
    ];
    for (theirs, ours) in all {
        assert_eq!(color_from_display(&theirs.to_string()), Some(ours));
    }
}

#[test]
fn handlers_take_their_arguments_as_given() {
    let mut r = relay_of(&[(1, "ann"), (2, "bob")]);
    let d = r.handle_change_username(1, "Ann B".to_string());
    assert_eq!(only(&d).content, "Set username succesfully");
    assert_eq!(r.profile_of(1).name, "Ann B");
    let d = r.handle_whisper(2, "Ann B", "Hi There");
    assert_eq!(d[0].to, 1);
    assert_eq!(d[0].message.content, "Hi There");
    assert_eq!(d[1].message.user_name, "Whispered to 'Ann B' message");
    let d = r.handle_new_color(2, "Light Red");
    assert_eq!(only(&d).content, "Set Color to LightRed succesfully!");
    assert_eq!(r.profile_of(2).color, Color::LightRed);
}
