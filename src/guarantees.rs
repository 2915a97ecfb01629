//! What holds of the relay across calls: who hears a chat line, how names are
//! claimed, where whispers go, and what leaving changes.
use vstd::prelude::*;

use crate::color::color_from_text;
use crate::command::{
    chat_envelope, command_outcome, is_command_line, line_outcome, valid_name,
    whisper_envelope, whispered_envelope, Request,
};
use crate::message::{error_envelope, server_envelope, Envelope};
use crate::registry::{
    broadcast_plan, has_id, held_by_other, ids_distinct, lemma_pos_of_id, lemma_pos_of_name, pos_of_id,
    pos_of_name, Member,
};
use crate::text::trimmed;

verus! {

/// Broadcasting to everyone delivers `env` once to each member, in order.
pub proof fn lemma_broadcast_all(ms: Seq<Member>, env: Envelope)
    ensures
        broadcast_plan(ms, env, None).len() == ms.len(),
        forall|k: int|
            0 <= k < ms.len() ==> #[trigger] broadcast_plan(ms, env, None)[k] == (ms[k].id, env),
    decreases ms.len(),
{
    if ms.len() > 0 {
        lemma_broadcast_all(ms.drop_last(), env);
        assert forall|k: int| 0 <= k < ms.len() implies #[trigger] broadcast_plan(
            ms,
            env,
            None,
        )[k] == (ms[k].id, env) by {
            if k < ms.len() - 1 {
                assert(ms.drop_last()[k] == ms[k]);
            }
        }
    }
}

/// Some member is called `name` exactly when the first one so called exists.
proof fn lemma_name_present(ms: Seq<Member>, name: Seq<char>)
    ensures
        (exists|j: int| 0 <= j < ms.len() && ms[j].name == name) <==> pos_of_name(ms, name)
            < ms.len(),
{
    lemma_pos_of_name(ms, name);
}

/// A chat line reaches every registered connection, the sender included, once each
/// and in the order in which they registered, under the name and colour that the
/// sender has when it speaks; the registry is left as it was.
pub proof fn law_chat_reaches_everyone(ms: Seq<Member>, sender: u64, raw: Seq<char>)
    requires
        ids_distinct(ms),
        has_id(ms, sender),
        !is_command_line(trimmed(raw)),
    ensures
        line_outcome(ms, sender, raw).0 == ms,
        line_outcome(ms, sender, raw).1.len() == ms.len(),
        forall|k: int|
            0 <= k < ms.len() ==> #[trigger] line_outcome(ms, sender, raw).1[k] == (
                ms[k].id,
                Envelope {
                    user_name: ms[pos_of_id(ms, sender)].name,
                    content: trimmed(raw),
                    color: ms[pos_of_id(ms, sender)].color,
                },
            ),
{
    lemma_broadcast_all(ms, chat_envelope(ms, sender, trimmed(raw)));
}

/// Once a connection has taken a valid name that no other connection holds, any
/// other connection that asks for the same name is refused with "Username already
/// exists" and changes nothing.
pub proof fn law_taken_name_refused(ms: Seq<Member>, a: u64, b: u64, name: Seq<char>)
    requires
        ids_distinct(ms),
        has_id(ms, a),
        has_id(ms, b),
        a != b,
        valid_name(name),
        forall|j: int| 0 <= j < ms.len() && ms[j].id != a ==> ms[j].name != name,
    ensures
        command_outcome(ms, a, Request::SetName(name)).1 == seq![
            (a, server_envelope("Set username succesfully"@)),
        ],
        command_outcome(command_outcome(ms, a, Request::SetName(name)).0, b, Request::SetName(name))
            == (
            command_outcome(ms, a, Request::SetName(name)).0,
            seq![(b, error_envelope("Username already exists"@))],
        ),
{
    lemma_pos_of_id(ms, a);
    let after = command_outcome(ms, a, Request::SetName(name)).0;
    let k = pos_of_id(ms, a);
    assert(after[k].name == name && after[k].id == a);
    assert(held_by_other(after, b, name));
}

/// A connection may always take the name it holds already, when it is valid and no
/// other connection holds it; nothing but the reply changes.
pub proof fn law_own_name_kept(ms: Seq<Member>, a: u64)
    requires
        ids_distinct(ms),
        has_id(ms, a),
        valid_name(ms[pos_of_id(ms, a)].name),
        forall|j: int|
            0 <= j < ms.len() && ms[j].id != a ==> ms[j].name != ms[pos_of_id(ms, a)].name,
    ensures
        command_outcome(ms, a, Request::SetName(ms[pos_of_id(ms, a)].name)) == (
            ms,
            seq![(a, server_envelope("Set username succesfully"@))],
        ),
{
    lemma_pos_of_id(ms, a);
    let k = pos_of_id(ms, a);
    assert(ms.update(k, Member { name: ms[k].name, ..ms[k] }) =~= ms);
}

/// After a connection sets a colour that parses, its chat lines carry that colour.
pub proof fn law_color_applies(ms: Seq<Member>, sender: u64, text: Seq<char>, raw: Seq<char>)
    requires
        ids_distinct(ms),
        has_id(ms, sender),
        color_from_text(text) is Some,
        !is_command_line(trimmed(raw)),
    ensures
        forall|k: int|
            0 <= k < ms.len() ==> (#[trigger] line_outcome(
                command_outcome(ms, sender, Request::SetColor(text)).0,
                sender,
                raw,
            ).1[k]).1.color == color_from_text(text)->0,
{
    lemma_pos_of_id(ms, sender);
    let after = command_outcome(ms, sender, Request::SetColor(text)).0;
    assert(after.len() == ms.len());
    assert(ids_distinct(after)) by {
        assert forall|i: int, j: int|
            0 <= i < after.len() && 0 <= j < after.len() && i != j implies after[i].id
            != after[j].id by {
            assert(after[i].id == ms[i].id);
            assert(after[j].id == ms[j].id);
        }
    }
    lemma_pos_of_id(after, sender);
    assert(pos_of_id(after, sender) == pos_of_id(ms, sender)) by {
        let p = pos_of_id(ms, sender);
        let q = pos_of_id(after, sender);
        assert(after[p].id == sender);
        if q < p {
            assert(after[q].id == ms[q].id);
        }
    }
    law_chat_reaches_everyone(after, sender, raw);
}

/// A whisper to a name that nobody has yields only an error, to the sender.
pub proof fn law_whisper_to_nobody(ms: Seq<Member>, sender: u64, to: Seq<char>, msg: Seq<char>)
    requires
        forall|j: int| 0 <= j < ms.len() ==> ms[j].name != to,
    ensures
        command_outcome(ms, sender, Request::Whisper(to, msg)) == (
            ms,
            seq![(sender, error_envelope("No user named: "@ + to))],
        ),
{
    lemma_name_present(ms, to);
}

/// A whisper to a name that some connection has yields exactly two deliveries: the
/// private message to that connection, and the confirmation to the sender.
pub proof fn law_whisper_delivered(ms: Seq<Member>, sender: u64, to: Seq<char>, msg: Seq<char>)
    requires
        has_id(ms, sender),
        exists|j: int| 0 <= j < ms.len() && ms[j].name == to,
    ensures
        exists|j: int|
            0 <= j < ms.len() && ms[j].name == to && command_outcome(
                ms,
                sender,
                Request::Whisper(to, msg),
            ) == (
                ms,
                seq![
                    (ms[j].id, whisper_envelope(ms[pos_of_id(ms, sender)].name, msg)),
                    (sender, whispered_envelope(to, msg)),
                ],
            ),
{
    lemma_name_present(ms, to);
    lemma_pos_of_name(ms, to);
    lemma_pos_of_id(ms, sender);
    let j = pos_of_name(ms, to);
    assert(ms[j].name == to);
    assert(command_outcome(ms, sender, Request::Whisper(to, msg)) == (
        ms,
        seq![
            (ms[j].id, whisper_envelope(ms[pos_of_id(ms, sender)].name, msg)),
            (sender, whispered_envelope(to, msg)),
        ],
    ));
}

/// Once connection `a` has left, a broadcast reaches every remaining connection,
/// once each, and never `a`.
pub proof fn law_broadcast_after_leave(ms: Seq<Member>, a: u64, env: Envelope)
    requires
        ids_distinct(ms),
        has_id(ms, a),
    ensures
        broadcast_plan(ms.remove(pos_of_id(ms, a)), env, None).len() == ms.len() - 1,
        forall|k: int|
            0 <= k < ms.len() - 1 ==> #[trigger] broadcast_plan(
                ms.remove(pos_of_id(ms, a)),
                env,
                None,
            )[k] == (ms.remove(pos_of_id(ms, a))[k].id, env),
        forall|k: int|
            0 <= k < ms.len() - 1 ==> (#[trigger] broadcast_plan(
                ms.remove(pos_of_id(ms, a)),
                env,
                None,
            )[k]).0 != a,
{
    lemma_pos_of_id(ms, a);
    let p = pos_of_id(ms, a);
    let rest = ms.remove(p);
    lemma_broadcast_all(rest, env);
    assert forall|k: int| 0 <= k < ms.len() - 1 implies rest[k].id != a by {
        if k < p {
            assert(rest[k] == ms[k]);
        } else {
            assert(rest[k] == ms[k + 1]);
        }
    }
}

} // verus!
