//! The table of registered connections: who they are, what they are called, and
//! where their outgoing messages go.
use vstd::prelude::*;
use vstd::string::*;

use crate::color::Color;
use crate::message::{
    deliveries_view, welcome, welcome_envelope, Delivery, Envelope, Message, NewUserSet,
};
use crate::text::same_text;

verus! {

/// A connection's display name and colour.
pub struct Profile {
    pub name: String,
    pub color: Color,
}

/// What the registry knows of one connection.
pub struct Member {
    pub id: u64,
    pub name: Seq<char>,
    pub color: Color,
}

/// A registered connection with the handle that its outgoing messages go to.
pub struct Entry<H> {
    pub id: u64,
    pub profile: Profile,
    pub handle: H,
}

/// The registered connections, in the order in which they registered. No two share
/// an identity (`wf`), so this is a map from identity to entry; keeping it as a list
/// fixes the order of a broadcast's deliveries and which connection a name lookup
/// finds first.
pub struct Registry<H> {
    entries: Vec<Entry<H>>,
}

pub open spec fn member_of<H>(e: Entry<H>) -> Member {
    Member { id: e.id, name: e.profile.name@, color: e.profile.color }
}

/// No two members share an identity.
pub open spec fn ids_distinct(ms: Seq<Member>) -> bool {
    forall|i: int, j: int| 0 <= i < ms.len() && 0 <= j < ms.len() && i != j ==> ms[i].id != ms[j].id
}

/// Index of the member with identity `id`, or the length where there is none.
pub open spec fn pos_of_id(ms: Seq<Member>, id: u64) -> int
    decreases ms.len(),
{
    if ms.len() == 0 {
        0
    } else if ms[0].id == id {
        0
    } else {
        1 + pos_of_id(ms.drop_first(), id)
    }
}

/// Index of the first member called `name`, or the length where there is none.
pub open spec fn pos_of_name(ms: Seq<Member>, name: Seq<char>) -> int
    decreases ms.len(),
{
    if ms.len() == 0 {
        0
    } else if ms[0].name == name {
        0
    } else {
        1 + pos_of_name(ms.drop_first(), name)
    }
}

/// Some member other than `id` is called `name`.
pub open spec fn held_by_other(ms: Seq<Member>, id: u64, name: Seq<char>) -> bool {
    exists|j: int| 0 <= j < ms.len() && ms[j].id != id && ms[j].name == name
}

/// `id` is registered.
pub open spec fn has_id(ms: Seq<Member>, id: u64) -> bool {
    exists|k: int| 0 <= k < ms.len() && ms[k].id == id
}

/// The deliveries of `env` to every member but the excluded one, in order.
pub open spec fn broadcast_plan(ms: Seq<Member>, env: Envelope, exclude: Option<u64>) -> Seq<
    (u64, Envelope),
>
    decreases ms.len(),
{
    if ms.len() == 0 {
        Seq::empty()
    } else {
        let rest = broadcast_plan(ms.drop_last(), env, exclude);
        if exclude == Some(ms.last().id) {
            rest
        } else {
            rest.push((ms.last().id, env))
        }
    }
}

pub proof fn lemma_pos_of_id(ms: Seq<Member>, id: u64)
    ensures
        0 <= pos_of_id(ms, id) <= ms.len(),
        pos_of_id(ms, id) < ms.len() ==> ms[pos_of_id(ms, id)].id == id,
        forall|k: int| 0 <= k < pos_of_id(ms, id) ==> ms[k].id != id,
        has_id(ms, id) <==> pos_of_id(ms, id) < ms.len(),
    decreases ms.len(),
{
    if ms.len() > 0 && ms[0].id != id {
        lemma_pos_of_id(ms.drop_first(), id);
        assert forall|k: int| 0 <= k < pos_of_id(ms, id) implies ms[k].id != id by {
            if k > 0 {
                assert(ms[k] == ms.drop_first()[k - 1]);
            }
        }
        if has_id(ms, id) {
            let k = choose|k: int| 0 <= k < ms.len() && ms[k].id == id;
            assert(ms.drop_first()[k - 1].id == id);
        }
    }
}

pub proof fn lemma_pos_of_name(ms: Seq<Member>, name: Seq<char>)
    ensures
        0 <= pos_of_name(ms, name) <= ms.len(),
        pos_of_name(ms, name) < ms.len() ==> ms[pos_of_name(ms, name)].name == name,
        forall|k: int| 0 <= k < pos_of_name(ms, name) ==> ms[k].name != name,
    decreases ms.len(),
{
    if ms.len() > 0 && ms[0].name != name {
        lemma_pos_of_name(ms.drop_first(), name);
        assert forall|k: int| 0 <= k < pos_of_name(ms, name) implies ms[k].name != name by {
            if k > 0 {
                assert(ms[k] == ms.drop_first()[k - 1]);
            }
        }
    }
}

impl<H> Registry<H> {
    /// The registered connections, in order.
    pub closed spec fn members(&self) -> Seq<Member> {
        self.entries@.map_values(|e: Entry<H>| member_of(e))
    }

    pub open spec fn wf(&self) -> bool {
        ids_distinct(self.members())
    }

    /// The handle registered for `id`, as a ghost value.
    pub closed spec fn handle_spec(&self, id: u64) -> H {
        self.entries@[pos_of_id(self.members(), id)].handle
    }

    /// An empty registry.
    pub fn new() -> (r: Registry<H>)
        ensures
            r.wf(),
            r.members() == Seq::<Member>::empty(),
    {
        let r = Registry { entries: Vec::new() };
        assert(r.members() =~= Seq::<Member>::empty());
        r
    }

    /// How many connections are registered.
    pub fn len(&self) -> (r: usize)
        ensures
            r == self.members().len(),
    {
        self.entries.len()
    }

    /// Position of `id` among the registered connections, or their number.
    pub fn position_of(&self, id: u64) -> (r: usize)
        ensures
            r as int == pos_of_id(self.members(), id),
    {
        proof {
            lemma_pos_of_id(self.members(), id);
        }
        let n = self.entries.len();
        let mut i: usize = 0;
        while i < n
            invariant
                n == self.entries@.len(),
                i <= n,
                forall|k: int| 0 <= k < i ==> self.members()[k].id != id,
                0 <= pos_of_id(self.members(), id) <= n,
                pos_of_id(self.members(), id) < n ==> self.members()[pos_of_id(
                    self.members(),
                    id,
                )].id == id,
                forall|k: int| 0 <= k < pos_of_id(self.members(), id) ==> self.members()[k].id != id,
            decreases n - i,
        {
            assert(self.members()[i as int] == member_of(self.entries@[i as int]));
            if self.entries[i].id == id {
                return i;
            }
            i = i + 1;
        }
        i
    }

    /// The identity of the connection at position `k`.
    pub fn id_at(&self, k: usize) -> (r: u64)
        requires
            k < self.members().len(),
        ensures
            r == self.members()[k as int].id,
    {
        self.entries[k].id
    }

    /// Whether `id` is registered.
    pub fn contains(&self, id: u64) -> (r: bool)
        ensures
            r == has_id(self.members(), id),
    {
        proof {
            lemma_pos_of_id(self.members(), id);
        }
        self.position_of(id) < self.entries.len()
    }

    /// The handle of connection `id`, if it is registered.
    pub fn handle_of(&self, id: u64) -> (r: Option<&H>)
        ensures
            (r is Some) == has_id(self.members(), id),
            r matches Some(h) ==> *h == self.handle_spec(id),
    {
        proof {
            lemma_pos_of_id(self.members(), id);
        }
        let k = self.position_of(id);
        if k < self.entries.len() {
            Some(&self.entries[k].handle)
        } else {
            None
        }
    }

    /// Adds connection `id`; refused, with nothing changed, where `id` is registered
    /// already.
    pub fn register(&mut self, id: u64, profile: Profile, handle: H) -> (r: bool)
        requires
            old(self).wf(),
        ensures
            final(self).wf(),
            r == !has_id(old(self).members(), id),
            r ==> final(self).members() == old(self).members().push(
                Member { id, name: profile.name@, color: profile.color },
            ),
            !r ==> final(self).members() == old(self).members(),
    {
        if self.contains(id) {
            return false;
        }
        let ghost before = self.members();
        self.entries.push(Entry { id, profile, handle });
        assert(self.members() =~= before.push(member_of(self.entries@.last())));
        true
    }

    /// Completes the handshake of connection `id`: registers it under the name and
    /// colour it announced and greets it, alone. Refused, with nothing changed, where
    /// `id` is registered already.
    pub fn join(&mut self, id: u64, user: NewUserSet, handle: H) -> (r: Option<Delivery>)
        requires
            old(self).wf(),
        ensures
            final(self).wf(),
            (r is Some) == !has_id(old(self).members(), id),
            r is Some ==> final(self).members() == old(self).members().push(
                Member { id, name: user.user_name@, color: user.color },
            ),
            r matches Some(d) ==> d@ == (id, welcome_envelope(user.user_name@)),
            r is None ==> final(self).members() == old(self).members(),
    {
        let greeting = welcome(user.user_name.as_str());
        if self.register(id, Profile { name: user.user_name, color: user.color }, handle) {
            Some(Delivery { to: id, message: greeting })
        } else {
            None
        }
    }

    /// Removes connection `id`, where it is registered; otherwise nothing changes.
    pub fn deregister(&mut self, id: u64)
        requires
            old(self).wf(),
        ensures
            final(self).wf(),
            has_id(old(self).members(), id) ==> final(self).members() == old(
                self,
            ).members().remove(pos_of_id(old(self).members(), id)),
            !has_id(old(self).members(), id) ==> final(self).members() == old(self).members(),
            !has_id(final(self).members(), id),
    {
        proof {
            lemma_pos_of_id(self.members(), id);
        }
        let k = self.position_of(id);
        if k < self.entries.len() {
            let ghost before = self.members();
            let _gone = self.entries.remove(k);
            assert(self.members() =~= before.remove(k as int));
            assert(!has_id(self.members(), id)) by {
                if has_id(self.members(), id) {
                    let j = choose|j: int| 0 <= j < self.members().len() && self.members()[j].id == id;
                    if j < k {
                        assert(before[j].id == id);
                    } else {
                        assert(before[j + 1].id == id);
                    }
                }
            }
        }
    }

    /// Position of the first connection called `name`, or their number.
    pub fn find_by_name(&self, name: &str) -> (r: usize)
        ensures
            r as int == pos_of_name(self.members(), name@),
    {
        proof {
            lemma_pos_of_name(self.members(), name@);
        }
        let n = self.entries.len();
        let mut i: usize = 0;
        while i < n
            invariant
                n == self.entries@.len(),
                i <= n,
                forall|k: int| 0 <= k < i ==> self.members()[k].name != name@,
                0 <= pos_of_name(self.members(), name@) <= n,
                pos_of_name(self.members(), name@) < n ==> self.members()[pos_of_name(
                    self.members(),
                    name@,
                )].name == name@,
                forall|k: int|
                    0 <= k < pos_of_name(self.members(), name@) ==> self.members()[k].name
                        != name@,
            decreases n - i,
        {
            assert(self.members()[i as int] == member_of(self.entries@[i as int]));
            if same_text(self.entries[i].profile.name.as_str(), name) {
                return i;
            }
            i = i + 1;
        }
        i
    }

    /// Whether some connection is called `name`.
    pub fn user_name_exists(&self, name: &str) -> (r: bool)
        ensures
            r == (pos_of_name(self.members(), name@) < self.members().len()),
    {
        self.find_by_name(name) < self.entries.len()
    }

    /// Whether a connection other than `id` is called `name`.
    pub fn name_held_by_other(&self, id: u64, name: &str) -> (r: bool)
        ensures
            r == held_by_other(self.members(), id, name@),
    {
        let n = self.entries.len();
        let mut i: usize = 0;
        while i < n
            invariant
                n == self.entries@.len(),
                i <= n,
                forall|k: int|
                    0 <= k < i ==> !(self.members()[k].id != id && self.members()[k].name
                        == name@),
            decreases n - i,
        {
            assert(self.members()[i as int] == member_of(self.entries@[i as int]));
            if self.entries[i].id != id && same_text(self.entries[i].profile.name.as_str(), name) {
                return true;
            }
            i = i + 1;
        }
        false
    }

    /// The deliveries of `msg` to every registered connection but `exclude`, in the
    /// order in which they registered.
    pub fn broadcast(&self, msg: &Message, exclude: Option<u64>) -> (r: Vec<Delivery>)
        ensures
            deliveries_view(r@) == broadcast_plan(self.members(), msg@, exclude),
    {
        let n = self.entries.len();
        let mut out: Vec<Delivery> = Vec::new();
        let mut i: usize = 0;
        assert(self.members().take(0) =~= Seq::<Member>::empty());
        assert(deliveries_view(out@) =~= Seq::<(u64, Envelope)>::empty());
        while i < n
            invariant
                n == self.entries@.len(),
                i <= n,
                deliveries_view(out@) == broadcast_plan(
                    self.members().take(i as int),
                    msg@,
                    exclude,
                ),
            decreases n - i,
        {
            let id = self.entries[i].id;
            let ghost before = out@;
            assert(self.members().take(i + 1).drop_last() =~= self.members().take(i as int));
            let skip = match exclude {
                Some(x) => x == id,
                None => false,
            };
            if !skip {
                out.push(Delivery { to: id, message: msg.duplicate() });
                assert(deliveries_view(out@) =~= deliveries_view(before).push((id, msg@)));
            }
            i = i + 1;
        }
        assert(self.members().take(n as int) =~= self.members());
        out
    }

    /// Sets the colour of connection `id`.
    pub fn set_color(&mut self, id: u64, color: Color)
        requires
            old(self).wf(),
            has_id(old(self).members(), id),
        ensures
            final(self).wf(),
            final(self).members() == old(self).members().update(
                pos_of_id(old(self).members(), id),
                Member { color, ..old(self).members()[pos_of_id(old(self).members(), id)] },
            ),
    {
        proof {
            lemma_pos_of_id(self.members(), id);
        }
        let k = self.position_of(id);
        let ghost before = self.members();
        let mut e = self.entries.remove(k);
        e.profile.color = color;
        self.entries.insert(k, e);
        assert(self.members() =~= before.update(k as int, Member { color, ..before[k as int] }));
    }

    /// Sets the display name of connection `id`.
    pub fn set_name(&mut self, id: u64, name: String)
        requires
            old(self).wf(),
            has_id(old(self).members(), id),
        ensures
            final(self).wf(),
            final(self).members() == old(self).members().update(
                pos_of_id(old(self).members(), id),
                Member { name: name@, ..old(self).members()[pos_of_id(old(self).members(), id)] },
            ),
    {
        proof {
            lemma_pos_of_id(self.members(), id);
        }
        let k = self.position_of(id);
        let ghost before = self.members();
        let ghost new_name = name@;
        let mut e = self.entries.remove(k);
        e.profile.name = name;
        self.entries.insert(k, e);
        assert(self.members() =~= before.update(
            k as int,
            Member { name: new_name, ..before[k as int] },
        ));
    }

    /// The profile of connection `id`.
    pub fn profile_of(&self, id: u64) -> (r: &Profile)
        requires
            has_id(self.members(), id),
        ensures
            r.name@ == self.members()[pos_of_id(self.members(), id)].name,
            r.color == self.members()[pos_of_id(self.members(), id)].color,
    {
        proof {
            lemma_pos_of_id(self.members(), id);
        }
        let k = self.position_of(id);
        &self.entries[k].profile
    }
}

} // verus!
