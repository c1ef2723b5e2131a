//! Users keyed by network address, and the messages they sent, kept in the
//! order in which they were stored.
use vstd::prelude::*;
use crate::envelope::strings_view;

verus! {

/// A registered user; its key is its position in the store plus one.
pub struct User {
    pub ipaddress: String,
    pub username: String,
}

/// A stored message and the key of the user who sent it.
pub struct Message {
    pub message: String,
    pub timestamp: u64,
    pub read: bool,
    pub user: i64,
}

/// Why a store operation did nothing.
#[derive(Debug, Clone, Copy, PartialEq, Eq, Structural)]
pub enum StoreError {
    /// The address already has a user.
    DuplicateAddress,
    /// No user has the given key.
    UnknownUser,
    /// Every key that a user can have is taken.
    Full,
}

pub ghost struct UserModel {
    pub address: Seq<char>,
    pub name: Seq<char>,
}

pub ghost struct MessageModel {
    pub body: Seq<char>,
    pub created_at: u64,
    pub owner: int,
}

pub ghost struct StoreModel {
    pub users: Seq<UserModel>,
    pub messages: Seq<MessageModel>,
}

/// Users, then messages. Keys run from 1 up.
pub struct ChatStore {
    users: Vec<User>,
    messages: Vec<Message>,
}

impl View for ChatStore {
    type V = StoreModel;

    closed spec fn view(&self) -> StoreModel {
        StoreModel {
            users: self.users@.map_values(|u: User| UserModel { address: u.ipaddress@, name: u.username@ }),
            messages: self.messages@.map_values(
                |m: Message| MessageModel { body: m.message@, created_at: m.timestamp, owner: m.user as int },
            ),
        }
    }
}

/// The key of the user registered under `a`, if any.
pub open spec fn find_spec(users: Seq<UserModel>, a: Seq<char>) -> Option<int>
    decreases users.len(),
{
    if users.len() == 0 {
        None
    } else if users.last().address == a {
        Some(users.len() as int)
    } else {
        find_spec(users.drop_last(), a)
    }
}

pub open spec fn valid_key(s: StoreModel, k: int) -> bool {
    1 <= k <= s.users.len()
}

/// Addresses are unique, keys fit in an `i64`, and each message belongs to
/// a user.
pub open spec fn store_wf(s: StoreModel) -> bool {
    &&& s.users.len() < i64::MAX
    &&& forall|i: int, j: int|
        0 <= i < j < s.users.len() ==> #[trigger] s.users[i].address != #[trigger] s.users[j].address
    &&& forall|i: int| 0 <= i < s.messages.len() ==> valid_key(s, #[trigger] s.messages[i].owner)
}

/// The display name made of the given parts, written one after another.
pub open spec fn concat_all(parts: Seq<Seq<char>>) -> Seq<char>
    decreases parts.len(),
{
    if parts.len() == 0 {
        Seq::empty()
    } else {
        concat_all(parts.drop_last()) + parts.last()
    }
}

pub open spec fn with_user(s: StoreModel, a: Seq<char>, name: Seq<char>) -> StoreModel {
    StoreModel { users: s.users.push(UserModel { address: a, name }), messages: s.messages }
}

pub open spec fn sent_by(key: int, bodies: Seq<Seq<char>>, now: u64) -> Seq<MessageModel> {
    bodies.map_values(|b: Seq<char>| MessageModel { body: b, created_at: now, owner: key })
}

pub open spec fn with_messages(s: StoreModel, key: int, bodies: Seq<Seq<char>>, now: u64) -> StoreModel {
    StoreModel { users: s.users, messages: s.messages + sent_by(key, bodies, now) }
}

pub open spec fn name_sep() -> Seq<char> {
    seq![':', ' ']
}

/// One line of the transcript: the sender's display name, then the body.
pub open spec fn line_of(s: StoreModel, m: MessageModel) -> Seq<char> {
    s.users[m.owner - 1].name + name_sep() + m.body
}

pub open spec fn lines(s: StoreModel) -> Seq<Seq<char>> {
    s.messages.map_values(|m: MessageModel| line_of(s, m))
}

pub open spec fn join_lines(ls: Seq<Seq<char>>) -> Seq<char>
    decreases ls.len(),
{
    if ls.len() == 0 {
        Seq::empty()
    } else if ls.len() == 1 {
        ls[0]
    } else {
        join_lines(ls.drop_last()) + seq!['\n'] + ls.last()
    }
}

/// Every message with its sender's name, in the order stored, one per line.
pub open spec fn transcript(s: StoreModel) -> Seq<char> {
    join_lines(lines(s))
}

impl ChatStore {
    pub open spec fn wf(&self) -> bool {
        store_wf(self@)
    }

    pub fn new() -> (r: Self)
        ensures
            r.wf(),
            r@.users.len() == 0,
            r@.messages.len() == 0,
    {
        let r = ChatStore { users: Vec::new(), messages: Vec::new() };
        proof {
            assert(r@.users =~= Seq::<UserModel>::empty());
            assert(r@.messages =~= Seq::<MessageModel>::empty());
        }
        r
    }

    /// The key of the user registered under `ipaddress`; `None` when there is
    /// none, which is an ordinary outcome.
    pub fn find_user(&self, ipaddress: &String) -> (r: Option<i64>)
        requires
            self.wf(),
        ensures
            match r {
                Some(k) => find_spec(self@.users, ipaddress@) == Some(k as int),
                None => find_spec(self@.users, ipaddress@) is None,
            },
    {
        let ghost us = self@.users;
        let mut i: usize = self.users.len();
        proof {
            assert(us =~= us.take(us.len() as int));
        }
        while i > 0
            invariant
                i <= self.users@.len(),
                us == self@.users,
                self.wf(),
                find_spec(us, ipaddress@) == find_spec(us.take(i as int), ipaddress@),
            decreases i,
        {
            proof {
                assert(us.take(i as int).drop_last() =~= us.take(i as int - 1));
            }
            if self.users[i - 1].ipaddress == *ipaddress {
                return Some(i as i64);
            }
            i -= 1;
        }
        None
    }

    pub fn user_count(&self) -> (r: usize)
        ensures
            r == self@.users.len(),
    {
        self.users.len()
    }

    pub fn message_count(&self) -> (r: usize)
        ensures
            r == self@.messages.len(),
    {
        self.messages.len()
    }

    /// The address and display name of the user at position `i`, whose key
    /// is `i + 1`.
    pub fn user_at(&self, i: usize) -> (r: (String, String))
        requires
            i < self@.users.len(),
        ensures
            r.0@ == self@.users[i as int].address,
            r.1@ == self@.users[i as int].name,
    {
        (self.users[i].ipaddress.clone(), self.users[i].username.clone())
    }

    /// The body, time and sender's key of the message at position `i`.
    pub fn message_at(&self, i: usize) -> (r: (String, u64, i64))
        requires
            i < self@.messages.len(),
        ensures
            r.0@ == self@.messages[i as int].body,
            r.1 == self@.messages[i as int].created_at,
            r.2 as int == self@.messages[i as int].owner,
    {
        let m = &self.messages[i];
        (m.message.clone(), m.timestamp, m.user)
    }

    /// Registers a user under `ipaddress`, named by the parts of `username`
    /// written one after another, and returns that name. An address that
    /// already has a user is refused: callers look it up first.
    pub fn create_user(&mut self, ipaddress: String, username: &Vec<String>) -> (r: Result<String, StoreError>)
        requires
            old(self).wf(),
        ensures
            final(self).wf(),
            find_spec(old(self)@.users, ipaddress@) is Some ==> r == Err::<String, StoreError>(
                StoreError::DuplicateAddress,
            ) && final(self)@ == old(self)@,
            find_spec(old(self)@.users, ipaddress@) is None && old(self)@.users.len() + 1 < i64::MAX
                ==> r is Ok && r->Ok_0@ == concat_all(strings_view(username@)) && final(self)@ == with_user(
                old(self)@,
                ipaddress@,
                concat_all(strings_view(username@)),
            ),
            find_spec(old(self)@.users, ipaddress@) is None && old(self)@.users.len() + 1 >= i64::MAX
                ==> r == Err::<String, StoreError>(StoreError::Full) && final(self)@ == old(self)@,
    {
        if self.find_user(&ipaddress).is_some() {
            return Err(StoreError::DuplicateAddress);
        }
        if self.users.len() as u64 >= (i64::MAX - 1) as u64 {
            return Err(StoreError::Full);
        }
        let mut name = String::new();
        let mut i: usize = 0;
        while i < username.len()
            invariant
                i <= username@.len(),
                name@ == concat_all(strings_view(username@.take(i as int))),
            decreases username@.len() - i,
        {
            name.append(username[i].as_str());
            proof {
                let t = strings_view(username@.take(i as int + 1));
                assert(t.drop_last() =~= strings_view(username@.take(i as int)));
                assert(t.last() == username@[i as int]@);
            }
            i += 1;
        }
        proof {
            assert(username@.take(username@.len() as int) =~= username@);
            lemma_find_spec(old(self)@.users, ipaddress@);
        }
        self.users.push(User { ipaddress, username: name.clone() });
        proof {
            let a = final(self)@.users.last().address;
            assert(final(self)@.users =~= old(self)@.users.push(final(self)@.users.last()));
            assert(final(self)@.messages =~= old(self)@.messages);
        }
        Ok(name)
    }

    /// Stores each of `messages` as sent by the user with key `user_pk` at
    /// time `now`, in the given order.
    pub fn write_new_messages_to_db(&mut self, messages: &Vec<String>, user_pk: i64, now: u64) -> (r: Result<(), StoreError>)
        requires
            old(self).wf(),
        ensures
            final(self).wf(),
            valid_key(old(self)@, user_pk as int) ==> r is Ok && final(self)@ == with_messages(
                old(self)@,
                user_pk as int,
                strings_view(messages@),
                now,
            ),
            !valid_key(old(self)@, user_pk as int) ==> r == Err::<(), StoreError>(StoreError::UnknownUser)
                && final(self)@ == old(self)@,
    {
        if user_pk < 1 || user_pk as u64 > self.users.len() as u64 {
            return Err(StoreError::UnknownUser);
        }
        let ghost start = self@;
        let mut i: usize = 0;
        proof {
            assert(self@ =~= with_messages(start, user_pk as int, strings_view(messages@.take(0)), now));
        }
        while i < messages.len()
            invariant
                i <= messages@.len(),
                valid_key(start, user_pk as int),
                store_wf(start),
                self@ == with_messages(start, user_pk as int, strings_view(messages@.take(i as int)), now),
                self.wf(),
            decreases messages@.len() - i,
        {
            let ghost before = self@;
            let body = messages[i].clone();
            self.messages.push(Message { message: body, timestamp: now, read: false, user: user_pk });
            proof {
                assert(messages@.take(i as int + 1) =~= messages@.take(i as int).push(messages@[i as int]));
                assert(self@.users =~= before.users);
                assert(self@.messages =~= before.messages.push(
                    MessageModel { body: messages@[i as int]@, created_at: now, owner: user_pk as int },
                ));
                let sv = strings_view(messages@.take(i as int + 1));
                let pv = strings_view(messages@.take(i as int));
                assert(sv =~= pv.push(messages@[i as int]@));
                assert(sent_by(user_pk as int, sv, now) =~= sent_by(user_pk as int, pv, now).push(
                    MessageModel { body: messages@[i as int]@, created_at: now, owner: user_pk as int },
                ));
                assert(self@ =~= with_messages(start, user_pk as int, sv, now));
            }
            i += 1;
        }
        proof {
            assert(messages@.take(messages@.len() as int) =~= messages@);
        }
        Ok(())
    }

    /// The transcript: each message as `name: body`, in the order stored,
    /// joined by line breaks; empty when there are no messages.
    pub fn read_message_from_db(&self) -> (r: String)
        requires
            self.wf(),
        ensures
            r@ == transcript(self@),
    {
        let ghost ls = lines(self@);
        let sep = String::from_str(": ");
        let newline = String::from_str("\n");
        proof {
            reveal_strlit(": ");
            reveal_strlit("\n");
            assert(sep@ =~= name_sep());
            assert(newline@ =~= seq!['\n']);
        }
        let mut out = String::new();
        let mut i: usize = 0;
        proof {
            assert(ls.take(0) =~= Seq::<Seq<char>>::empty());
        }
        while i < self.messages.len()
            invariant
                i <= self@.messages.len(),
                self.wf(),
                ls == lines(self@),
                sep@ == name_sep(),
                newline@ == seq!['\n'],
                out@ == join_lines(ls.take(i as int)),
            decreases self@.messages.len() - i,
        {
            let m = &self.messages[i];
            proof {
                assert(self@.messages[i as int].owner == m.user as int);
                assert(valid_key(self@, self@.messages[i as int].owner));
            }
            proof {
                assert(1 <= m.user as int <= self@.users.len());
                assert(self@.users.len() == self.users@.len());
            }
            let n: usize = self.users.len();
            let k: i64 = m.user - 1;
            assert(0 <= k < n);
            let idx: usize = k as usize;
            let owner = &self.users[idx];
            let ghost prev = out@;
            if i > 0 {
                out.append(newline.as_str());
            }
            out.append(owner.username.as_str());
            out.append(sep.as_str());
            out.append(m.message.as_str());
            proof {
                let t = ls.take(i as int + 1);
                assert(t.drop_last() =~= ls.take(i as int));
                assert(t.last() == line_of(self@, self@.messages[i as int]));
                assert(idx as int == m.user - 1);
                assert(self@.users[idx as int].name == owner.username@);
                if i > 0 {
                    assert(out@ =~= prev + seq!['\n'] + t.last());
                } else {
                    assert(out@ =~= t.last());
                    assert(t.len() == 1);
                }
            }
            i += 1;
        }
        proof {
            assert(ls.take(ls.len() as int) =~= ls);
        }
        out
    }
}

/// What `find_spec` gives: no key exactly when no user has the address, and
/// otherwise the key of a user who has it.
pub proof fn lemma_find_spec(users: Seq<UserModel>, a: Seq<char>)
    ensures
        find_spec(users, a) is None <==> forall|i: int| 0 <= i < users.len() ==> #[trigger] users[i].address != a,
        find_spec(users, a) matches Some(k) ==> 1 <= k <= users.len() && users[k - 1].address == a,
    decreases users.len(),
{
    if users.len() > 0 {
        lemma_find_spec(users.drop_last(), a);
        if users.last().address != a {
            assert forall|i: int| 0 <= i < users.len() - 1 implies #[trigger] users[i].address == users.drop_last()[i].address by {}
        }
    }
}

/// An address under which no user is registered is not found; after a user
/// is created under it, it is found, with the new user's key.
pub proof fn lemma_find_after_create(s: StoreModel, a: Seq<char>, name: Seq<char>)
    requires
        store_wf(s),
        forall|i: int| 0 <= i < s.users.len() ==> #[trigger] s.users[i].address != a,
    ensures
        find_spec(s.users, a) is None,
        find_spec(with_user(s, a, name).users, a) == Some(s.users.len() + 1 as int),
{
    lemma_find_spec(s.users, a);
}

/// Storing two bodies for a user adds two lines at the end of the
/// transcript, in that order, each with that user's name.
pub proof fn lemma_append_then_read(s: StoreModel, key: int, m1: Seq<char>, m2: Seq<char>, now: u64)
    requires
        store_wf(s),
        valid_key(s, key),
    ensures
        lines(with_messages(s, key, seq![m1, m2], now)) == lines(s) + seq![
            s.users[key - 1].name + name_sep() + m1,
            s.users[key - 1].name + name_sep() + m2,
        ],
        transcript(with_messages(s, key, seq![m1, m2], now)) == if lines(s).len() == 0 {
            s.users[key - 1].name + name_sep() + m1 + seq!['\n'] + s.users[key - 1].name + name_sep() + m2
        } else {
            transcript(s) + seq!['\n'] + s.users[key - 1].name + name_sep() + m1 + seq!['\n']
                + s.users[key - 1].name + name_sep() + m2
        },
{
    let t = with_messages(s, key, seq![m1, m2], now);
    let l1 = s.users[key - 1].name + name_sep() + m1;
    let l2 = s.users[key - 1].name + name_sep() + m2;
    assert(sent_by(key, seq![m1, m2], now)[0].body == m1);
    assert(sent_by(key, seq![m1, m2], now)[1].body == m2);
    assert(lines(t) =~= lines(s) + seq![l1, l2]);
    let all = lines(s) + seq![l1, l2];
    assert(all.drop_last() =~= lines(s).push(l1));
    assert(lines(s).push(l1).drop_last() =~= lines(s));
    if lines(s).len() == 0 {
        assert(join_lines(lines(s).push(l1)) == l1);
        assert(transcript(t) =~= l1 + seq!['\n'] + l2);
    } else {
        assert(join_lines(lines(s).push(l1)) == transcript(s) + seq!['\n'] + l1);
        assert(join_lines(all) == join_lines(lines(s).push(l1)) + seq!['\n'] + l2);
        assert(transcript(t) =~= transcript(s) + seq!['\n'] + l1 + seq!['\n'] + l2);
    }
}

} // verus!
