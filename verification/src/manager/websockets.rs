//! The websocket registry: for each user, the channels of their open
//! websockets. A channel is known by a handle; whoever runs the registry
//! keeps the channel that each handle stands for.
use vstd::prelude::*;
use std::collections::HashMap;
use vstd::string::StringExecFns;

verus! {

/// A user, by id.
pub type UserKey = u32;

/// A websocket channel, by handle.
pub type ChannelHandle = u64;

/// The registry as plain values.
pub struct WebsocketsView {
    pub channels: Map<UserKey, Seq<ChannelHandle>>,
    pub next: ChannelHandle,
}

/// The registry of the websocket manager.
pub struct WebsocketInner {
    wb_channel: HashMap<UserKey, Vec<ChannelHandle>>,
    next_channel: ChannelHandle,
}

/// A request to the websocket manager.
pub enum WbManagerMessage {
    /// The channels of a user.
    Get(UserKey),
    /// The channel at an index among a user's channels.
    GetWithIndex(UserKey, usize),
    /// Register the user if needed, and open a new channel for them.
    Insert(UserKey),
    /// Close one of the user's channels.
    Remove(UserKey, ChannelHandle),
}

/// The answer of the websocket manager to a request.
pub enum WbManagerReply {
    Channels(Vec<ChannelHandle>),
    Channel(Option<ChannelHandle>),
    Inserted(Result<ChannelHandle, String>),
    Removed(Result<(), String>),
}

/// The channels of `user`, or none when the user is not registered.
pub open spec fn channels_of(channels: Map<UserKey, Seq<ChannelHandle>>, user: UserKey) -> Seq<ChannelHandle> {
    if channels.contains_key(user) {
        channels[user]
    } else {
        Seq::empty()
    }
}

/// The channels of the users, each user's in turn.
pub open spec fn targets_of(channels: Map<UserKey, Seq<ChannelHandle>>, users: Seq<UserKey>) -> Seq<ChannelHandle>
    decreases users.len(),
{
    if users.len() == 0 {
        Seq::empty()
    } else {
        targets_of(channels, users.drop_last()) + channels_of(channels, users.last())
    }
}

/// Broadcasting to two lists of users in turn reaches the same channels, in
/// the same order, as broadcasting to the two lists joined: each user's
/// channels are reached whatever the users before them hold.
pub proof fn lemma_targets_concatenate(channels: Map<UserKey, Seq<ChannelHandle>>, users: Seq<UserKey>, more: Seq<UserKey>)
    ensures
        targets_of(channels, users + more) == targets_of(channels, users) + targets_of(channels, more),
    decreases more.len(),
{
    if more.len() == 0 {
        assert(users + more =~= users);
        assert(targets_of(channels, users) + Seq::<ChannelHandle>::empty() =~= targets_of(channels, users));
    } else {
        lemma_targets_concatenate(channels, users, more.drop_last());
        assert((users + more).drop_last() =~= users + more.drop_last());
        assert((users + more).last() == more.last());
        assert(targets_of(channels, users) + targets_of(channels, more)
            =~= targets_of(channels, users) + targets_of(channels, more.drop_last()) + channels_of(channels, more.last()));
    }
}

/// The channels an event for one user reaches are all that user's channels,
/// in order; a user with no entry contributes none. No user reaches anything.
pub proof fn lemma_targets_of_one_user(channels: Map<UserKey, Seq<ChannelHandle>>, user: UserKey)
    ensures
        channels.contains_key(user) ==> targets_of(channels, seq![user]) == channels[user],
        !channels.contains_key(user) ==> targets_of(channels, seq![user]) == Seq::<ChannelHandle>::empty(),
        targets_of(channels, Seq::<UserKey>::empty()) == Seq::<ChannelHandle>::empty(),
{
    assert(seq![user].drop_last() =~= Seq::<UserKey>::empty());
    assert(targets_of(channels, seq![user].drop_last()) == Seq::<ChannelHandle>::empty());
    assert(seq![user].last() == user);
    assert(Seq::<ChannelHandle>::empty() + channels_of(channels, user) =~= channels_of(channels, user));
}

/// Adding a user at the end of the list adds exactly that user's channels
/// at the end of the targets, whether or not the earlier users have any.
pub proof fn lemma_targets_push(channels: Map<UserKey, Seq<ChannelHandle>>, users: Seq<UserKey>, user: UserKey)
    ensures
        channels.contains_key(user) ==> targets_of(channels, users.push(user)) == targets_of(channels, users) + channels[user],
        !channels.contains_key(user) ==> targets_of(channels, users.push(user)) == targets_of(channels, users),
{
    lemma_targets_concatenate(channels, users, seq![user]);
    lemma_targets_of_one_user(channels, user);
    assert(users + seq![user] =~= users.push(user));
    assert(targets_of(channels, users) + Seq::<ChannelHandle>::empty() =~= targets_of(channels, users));
}

/// The registry after closing the channel `sender` of `user`, which it holds:
/// the channel leaves the user's list, and a user left with no channel leaves
/// the registry.
pub open spec fn channels_after_remove(
    channels: Map<UserKey, Seq<ChannelHandle>>,
    user: UserKey,
    sender: ChannelHandle,
) -> Map<UserKey, Seq<ChannelHandle>> {
    let list = channels[user];
    let rest = list.remove(list.index_of(sender));
    if rest.len() == 0 {
        channels.remove(user)
    } else {
        channels.insert(user, rest)
    }
}

impl View for WebsocketInner {
    type V = WebsocketsView;

    closed spec fn view(&self) -> WebsocketsView {
        WebsocketsView { channels: self.wb_channel@.map_values(|v: Vec<ChannelHandle>| v@), next: self.next_channel }
    }
}

impl WebsocketsView {
    /// No channel appears twice in a user's list, and every handle in use is
    /// below the next one to be handed out.
    pub open spec fn well_formed(self) -> bool {
        forall|u: UserKey| #[trigger] self.channels.contains_key(u) ==> {
            &&& self.channels[u].no_duplicates()
            &&& forall|i: int| 0 <= i < self.channels[u].len() ==> #[trigger] self.channels[u][i] < self.next
        }
    }
}

impl WebsocketInner {
    pub closed spec fn well_formed(&self) -> bool {
        self@.well_formed()
    }

    /// An empty registry.
    pub fn new() -> (res: Self)
        ensures
            res@.channels == Map::<UserKey, Seq<ChannelHandle>>::empty(),
            res@.next == 0,
            res.well_formed(),
    {
        let res = WebsocketInner { wb_channel: HashMap::new(), next_channel: 0 };
        assert(res@.channels =~= Map::<UserKey, Seq<ChannelHandle>>::empty());
        res
    }

    /// The position of `sender` among the channels of `user`.
    pub fn get_sender_index(&self, user: UserKey, sender: ChannelHandle) -> (res: Option<usize>)
        requires
            self.well_formed(),
        ensures
            res is Some <==> channels_of(self@.channels, user).contains(sender),
            res matches Some(i) ==> i == channels_of(self@.channels, user).index_of(sender),
    {
        broadcast use vstd::std_specs::hash::group_hash_axioms;
        let ghost l = channels_of(self@.channels, user);
        match self.wb_channel.get(&user) {
            Some(wb_struct) => {
                assert(wb_struct@ == l);
                let mut n: usize = 0;
                while n < wb_struct.len()
                    invariant
                        n <= wb_struct@.len(),
                        wb_struct@ == l,
                        l == channels_of(self@.channels, user),
                        l.no_duplicates(),
                        forall|j: int| 0 <= j < n ==> l[j] != sender,
                    decreases wb_struct@.len() - n,
                {
                    if wb_struct[n] == sender {
                        proof {
                            assert(l[n as int] == sender);
                            assert(l.contains(sender));
                            let k = l.index_of(sender);
                            assert(l[k] == sender);
                            assert(k == n as int) by {
                                if k != n as int {
                                    assert(l[k] == l[n as int]);
                                }
                            }
                        }
                        return Some(n);
                    }
                    n = n + 1;
                }
                None
            },
            None => None,
        }
    }

    /// The channels of `user`; none when the user is not registered.
    pub fn get_channels(&mut self, user: UserKey) -> (res: Vec<ChannelHandle>)
        ensures
            final(self)@ == old(self)@,
            res@ == channels_of(old(self)@.channels, user),
    {
        broadcast use vstd::std_specs::hash::group_hash_axioms;
        match self.wb_channel.get(&user) {
            Some(wbsenders) => wbsenders.clone(),
            None => Vec::new(),
        }
    }

    /// The channel at `index` among the channels of `user`.
    pub fn get_channel(&mut self, user: UserKey, index: usize) -> (res: Option<ChannelHandle>)
        ensures
            final(self)@ == old(self)@,
            res is Some <==> index < channels_of(old(self)@.channels, user).len(),
            res matches Some(h) ==> h == channels_of(old(self)@.channels, user)[index as int],
    {
        broadcast use vstd::std_specs::hash::group_hash_axioms;
        match self.wb_channel.get(&user) {
            Some(wbsenders) => if index < wbsenders.len() {
                Some(wbsenders[index])
            } else {
                None
            },
            None => None,
        }
    }

    /// The channels an event for `users` goes to: each user's channels in
    /// turn, in the order of `users`.
    pub fn broadcast_targets(&mut self, users: &[UserKey]) -> (res: Vec<ChannelHandle>)
        ensures
            final(self)@ == old(self)@,
            res@ == targets_of(old(self)@.channels, users@),
    {
        let mut targets: Vec<ChannelHandle> = Vec::new();
        let mut i: usize = 0;
        assert(users@.take(0) =~= Seq::<UserKey>::empty());
        while i < users.len()
            invariant
                i <= users@.len(),
                self@ == old(self)@,
                targets@ == targets_of(old(self)@.channels, users@.take(i as int)),
            decreases users@.len() - i,
        {
            proof {
                assert(users@.take(i + 1).drop_last() =~= users@.take(i as int));
                assert(users@.take(i + 1).last() == users@[i as int]);
            }
            let mut channels = self.get_channels(users[i]);
            targets.append(&mut channels);
            i = i + 1;
        }
        assert(users@.take(users@.len() as int) =~= users@);
        targets
    }

    /// Register `user` with no channel, unless already registered.
    pub fn insert_user(&mut self, user: UserKey)
        requires
            old(self).well_formed(),
        ensures
            final(self).well_formed(),
            final(self)@.next == old(self)@.next,
            final(self)@.channels == if old(self)@.channels.contains_key(user) {
                old(self)@.channels
            } else {
                old(self)@.channels.insert(user, Seq::empty())
            },
    {
        broadcast use vstd::std_specs::hash::group_hash_axioms;
        if !self.wb_channel.contains_key(&user) {
            self.wb_channel.insert(user, Vec::new());
            assert(self@.channels =~= old(self)@.channels.insert(user, Seq::empty()));
        }
    }

    /// Open a new channel for `user`, at the end of their list.
    ///
    /// # Errors
    /// `User not in HashMap` when the user is not registered; `No channel
    /// handle left` once every handle has been handed out.
    pub fn insert_channel(&mut self, user: UserKey) -> (res: Result<ChannelHandle, String>)
        requires
            old(self).well_formed(),
        ensures
            final(self).well_formed(),
            !old(self)@.channels.contains_key(user) ==> (res matches Err(e) && e@ == "User not in HashMap"@ && final(self)@ == old(self)@),
            old(self)@.channels.contains_key(user) && old(self)@.next == u64::MAX ==> (res matches Err(e) && e@ == "No channel handle left"@ && final(self)@ == old(self)@),
            old(self)@.channels.contains_key(user) && old(self)@.next < u64::MAX ==> {
                &&& res == Ok::<ChannelHandle, String>(old(self)@.next)
                &&& final(self)@.next == old(self)@.next + 1
                &&& final(self)@.channels == old(self)@.channels.insert(user, old(self)@.channels[user].push(old(self)@.next))
            },
    {
        broadcast use vstd::std_specs::hash::group_hash_axioms;
        let mut list = match self.wb_channel.remove(&user) {
            Some(l) => l,
            None => {
                assert(self@.channels =~= old(self)@.channels);
                return Err(String::from_str("User not in HashMap"));
            },
        };
        if self.next_channel == u64::MAX {
            self.wb_channel.insert(user, list);
            assert(self@.channels =~= old(self)@.channels);
            return Err(String::from_str("No channel handle left"));
        }
        let handle = self.next_channel;
        let ghost before = list@;
        assert(old(self)@.channels.contains_key(user));
        assert(before == old(self)@.channels[user]);
        assert(forall|i: int| 0 <= i < before.len() ==> #[trigger] before[i] < handle);
        list.push(handle);
        proof {
            assert forall|i: int, j: int| 0 <= i < list@.len() && 0 <= j < list@.len() && i != j
                implies list@[i] != list@[j] by {
                if i < before.len() && j < before.len() {
                    assert(before[i] == list@[i] && before[j] == list@[j]);
                } else if i < before.len() {
                    assert(before[i] < handle);
                } else if j < before.len() {
                    assert(before[j] < handle);
                }
            }
        }
        self.wb_channel.insert(user, list);
        self.next_channel = handle + 1;
        assert(self@.channels =~= old(self)@.channels.insert(user, old(self)@.channels[user].push(handle)));
        Ok(handle)
    }

    /// Close the channel `websocket_channel` of `user`. A user left with no
    /// channel leaves the registry.
    ///
    /// # Errors
    /// `Wbsender not in Vec` when the user has no such channel; the registry
    /// is then unchanged.
    pub fn remove(&mut self, user: UserKey, websocket_channel: ChannelHandle) -> (res: Result<(), String>)
        requires
            old(self).well_formed(),
        ensures
            final(self).well_formed(),
            final(self)@.next == old(self)@.next,
            res is Ok <==> channels_of(old(self)@.channels, user).contains(websocket_channel),
            res is Ok ==> final(self)@.channels == channels_after_remove(old(self)@.channels, user, websocket_channel),
            res matches Err(e) ==> e@ == "Wbsender not in Vec"@ && final(self)@ == old(self)@,
    {
        broadcast use vstd::std_specs::hash::group_hash_axioms;
        let index = match self.get_sender_index(user, websocket_channel) {
            Some(i) => i,
            None => return Err(String::from_str("Wbsender not in Vec")),
        };
        let mut channel = match self.wb_channel.remove(&user) {
            Some(c) => c,
            None => {
                assert(false);
                return Err(String::from_str("User not in hashmap"));
            },
        };
        let ghost before = channel@;
        channel.remove(index);
        assert(channel@ == before.remove(index as int));
        proof {
            assert forall|i: int, j: int| 0 <= i < channel@.len() && 0 <= j < channel@.len() && i != j
                implies channel@[i] != channel@[j] by {
                let i2 = if i < index { i } else { i + 1 };
                let j2 = if j < index { j } else { j + 1 };
                assert(channel@[i] == before[i2]);
                assert(channel@[j] == before[j2]);
            }
            assert forall|i: int| 0 <= i < channel@.len() implies #[trigger] channel@[i] < self@.next by {
                let i2 = if i < index { i } else { i + 1 };
                assert(channel@[i] == before[i2]);
            }
        }
        if channel.len() == 0 {
            assert(self@.channels =~= old(self)@.channels.remove(user));
        } else {
            self.wb_channel.insert(user, channel);
            assert(self@.channels =~= old(self)@.channels.insert(user, before.remove(index as int)));
        }
        Ok(())
    }

    /// Answer a request to the websocket manager.
    pub fn on_receiver(&mut self, message: WbManagerMessage) -> (res: WbManagerReply)
        requires
            old(self).well_formed(),
        ensures
            final(self).well_formed(),
            match message {
                WbManagerMessage::Get(user) => final(self)@ == old(self)@
                    && (res matches WbManagerReply::Channels(v) && v@ == channels_of(old(self)@.channels, user)),
                WbManagerMessage::GetWithIndex(user, index) => final(self)@ == old(self)@
                    && (res matches WbManagerReply::Channel(c)
                    && (c is Some <==> index < channels_of(old(self)@.channels, user).len())
                    && (c matches Some(h) ==> h == channels_of(old(self)@.channels, user)[index as int])),
                WbManagerMessage::Insert(user) => res matches WbManagerReply::Inserted(r) && (old(self)@.next < u64::MAX ==> {
                    &&& r == Ok::<ChannelHandle, String>(old(self)@.next)
                    &&& final(self)@.next == old(self)@.next + 1
                    &&& final(self)@.channels == old(self)@.channels.insert(user, channels_of(old(self)@.channels, user).push(old(self)@.next))
                }),
                WbManagerMessage::Remove(user, handle) => res matches WbManagerReply::Removed(r)
                    && final(self)@.next == old(self)@.next
                    && (r is Ok <==> channels_of(old(self)@.channels, user).contains(handle))
                    && (r is Ok ==> final(self)@.channels == channels_after_remove(old(self)@.channels, user, handle))
                    && (r is Err ==> final(self)@ == old(self)@),
            },
    {
        match message {
            WbManagerMessage::Get(user) => WbManagerReply::Channels(self.get_channels(user)),
            WbManagerMessage::Insert(user) => {
                self.insert_user(user);
                WbManagerReply::Inserted(self.insert_channel(user))
            },
            WbManagerMessage::Remove(user, wbsender) => WbManagerReply::Removed(self.remove(user, wbsender)),
            WbManagerMessage::GetWithIndex(user, index) => WbManagerReply::Channel(self.get_channel(user, index)),
        }
    }
}

} // verus!

verus! {

/// Opening a channel for a user and closing it again leaves the registry as
/// it was, except that a user who had no channel leaves it.
pub proof fn lemma_insert_then_remove(s: WebsocketsView, user: UserKey)
    requires
        s.well_formed(),
    ensures
        ({
            let opened = s.channels.insert(user, channels_of(s.channels, user).push(s.next));
            channels_after_remove(opened, user, s.next) == if channels_of(s.channels, user).len() == 0 {
                s.channels.remove(user)
            } else {
                s.channels
            }
        }),
{
    let before = channels_of(s.channels, user);
    let list = before.push(s.next);
    let opened = s.channels.insert(user, list);
    assert(opened[user] == list);
    assert(forall|i: int| 0 <= i < before.len() ==> #[trigger] before[i] < s.next);
    assert(list[before.len() as int] == s.next);
    assert(list.contains(s.next));
    let k = list.index_of(s.next);
    assert(k == before.len()) by {
        if k < before.len() {
            assert(list[k] == before[k]);
        }
    }
    assert(list.remove(k) =~= before);
    if before.len() != 0 {
        assert(s.channels.contains_key(user));
        assert(s.channels.insert(user, before) =~= s.channels);
    } else {
        assert(opened.remove(user) =~= s.channels.remove(user));
    }
}

/// A closed channel is no longer among the user's channels.
pub proof fn lemma_removed_channel_gone(s: WebsocketsView, user: UserKey, handle: ChannelHandle)
    requires
        s.well_formed(),
        channels_of(s.channels, user).contains(handle),
    ensures
        !channels_of(channels_after_remove(s.channels, user, handle), user).contains(handle),
{
    let list = s.channels[user];
    assert(s.channels.contains_key(user));
    let k = list.index_of(handle);
    let rest = list.remove(k);
    if rest.contains(handle) {
        let j = choose|j: int| 0 <= j < rest.len() && rest[j] == handle;
        let j2 = if j < k { j } else { j + 1 };
        assert(rest[j] == list[j2]);
        assert(list.no_duplicates());
    }
}

} // verus!
