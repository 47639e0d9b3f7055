//! The shared-channel websocket registry: one channel per user, shared by
//! all of the user's connections and counted, so that it is dropped with the
//! user's last connection.
use vstd::prelude::*;
use vstd::string::StringExecFns;

verus! {

/// A channel, by handle.
pub type ChannelHandle = u64;

/// Who a channel belongs to: a user's id and name.
pub struct UserIdentity {
    pub id: u32,
    pub name: String,
}

/// A user's shared channel and the number of connections using it.
pub struct WbStruct {
    user: UserIdentity,
    channel: ChannelHandle,
    count: u32,
}

/// A registry entry as plain values.
pub struct WbEntry {
    pub id: u32,
    pub name: Seq<char>,
    pub channel: ChannelHandle,
    pub count: u32,
}

impl View for WbStruct {
    type V = WbEntry;

    closed spec fn view(&self) -> WbEntry {
        WbEntry { id: self.user.id, name: self.user.name@, channel: self.channel, count: self.count }
    }
}

/// Whether an entry belongs to the user with this id and name.
pub open spec fn same_user(e: WbEntry, id: u32, name: Seq<char>) -> bool {
    e.id == id && e.name == name
}

impl WbStruct {
    /// An entry for `user`'s channel, used by one connection.
    pub fn new(user: UserIdentity, channel: ChannelHandle) -> (res: Self)
        ensures
            res@ == (WbEntry { id: user.id, name: user.name@, channel, count: 1 }),
    {
        WbStruct { user, channel, count: 1 }
    }

    /// The channel, for one more connection.
    pub fn get_channel(&mut self) -> (res: ChannelHandle)
        requires
            old(self)@.count < u32::MAX,
        ensures
            res == old(self)@.channel,
            final(self)@ == (WbEntry { count: (old(self)@.count + 1) as u32, ..old(self)@ }),
    {
        self.count = self.count + 1;
        self.channel
    }

    /// The channel, without counting a connection.
    pub fn get_without_increment(&self) -> (res: ChannelHandle)
        ensures
            res == self@.channel,
    {
        self.channel
    }

    /// Whether the entry belongs to `user` (same id and name).
    pub fn is_same_user(&self, user: &UserIdentity) -> (res: bool)
        ensures
            res == same_user(self@, user.id, user.name@),
    {
        self.user.id == user.id && self.user.name == user.name
    }

    /// One connection fewer; true when none is left.
    pub fn decrement_ref(&mut self) -> (res: bool)
        requires
            old(self)@.count > 0,
        ensures
            final(self)@ == (WbEntry { count: (old(self)@.count - 1) as u32, ..old(self)@ }),
            res == (final(self)@.count == 0),
    {
        self.count = self.count - 1;
        self.count == 0
    }
}

/// The registry: the users' entries, and the next channel handle.
pub struct WebsocketInner {
    wb_channel: Vec<WbStruct>,
    next_channel: ChannelHandle,
}

/// The registry as plain values.
pub struct WebsocketsView {
    pub entries: Seq<WbEntry>,
    pub next: ChannelHandle,
}

impl View for WebsocketInner {
    type V = WebsocketsView;

    closed spec fn view(&self) -> WebsocketsView {
        WebsocketsView { entries: self.wb_channel@.map_values(|e: WbStruct| e@), next: self.next_channel }
    }
}

/// Whether the user has an entry.
pub open spec fn has_user(entries: Seq<WbEntry>, id: u32, name: Seq<char>) -> bool {
    exists|i: int| 0 <= i < entries.len() && same_user(#[trigger] entries[i], id, name)
}

/// The position of the user's entry (there is at most one in a well-formed registry).
pub open spec fn user_index(entries: Seq<WbEntry>, id: u32, name: Seq<char>) -> int {
    choose|i: int| 0 <= i < entries.len() && same_user(#[trigger] entries[i], id, name)
}

/// The entries after one of the user's connections closes: the count of the
/// user's entry drops by one, and the entry goes when it reaches zero.
pub open spec fn entries_after_close(entries: Seq<WbEntry>, id: u32, name: Seq<char>) -> Seq<WbEntry> {
    if has_user(entries, id, name) {
        let i = user_index(entries, id, name);
        if entries[i].count == 1 {
            entries.remove(i)
        } else {
            entries.update(i, WbEntry { count: (entries[i].count - 1) as u32, ..entries[i] })
        }
    } else {
        entries
    }
}

/// The entries after a connection of the user opens: the count of the
/// user's entry grows by one, or a new entry with channel `next` is added.
pub open spec fn entries_after_open(entries: Seq<WbEntry>, id: u32, name: Seq<char>, next: ChannelHandle) -> Seq<WbEntry> {
    if has_user(entries, id, name) {
        let i = user_index(entries, id, name);
        entries.update(i, WbEntry { count: (entries[i].count + 1) as u32, ..entries[i] })
    } else {
        entries.push(WbEntry { id, name, channel: next, count: 1 })
    }
}

/// Whether `c` is the channel of `user`'s entry.
pub open spec fn is_target(entries: Seq<WbEntry>, user: UserIdentity, c: ChannelHandle) -> bool {
    &&& has_user(entries, user.id, user.name@)
    &&& c == entries[user_index(entries, user.id, user.name@)].channel
}

/// No user has two entries.
pub open spec fn one_entry_per_user(entries: Seq<WbEntry>) -> bool {
    forall|i: int, j: int| 0 <= i < j < entries.len()
        ==> !same_user(#[trigger] entries[i], entries[j].id, #[trigger] entries[j].name)
}

/// Every entry can count one more connection.
pub open spec fn counts_below_max(entries: Seq<WbEntry>) -> bool {
    forall|i: int| 0 <= i < entries.len() ==> #[trigger] entries[i].count < u32::MAX
}

impl WebsocketsView {
    /// Every entry is used by at least one connection, and no user has two entries.
    pub open spec fn well_formed(self) -> bool {
        &&& forall|i: int| 0 <= i < self.entries.len() ==> #[trigger] self.entries[i].count > 0
        &&& one_entry_per_user(self.entries)
    }
}

} // verus!

verus! {

/// The manager of the registry: whoever runs it keeps a [`WebsocketInner`]
/// and answers each [`WbManagerMessage`] with [`WebsocketInner::on_message`].
pub struct WebsocketManager;

/// A request to the registry.
pub enum WbManagerMessage {
    /// The user's channel, for one more connection (made when missing).
    GetActualOf(UserIdentity),
    /// One of the user's connections closed.
    RemoveIfLast(UserIdentity),
    /// The user's channel, if any, without counting a connection.
    GetWithoutIncrement(UserIdentity),
}

/// The registry's answer.
pub enum WbManagerReply {
    Channel(Result<ChannelHandle, String>),
    Removed,
    Existing(Option<ChannelHandle>),
}

impl WebsocketInner {
    pub closed spec fn well_formed(&self) -> bool {
        self@.well_formed()
    }

    /// An empty registry.
    pub fn new() -> (res: Self)
        ensures
            res@.entries == Seq::<WbEntry>::empty(),
            res@.next == 0,
    {
        let res = WebsocketInner { wb_channel: Vec::new(), next_channel: 0 };
        assert(res@.entries =~= Seq::<WbEntry>::empty());
        res
    }

    fn find(&self, user: &UserIdentity) -> (res: Option<usize>)
        requires
            self@.well_formed(),
        ensures
            res is Some <==> has_user(self@.entries, user.id, user.name@),
            res matches Some(i) ==> i == user_index(self@.entries, user.id, user.name@) && i < self@.entries.len(),
    {
        let mut n: usize = 0;
        while n < self.wb_channel.len()
            invariant
                n <= self.wb_channel@.len(),
                self@.well_formed(),
                forall|j: int| 0 <= j < n ==> !same_user(#[trigger] self@.entries[j], user.id, user.name@),
            decreases self.wb_channel@.len() - n,
        {
            if self.wb_channel[n].is_same_user(user) {
                proof {
                    let e = self@.entries;
                    assert(same_user(e[n as int], user.id, user.name@));
                    let k = user_index(e, user.id, user.name@);
                    assert(k == n as int) by {
                        if k < n as int {
                            assert(!same_user(e[k], user.id, user.name@));
                        } else if k > n as int {
                            assert(!same_user(e[n as int], e[k].id, e[k].name));
                        }
                    }
                }
                return Some(n);
            }
            n = n + 1;
        }
        None
    }

    /// The user's channel, without counting a connection.
    pub fn get_channels_of_user_without_increment(&self, user: &UserIdentity) -> (res: Option<ChannelHandle>)
        requires
            self.well_formed(),
        ensures
            res is Some <==> has_user(self@.entries, user.id, user.name@),
            res matches Some(c) ==> c == self@.entries[user_index(self@.entries, user.id, user.name@)].channel,
    {
        match self.find(user) {
            Some(i) => Some(self.wb_channel[i].get_without_increment()),
            None => None,
        }
    }

    /// The user's channel, without counting a connection.
    pub fn get_without_increment(&mut self, user: UserIdentity) -> (res: Option<ChannelHandle>)
        requires
            old(self).well_formed(),
        ensures
            final(self)@ == old(self)@,
            res is Some <==> has_user(old(self)@.entries, user.id, user.name@),
            res matches Some(c) ==> c == old(self)@.entries[user_index(old(self)@.entries, user.id, user.name@)].channel,
    {
        self.get_channels_of_user_without_increment(&user)
    }

    /// The user's channel, counting one more connection.
    pub fn get_channels_of_user(&mut self, user: &UserIdentity) -> (res: Option<ChannelHandle>)
        requires
            old(self).well_formed(),
            counts_below_max(old(self)@.entries),
        ensures
            final(self).well_formed(),
            final(self)@.next == old(self)@.next,
            res is Some <==> has_user(old(self)@.entries, user.id, user.name@),
            res matches Some(c) ==> {
                let i = user_index(old(self)@.entries, user.id, user.name@);
                &&& c == old(self)@.entries[i].channel
                &&& final(self)@.entries == old(self)@.entries.update(i,
                    WbEntry { count: (old(self)@.entries[i].count + 1) as u32, ..old(self)@.entries[i] })
            },
            res is None ==> final(self)@ == old(self)@,
    {
        match self.find(user) {
            Some(i) => {
                let mut entry = self.wb_channel.remove(i);
                let c = entry.get_channel();
                self.wb_channel.insert(i, entry);
                let ghost e = old(self)@.entries;
                let ghost ne = e.update(i as int, WbEntry { count: (e[i as int].count + 1) as u32, ..e[i as int] });
                assert(self@.entries =~= ne);
                assert forall|a: int, b: int| 0 <= a < b < ne.len()
                    implies !same_user(#[trigger] ne[a], ne[b].id, #[trigger] ne[b].name) by {
                    assert(!same_user(e[a], e[b].id, e[b].name));
                }
                Some(c)
            },
            None => None,
        }
    }

    /// Add an entry for `user`'s channel, used by one connection.
    pub fn insert_channel(&mut self, user: UserIdentity, channel: ChannelHandle)
        ensures
            final(self)@.next == old(self)@.next,
            final(self)@.entries == old(self)@.entries.push(WbEntry { id: user.id, name: user.name@, channel, count: 1 }),
    {
        self.wb_channel.push(WbStruct::new(user, channel));
        assert(self@.entries =~= old(self)@.entries.push(WbEntry { id: user.id, name: user.name@, channel, count: 1 }));
    }

    /// Drop the entry at `index`.
    pub fn remove(&mut self, index: usize)
        requires
            index < old(self)@.entries.len(),
        ensures
            final(self)@.next == old(self)@.next,
            final(self)@.entries == old(self)@.entries.remove(index as int),
    {
        self.wb_channel.remove(index);
        assert(self@.entries =~= old(self)@.entries.remove(index as int));
    }

    /// The user's channel for one more connection; a new channel, used by
    /// this connection alone, when the user has none.
    ///
    /// # Errors
    /// `No channel handle left` when a new channel is needed and every handle
    /// has been handed out.
    pub fn get_or_insert_channels(&mut self, user: UserIdentity) -> (res: Result<ChannelHandle, String>)
        requires
            old(self).well_formed(),
            counts_below_max(old(self)@.entries),
        ensures
            final(self).well_formed(),
            has_user(old(self)@.entries, user.id, user.name@) ==> {
                let i = user_index(old(self)@.entries, user.id, user.name@);
                &&& res == Ok::<ChannelHandle, String>(old(self)@.entries[i].channel)
                &&& final(self)@.next == old(self)@.next
                &&& final(self)@.entries == old(self)@.entries.update(i,
                    WbEntry { count: (old(self)@.entries[i].count + 1) as u32, ..old(self)@.entries[i] })
            },
            !has_user(old(self)@.entries, user.id, user.name@) && old(self)@.next < u64::MAX ==> {
                &&& res == Ok::<ChannelHandle, String>(old(self)@.next)
                &&& final(self)@.next == old(self)@.next + 1
                &&& final(self)@.entries == old(self)@.entries.push(
                    WbEntry { id: user.id, name: user.name@, channel: old(self)@.next, count: 1 })
            },
            !has_user(old(self)@.entries, user.id, user.name@) && old(self)@.next == u64::MAX ==> {
                &&& res is Err
                &&& final(self)@ == old(self)@
            },
            res is Ok ==> final(self)@.entries == entries_after_open(old(self)@.entries, user.id, user.name@, old(self)@.next),
    {
        if let Some(channel) = self.get_channels_of_user(&user) {
            return Ok(channel);
        }
        if self.next_channel == u64::MAX {
            return Err(String::from_str("No channel handle left"));
        }
        let channel = self.next_channel;
        self.next_channel = channel + 1;
        let ghost e = old(self)@.entries;
        let ghost id = user.id;
        let ghost name = user.name@;
        self.insert_channel(user, channel);
        let ghost ne = self@.entries;
        assert forall|i: int| 0 <= i < ne.len() implies #[trigger] ne[i].count > 0 by {
            if i < e.len() {
                assert(ne[i] == e[i]);
            }
        }
        assert forall|a: int, b: int| 0 <= a < b < ne.len()
            implies !same_user(#[trigger] ne[a], ne[b].id, #[trigger] ne[b].name) by {
            if b < e.len() {
                assert(!same_user(e[a], e[b].id, e[b].name));
            } else {
                assert(ne[a] == e[a]);
                assert(!has_user(e, id, name));
                assert(!same_user(e[a], id, name));
            }
        }
        Ok(channel)
    }

    /// One of the user's connections closed: the count of the user's entry
    /// drops by one, and the entry goes when no connection is left.
    pub fn decrement_and_remove_user(&mut self, user: UserIdentity)
        requires
            old(self).well_formed(),
        ensures
            final(self).well_formed(),
            final(self)@.next == old(self)@.next,
            final(self)@.entries == entries_after_close(old(self)@.entries, user.id, user.name@),
    {
        let ghost e = old(self)@.entries;
        match self.find(&user) {
            Some(i) => {
                let mut entry = self.wb_channel.remove(i);
                let last = entry.decrement_ref();
                if last {
                    assert(self@.entries =~= e.remove(i as int));
                    assert forall|a: int, b: int| 0 <= a < b < self@.entries.len()
                        implies !same_user(#[trigger] self@.entries[a], self@.entries[b].id, #[trigger] self@.entries[b].name) by {
                        let a2 = if a < i { a } else { a + 1 };
                        let b2 = if b < i { b } else { b + 1 };
                        assert(self@.entries[a] == e[a2]);
                        assert(self@.entries[b] == e[b2]);
                        assert(!same_user(e[a2], e[b2].id, e[b2].name));
                    }
                    assert forall|a: int| 0 <= a < self@.entries.len() implies #[trigger] self@.entries[a].count > 0 by {
                        let a2 = if a < i { a } else { a + 1 };
                        assert(self@.entries[a] == e[a2]);
                    }
                } else {
                    self.wb_channel.insert(i, entry);
                    let ghost ne = e.update(i as int, WbEntry { count: (e[i as int].count - 1) as u32, ..e[i as int] });
                    assert(self@.entries =~= ne);
                    assert forall|a: int, b: int| 0 <= a < b < ne.len()
                        implies !same_user(#[trigger] ne[a], ne[b].id, #[trigger] ne[b].name) by {
                        assert(!same_user(e[a], e[b].id, e[b].name));
                    }
                }
            },
            None => {},
        }
    }

    /// The channels of the users to send an event to: each user's channel in
    /// order, up to the first user without one, where sending stops.
    pub fn send_targets(&self, users: &[UserIdentity]) -> (res: Vec<ChannelHandle>)
        requires
            self.well_formed(),
        ensures
            res@.len() <= users@.len(),
            forall|k: int| 0 <= k < res@.len() ==> is_target(self@.entries, users@[k], #[trigger] res@[k]),
            res@.len() < users@.len() ==> !has_user(self@.entries, users@[res@.len() as int].id, users@[res@.len() as int].name@),
    {
        let mut targets: Vec<ChannelHandle> = Vec::new();
        let mut k: usize = 0;
        while k < users.len()
            invariant
                k <= users@.len(),
                targets@.len() == k,
                self.well_formed(),
                forall|j: int| 0 <= j < targets@.len() ==> is_target(self@.entries, users@[j], #[trigger] targets@[j]),
            decreases users@.len() - k,
        {
            let ghost before = targets@;
            match self.get_channels_of_user_without_increment(&users[k]) {
                Some(c) => {
                    targets.push(c);
                    assert forall|j: int| 0 <= j < targets@.len() implies is_target(self@.entries, users@[j], #[trigger] targets@[j]) by {
                        if j < before.len() {
                            assert(targets@[j] == before[j]);
                        }
                    }
                },
                None => {
                    return targets;
                },
            }
            k = k + 1;
        }
        targets
    }

    /// Answer a request.
    pub fn on_message(&mut self, message: WbManagerMessage) -> (res: WbManagerReply)
        requires
            old(self).well_formed(),
            counts_below_max(old(self)@.entries),
        ensures
            final(self).well_formed(),
            match message {
                WbManagerMessage::GetActualOf(user) => (res matches WbManagerReply::Channel(r) && {
                    let e = old(self)@.entries;
                    if has_user(e, user.id, user.name@) {
                        &&& r == Ok::<ChannelHandle, String>(e[user_index(e, user.id, user.name@)].channel)
                        &&& final(self)@.entries == entries_after_open(e, user.id, user.name@, old(self)@.next)
                        &&& final(self)@.next == old(self)@.next
                    } else if old(self)@.next < u64::MAX {
                        &&& r == Ok::<ChannelHandle, String>(old(self)@.next)
                        &&& final(self)@.entries == entries_after_open(e, user.id, user.name@, old(self)@.next)
                        &&& final(self)@.next == old(self)@.next + 1
                    } else {
                        r is Err && final(self)@ == old(self)@
                    }
                }),
                WbManagerMessage::RemoveIfLast(user) => res is Removed
                    && final(self)@.entries == entries_after_close(old(self)@.entries, user.id, user.name@),
                WbManagerMessage::GetWithoutIncrement(user) => final(self)@ == old(self)@
                    && (res matches WbManagerReply::Existing(c) && (c is Some <==> has_user(old(self)@.entries, user.id, user.name@))
                        && (c matches Some(h) ==> h == old(self)@.entries[user_index(old(self)@.entries, user.id, user.name@)].channel)),
            },
    {
        match message {
            WbManagerMessage::GetActualOf(user) => WbManagerReply::Channel(self.get_or_insert_channels(user)),
            WbManagerMessage::RemoveIfLast(user) => {
                self.decrement_and_remove_user(user);
                WbManagerReply::Removed
            },
            WbManagerMessage::GetWithoutIncrement(user) => WbManagerReply::Existing(self.get_without_increment(user)),
        }
    }
}

/// In a registry where no user has two entries, the entry at a position of
/// the user's is the one `user_index` picks.
pub proof fn lemma_user_index_unique(entries: Seq<WbEntry>, k: int, id: u32, name: Seq<char>)
    requires
        one_entry_per_user(entries),
        0 <= k < entries.len(),
        same_user(entries[k], id, name),
    ensures
        has_user(entries, id, name),
        user_index(entries, id, name) == k,
{
    let j = user_index(entries, id, name);
    if j < k {
        assert(!same_user(entries[j], entries[k].id, entries[k].name));
    } else if j > k {
        assert(!same_user(entries[k], entries[j].id, entries[j].name));
    }
}

/// A connection that opens and then closes leaves the registry's entries as
/// they were, whether the user had an entry before or not.
pub proof fn lemma_open_then_close(entries: Seq<WbEntry>, id: u32, name: Seq<char>, next: ChannelHandle)
    requires
        (WebsocketsView { entries, next }).well_formed(),
        counts_below_max(entries),
    ensures
        entries_after_close(entries_after_open(entries, id, name, next), id, name) == entries,
{
    let opened = entries_after_open(entries, id, name, next);
    if has_user(entries, id, name) {
        let i = user_index(entries, id, name);
        assert forall|a: int, b: int| 0 <= a < b < opened.len()
            implies !same_user(#[trigger] opened[a], opened[b].id, #[trigger] opened[b].name) by {
            assert(!same_user(entries[a], entries[b].id, entries[b].name));
        }
        lemma_user_index_unique(opened, i, id, name);
        assert(opened.update(i, WbEntry { count: (opened[i].count - 1) as u32, ..opened[i] }) =~= entries);
    } else {
        let n = entries.len() as int;
        assert forall|a: int, b: int| 0 <= a < b < opened.len()
            implies !same_user(#[trigger] opened[a], opened[b].id, #[trigger] opened[b].name) by {
            if b < n {
                assert(!same_user(entries[a], entries[b].id, entries[b].name));
            } else {
                assert(opened[a] == entries[a]);
                assert(!same_user(entries[a], id, name));
            }
        }
        lemma_user_index_unique(opened, n, id, name);
        assert(opened.remove(n) =~= entries);
    }
}

/// The entries after `k` connections of the user open.
pub open spec fn open_times(entries: Seq<WbEntry>, id: u32, name: Seq<char>, next: ChannelHandle, k: nat) -> Seq<WbEntry>
    decreases k,
{
    if k == 0 {
        entries
    } else {
        entries_after_open(open_times(entries, id, name, next, (k - 1) as nat), id, name, next)
    }
}

/// The entries after `j` connections of the user close.
pub open spec fn close_times(entries: Seq<WbEntry>, id: u32, name: Seq<char>, j: nat) -> Seq<WbEntry>
    decreases j,
{
    if j == 0 {
        entries
    } else {
        entries_after_close(close_times(entries, id, name, (j - 1) as nat), id, name)
    }
}

/// The user's entry added last, with `count` connections.
pub open spec fn with_entry(entries: Seq<WbEntry>, id: u32, name: Seq<char>, channel: ChannelHandle, count: nat) -> Seq<WbEntry> {
    entries.push(WbEntry { id, name, channel, count: count as u32 })
}

/// Adding an entry for a user who has none keeps one entry per user, and
/// the user's entry is the one added.
proof fn lemma_with_entry(entries: Seq<WbEntry>, id: u32, name: Seq<char>, channel: ChannelHandle, count: nat)
    requires
        one_entry_per_user(entries),
        !has_user(entries, id, name),
    ensures
        one_entry_per_user(with_entry(entries, id, name, channel, count)),
        has_user(with_entry(entries, id, name, channel, count), id, name),
        user_index(with_entry(entries, id, name, channel, count), id, name) == entries.len(),
{
    let w = with_entry(entries, id, name, channel, count);
    let n = entries.len() as int;
    assert forall|a: int, b: int| 0 <= a < b < w.len()
        implies !same_user(#[trigger] w[a], w[b].id, #[trigger] w[b].name) by {
        if b < n {
            assert(w[a] == entries[a] && w[b] == entries[b]);
            assert(!same_user(entries[a], entries[b].id, entries[b].name));
        } else {
            assert(w[a] == entries[a]);
            assert(!same_user(entries[a], id, name));
        }
    }
    lemma_user_index_unique(w, n, id, name);
}

proof fn lemma_open_times(entries: Seq<WbEntry>, id: u32, name: Seq<char>, next: ChannelHandle, k: nat)
    requires
        one_entry_per_user(entries),
        !has_user(entries, id, name),
        1 <= k <= u32::MAX,
    ensures
        open_times(entries, id, name, next, k) == with_entry(entries, id, name, next, k),
    decreases k,
{
    if k == 1 {
        assert(open_times(entries, id, name, next, 0) == entries);
        assert(open_times(entries, id, name, next, 1) =~= with_entry(entries, id, name, next, 1));
    } else {
        lemma_open_times(entries, id, name, next, (k - 1) as nat);
        lemma_with_entry(entries, id, name, next, (k - 1) as nat);
        let w = with_entry(entries, id, name, next, (k - 1) as nat);
        assert(w.update(entries.len() as int, WbEntry { count: (w[entries.len() as int].count + 1) as u32, ..w[entries.len() as int] })
            =~= with_entry(entries, id, name, next, k));
    }
}

proof fn lemma_close_times(entries: Seq<WbEntry>, id: u32, name: Seq<char>, channel: ChannelHandle, k: nat, j: nat)
    requires
        one_entry_per_user(entries),
        !has_user(entries, id, name),
        1 <= k <= u32::MAX,
        j <= k,
    ensures
        j < k ==> close_times(with_entry(entries, id, name, channel, k), id, name, j) == with_entry(entries, id, name, channel, (k - j) as nat),
        j == k ==> close_times(with_entry(entries, id, name, channel, k), id, name, j) == entries,
    decreases j,
{
    if j > 0 {
        lemma_close_times(entries, id, name, channel, k, (j - 1) as nat);
        let c = (k - (j - 1)) as nat;
        lemma_with_entry(entries, id, name, channel, c);
        let w = with_entry(entries, id, name, channel, c);
        let n = entries.len() as int;
        if c == 1 {
            assert(w.remove(n) =~= entries);
        } else {
            assert(w.update(n, WbEntry { count: (w[n].count - 1) as u32, ..w[n] }) =~= with_entry(entries, id, name, channel, (c - 1) as nat));
        }
    }
}

/// A user with no entry opens `k` connections and then closes them, the
/// entries changing as [`WebsocketInner::get_or_insert_channels`] and
/// [`WebsocketInner::decrement_and_remove_user`] change them: after each of
/// the first `k - 1` closes the user still has the shared channel that the
/// first open made, and the `k`-th close leaves the entries as they were
/// before, with no entry for the user.
pub proof fn lemma_k_opens_then_closes(entries: Seq<WbEntry>, id: u32, name: Seq<char>, next: ChannelHandle, k: nat, j: nat)
    requires
        one_entry_per_user(entries),
        !has_user(entries, id, name),
        1 <= k <= u32::MAX,
        j <= k,
    ensures
        j < k ==> {
            let after = close_times(open_times(entries, id, name, next, k), id, name, j);
            &&& has_user(after, id, name)
            &&& after[user_index(after, id, name)].channel == next
        },
        j == k ==> close_times(open_times(entries, id, name, next, k), id, name, j) == entries
            && !has_user(close_times(open_times(entries, id, name, next, k), id, name, j), id, name),
{
    lemma_open_times(entries, id, name, next, k);
    lemma_close_times(entries, id, name, next, k, j);
    if j < k {
        lemma_with_entry(entries, id, name, next, (k - j) as nat);
    }
}

} // verus!
