//! The typing registry: for each channel, the users typing in it and the
//! timer task of each. A timer ends a user's typing after a while unless it
//! is renewed or stopped first. The registry decides; whoever runs it starts
//! and kills the timers and sends the events that it asks for.
use vstd::prelude::*;
use std::collections::HashMap;
use vstd::string::StringExecFns;

verus! {

/// A channel, by id.
pub type ChannelKey = u64;

/// A user, by id.
pub type UserKey = u32;

/// A timer task, by id.
pub type TaskId = u64;

/// A timer task: who it stops typing, where.
pub struct Task {
    pub id: TaskId,
    pub user: UserKey,
    pub channel: ChannelKey,
    pub server: String,
}

/// The event sent to the members of a channel.
#[derive(PartialEq, Eq, Structural)]
pub enum TypingEvent {
    StartTyping,
    StopTyping,
}

/// What the registry asks of the one running it.
pub enum TypingAction {
    /// Start the timer of a task.
    SpawnTimer(Task),
    /// Stop the timer of a task.
    KillTimer(TaskId),
    /// Send an event about a user in a channel to the members of that channel.
    Send { event: TypingEvent, user: UserKey, channel: ChannelKey, server: String },
}

/// The registry as plain values.
pub struct TypingView {
    pub typing: Map<ChannelKey, Map<UserKey, TaskId>>,
    pub next_task: TaskId,
}

/// The registry of the typing manager.
pub struct TypingInner {
    inner: HashMap<ChannelKey, HashMap<UserKey, TaskId>>,
    next_task: TaskId,
}

impl View for TypingInner {
    type V = TypingView;

    closed spec fn view(&self) -> TypingView {
        TypingView {
            typing: self.inner@.map_values(|m: HashMap<UserKey, TaskId>| m@),
            next_task: self.next_task,
        }
    }
}

/// Whether `user` is typing in `channel`.
pub open spec fn is_typing(typing: Map<ChannelKey, Map<UserKey, TaskId>>, channel: ChannelKey, user: UserKey) -> bool {
    typing.contains_key(channel) && typing[channel].contains_key(user)
}

/// The users typing in `channel`, with their tasks.
pub open spec fn users_in(typing: Map<ChannelKey, Map<UserKey, TaskId>>, channel: ChannelKey) -> Map<UserKey, TaskId> {
    if typing.contains_key(channel) {
        typing[channel]
    } else {
        Map::empty()
    }
}

/// The registry with `channel` present: an empty entry is added when it is missing.
pub open spec fn with_channel(typing: Map<ChannelKey, Map<UserKey, TaskId>>, channel: ChannelKey) -> Map<ChannelKey, Map<UserKey, TaskId>> {
    typing.insert(channel, users_in(typing, channel))
}

/// `action` starts the timer of the task `id` of `user` in `channel`.
pub open spec fn spawns(action: TypingAction, id: TaskId, user: UserKey, channel: ChannelKey, server: Seq<char>) -> bool {
    match action {
        TypingAction::SpawnTimer(t) => t.id == id && t.user == user && t.channel == channel && t.server@ == server,
        _ => false,
    }
}

/// `action` sends `event` about `user` to the members of `channel`.
pub open spec fn sends(action: TypingAction, event: TypingEvent, user: UserKey, channel: ChannelKey, server: Seq<char>) -> bool {
    match action {
        TypingAction::Send { event: e, user: u, channel: c, server: s } => e == event && u == user && c == channel && s@ == server,
        _ => false,
    }
}

/// The actions of a start of typing by `user` in `channel` with the new task
/// `id`: a user already typing has their old timer killed and a new one
/// started; a user not typing yet gets a timer, and the channel hears that
/// they started typing.
pub open spec fn start_actions(
    typing: Map<ChannelKey, Map<UserKey, TaskId>>,
    channel: ChannelKey,
    user: UserKey,
    id: TaskId,
    server: Seq<char>,
    actions: Seq<TypingAction>,
) -> bool {
    if is_typing(typing, channel, user) {
        &&& actions.len() == 2
        &&& actions[0] == TypingAction::KillTimer(typing[channel][user])
        &&& spawns(actions[1], id, user, channel, server)
    } else {
        &&& actions.len() == 2
        &&& spawns(actions[0], id, user, channel, server)
        &&& sends(actions[1], TypingEvent::StartTyping, user, channel, server)
    }
}

/// The actions of a stop of typing by `user`, who is typing in `channel`: the
/// user's timer is killed and the channel hears that they stopped.
pub open spec fn stop_actions(
    typing: Map<ChannelKey, Map<UserKey, TaskId>>,
    channel: ChannelKey,
    user: UserKey,
    server: Seq<char>,
    actions: Seq<TypingAction>,
) -> bool {
    &&& actions.len() == 2
    &&& actions[0] == TypingAction::KillTimer(typing[channel][user])
    &&& sends(actions[1], TypingEvent::StopTyping, user, channel, server)
}

impl TypingView {
    /// Every task in use has an id below the next one to be handed out.
    pub open spec fn well_formed(self) -> bool {
        forall|c: ChannelKey, u: UserKey| #[trigger] is_typing(self.typing, c, u) ==> self.typing[c][u] < self.next_task
    }
}

impl TypingInner {
    pub closed spec fn well_formed(&self) -> bool {
        self@.well_formed()
    }

    /// An empty registry.
    pub fn new() -> (res: Self)
        ensures
            res@.typing == Map::<ChannelKey, Map<UserKey, TaskId>>::empty(),
            res@.next_task == 0,
            res.well_formed(),
    {
        let res = TypingInner { inner: HashMap::new(), next_task: 0 };
        assert(res@.typing =~= Map::<ChannelKey, Map<UserKey, TaskId>>::empty());
        res
    }

    /// A new task for `user` in `channel`, with a fresh id.
    ///
    /// # Errors
    /// `No task id left` once every id has been handed out.
    pub fn new_task(&mut self, user: UserKey, channel: ChannelKey, server: &String) -> (res: Result<Task, String>)
        requires
            old(self).well_formed(),
        ensures
            final(self).well_formed(),
            final(self)@.typing == old(self)@.typing,
            old(self)@.next_task < u64::MAX ==> (res matches Ok(t) && t.id == old(self)@.next_task
                && t.user == user && t.channel == channel && t.server@ == server@
                && final(self)@.next_task == old(self)@.next_task + 1),
            old(self)@.next_task == u64::MAX ==> (res matches Err(e) && e@ == "No task id left"@ && final(self)@ == old(self)@),
    {
        if self.next_task == u64::MAX {
            return Err(String::from_str("No task id left"));
        }
        let id = self.next_task;
        self.next_task = id + 1;
        assert forall|c: ChannelKey, u: UserKey| #[trigger] is_typing(self@.typing, c, u) implies self@.typing[c][u] < self@.next_task by {
            assert(is_typing(old(self)@.typing, c, u));
        }
        Ok(Task { id, user, channel, server: server.clone() })
    }

    /// Whether `userid` is typing in `channelid`.
    pub fn user_exists_in_channel(&self, channelid: ChannelKey, userid: UserKey) -> (res: bool)
        ensures
            res == is_typing(self@.typing, channelid, userid),
    {
        broadcast use vstd::std_specs::hash::group_hash_axioms;
        match self.inner.get(&channelid) {
            Some(channel) => channel.contains_key(&userid),
            None => false,
        }
    }

    /// Add `channelid` with no typing user, unless it is there.
    pub fn insert_channel(&mut self, channelid: ChannelKey)
        requires
            old(self).well_formed(),
        ensures
            final(self).well_formed(),
            final(self)@.next_task == old(self)@.next_task,
            final(self)@.typing == with_channel(old(self)@.typing, channelid),
    {
        broadcast use vstd::std_specs::hash::group_hash_axioms;
        if !self.inner.contains_key(&channelid) {
            self.inner.insert(channelid, HashMap::new());
            assert(self@.typing =~= with_channel(old(self)@.typing, channelid));
            assert forall|c: ChannelKey, u: UserKey| #[trigger] is_typing(self@.typing, c, u) implies self@.typing[c][u] < self@.next_task by {
                assert(is_typing(old(self)@.typing, c, u));
            }
        } else {
            assert(self@.typing =~= with_channel(old(self)@.typing, channelid));
        }
    }

    /// Record `task` as the typing task of `userid` in `channelid`, adding the
    /// channel when missing, and start its timer; a user already typing there
    /// keeps their task, and nothing is started.
    pub fn insert_user(&mut self, channelid: ChannelKey, userid: UserKey, task: Task) -> (res: Vec<TypingAction>)
        requires
            old(self).well_formed(),
            task.id < old(self)@.next_task,
        ensures
            final(self).well_formed(),
            final(self)@.next_task == old(self)@.next_task,
            is_typing(old(self)@.typing, channelid, userid) ==> final(self)@.typing == old(self)@.typing && res@.len() == 0,
            !is_typing(old(self)@.typing, channelid, userid) ==> {
                &&& final(self)@.typing == old(self)@.typing.insert(channelid, users_in(old(self)@.typing, channelid).insert(userid, task.id))
                &&& res@.len() == 1
                &&& res@[0] == TypingAction::SpawnTimer(task)
            },
    {
        broadcast use vstd::std_specs::hash::group_hash_axioms;
        self.insert_channel(channelid);
        let ghost mid = self@.typing;
        assert(mid.contains_key(channelid));
        assert(self.inner@.contains_key(channelid));
        let mut channel = match self.inner.remove(&channelid) {
            Some(c) => c,
            None => {
                assert(false);
                return Vec::new();
            },
        };
        assert(channel@ == mid[channelid]);
        assert(mid[channelid] == users_in(old(self)@.typing, channelid));
        let mut actions: Vec<TypingAction> = Vec::new();
        if !channel.contains_key(&userid) {
            channel.insert(userid, task.id);
            actions.push(TypingAction::SpawnTimer(task));
        }
        let ghost channel_view = channel@;
        self.inner.insert(channelid, channel);
        assert(self@.typing =~= mid.insert(channelid, channel_view));
        proof {
            if is_typing(old(self)@.typing, channelid, userid) {
                assert(self@.typing =~= mid);
                assert(mid =~= old(self)@.typing);
            } else {
                assert(channel_view =~= users_in(old(self)@.typing, channelid).insert(userid, task.id));
                assert(self@.typing =~= old(self)@.typing.insert(channelid, users_in(old(self)@.typing, channelid).insert(userid, task.id)));
            }
        }
        assert forall|c: ChannelKey, u: UserKey| #[trigger] is_typing(self@.typing, c, u) implies self@.typing[c][u] < self@.next_task by {
            if !(c == channelid && u == userid) {
                assert(is_typing(old(self)@.typing, c, u));
            }
        }
        actions
    }

    /// Give `userid` in `channelid` a new task: the old task's timer, if the
    /// user had one, is killed, and the new task's timer is started.
    ///
    /// # Errors
    /// `No Channel in HashMap` when the channel is not registered; the error
    /// of [`TypingInner::new_task`] when no id is left.
    pub fn renew_typing(&mut self, channelid: ChannelKey, userid: UserKey, serverid: String) -> (res: Result<Vec<TypingAction>, String>)
        requires
            old(self).well_formed(),
        ensures
            final(self).well_formed(),
            !old(self)@.typing.contains_key(channelid) ==> (res matches Err(e) && e@ == "No Channel in HashMap"@ && final(self)@ == old(self)@),
            old(self)@.typing.contains_key(channelid) && old(self)@.next_task == u64::MAX ==> (res is Err && final(self)@ == old(self)@),
            old(self)@.typing.contains_key(channelid) && old(self)@.next_task < u64::MAX ==> {
                &&& res matches Ok(actions) && (if is_typing(old(self)@.typing, channelid, userid) {
                        actions@.len() == 2 && actions@[0] == TypingAction::KillTimer(old(self)@.typing[channelid][userid])
                            && spawns(actions@[1], old(self)@.next_task, userid, channelid, serverid@)
                    } else {
                        actions@.len() == 1 && spawns(actions@[0], old(self)@.next_task, userid, channelid, serverid@)
                    })
                &&& final(self)@.next_task == old(self)@.next_task + 1
                &&& final(self)@.typing == old(self)@.typing.insert(channelid, old(self)@.typing[channelid].insert(userid, old(self)@.next_task))
            },
    {
        broadcast use vstd::std_specs::hash::group_hash_axioms;
        if !self.inner.contains_key(&channelid) {
            return Err(String::from_str("No Channel in HashMap"));
        }
        let task = self.new_task(userid, channelid, &serverid)?;
        let ghost mid = self@.typing;
        let mut usertypings = match self.inner.remove(&channelid) {
            Some(u) => u,
            None => {
                assert(false);
                return Err(String::from_str("No Channel in HashMap"));
            },
        };
        assert(usertypings@ == mid[channelid]);
        let mut actions: Vec<TypingAction> = Vec::new();
        match usertypings.get(&userid) {
            Some(old_task) => actions.push(TypingAction::KillTimer(*old_task)),
            None => {},
        }
        usertypings.insert(userid, task.id);
        let ghost users_view = usertypings@;
        self.inner.insert(channelid, usertypings);
        assert(self@.typing =~= old(self)@.typing.insert(channelid, old(self)@.typing[channelid].insert(userid, task.id)));
        assert forall|c: ChannelKey, u: UserKey| #[trigger] is_typing(self@.typing, c, u) implies self@.typing[c][u] < self@.next_task by {
            if !(c == channelid && u == userid) {
                assert(is_typing(old(self)@.typing, c, u));
            }
        }
        actions.push(TypingAction::SpawnTimer(task));
        Ok(actions)
    }

    /// `userid` starts typing in `channelid`: a user already typing gets a
    /// renewed task; otherwise the user is recorded with a new task, its timer
    /// starts, and the channel hears that the user started typing.
    ///
    /// # Errors
    /// The error of [`TypingInner::new_task`] when no id is left.
    pub fn start_typing(&mut self, channelid: ChannelKey, userid: UserKey, serverid: String) -> (res: Result<Vec<TypingAction>, String>)
        requires
            old(self).well_formed(),
        ensures
            final(self).well_formed(),
            old(self)@.next_task == u64::MAX ==> (res is Err && final(self)@ == old(self)@),
            old(self)@.next_task < u64::MAX ==> {
                &&& res matches Ok(actions)
                    && start_actions(old(self)@.typing, channelid, userid, old(self)@.next_task, serverid@, actions@)
                &&& final(self)@.next_task == old(self)@.next_task + 1
                &&& final(self)@.typing == old(self)@.typing.insert(channelid, users_in(old(self)@.typing, channelid).insert(userid, old(self)@.next_task))
            },
    {
        if self.user_exists_in_channel(channelid, userid) {
            return self.renew_typing(channelid, userid, serverid);
        }
        let task = self.new_task(userid, channelid, &serverid)?;
        let mut actions = self.insert_user(channelid, userid, task);
        actions.push(TypingAction::Send { event: TypingEvent::StartTyping, user: userid, channel: channelid, server: serverid });
        Ok(actions)
    }

    /// `userid` stops typing in `channelid`: their timer is killed, they leave
    /// the channel's typing users, and the channel hears that they stopped.
    ///
    /// # Errors
    /// `No ChannelId in HashMap` or `No User in HashMap` when there is no such
    /// typing user; the registry is then unchanged.
    pub fn stop_typing(&mut self, channelid: ChannelKey, userid: UserKey, serverid: String) -> (res: Result<Vec<TypingAction>, String>)
        requires
            old(self).well_formed(),
        ensures
            final(self).well_formed(),
            final(self)@.next_task == old(self)@.next_task,
            !old(self)@.typing.contains_key(channelid) ==> (res matches Err(e) && e@ == "No ChannelId in HashMap"@ && final(self)@ == old(self)@),
            old(self)@.typing.contains_key(channelid) && !old(self)@.typing[channelid].contains_key(userid)
                ==> (res matches Err(e) && e@ == "No User in HashMap"@ && final(self)@ == old(self)@),
            is_typing(old(self)@.typing, channelid, userid) ==> {
                &&& res matches Ok(actions) && stop_actions(old(self)@.typing, channelid, userid, serverid@, actions@)
                &&& final(self)@.typing == old(self)@.typing.insert(channelid, old(self)@.typing[channelid].remove(userid))
            },
    {
        broadcast use vstd::std_specs::hash::group_hash_axioms;
        let mut users = match self.inner.remove(&channelid) {
            Some(u) => u,
            None => {
                assert(self@.typing =~= old(self)@.typing);
                return Err(String::from_str("No ChannelId in HashMap"));
            },
        };
        let task = match users.get(&userid) {
            Some(t) => *t,
            None => {
                self.inner.insert(channelid, users);
                assert(self@.typing =~= old(self)@.typing);
                return Err(String::from_str("No User in HashMap"));
            },
        };
        users.remove(&userid);
        let ghost users_view = users@;
        self.inner.insert(channelid, users);
        assert(self@.typing =~= old(self)@.typing.insert(channelid, old(self)@.typing[channelid].remove(userid)));
        assert forall|c: ChannelKey, u: UserKey| #[trigger] is_typing(self@.typing, c, u) implies self@.typing[c][u] < self@.next_task by {
            assert(is_typing(old(self)@.typing, c, u));
        }
        let mut actions: Vec<TypingAction> = Vec::new();
        actions.push(TypingAction::KillTimer(task));
        actions.push(TypingAction::Send { event: TypingEvent::StopTyping, user: userid, channel: channelid, server: serverid });
        Ok(actions)
    }
}

} // verus!

verus! {

/// A request to the typing manager.
pub enum TypingMessage {
    /// The websocket manager is now reachable.
    SetWebSocketManager,
    /// The typing manager can now reach itself (for the timers).
    SetTypingManager,
    /// The database is now reachable.
    SetDatabase,
    StartTyping(UserKey, ChannelKey, String),
    StopTyping(UserKey, ChannelKey, String),
}

/// The typing manager: which of its collaborators it can reach, and its registry.
pub struct TypingStruct {
    wbsocketmanager: bool,
    selfmanager: bool,
    database: bool,
    inner: TypingInner,
}

impl TypingStruct {
    pub closed spec fn has_websocketmanager(&self) -> bool {
        self.wbsocketmanager
    }

    pub closed spec fn has_selfmanager(&self) -> bool {
        self.selfmanager
    }

    pub closed spec fn has_database(&self) -> bool {
        self.database
    }

    /// The registry as plain values.
    pub closed spec fn registry(&self) -> TypingView {
        self.inner@
    }

    pub closed spec fn well_formed(&self) -> bool {
        self.inner.well_formed()
    }

    /// A manager that reaches nothing yet, with an empty registry.
    pub fn new() -> (res: Self)
        ensures
            !res.has_websocketmanager() && !res.has_selfmanager() && !res.has_database(),
            res.registry().typing == Map::<ChannelKey, Map<UserKey, TaskId>>::empty(),
            res.well_formed(),
    {
        TypingStruct { wbsocketmanager: false, selfmanager: false, database: false, inner: TypingInner::new() }
    }

    pub fn set_websocketmanager(&mut self)
        ensures
            final(self).has_websocketmanager(),
            final(self).has_selfmanager() == old(self).has_selfmanager(),
            final(self).has_database() == old(self).has_database(),
            final(self).registry() == old(self).registry(),
            final(self).well_formed() == old(self).well_formed(),
    {
        self.wbsocketmanager = true;
    }

    pub fn set_selfmanager(&mut self)
        ensures
            final(self).has_selfmanager(),
            final(self).has_websocketmanager() == old(self).has_websocketmanager(),
            final(self).has_database() == old(self).has_database(),
            final(self).registry() == old(self).registry(),
            final(self).well_formed() == old(self).well_formed(),
    {
        self.selfmanager = true;
    }

    pub fn set_database(&mut self)
        ensures
            final(self).has_database(),
            final(self).has_websocketmanager() == old(self).has_websocketmanager(),
            final(self).has_selfmanager() == old(self).has_selfmanager(),
            final(self).registry() == old(self).registry(),
            final(self).well_formed() == old(self).well_formed(),
    {
        self.database = true;
    }

    /// Handle a request. Typing starts only once the websocket manager, the
    /// manager itself and the database are reachable, and stops once the
    /// websocket manager and the database are; before that the request is
    /// dropped. Returns what to do, or the registry's error.
    pub fn on_receiver(&mut self, message: TypingMessage) -> (res: Result<Vec<TypingAction>, String>)
        requires
            old(self).well_formed(),
        ensures
            final(self).well_formed(),
            match message {
                TypingMessage::SetWebSocketManager => {
                    &&& final(self).has_websocketmanager()
                    &&& final(self).has_selfmanager() == old(self).has_selfmanager()
                    &&& final(self).has_database() == old(self).has_database()
                    &&& final(self).registry() == old(self).registry()
                    &&& res matches Ok(a) && a@.len() == 0
                },
                TypingMessage::SetTypingManager => {
                    &&& final(self).has_selfmanager()
                    &&& final(self).has_websocketmanager() == old(self).has_websocketmanager()
                    &&& final(self).has_database() == old(self).has_database()
                    &&& final(self).registry() == old(self).registry()
                    &&& res matches Ok(a) && a@.len() == 0
                },
                TypingMessage::SetDatabase => {
                    &&& final(self).has_database()
                    &&& final(self).has_websocketmanager() == old(self).has_websocketmanager()
                    &&& final(self).has_selfmanager() == old(self).has_selfmanager()
                    &&& final(self).registry() == old(self).registry()
                    &&& res matches Ok(a) && a@.len() == 0
                },
                TypingMessage::StartTyping(user, channel, server) => {
                    let before = old(self).registry();
                    &&& final(self).has_websocketmanager() == old(self).has_websocketmanager()
                    &&& final(self).has_selfmanager() == old(self).has_selfmanager()
                    &&& final(self).has_database() == old(self).has_database()
                    &&& if !(old(self).has_websocketmanager() && old(self).has_selfmanager() && old(self).has_database()) {
                        final(self).registry() == before && (res matches Ok(a) && a@.len() == 0)
                    } else if before.next_task == u64::MAX {
                        final(self).registry() == before && res is Err
                    } else {
                        &&& res matches Ok(a) && start_actions(before.typing, channel, user, before.next_task, server@, a@)
                        &&& final(self).registry().next_task == before.next_task + 1
                        &&& final(self).registry().typing == before.typing.insert(channel,
                            users_in(before.typing, channel).insert(user, before.next_task))
                    }
                },
                TypingMessage::StopTyping(user, channel, server) => {
                    let before = old(self).registry();
                    &&& final(self).has_websocketmanager() == old(self).has_websocketmanager()
                    &&& final(self).has_selfmanager() == old(self).has_selfmanager()
                    &&& final(self).has_database() == old(self).has_database()
                    &&& if !(old(self).has_websocketmanager() && old(self).has_database()) {
                        final(self).registry() == before && (res matches Ok(a) && a@.len() == 0)
                    } else if is_typing(before.typing, channel, user) {
                        &&& res matches Ok(a) && stop_actions(before.typing, channel, user, server@, a@)
                        &&& final(self).registry().next_task == before.next_task
                        &&& final(self).registry().typing == before.typing.insert(channel, before.typing[channel].remove(user))
                    } else {
                        res is Err && final(self).registry() == before
                    }
                },
            },
    {
        match message {
            TypingMessage::SetWebSocketManager => {
                self.set_websocketmanager();
                Ok(Vec::new())
            },
            TypingMessage::SetTypingManager => {
                self.set_selfmanager();
                Ok(Vec::new())
            },
            TypingMessage::SetDatabase => {
                self.set_database();
                Ok(Vec::new())
            },
            TypingMessage::StartTyping(user, channelid, serverid) => {
                if self.wbsocketmanager && self.selfmanager && self.database {
                    self.inner.start_typing(channelid, user, serverid)
                } else {
                    Ok(Vec::new())
                }
            },
            TypingMessage::StopTyping(user, channelid, serverid) => {
                if self.wbsocketmanager && self.database {
                    self.inner.stop_typing(channelid, user, serverid)
                } else {
                    Ok(Vec::new())
                }
            },
        }
    }
}

/// A user who was not typing, starts and then stops typing: the registry is
/// back where it was, except that the channel is now registered.
pub proof fn lemma_start_then_stop(s: Map<ChannelKey, Map<UserKey, TaskId>>, channel: ChannelKey, user: UserKey, task: TaskId)
    requires
        !is_typing(s, channel, user),
    ensures
        ({
            let started = s.insert(channel, users_in(s, channel).insert(user, task));
            &&& is_typing(started, channel, user)
            &&& started.insert(channel, started[channel].remove(user)) == with_channel(s, channel)
        }),
{
    let started = s.insert(channel, users_in(s, channel).insert(user, task));
    assert(started[channel].remove(user) =~= users_in(s, channel));
    assert(started.insert(channel, started[channel].remove(user)) =~= with_channel(s, channel));
}

} // verus!
