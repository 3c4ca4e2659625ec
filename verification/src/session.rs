//! The chats that clients hold upstream.
use vstd::prelude::*;

use crate::numeral;
use crate::numeral::parse_number;
use crate::text;
use crate::text::same_text;

verus! {

/// Expired chats are cleaned up at most once in so many milliseconds.
pub const CLEANUP_INTERVAL_MS: u64 = 60_000;

/// What is known of a chat: its id, the response that its next message follows, when it was opened
/// and when it was last used.
pub struct SessionModel {
    pub chat_id: Seq<char>,
    pub parent_id: Option<Seq<char>>,
    pub created_ms: int,
    pub last_used_ms: int,
}

/// What an entry of the table says: id, parent, opened, last used.
pub open spec fn entry_model(entry: (String, Option<String>, u64, u64)) -> SessionModel {
    SessionModel {
        chat_id: entry.0@,
        parent_id: text::string_option(entry.1),
        created_ms: entry.2 as int,
        last_used_ms: entry.3 as int,
    }
}

/// The concurrent hash map of `dashmap`.
#[verifier::external_type_specification]
#[verifier::external_body]
#[verifier::reject_recursive_types(K)]
#[verifier::reject_recursive_types(V)]
#[verifier::reject_recursive_types(S)]
pub struct ExDashMap<K, V, S>(dashmap::DashMap<K, V, S>);

/// What a `dashmap::DashMap` holds, by key.
pub uninterp spec fn table_of(
    map: dashmap::DashMap<String, (String, Option<String>, u64, u64)>,
) -> Map<Seq<char>, SessionModel>;

/// A table without chats.
pub open spec fn no_sessions() -> Map<Seq<char>, SessionModel> {
    Map::empty()
}

/// A table has so many keys.
pub open spec fn has_size(table: Map<Seq<char>, SessionModel>, size: int) -> bool {
    table.dom().finite() && table.dom().len() == size
}

/// `dashmap::DashMap::new`: a map that holds nothing.
#[verifier::external_body]
fn new_table() -> (map: dashmap::DashMap<String, (String, Option<String>, u64, u64)>)
    ensures
        table_of(map) == no_sessions(),
{
    dashmap::DashMap::new()
}

/// `dashmap::DashMap::len`: how many keys a map holds.
#[verifier::external_body]
fn count(map: &dashmap::DashMap<String, (String, Option<String>, u64, u64)>) -> (len: usize)
    ensures
        has_size(table_of(*map), len as int),
{
    map.len()
}

/// `dashmap::DashMap::get`: what a map holds under a key.
#[verifier::external_body]
fn look_up(
    map: &dashmap::DashMap<String, (String, Option<String>, u64, u64)>,
    key: &str,
) -> (entry: Option<(String, Option<String>, u64, u64)>)
    ensures
        match entry {
            Some(e) => table_of(*map).dom().contains(key@) && table_of(*map)[key@] == entry_model(e),
            None => !table_of(*map).dom().contains(key@),
        },
{
    map.get(key).map(|found| found.value().clone())
}

/// `dashmap::DashMap::insert`: puts an entry under a key, in place of what was there.
#[verifier::external_body]
fn store(
    map: &mut dashmap::DashMap<String, (String, Option<String>, u64, u64)>,
    key: String,
    entry: (String, Option<String>, u64, u64),
)
    ensures
        table_of(*final(map)) == table_of(*old(map)).insert(key@, entry_model(entry)),
{
    map.insert(key, entry);
}

/// `dashmap::DashMap::remove`: takes a key out.
#[verifier::external_body]
fn take_out(map: &mut dashmap::DashMap<String, (String, Option<String>, u64, u64)>, key: &str)
    ensures
        table_of(*final(map)) == table_of(*old(map)).remove(key@),
{
    map.remove(key);
}

/// `dashmap::DashMap::retain`: keeps the entries that are not outdated.
#[verifier::external_body]
fn retain_fresh(
    map: &mut dashmap::DashMap<String, (String, Option<String>, u64, u64)>,
    ttl_secs: u64,
    uptime_ms: u64,
)
    ensures
        table_of(*final(map)) == fresh_part(
            table_of(*old(map)),
            ttl_secs as int,
            uptime_ms as int,
        ),
{
    map.retain(|_, entry| not_outdated(entry.2, ttl_secs, uptime_ms));
}

/// `dashmap::DashMap::iter`: every key once, with when its chat was last used. The order is left
/// open.
#[verifier::external_body]
fn last_uses(map: &dashmap::DashMap<String, (String, Option<String>, u64, u64)>) -> (uses: Vec<
    (String, u64),
>)
    ensures
        forall|i: int|
            0 <= i < uses@.len() ==> table_of(*map).dom().contains((#[trigger] uses@[i]).0@)
                && table_of(*map)[uses@[i].0@].last_used_ms == uses@[i].1,
        forall|key: Seq<char>| #[trigger]
            table_of(*map).dom().contains(key) ==> exists|i: int|
                0 <= i < uses@.len() && (#[trigger] uses@[i]).0@ == key,
{
    map.iter().map(|item| (item.key().clone(), item.value().3)).collect()
}

/// A chat that was opened at `created` still holds at `now`, both in milliseconds.
pub open spec fn holds(created: int, ttl_secs: int, now: int) -> bool {
    created + ttl_secs * 1000 > now
}

/// Whether a chat still holds.
fn not_outdated(created: u64, ttl_secs: u64, now: u64) -> (yes: bool)
    ensures
        yes == holds(created as int, ttl_secs as int, now as int),
{
    created as u128 + ttl_secs as u128 * 1000 > now as u128
}

/// The entries of a table that still hold.
pub open spec fn fresh_part(
    table: Map<Seq<char>, SessionModel>,
    ttl_secs: int,
    now: int,
) -> Map<Seq<char>, SessionModel> {
    Map::new(
        |key: Seq<char>| table.dom().contains(key) && holds(table[key].created_ms, ttl_secs, now),
        |key: Seq<char>| table[key],
    )
}

/// The minutes for which a chat is held, as seconds: from the value of
/// `QWEN_PROXY_SESSION_TTL_MINUTES`, and half an hour where it is unset or no number.
pub open spec fn ttl_seconds(value: Option<Seq<char>>) -> int {
    match value {
        Some(v) => match number_64(v) {
            Some(minutes) => minutes * 60,
            None => 1800,
        },
        None => 1800,
    }
}

/// The number that a text writes, if it fits into 64 bits.
pub open spec fn number_64(value: Seq<char>) -> Option<int> {
    match numeral::number_in(value) {
        Some(n) => if n <= u64::MAX {
            Some(n as int)
        } else {
            None
        },
        None => None,
    }
}

/// How long a chat is held, in seconds, given the value of `QWEN_PROXY_SESSION_TTL_MINUTES`.
pub fn session_ttl(value: Option<&str>) -> (seconds: u64)
    requires
        ttl_seconds(text::text_option(value)) <= u64::MAX,
    ensures
        seconds == ttl_seconds(text::text_option(value)),
{
    match value {
        Some(v) => match parse_number(v) {
            Some(minutes) => minutes * 60,
            None => 1800,
        },
        None => 1800,
    }
}

/// How many chats are held at most, given the value of `QWEN_PROXY_MAX_SESSIONS`: 100 where it is
/// unset or no number.
pub open spec fn session_limit(value: Option<Seq<char>>) -> int {
    match value {
        Some(v) => match number_64(v) {
            Some(n) => if n <= usize::MAX {
                n
            } else {
                100
            },
            None => 100,
        },
        None => 100,
    }
}

/// How many chats are held at most, given the value of `QWEN_PROXY_MAX_SESSIONS`.
pub fn max_sessions(value: Option<&str>) -> (limit: usize)
    ensures
        limit == session_limit(text::text_option(value)),
{
    match value {
        Some(v) => match parse_number(v) {
            Some(n) => if n <= usize::MAX as u64 {
                n as usize
            } else {
                100
            },
            None => 100,
        },
        None => 100,
    }
}

/// How long chats are held, and how many.
#[derive(Debug, Clone, Copy)]
pub struct SessionLimits {
    pub ttl_secs: u64,
    pub max_sessions: usize,
}

/// A moment on two clocks: the milliseconds that the process has run, and those since the epoch.
#[derive(Debug, Clone, Copy)]
pub struct Moment {
    pub uptime_ms: u64,
    pub unix_ms: u64,
}

/// A chat that a request holds until it is answered.
#[derive(Debug)]
pub struct AcquiredSession {
    pub chat_id: String,
    pub parent_id: Option<String>,
    pub last_used_ms: u64,
}

impl AcquiredSession {
    /// Notes the response that the next message of the chat follows.
    pub fn set_parent_id(&mut self, parent_id: String, now_ms: u64)
        ensures
            final(self).parent_id == Some(parent_id),
            final(self).last_used_ms == now_ms,
            final(self).chat_id == old(self).chat_id,
    {
        self.parent_id = Some(parent_id);
        self.last_used_ms = now_ms;
    }
}

/// What an attempt to acquire a chat comes to.
#[derive(Debug)]
pub enum Acquired {
    /// The chat that the client already holds.
    Reused(AcquiredSession),
    /// The client holds no chat: one has to be opened.
    CreateChat,
}

/// The chats of all clients, by client key.
pub struct SessionManager {
    sessions: dashmap::DashMap<String, (String, Option<String>, u64, u64)>,
    last_cleanup_ms: u64,
}

/// What a [`SessionManager`] says: its chats and when it last cleaned up.
pub struct ManagerModel {
    pub table: Map<Seq<char>, SessionModel>,
    pub last_cleanup_ms: int,
}

impl ManagerModel {
    /// The table holds finitely many chats.
    pub open spec fn wf(self) -> bool {
        self.table.dom().finite()
    }
}

/// A table after the clean-up that is due at `now`, if any.
pub open spec fn cleaned(manager: ManagerModel, ttl_secs: int, now: Moment) -> ManagerModel {
    if now.unix_ms - manager.last_cleanup_ms > CLEANUP_INTERVAL_MS {
        ManagerModel {
            table: fresh_part(manager.table, ttl_secs, now.uptime_ms as int),
            last_cleanup_ms: now.unix_ms as int,
        }
    } else {
        manager
    }
}

/// No chat was used less recently than that of `key`.
pub open spec fn least_used(table: Map<Seq<char>, SessionModel>, key: Seq<char>) -> bool {
    &&& table.dom().contains(key)
    &&& forall|other: Seq<char>| #[trigger]
        table.dom().contains(other) ==> table[key].last_used_ms <= table[other].last_used_ms
}

/// A table makes room: it loses the chat that was used least recently, if it has any.
pub open spec fn evicts(
    before: Map<Seq<char>, SessionModel>,
    after: Map<Seq<char>, SessionModel>,
) -> bool {
    if before.dom() == Set::<Seq<char>>::empty() {
        after == before
    } else {
        exists|key: Seq<char>| #[trigger] least_used(before, key) && after == before.remove(key)
    }
}

/// A table is ready for one more chat: one that is full makes room.
pub open spec fn makes_room(
    before: Map<Seq<char>, SessionModel>,
    after: Map<Seq<char>, SessionModel>,
    limit: int,
) -> bool {
    if before.dom().len() >= limit {
        evicts(before, after)
    } else {
        after == before
    }
}

/// The client holds a chat that has not expired.
pub open spec fn reusable(
    table: Map<Seq<char>, SessionModel>,
    key: Seq<char>,
    ttl_secs: int,
    now: Moment,
) -> bool {
    table.dom().contains(key) && age(table[key].created_ms, now.uptime_ms as int) < ttl_secs * 1000
}

/// How long ago something happened; what lies ahead has not yet aged.
pub open spec fn age(then: int, now: int) -> int {
    if now < then {
        0
    } else {
        now - then
    }
}

/// A table after a client asks for its chat: one that can be reused counts as used now, one that
/// has expired is gone.
pub open spec fn asked(
    table: Map<Seq<char>, SessionModel>,
    key: Seq<char>,
    ttl_secs: int,
    now: Moment,
) -> Map<Seq<char>, SessionModel> {
    if reusable(table, key, ttl_secs, now) {
        table.insert(key, SessionModel { last_used_ms: now.unix_ms as int, ..table[key] })
    } else {
        table.remove(key)
    }
}

/// A session is that of an entry of a table.
pub open spec fn same_session(session: AcquiredSession, entry: SessionModel) -> bool {
    &&& session.chat_id@ == entry.chat_id
    &&& text::string_option(session.parent_id) == entry.parent_id
    &&& session.last_used_ms == entry.last_used_ms
}

/// A client asks for its chat: what is due is cleaned up, a full table makes room, and the chat is
/// reused where the client still holds it.
pub open spec fn acquires(
    before: ManagerModel,
    after: ManagerModel,
    key: Seq<char>,
    limits: SessionLimits,
    now: Moment,
    reused: Option<AcquiredSession>,
) -> bool {
    let clean = cleaned(before, limits.ttl_secs as int, now);
    &&& before.wf()
    &&& after.wf()
    &&& after.last_cleanup_ms == clean.last_cleanup_ms
    &&& exists|table: Map<Seq<char>, SessionModel>|
        {
            &&& #[trigger] makes_room(clean.table, table, limits.max_sessions as int)
            &&& after.table == asked(table, key, limits.ttl_secs as int, now)
            &&& (reused is Some) == reusable(table, key, limits.ttl_secs as int, now)
        }
    &&& reused is Some ==> same_session(reused->0, after.table[key])
}

impl SessionManager {
    /// What the manager says.
    pub closed spec fn view(&self) -> ManagerModel {
        ManagerModel {
            table: table_of(self.sessions),
            last_cleanup_ms: self.last_cleanup_ms as int,
        }
    }

    /// A manager without chats.
    pub fn new() -> (manager: SessionManager)
        ensures
            manager@.wf(),
            manager@.table == no_sessions(),
            manager@.last_cleanup_ms == 0,
    {
        SessionManager { sessions: new_table(), last_cleanup_ms: 0 }
    }

    /// Removes the chats that have expired.
    fn cleanup_expired(&mut self, ttl_secs: u64, uptime_ms: u64)
        ensures
            final(self)@.table == fresh_part(old(self)@.table, ttl_secs as int, uptime_ms as int),
            final(self)@.last_cleanup_ms == old(self)@.last_cleanup_ms,
    {
        retain_fresh(&mut self.sessions, ttl_secs, uptime_ms);
    }

    /// Removes the chat that was used least recently, if there is any.
    fn evict_oldest(&mut self)
        ensures
            evicts(old(self)@.table, final(self)@.table),
            final(self)@.last_cleanup_ms == old(self)@.last_cleanup_ms,
    {
        let ghost table = table_of(self.sessions);
        let uses = last_uses(&self.sessions);
        if uses.len() == 0 {
            assert(table.dom() =~= Set::<Seq<char>>::empty());
            return ;
        }
        let mut best: usize = 0;
        let mut i: usize = 1;
        while i < uses.len()
            invariant
                best < i <= uses@.len(),
                forall|j: int| 0 <= j < i ==> uses@[best as int].1 <= (#[trigger] uses@[j]).1,
            decreases uses@.len() - i,
        {
            if uses[i].1 < uses[best].1 {
                best = i;
            }
            i += 1;
        }
        proof {
            let key = uses@[best as int].0@;
            assert forall|other: Seq<char>| #[trigger] table.dom().contains(other) implies table[key].last_used_ms
                <= table[other].last_used_ms by {
                let k = choose|k: int| 0 <= k < uses@.len() && (#[trigger] uses@[k]).0@ == other;
                assert(uses@[best as int].1 <= uses@[k].1);
            }
            assert(least_used(table, key));
        }
        take_out(&mut self.sessions, uses[best].0.as_str());
    }

    /// Asks for the chat of a client.
    pub fn acquire(&mut self, client_key: &str, limits: &SessionLimits, now: &Moment) -> (acquired:
        Acquired)
        requires
            old(self)@.wf(),
        ensures
            final(self)@.wf(),
            acquires(
                old(self)@,
                final(self)@,
                client_key@,
                *limits,
                *now,
                match acquired {
                    Acquired::Reused(session) => Some(session),
                    Acquired::CreateChat => None,
                },
            ),
    {
        if now.unix_ms > self.last_cleanup_ms && now.unix_ms - self.last_cleanup_ms
            > CLEANUP_INTERVAL_MS {
            self.last_cleanup_ms = now.unix_ms;
            self.cleanup_expired(limits.ttl_secs, now.uptime_ms);
        }
        let ghost clean = self@.table;
        assert(self@ == cleaned(old(self)@, limits.ttl_secs as int, *now));
        proof {
            lemma_part_is_no_larger(clean, old(self)@.table);
        }
        if count(&self.sessions) >= limits.max_sessions {
            self.evict_oldest();
        }
        let ghost table = self@.table;
        assert(makes_room(clean, table, limits.max_sessions as int));
        match look_up(&self.sessions, client_key) {
            Some(entry) => {
                let age: u64 = if now.uptime_ms < entry.2 {
                    0
                } else {
                    now.uptime_ms - entry.2
                };
                if (age as u128) < limits.ttl_secs as u128 * 1000 {
                    let (chat_id, parent_id, created_ms, _) = entry;
                    let session = AcquiredSession {
                        chat_id: chat_id.clone(),
                        parent_id: copy_option(&parent_id),
                        last_used_ms: now.unix_ms,
                    };
                    store(
                        &mut self.sessions,
                        client_key.to_owned(),
                        (chat_id, parent_id, created_ms, now.unix_ms),
                    );
                    assert(reusable(table, client_key@, limits.ttl_secs as int, *now));
                    assert(self@.table == asked(table, client_key@, limits.ttl_secs as int, *now));
                    assert(same_session(session, self@.table[client_key@]));
                    Acquired::Reused(session)
                } else {
                    take_out(&mut self.sessions, client_key);
                    assert(self@.table == asked(table, client_key@, limits.ttl_secs as int, *now));
                    Acquired::CreateChat
                }
            },
            None => {
                assert(table.remove(client_key@) =~= table);
                Acquired::CreateChat
            },
        }
    }

    /// Takes up a chat that was opened for a client.
    pub fn insert_new_entry(&mut self, client_key: &str, chat_id: String, now: &Moment) -> (session:
        AcquiredSession)
        requires
            old(self)@.wf(),
        ensures
            final(self)@.wf(),
            final(self)@.table == old(self)@.table.insert(
                client_key@,
                (SessionModel {
                    chat_id: chat_id@,
                    parent_id: None,
                    created_ms: now.uptime_ms as int,
                    last_used_ms: now.unix_ms as int,
                }),
            ),
            final(self)@.last_cleanup_ms == old(self)@.last_cleanup_ms,
            same_session(session, final(self)@.table[client_key@]),
    {
        let session = AcquiredSession {
            chat_id: chat_id.clone(),
            parent_id: None,
            last_used_ms: now.unix_ms,
        };
        store(
            &mut self.sessions,
            client_key.to_owned(),
            (chat_id, None, now.uptime_ms, now.unix_ms),
        );
        session
    }

    /// Keeps what a session has come to, where its chat is still the client's.
    pub fn keep(&mut self, client_key: &str, session: &AcquiredSession)
        requires
            old(self)@.wf(),
        ensures
            final(self)@.wf(),
            final(self)@.table == kept(old(self)@.table, client_key@, *session),
            final(self)@.last_cleanup_ms == old(self)@.last_cleanup_ms,
    {
        if let Some(entry) = look_up(&self.sessions, client_key) {
            if same_text(entry.0.as_str(), session.chat_id.as_str()) {
                store(
                    &mut self.sessions,
                    client_key.to_owned(),
                    (entry.0, copy_option(&session.parent_id), entry.2, session.last_used_ms),
                );
            }
        }
    }

    /// Brings a session up to what its chat has come to meanwhile, where it is still the client's.
    pub fn refresh(&self, client_key: &str, session: &mut AcquiredSession)
        ensures
            final(session).chat_id@ == old(session).chat_id@,
            final(session).last_used_ms == old(session).last_used_ms,
            text::string_option(final(session).parent_id) == refreshed(
                self@.table,
                client_key@,
                *old(session),
            ),
    {
        if let Some(entry) = look_up(&self.sessions, client_key) {
            if same_text(entry.0.as_str(), session.chat_id.as_str()) {
                session.parent_id = entry.1;
            }
        }
    }
}

/// The chat of a session is still the client's.
pub open spec fn still_held(
    table: Map<Seq<char>, SessionModel>,
    key: Seq<char>,
    session: AcquiredSession,
) -> bool {
    table.dom().contains(key) && table[key].chat_id == session.chat_id@
}

/// The response that the next message of a session follows, once it is brought up to its chat.
pub open spec fn refreshed(
    table: Map<Seq<char>, SessionModel>,
    key: Seq<char>,
    session: AcquiredSession,
) -> Option<Seq<char>> {
    if still_held(table, key, session) {
        table[key].parent_id
    } else {
        text::string_option(session.parent_id)
    }
}

/// A table after a session was kept: its parent and last use, where its chat is still the
/// client's.
pub open spec fn kept(
    table: Map<Seq<char>, SessionModel>,
    key: Seq<char>,
    session: AcquiredSession,
) -> Map<Seq<char>, SessionModel> {
    if still_held(table, key, session) {
        table.insert(
            key,
            SessionModel {
                parent_id: text::string_option(session.parent_id),
                last_used_ms: session.last_used_ms as int,
                ..table[key]
            },
        )
    } else {
        table
    }
}

/// The requests that use a chat or wait for one, in the order in which they came. A chat belongs to
/// the request that is first in line for it.
#[derive(Debug)]
pub struct Turns {
    line: Vec<(String, u64)>,
    next: u64,
}

/// What [`Turns`] say: the chat and the ticket of each request, and the next ticket.
pub struct TurnsModel {
    pub line: Seq<(Seq<char>, int)>,
    pub next: int,
}

impl TurnsModel {
    /// Tickets rise along the line, and the next one is above them all.
    pub open spec fn wf(self) -> bool {
        &&& forall|i: int, j: int|
            0 <= i < j < self.line.len() ==> (#[trigger] self.line[i]).1 < (#[trigger] self.line[j]).1
        &&& forall|i: int| 0 <= i < self.line.len() ==> (#[trigger] self.line[i]).1 < self.next
    }
}

/// The ticket of the request to which a chat belongs: the first in line for it.
pub open spec fn turn_of(line: Seq<(Seq<char>, int)>, chat_id: Seq<char>) -> Option<int>
    decreases line.len(),
{
    if line.len() == 0 {
        None
    } else if line[0].0 == chat_id {
        Some(line[0].1)
    } else {
        turn_of(line.skip(1), chat_id)
    }
}

/// A request has left the line; the others stay in their order.
pub open spec fn leaves(
    before: Seq<(Seq<char>, int)>,
    after: Seq<(Seq<char>, int)>,
    ticket: int,
) -> bool {
    ||| exists|i: int| #[trigger] stands_at(before, i, ticket) && after == before.remove(i)
    ||| after == before && forall|i: int|
        0 <= i < before.len() ==> (#[trigger] before[i]).1 != ticket
}

/// The request with a ticket stands at a position of the line.
pub open spec fn stands_at(line: Seq<(Seq<char>, int)>, i: int, ticket: int) -> bool {
    0 <= i < line.len() && line[i].1 == ticket
}

impl Turns {
    /// What the turns say.
    pub closed spec fn view(&self) -> TurnsModel {
        TurnsModel {
            line: Seq::new(
                self.line@.len(),
                |i: int| (self.line@[i].0@, self.line@[i].1 as int),
            ),
            next: self.next as int,
        }
    }

    /// Nobody waits.
    pub fn new() -> (turns: Turns)
        ensures
            turns@.wf(),
            turns@.line == Seq::<(Seq<char>, int)>::empty(),
            turns@.next == 0,
    {
        let turns = Turns { line: Vec::new(), next: 0 };
        assert(turns@.line =~= Seq::<(Seq<char>, int)>::empty());
        turns
    }

    /// Puts a request for a chat at the end of the line, and gives it a ticket; none once all
    /// tickets have been given out.
    pub fn join(&mut self, chat_id: &str) -> (ticket: Option<u64>)
        requires
            old(self)@.wf(),
        ensures
            final(self)@.wf(),
            match ticket {
                Some(t) => {
                    &&& t == old(self)@.next
                    &&& final(self)@.line == old(self)@.line.push((chat_id@, t as int))
                    &&& final(self)@.next == old(self)@.next + 1
                },
                None => old(self)@.next == u64::MAX && final(self)@ == old(self)@,
            },
    {
        if self.next == u64::MAX {
            return None;
        }
        let ghost before = self@;
        let ticket: u64 = self.next;
        self.line.push((chat_id.to_owned(), ticket));
        self.next = ticket + 1;
        assert(self@.line =~= before.line.push((chat_id@, ticket as int)));
        Some(ticket)
    }

    /// Whether a chat belongs to the request with a ticket.
    pub fn may_go(&self, chat_id: &str, ticket: u64) -> (yes: bool)
        ensures
            yes == (turn_of(self@.line, chat_id@) == Some(ticket as int)),
    {
        let ghost line = self@.line;
        let mut i: usize = 0;
        assert(line.skip(0) =~= line);
        while i < self.line.len()
            invariant
                i <= self.line@.len(),
                line == self@.line,
                turn_of(line, chat_id@) == turn_of(line.skip(i as int), chat_id@),
            decreases self.line@.len() - i,
        {
            assert(line.skip(i as int).skip(1) =~= line.skip(i + 1));
            assert(line.skip(i as int)[0] == (self.line@[i as int].0@, self.line@[i as int].1 as int));
            if same_text(self.line[i].0.as_str(), chat_id) {
                return self.line[i].1 == ticket;
            }
            i += 1;
        }
        false
    }

    /// Takes the request with a ticket out of the line: it is done with its chat, or no longer waits
    /// for it.
    pub fn leave(&mut self, ticket: u64)
        requires
            old(self)@.wf(),
        ensures
            final(self)@.wf(),
            leaves(old(self)@.line, final(self)@.line, ticket as int),
            final(self)@.next == old(self)@.next,
    {
        let ghost before = self@;
        let mut i: usize = 0;
        while i < self.line.len()
            invariant
                i <= self.line@.len(),
                self@ == before,
                before == old(self)@,
                before.wf(),
                forall|j: int| 0 <= j < i ==> (#[trigger] before.line[j]).1 != ticket,
            decreases self.line@.len() - i,
        {
            assert(before.line[i as int].1 == self.line@[i as int].1);
            if self.line[i].1 == ticket {
                assert(stands_at(before.line, i as int, ticket as int));
                self.line.remove(i);
                assert(self@.line =~= before.line.remove(i as int));
                return ;
            }
            i += 1;
        }
    }
}

/// One request stands before another in the line, both for one chat.
pub open spec fn stands_before(
    line: Seq<(Seq<char>, int)>,
    chat_id: Seq<char>,
    first: int,
    second: int,
) -> bool {
    exists|i: int, j: int|
        0 <= i < j < line.len() && #[trigger] line[i] == (chat_id, first) && #[trigger] line[j] == (
            chat_id,
            second,
        )
}

/// The request to which a chat belongs stands in the line, and before it none for that chat.
proof fn lemma_turn_of(line: Seq<(Seq<char>, int)>, chat_id: Seq<char>)
    ensures
        match turn_of(line, chat_id) {
            Some(ticket) => exists|k: int|
                0 <= k < line.len() && #[trigger] line[k] == (chat_id, ticket) && forall|i: int|
                    0 <= i < k ==> (#[trigger] line[i]).0 != chat_id,
            None => forall|i: int| 0 <= i < line.len() ==> (#[trigger] line[i]).0 != chat_id,
        },
    decreases line.len(),
{
    if line.len() > 0 {
        if line[0].0 == chat_id {
            assert(line[0] == (chat_id, line[0].1));
        } else {
            let rest = line.skip(1);
            lemma_turn_of(rest, chat_id);
            assert(forall|i: int| 1 <= i < line.len() ==> #[trigger] line[i] == rest[i - 1]);
            if let Some(ticket) = turn_of(rest, chat_id) {
                let k = choose|k: int|
                    0 <= k < rest.len() && #[trigger] rest[k] == (chat_id, ticket) && forall|i: int|
                        0 <= i < k ==> (#[trigger] rest[i]).0 != chat_id;
                assert(line[k + 1] == (chat_id, ticket));
            }
        }
    }
}

/// A request waits for its chat as long as another that came before it uses the chat or waits for
/// it.
pub proof fn law_second_request_waits(
    turns: TurnsModel,
    chat_id: Seq<char>,
    first: int,
    second: int,
)
    requires
        turns.wf(),
        stands_before(turns.line, chat_id, first, second),
    ensures
        turn_of(turns.line, chat_id) != Some(second),
{
    let line = turns.line;
    lemma_turn_of(line, chat_id);
    let (i, j) = choose|i: int, j: int|
        0 <= i < j < line.len() && #[trigger] line[i] == (chat_id, first) && #[trigger] line[j] == (
            chat_id,
            second,
        );
    if turn_of(line, chat_id) == Some(second) {
        let k = choose|k: int|
            0 <= k < line.len() && #[trigger] line[k] == (chat_id, second) && forall|m: int|
                0 <= m < k ==> (#[trigger] line[m]).0 != chat_id;
        assert(!(i < k));
        assert(k < j);
        assert(line[k].1 < line[j].1);
    }
}

/// No request overtakes another: one that stands before another still does so whoever joins the
/// line, and whoever else leaves it.
pub proof fn law_nobody_overtakes(
    before: TurnsModel,
    chat_id: Seq<char>,
    first: int,
    second: int,
    joined: (Seq<char>, int),
    left: int,
    after: Seq<(Seq<char>, int)>,
)
    requires
        stands_before(before.line, chat_id, first, second),
        leaves(before.line, after, left),
        left != first,
        left != second,
    ensures
        stands_before(before.line.push(joined), chat_id, first, second),
        stands_before(after, chat_id, first, second),
{
    let line = before.line;
    let (i, j) = choose|i: int, j: int|
        0 <= i < j < line.len() && #[trigger] line[i] == (chat_id, first) && #[trigger] line[j] == (
            chat_id,
            second,
        );
    let longer = line.push(joined);
    assert(longer[i] == (chat_id, first) && longer[j] == (chat_id, second));
    if after != line {
        let gone = choose|k: int| #[trigger] stands_at(line, k, left) && after == line.remove(k);
        let new_i = if i < gone {
            i
        } else {
            i - 1
        };
        let new_j = if j < gone {
            j
        } else {
            j - 1
        };
        assert(after[new_i] == (chat_id, first) && after[new_j] == (chat_id, second));
    }
}

/// A request that joins the line stands behind all that wait for its chat; and where there are none,
/// the chat is its own at once.
pub proof fn law_requests_take_turns(before: TurnsModel, chat_id: Seq<char>, ticket: int, i: int)
    requires
        before.wf(),
        ticket == before.next,
    ensures
        0 <= i < before.line.len() && before.line[i].0 == chat_id ==> stands_before(
            before.line.push((chat_id, ticket)),
            chat_id,
            before.line[i].1,
            ticket,
        ),
        turn_of(before.line, chat_id) is None ==> turn_of(
            before.line.push((chat_id, ticket)),
            chat_id,
        ) == Some(ticket),
        turn_of(before.line, chat_id) is Some ==> turn_of(
            before.line.push((chat_id, ticket)),
            chat_id,
        ) == turn_of(before.line, chat_id),
{
    let line = before.line;
    let longer = line.push((chat_id, ticket));
    if 0 <= i < line.len() && line[i].0 == chat_id {
        assert(longer[i] == (chat_id, line[i].1));
        assert(longer[line.len() as int] == (chat_id, ticket));
    }
    lemma_turn_behind(line, (chat_id, ticket), chat_id);
}

/// Whoever joins at the end has the chat only where nobody had it.
proof fn lemma_turn_behind(
    line: Seq<(Seq<char>, int)>,
    last: (Seq<char>, int),
    chat_id: Seq<char>,
)
    ensures
        turn_of(line.push(last), chat_id) == match turn_of(line, chat_id) {
            Some(ticket) => Some(ticket),
            None => if last.0 == chat_id {
                Some(last.1)
            } else {
                None
            },
        },
    decreases line.len(),
{
    if line.len() == 0 {
        assert(line.push(last).skip(1) =~= line);
    } else {
        assert(line.push(last).skip(1) =~= line.skip(1).push(last));
        lemma_turn_behind(line.skip(1), last, chat_id);
    }
}

/// Once the request to which a chat belongs leaves, the chat belongs to the next in line.
pub proof fn law_the_next_request_goes(
    before: TurnsModel,
    chat_id: Seq<char>,
    first: int,
    second: int,
    after: Seq<(Seq<char>, int)>,
)
    requires
        before.wf(),
        stands_before(before.line, chat_id, first, second),
        leaves(before.line, after, first),
        forall|i: int|
            0 <= i < before.line.len() && (#[trigger] before.line[i]).0 == chat_id ==> before.line[i].1
                == first || before.line[i].1 >= second,
    ensures
        turn_of(after, chat_id) == Some(second),
{
    let line = before.line;
    let (i, j) = choose|i: int, j: int|
        0 <= i < j < line.len() && #[trigger] line[i] == (chat_id, first) && #[trigger] line[j] == (
            chat_id,
            second,
        );
    let gone = choose|k: int| #[trigger] stands_at(line, k, first) && after == line.remove(k);
    assert(gone == i);
    lemma_turn_of(after, chat_id);
    assert(after[j - 1] == line[j]);
    let ticket = turn_of(after, chat_id)->0;
    let k = choose|k: int|
        0 <= k < after.len() && #[trigger] after[k] == (chat_id, ticket) && forall|m: int|
            0 <= m < k ==> (#[trigger] after[m]).0 != chat_id;
    let old_k = if k < gone {
        k
    } else {
        k + 1
    };
    assert(after[k] == line[old_k]);
    assert(k <= j - 1);
    if old_k < j {
        assert(line[old_k].1 < line[j].1);
    }
}

/// A copy of an optional string.
pub fn copy_option(value: &Option<String>) -> (copy: Option<String>)
    ensures
        text::string_option(copy) == text::string_option(*value),
{
    match value {
        Some(s) => Some(s.clone()),
        None => None,
    }
}

/// The status of the reply to a request whose chat could not be acquired: 401 where the token has
/// expired, else 500.
pub open spec fn acquire_status(message: Seq<char>) -> int {
    if text::has_part(message, "expired"@) {
        401
    } else {
        500
    }
}

/// The status of the reply to a request whose chat could not be acquired.
pub fn acquire_error_status(message: &str) -> (status: u16)
    ensures
        status == acquire_status(message@),
{
    if text::contains(message, "expired") {
        401
    } else {
        500
    }
}

/// A part of a table has no more keys than the table.
proof fn lemma_part_is_no_larger(
    part: Map<Seq<char>, SessionModel>,
    table: Map<Seq<char>, SessionModel>,
)
    requires
        table.dom().finite(),
        part.dom().subset_of(table.dom()),
    ensures
        part.dom().finite(),
        part.dom().len() <= table.dom().len(),
{
    vstd::set_lib::lemma_len_subset(part.dom(), table.dom());
}

/// A table that is within its limit stays within it when a client asks for its chat, and has room
/// for the chat that has to be opened.
pub proof fn law_table_stays_bounded(
    before: ManagerModel,
    after: ManagerModel,
    key: Seq<char>,
    limits: SessionLimits,
    now: Moment,
    reused: Option<AcquiredSession>,
    opened: SessionModel,
)
    requires
        acquires(before, after, key, limits, now, reused),
        before.table.dom().len() <= limits.max_sessions,
        limits.max_sessions > 0,
    ensures
        after.table.dom().len() <= limits.max_sessions,
        reused is None ==> after.table.insert(key, opened).dom().len() <= limits.max_sessions,
{
    let ttl = limits.ttl_secs as int;
    let clean = cleaned(before, ttl, now).table;
    lemma_part_is_no_larger(clean, before.table);
    let table = choose|table: Map<Seq<char>, SessionModel>|
        {
            &&& #[trigger] makes_room(clean, table, limits.max_sessions as int)
            &&& after.table == asked(table, key, ttl, now)
            &&& (reused is Some) == reusable(table, key, ttl, now)
        };
    if clean.dom().len() >= limits.max_sessions {
        let gone = choose|gone: Seq<char>| #[trigger]
            least_used(clean, gone) && table == clean.remove(gone);
        assert(clean.dom() != Set::<Seq<char>>::empty());
        assert(table.dom() =~= clean.dom().remove(gone));
    }
    assert(table.dom().len() < limits.max_sessions);
    if reused is Some {
        assert(after.table.dom() =~= table.dom());
    } else {
        assert(after.table.dom() =~= table.dom().remove(key));
        assert(after.table.insert(key, opened).dom() =~= after.table.dom().insert(key));
    }
}

/// With room in the table, a chat that has not expired is reused.
pub proof fn law_held_chat_is_reused(
    before: ManagerModel,
    after: ManagerModel,
    key: Seq<char>,
    limits: SessionLimits,
    now: Moment,
    reused: Option<AcquiredSession>,
)
    requires
        acquires(before, after, key, limits, now, reused),
        before.table.dom().len() < limits.max_sessions,
        reusable(before.table, key, limits.ttl_secs as int, now),
    ensures
        reused is Some,
        reused->0.chat_id@ == before.table[key].chat_id,
        text::string_option(reused->0.parent_id) == before.table[key].parent_id,
{
    let clean = cleaned(before, limits.ttl_secs as int, now).table;
    lemma_part_is_no_larger(clean, before.table);
    assert(clean.dom().contains(key));
}

/// Until it expires, and with room in the table, a client that comes back gets the chat that it
/// holds, and goes on from the response that was last noted for it.
pub proof fn law_client_comes_back_to_its_chat(
    before: ManagerModel,
    key: Seq<char>,
    session: AcquiredSession,
    noted: ManagerModel,
    after: ManagerModel,
    limits: SessionLimits,
    now: Moment,
    reused: Option<AcquiredSession>,
)
    requires
        still_held(before.table, key, session),
        noted.table == kept(before.table, key, session),
        acquires(noted, after, key, limits, now, reused),
        before.table.dom().len() < limits.max_sessions,
        reusable(before.table, key, limits.ttl_secs as int, now),
    ensures
        reused is Some,
        reused->0.chat_id@ == session.chat_id@,
        text::string_option(reused->0.parent_id) == text::string_option(session.parent_id),
{
    assert(noted.table.dom() =~= before.table.dom());
    law_held_chat_is_reused(noted, after, key, limits, now, reused);
}

/// With room in the table, what other clients ask for leaves a chat that has not expired as it is.
pub proof fn law_others_leave_a_chat_alone(
    before: ManagerModel,
    after: ManagerModel,
    key: Seq<char>,
    other: Seq<char>,
    limits: SessionLimits,
    now: Moment,
    reused: Option<AcquiredSession>,
)
    requires
        acquires(before, after, other, limits, now, reused),
        other != key,
        before.table.dom().len() < limits.max_sessions,
        reusable(before.table, key, limits.ttl_secs as int, now),
    ensures
        after.table.dom().contains(key),
        after.table[key] == before.table[key],
{
    let clean = cleaned(before, limits.ttl_secs as int, now).table;
    lemma_part_is_no_larger(clean, before.table);
    assert(clean.dom().contains(key));
}

/// A request that waited for its chat goes on from the response that the one before it noted.
pub proof fn law_waiting_request_goes_on_from_what_was_noted(
    table: Map<Seq<char>, SessionModel>,
    key: Seq<char>,
    first: AcquiredSession,
    waiting: AcquiredSession,
)
    requires
        still_held(table, key, first),
        waiting.chat_id@ == first.chat_id@,
    ensures
        refreshed(kept(table, key, first), key, waiting) == text::string_option(first.parent_id),
{
}

/// What a clean-up and making room leave of a table was there before, as it is; and with room and
/// nothing to clean up, everything is left.
proof fn lemma_what_is_left(
    before: ManagerModel,
    after: ManagerModel,
    key: Seq<char>,
    limits: SessionLimits,
    now: Moment,
    reused: Option<AcquiredSession>,
) -> (table: Map<Seq<char>, SessionModel>)
    requires
        acquires(before, after, key, limits, now, reused),
    ensures
        makes_room(
            cleaned(before, limits.ttl_secs as int, now).table,
            table,
            limits.max_sessions as int,
        ),
        after.table == asked(table, key, limits.ttl_secs as int, now),
        (reused is Some) == reusable(table, key, limits.ttl_secs as int, now),
        forall|k: Seq<char>| #[trigger]
            table.dom().contains(k) ==> before.table.dom().contains(k) && table[k] == before.table[k],
{
    let ttl = limits.ttl_secs as int;
    let clean = cleaned(before, ttl, now).table;
    let table = choose|table: Map<Seq<char>, SessionModel>|
        {
            &&& #[trigger] makes_room(clean, table, limits.max_sessions as int)
            &&& after.table == asked(table, key, ttl, now)
            &&& (reused is Some) == reusable(table, key, ttl, now)
        };
    assert forall|k: Seq<char>| #[trigger] table.dom().contains(k) implies before.table.dom().contains(
        k,
    ) && table[k] == before.table[k] by {
        assert(clean.dom().contains(k) && table[k] == clean[k]);
    }
    table
}

/// A chat is never made up: the one that a client gets is the one that it held, opened less than the
/// time for which chats are held ago, with the response that was noted for it; and it counts as used
/// now.
pub proof fn law_reused_chats_were_held(
    before: ManagerModel,
    after: ManagerModel,
    key: Seq<char>,
    limits: SessionLimits,
    now: Moment,
    session: AcquiredSession,
)
    requires
        acquires(before, after, key, limits, now, Some(session)),
    ensures
        before.table.dom().contains(key),
        now.uptime_ms - before.table[key].created_ms < limits.ttl_secs * 1000,
        session.chat_id@ == before.table[key].chat_id,
        text::string_option(session.parent_id) == before.table[key].parent_id,
        session.last_used_ms == now.unix_ms,
        after.table.dom().contains(key),
        after.table[key] == (SessionModel {
            chat_id: before.table[key].chat_id,
            parent_id: before.table[key].parent_id,
            created_ms: before.table[key].created_ms,
            last_used_ms: now.unix_ms as int,
        }),
{
    let table = lemma_what_is_left(before, after, key, limits, now, Some(session));
    assert(table.dom().contains(key));
}

/// With room in the table, a client that opened its chat less than the time for which chats are held
/// ago gets it back.
pub proof fn law_fresh_chats_are_given_back(
    before: ManagerModel,
    after: ManagerModel,
    key: Seq<char>,
    limits: SessionLimits,
    now: Moment,
    reused: Option<AcquiredSession>,
)
    requires
        acquires(before, after, key, limits, now, reused),
        before.table.dom().len() < limits.max_sessions,
        before.table.dom().contains(key),
        limits.ttl_secs > 0,
        now.uptime_ms - before.table[key].created_ms < limits.ttl_secs * 1000,
    ensures
        reused is Some,
        reused->0.chat_id@ == before.table[key].chat_id,
        text::string_option(reused->0.parent_id) == before.table[key].parent_id,
{
    law_held_chat_is_reused(before, after, key, limits, now, reused);
}

/// A client that holds no chat, or one that was opened too long ago, has to open one, and holds none
/// until it does.
pub proof fn law_expired_chats_are_gone(
    before: ManagerModel,
    after: ManagerModel,
    key: Seq<char>,
    limits: SessionLimits,
    now: Moment,
    reused: Option<AcquiredSession>,
)
    requires
        acquires(before, after, key, limits, now, reused),
        !before.table.dom().contains(key) || now.uptime_ms - before.table[key].created_ms
            >= limits.ttl_secs * 1000,
    ensures
        reused is None,
        !after.table.dom().contains(key),
{
    let table = lemma_what_is_left(before, after, key, limits, now, reused);
    if reused is Some {
        assert(table.dom().contains(key));
    }
}

/// What a client asks for changes the chats of no other, and adds none.
pub proof fn law_chats_of_others_stay_as_they_are(
    before: ManagerModel,
    after: ManagerModel,
    key: Seq<char>,
    other: Seq<char>,
    limits: SessionLimits,
    now: Moment,
    reused: Option<AcquiredSession>,
)
    requires
        acquires(before, after, key, limits, now, reused),
        other != key,
    ensures
        after.table.dom().contains(other) ==> before.table.dom().contains(other)
            && after.table[other] == before.table[other],
        before.table.dom().contains(other) && before.table.dom().len() < limits.max_sessions && (
        now.unix_ms - before.last_cleanup_ms <= 60000 || before.table[other].created_ms
            + limits.ttl_secs * 1000 > now.uptime_ms) ==> after.table.dom().contains(other),
{
    let table = lemma_what_is_left(before, after, key, limits, now, reused);
    let clean = cleaned(before, limits.ttl_secs as int, now).table;
    lemma_part_is_no_larger(clean, before.table);
    if after.table.dom().contains(other) {
        assert(table.dom().contains(other));
    }
}

/// A full table that needs no clean-up loses one chat to make room, one that was used least recently,
/// and keeps all others.
pub proof fn law_full_tables_lose_the_least_used(
    before: ManagerModel,
    after: ManagerModel,
    key: Seq<char>,
    limits: SessionLimits,
    now: Moment,
    reused: Option<AcquiredSession>,
) -> (gone: Seq<char>)
    requires
        acquires(before, after, key, limits, now, reused),
        now.unix_ms - before.last_cleanup_ms <= 60000,
        before.table.dom().len() >= limits.max_sessions,
        before.table.dom().len() > 0,
    ensures
        before.table.dom().contains(gone),
        forall|other: Seq<char>| #[trigger]
            before.table.dom().contains(other) ==> before.table[gone].last_used_ms
                <= before.table[other].last_used_ms,
        !after.table.dom().contains(gone),
        forall|other: Seq<char>| #[trigger]
            before.table.dom().contains(other) && other != gone && other != key
                ==> after.table.dom().contains(other) && after.table[other] == before.table[other],
{
    let table = lemma_what_is_left(before, after, key, limits, now, reused);
    assert(before.table.dom() != Set::<Seq<char>>::empty());
    let gone = choose|gone: Seq<char>| #[trigger]
        least_used(before.table, gone) && table == before.table.remove(gone);
    gone
}

/// Once a minute has passed since the last clean-up, the chats of other clients that were opened too
/// long ago are gone; before that, the time of the last clean-up stays.
pub proof fn law_clean_ups_come_once_a_minute(
    before: ManagerModel,
    after: ManagerModel,
    key: Seq<char>,
    other: Seq<char>,
    limits: SessionLimits,
    now: Moment,
    reused: Option<AcquiredSession>,
)
    requires
        acquires(before, after, key, limits, now, reused),
    ensures
        now.unix_ms - before.last_cleanup_ms > 60000 ==> after.last_cleanup_ms == now.unix_ms,
        now.unix_ms - before.last_cleanup_ms <= 60000 ==> after.last_cleanup_ms
            == before.last_cleanup_ms,
        now.unix_ms - before.last_cleanup_ms > 60000 && before.table.dom().contains(other)
            && before.table[other].created_ms + limits.ttl_secs * 1000 <= now.uptime_ms
            ==> !after.table.dom().contains(other),
{
    let table = lemma_what_is_left(before, after, key, limits, now, reused);
    let clean = cleaned(before, limits.ttl_secs as int, now).table;
    if table.dom().contains(other) {
        assert(clean.dom().contains(other));
    }
}

/// What a session has come to is kept under its client, and nowhere else, where the chat is still the
/// client's; else nothing changes.
pub proof fn law_kept_sessions_are_noted(
    table: Map<Seq<char>, SessionModel>,
    key: Seq<char>,
    other: Seq<char>,
    session: AcquiredSession,
)
    ensures
        table.dom().contains(key) && table[key].chat_id == session.chat_id@ ==> kept(
            table,
            key,
            session,
        ).dom() == table.dom() && kept(table, key, session)[key] == (SessionModel {
            chat_id: session.chat_id@,
            parent_id: text::string_option(session.parent_id),
            created_ms: table[key].created_ms,
            last_used_ms: session.last_used_ms as int,
        }) && refreshed(kept(table, key, session), key, session) == text::string_option(
            session.parent_id,
        ),
        !(table.dom().contains(key) && table[key].chat_id == session.chat_id@) ==> kept(
            table,
            key,
            session,
        ) == table && refreshed(table, key, session) == text::string_option(session.parent_id),
        other != key && table.dom().contains(other) ==> kept(table, key, session).dom().contains(other)
            && kept(table, key, session)[other] == table[other],
        table.dom().contains(key) && table[key].chat_id == session.chat_id@ ==> refreshed(
            table,
            key,
            session,
        ) == table[key].parent_id,
{
    if table.dom().contains(key) {
        assert(kept(table, key, session).dom() =~= table.dom());
    }
}

/// How long and how many chats are held is as the settings say, in minutes and chats; half an hour and
/// a hundred where they say nothing, or no number.
pub proof fn law_limits_are_as_set(n: nat, text: Seq<char>)
    requires
        n <= u32::MAX,
        numeral::number_in(text) is None,
    ensures
        ttl_seconds(Some(numeral::decimal(n))) == n * 60,
        ttl_seconds(Some(text)) == 1800,
        ttl_seconds(None) == 1800,
        session_limit(Some(numeral::decimal(n))) == n,
        session_limit(Some(text)) == 100,
        session_limit(None) == 100,
{
    numeral::law_written_numbers_read_back(n);
}

/// A request whose chat could not be acquired is answered with status 401 where the message says that
/// something expired, else with 500.
pub proof fn law_expired_tokens_are_unauthorized(before: Seq<char>, after: Seq<char>, message: Seq<char>)
    ensures
        acquire_status(before + "expired"@ + after) == 401,
        !text::has_part(message, "expired"@) ==> acquire_status(message) == 500,
{
    let whole = before + "expired"@ + after;
    let at = before.len() as int;
    assert(whole.subrange(at, at + "expired"@.len()) =~= "expired"@);
    assert(text::occurs_at(whole, "expired"@, at));
}

} // verus!
