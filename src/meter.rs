use vstd::prelude::*;

use crate::clock::now_millis;
use crate::player::{Player, PlayerView};
use crate::session::{added, id_pos, lemma_id_pos, names_distinct, session_stats, Entry, PlayerStatistics, Session, StatisticsView};

verus! {

/// The magnitude that a damage event adds: only negative readings count.
pub open spec fn damage_amount(damage: i64) -> u64 {
    if damage < 0 {
        (-damage) as u64
    } else {
        0
    }
}

/// What a meter is: its sessions, oldest first, and the main player's id once
/// one was registered.
pub struct MeterView {
    pub sessions: Seq<Seq<Entry>>,
    pub main_player_id: Option<usize>,
}

impl MeterView {
    pub open spec fn empty() -> MeterView {
        MeterView { sessions: Seq::empty(), main_player_id: None }
    }

    /// The players of the current session.
    pub open spec fn current(self) -> Seq<Entry> {
        self.sessions.last()
    }

    /// The sessions after `name` is added to the current one, which is first
    /// created where there is none.
    pub open spec fn sessions_with(self, name: Seq<char>, id: usize) -> Seq<Seq<Entry>> {
        if self.sessions.len() == 0 {
            seq![added(Seq::empty(), name, id)]
        } else {
            self.sessions.update(self.sessions.len() - 1, added(self.current(), name, id))
        }
    }

    pub open spec fn main_player_registered(self, name: Seq<char>, id: usize) -> MeterView {
        MeterView { sessions: self.sessions_with(name, id), main_player_id: Some(id) }
    }

    pub open spec fn player_registered(self, name: Seq<char>, id: usize) -> MeterView {
        MeterView { sessions: self.sessions_with(name, id), ..self }
    }

    /// After `id` left: a new, empty session where `id` is the main player.
    pub open spec fn after_leave(self, id: usize) -> MeterView {
        if self.main_player_id == Some(id) {
            MeterView { sessions: self.sessions.push(Seq::empty()), ..self }
        } else {
            self
        }
    }

    /// Where the first player with `id` stands in the current session, or -1.
    pub open spec fn player_index(self, id: usize) -> int {
        if self.sessions.len() == 0 {
            -1
        } else {
            id_pos(self.current(), id)
        }
    }

    /// The current player with `id`, where there is one.
    pub open spec fn player(self, id: usize) -> PlayerView {
        self.current()[self.player_index(id)].1
    }

    /// The meter with the current player with `id` replaced by `p`; unchanged
    /// where there is no such player.
    pub open spec fn with_player(self, id: usize, p: PlayerView) -> MeterView {
        let k = self.player_index(id);
        if k >= 0 {
            let s = self.current();
            MeterView {
                sessions: self.sessions.update(self.sessions.len() - 1, s.update(k, (s[k].0, p))),
                ..self
            }
        } else {
            self
        }
    }

    pub open spec fn damage_dealt(self, id: usize, damage: i64) -> MeterView {
        if damage < 0 {
            self.with_player(id, self.player(id).damaged(damage_amount(damage)))
        } else {
            self
        }
    }

    pub open spec fn combat_entered(self, id: usize, now: i64) -> MeterView {
        self.with_player(id, self.player(id).entered(now))
    }

    pub open spec fn combat_left(self, id: usize, now: i64) -> MeterView {
        self.with_player(id, self.player(id).left(now))
    }

    /// No session holds two players under one name.
    pub open spec fn names_distinct_everywhere(self) -> bool {
        forall|i: int| 0 <= i < self.sessions.len() ==> names_distinct(#[trigger] self.sessions[i])
    }

    /// The snapshot of the current session, where there is one.
    pub open spec fn instance_session(self) -> Option<Seq<StatisticsView>> {
        if self.sessions.len() == 0 {
            None
        } else {
            Some(session_stats(self.current()))
        }
    }
}

/// The history of encounters and the identity of the main player.
pub struct Meter {
    instance_sessions: Vec<Session>,
    main_player_id: Option<usize>,
}

impl View for Meter {
    type V = MeterView;

    closed spec fn view(&self) -> MeterView {
        MeterView {
            sessions: self.instance_sessions@.map_values(|s: Session| s@),
            main_player_id: self.main_player_id,
        }
    }
}

impl Meter {
    pub closed spec fn wf(&self) -> bool {
        &&& forall|i: int| 0 <= i < self.instance_sessions.len() ==> #[trigger] self.instance_sessions@[i].wf()
        &&& self@.names_distinct_everywhere()
    }

    pub fn new() -> (r: Meter)
        ensures
            r.wf(),
            r@.names_distinct_everywhere(),
            r@ == MeterView::empty(),
    {
        let r = Meter { instance_sessions: Vec::new(), main_player_id: None };
        assert(r@.sessions =~= Seq::<Seq<Entry>>::empty());
        r
    }

    /// The number of sessions recorded so far.
    pub fn session_count(&self) -> (r: usize)
        ensures
            r == self@.sessions.len(),
    {
        self.instance_sessions.len()
    }

    /// Adds `name` to the current session, creating it where there is none.
    fn add_to_current(&mut self, name: &str, id: usize)
        requires
            old(self).wf(),
        ensures
            final(self).wf(),
            final(self)@.names_distinct_everywhere(),
            final(self)@.sessions == old(self)@.sessions_with(name@, id),
            final(self).main_player_id == old(self).main_player_id,
    {
        let mut session = match self.instance_sessions.pop() {
            Some(s) => s,
            None => Session::new(),
        };
        session.add_player(name, id);
        self.instance_sessions.push(session);
        assert(self@.sessions =~= old(self)@.sessions_with(name@, id));
    }

    /// Sets the main player and adds it to the current session, which is
    /// first created where there is none.
    pub fn register_main_player(&mut self, name: &str, id: usize)
        requires
            old(self).wf(),
        ensures
            final(self).wf(),
            final(self)@.names_distinct_everywhere(),
            final(self)@ == old(self)@.main_player_registered(name@, id),
    {
        self.add_to_current(name, id);
        self.main_player_id = Some(id);
    }

    /// Starts a new session where `id` is the main player. `None` where no
    /// main player was registered yet.
    ///
    /// The session that ends is left as it is: a combat interval still open
    /// in it is dropped, not added to the time in combat, since its players
    /// do not carry over to the new session.
    pub fn register_leave(&mut self, id: usize) -> (r: Option<()>)
        requires
            old(self).wf(),
        ensures
            final(self).wf(),
            final(self)@.names_distinct_everywhere(),
            final(self)@ == old(self)@.after_leave(id),
            r == (if old(self)@.main_player_id is Some { Some(()) } else { None }),
    {
        let main_player_id = match self.main_player_id {
            Some(m) => m,
            None => return None,
        };
        if id == main_player_id {
            self.instance_sessions.push(Session::new());
            assert(self@.sessions =~= old(self)@.sessions.push(Seq::empty()));
        }
        Some(())
    }

    /// Adds a player to the current session, which is first created where
    /// there is none.
    pub fn register_player(&mut self, name: &str, id: usize)
        requires
            old(self).wf(),
        ensures
            final(self).wf(),
            final(self)@.names_distinct_everywhere(),
            final(self)@ == old(self)@.player_registered(name@, id),
    {
        self.add_to_current(name, id);
    }
    /// The position of the current player with `player_id`, and that player.
    fn find_current(&self, player_id: usize) -> (r: Option<(usize, Player)>)
        requires
            self.wf(),
        ensures
            match r {
                None => self@.player_index(player_id) < 0,
                Some((k, p)) => k == self@.player_index(player_id) && p@ == self@.player(player_id),
            },
    {
        let n = self.instance_sessions.len();
        if n == 0 {
            return None;
        }
        let session = &self.instance_sessions[n - 1];
        assert(self@.sessions.len() == n);
        assert(self@.current() == session@);
        proof {
            lemma_id_pos(session@, player_id);
        }
        match session.get_player_by_id(player_id) {
            Some(k) => Some((k, session.player(k))),
            None => None,
        }
    }

    /// Puts `p` in place of the current player with `player_id`, found at `k`.
    fn put_current(&mut self, player_id: usize, k: usize, p: Player)
        requires
            old(self).wf(),
            k == old(self)@.player_index(player_id),
            k >= 0,
        ensures
            final(self).wf(),
            final(self)@.names_distinct_everywhere(),
            final(self)@ == old(self)@.with_player(player_id, p@),
    {
        proof {
            lemma_id_pos(old(self)@.current(), player_id);
        }
        let mut session = self.instance_sessions.pop().unwrap();
        assert(old(self)@.current() == session@);
        session.set_player(k, p);
        self.instance_sessions.push(session);
        assert(self@.sessions =~= old(self)@.with_player(player_id, p@).sessions);
    }

    /// Counts the magnitude of a negative damage reading for the current
    /// player with `player_id`; other readings are ignored. `None` where
    /// there is no such player.
    ///
    /// The sign rule follows what the event source has been seen to emit,
    /// where a hit shows as a negative change of health. It is kept rather
    /// than inverted: until the source's convention is confirmed, flipping it
    /// could count healing or other positive readings as damage dealt.
    pub fn register_damage_dealt(&mut self, player_id: usize, damage: i64) -> (r: Option<()>)
        requires
            old(self).wf(),
        ensures
            final(self).wf(),
            final(self)@.names_distinct_everywhere(),
            final(self)@ == old(self)@.damage_dealt(player_id, damage),
            r == (if old(self)@.player_index(player_id) >= 0 { Some(()) } else { None }),
    {
        match self.find_current(player_id) {
            None => None,
            Some((k, p)) => {
                if damage < 0 {
                    let mut p = p;
                    p.register_damage_dealt((-(damage as i128)) as u64);
                    self.put_current(player_id, k, p);
                }
                Some(())
            },
        }
    }

    /// Starts a combat interval at `now` for the current player with
    /// `player_id`. `None` where there is no such player.
    pub fn register_combat_enter_at(&mut self, player_id: usize, now: i64) -> (r: Option<()>)
        requires
            old(self).wf(),
        ensures
            final(self).wf(),
            final(self)@.names_distinct_everywhere(),
            final(self)@ == old(self)@.combat_entered(player_id, now),
            r == (if old(self)@.player_index(player_id) >= 0 { Some(()) } else { None }),
    {
        match self.find_current(player_id) {
            None => None,
            Some((k, p)) => {
                let mut p = p;
                p.enter_combat_at(now);
                self.put_current(player_id, k, p);
                Some(())
            },
        }
    }

    /// Closes the combat interval at `now` of the current player with
    /// `player_id`. `None` where there is no such player.
    pub fn register_combat_leave_at(&mut self, player_id: usize, now: i64) -> (r: Option<()>)
        requires
            old(self).wf(),
        ensures
            final(self).wf(),
            final(self)@.names_distinct_everywhere(),
            final(self)@ == old(self)@.combat_left(player_id, now),
            r == (if old(self)@.player_index(player_id) >= 0 { Some(()) } else { None }),
    {
        match self.find_current(player_id) {
            None => None,
            Some((k, p)) => {
                let mut p = p;
                p.leave_combat_at(now);
                self.put_current(player_id, k, p);
                Some(())
            },
        }
    }

    /// Starts a combat interval at the clock's current reading.
    pub fn register_combat_enter(&mut self, player_id: usize) -> (r: Option<()>)
        requires
            old(self).wf(),
        ensures
            final(self).wf(),
            final(self)@.names_distinct_everywhere(),
            exists|now: i64| final(self)@ == old(self)@.combat_entered(player_id, now),
            r == (if old(self)@.player_index(player_id) >= 0 { Some(()) } else { None }),
    {
        let now = now_millis();
        self.register_combat_enter_at(player_id, now)
    }

    /// Closes the combat interval at the clock's current reading.
    pub fn register_combat_leave(&mut self, player_id: usize) -> (r: Option<()>)
        requires
            old(self).wf(),
        ensures
            final(self).wf(),
            final(self)@.names_distinct_everywhere(),
            exists|now: i64| final(self)@ == old(self)@.combat_left(player_id, now),
            r == (if old(self)@.player_index(player_id) >= 0 { Some(()) } else { None }),
    {
        let now = now_millis();
        self.register_combat_leave_at(player_id, now)
    }

    /// The snapshot of the current session; `None` before any session began.
    pub fn get_instance_session(&self) -> (r: Option<Vec<PlayerStatistics>>)
        requires
            self.wf(),
        ensures
            self@.names_distinct_everywhere(),
            match r {
                None => self@.instance_session() is None,
                Some(v) => self@.instance_session() == Some(v@.map_values(|p: PlayerStatistics| p@)),
            },
    {
        let n = self.instance_sessions.len();
        if n == 0 {
            return None;
        }
        Some(self.instance_sessions[n - 1].stats())
    }
}

} // verus!
