use vstd::prelude::*;

use crate::clock::now_millis;

verus! {

/// `a + b`, held at `u64::MAX` where the sum does not fit.
pub open spec fn sat_add(a: u64, b: int) -> u64 {
    if a + b > u64::MAX {
        u64::MAX
    } else {
        (a + b) as u64
    }
}

/// The length of the combat interval from `start` to `now`; a clock that went
/// backwards gives an empty interval.
pub open spec fn elapsed(start: i64, now: i64) -> int {
    if now > start {
        now - start
    } else {
        0
    }
}

/// What a player is: its id, its accumulators, and the start of the combat
/// interval it is in, if any.
pub struct PlayerView {
    pub id: usize,
    pub damage: u64,
    pub time_in_combat: u64,
    pub combat_start: Option<i64>,
}

impl PlayerView {
    /// A player just added to a session.
    pub open spec fn fresh(id: usize) -> PlayerView {
        PlayerView { id, damage: 0, time_in_combat: 0, combat_start: None }
    }

    /// After a combat enter at `now`: a duplicate enter keeps the running interval.
    pub open spec fn entered(self, now: i64) -> PlayerView {
        match self.combat_start {
            Some(_) => self,
            None => PlayerView { combat_start: Some(now), ..self },
        }
    }

    /// After a combat leave at `now`: the running interval is added to the
    /// time in combat; a leave outside combat changes nothing.
    pub open spec fn left(self, now: i64) -> PlayerView {
        match self.combat_start {
            Some(start) => PlayerView {
                time_in_combat: sat_add(self.time_in_combat, elapsed(start, now)),
                combat_start: None,
                ..self
            },
            None => self,
        }
    }

    /// After `amount` more damage was dealt.
    pub open spec fn damaged(self, amount: u64) -> PlayerView {
        PlayerView { damage: sat_add(self.damage, amount as int), ..self }
    }
}

/// One entity's combat participation within one encounter.
#[derive(Clone, Copy)]
pub struct Player {
    id: usize,
    damage: u64,
    time_in_combat: u64,
    combat_start: Option<i64>,
}

impl View for Player {
    type V = PlayerView;

    closed spec fn view(&self) -> PlayerView {
        PlayerView {
            id: self.id,
            damage: self.damage,
            time_in_combat: self.time_in_combat,
            combat_start: self.combat_start,
        }
    }
}

impl Player {
    pub fn new(id: usize) -> (r: Player)
        ensures
            r@ == PlayerView::fresh(id),
    {
        Player { id, damage: 0, time_in_combat: 0, combat_start: None }
    }

    pub fn id(&self) -> (r: usize)
        ensures
            r == self@.id,
    {
        self.id
    }

    pub fn get_damage_dealt(&self) -> (r: u64)
        ensures
            r == self@.damage,
    {
        self.damage
    }

    /// Time spent in completed combat intervals, in milliseconds.
    pub fn get_time_elapsed(&self) -> (r: u64)
        ensures
            r == self@.time_in_combat,
    {
        self.time_in_combat
    }

    pub fn is_in_combat(&self) -> (r: bool)
        ensures
            r == self@.combat_start is Some,
    {
        self.combat_start.is_some()
    }

    /// Starts a combat interval at `now`, unless one is running.
    pub fn enter_combat_at(&mut self, now: i64)
        ensures
            final(self)@ == old(self)@.entered(now),
    {
        if self.combat_start.is_none() {
            self.combat_start = Some(now);
        }
    }

    /// Closes the running combat interval at `now`, if there is one.
    pub fn leave_combat_at(&mut self, now: i64)
        ensures
            final(self)@ == old(self)@.left(now),
    {
        if let Some(start) = self.combat_start {
            let span: u64 = if now > start {
                (now as i128 - start as i128) as u64
            } else {
                0
            };
            self.time_in_combat = self.time_in_combat.saturating_add(span);
            self.combat_start = None;
        }
    }

    /// Starts a combat interval at the clock's current reading, unless one is running.
    pub fn enter_combat(&mut self)
        ensures
            exists|now: i64| final(self)@ == old(self)@.entered(now),
    {
        let now = now_millis();
        self.enter_combat_at(now);
    }

    /// Closes the running combat interval at the clock's current reading, if there is one.
    pub fn leave_combat(&mut self)
        ensures
            exists|now: i64| final(self)@ == old(self)@.left(now),
    {
        let now = now_millis();
        self.leave_combat_at(now);
    }

    pub fn register_damage_dealt(&mut self, amount: u64)
        ensures
            final(self)@ == old(self)@.damaged(amount),
    {
        self.damage = self.damage.saturating_add(amount);
    }
}

} // verus!
