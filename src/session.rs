use vstd::prelude::*;

use crate::player::{Player, PlayerView};

verus! {

/// A named player of a session.
pub type Entry = (Seq<char>, PlayerView);

/// The index of the first `true` in `bs`, or -1 where there is none.
pub open spec fn first_true(bs: Seq<bool>) -> int
    decreases bs.len(),
{
    if bs.len() == 0 {
        -1
    } else {
        let k = first_true(bs.drop_last());
        if k >= 0 {
            k
        } else if bs.last() {
            bs.len() - 1
        } else {
            -1
        }
    }
}

/// `first_true` is the least index that holds `true`, and -1 only where none does.
pub proof fn lemma_first_true(bs: Seq<bool>)
    ensures
        -1 <= first_true(bs) < bs.len(),
        first_true(bs) >= 0 ==> bs[first_true(bs)],
        forall|j: int| 0 <= j < first_true(bs) ==> !bs[j],
        first_true(bs) == -1 ==> forall|j: int| 0 <= j < bs.len() ==> !bs[j],
    decreases bs.len(),
{
    if bs.len() > 0 {
        lemma_first_true(bs.drop_last());
        assert(forall|j: int| 0 <= j < bs.len() - 1 ==> bs.drop_last()[j] == bs[j]);
    }
}

/// For each entry, whether it stands under `name`.
pub open spec fn has_name(s: Seq<Entry>, name: Seq<char>) -> Seq<bool> {
    s.map_values(|e: Entry| e.0 == name)
}

/// For each entry, whether its player has `id`.
pub open spec fn has_id(s: Seq<Entry>, id: usize) -> Seq<bool> {
    s.map_values(|e: Entry| e.1.id == id)
}

/// Where `name` stands among the entries, or -1.
pub open spec fn name_pos(s: Seq<Entry>, name: Seq<char>) -> int {
    first_true(has_name(s, name))
}

/// Where the first player with `id` stands among the entries, or -1.
pub open spec fn id_pos(s: Seq<Entry>, id: usize) -> int {
    first_true(has_id(s, id))
}

/// `id_pos` is a position of the entries holding a player with `id`, or -1.
pub proof fn lemma_id_pos(s: Seq<Entry>, id: usize)
    ensures
        -1 <= id_pos(s, id) < s.len(),
        id_pos(s, id) >= 0 ==> s[id_pos(s, id)].1.id == id,
{
    lemma_first_true(has_id(s, id));
}

/// No two entries share a name.
pub open spec fn names_distinct(s: Seq<Entry>) -> bool {
    forall|i: int, j: int| 0 <= i < s.len() && 0 <= j < s.len() && i != j ==> s[i].0 != s[j].0
}

/// The entries after `name` is added with `id`: a fresh player takes the place
/// of one stored under that name, or comes last.
pub open spec fn added(s: Seq<Entry>, name: Seq<char>, id: usize) -> Seq<Entry> {
    let k = name_pos(s, name);
    if k >= 0 {
        s.update(k, (name, PlayerView::fresh(id)))
    } else {
        s.push((name, PlayerView::fresh(id)))
    }
}

/// Damage per second for `damage` dealt over `time` milliseconds, rounded
/// down; zero where no time was spent in combat.
pub open spec fn dps_of(damage: u64, time: u64) -> u128 {
    if time == 0 {
        0
    } else {
        ((damage as int * 1000) / (time as int)) as u128
    }
}

/// A damage-per-second figure.
#[derive(Debug, Clone, Copy, PartialEq)]
pub struct DPS(u128);

impl View for DPS {
    type V = u128;

    closed spec fn view(&self) -> u128 {
        self.0
    }
}

impl DPS {
    pub fn new(damage: u64, time: u64) -> (r: DPS)
        ensures
            r@ == dps_of(damage, time),
    {
        if time == 0 {
            DPS(0)
        } else {
            DPS((damage as u128 * 1000) / (time as u128))
        }
    }

    pub fn value(&self) -> (r: u128)
        ensures
            r == self@,
    {
        self.0
    }
}

pub struct StatisticsView {
    pub player: Seq<char>,
    pub damage: u64,
    pub time_in_combat: u64,
    pub dps: u128,
}

/// The snapshot of one entry.
pub open spec fn statistics_of(e: Entry) -> StatisticsView {
    StatisticsView {
        player: e.0,
        damage: e.1.damage,
        time_in_combat: e.1.time_in_combat,
        dps: dps_of(e.1.damage, e.1.time_in_combat),
    }
}

/// The snapshot of a whole session, one item per entry, in the entries' order.
pub open spec fn session_stats(s: Seq<Entry>) -> Seq<StatisticsView> {
    s.map_values(|e: Entry| statistics_of(e))
}

/// A point-in-time snapshot of one player; `time_in_combat` is in milliseconds.
#[derive(Debug, Clone, PartialEq)]
pub struct PlayerStatistics {
    pub player: String,
    pub damage: u64,
    pub time_in_combat: u64,
    pub dps: DPS,
}

impl View for PlayerStatistics {
    type V = StatisticsView;

    open spec fn view(&self) -> StatisticsView {
        StatisticsView {
            player: self.player@,
            damage: self.damage,
            time_in_combat: self.time_in_combat,
            dps: self.dps@,
        }
    }
}

/// The players of one encounter, each under a name of its own, kept in the
/// order in which their names were first added.
pub struct Session {
    names: Vec<String>,
    players: Vec<Player>,
}

impl View for Session {
    type V = Seq<Entry>;

    closed spec fn view(&self) -> Seq<Entry> {
        Seq::new(self.names.len() as nat, |i: int| (self.names@[i]@, self.players@[i]@))
    }
}

impl Session {
    pub closed spec fn wf(&self) -> bool {
        &&& self.names.len() == self.players.len()
        &&& names_distinct(self@)
    }

    pub fn new() -> (r: Session)
        ensures
            r.wf(),
            names_distinct(r@),
            r@ == Seq::<Entry>::empty(),
    {
        let r = Session { names: Vec::new(), players: Vec::new() };
        assert(r@ =~= Seq::<Entry>::empty());
        r
    }

    pub fn len(&self) -> (r: usize)
        requires
            self.wf(),
        ensures
            r == self@.len(),
    {
        self.names.len()
    }

    /// The snapshot of every player of the session, with damage per second
    /// computed now.
    pub fn stats(&self) -> (r: Vec<PlayerStatistics>)
        requires
            self.wf(),
        ensures
            names_distinct(self@),
            r@.map_values(|p: PlayerStatistics| p@) == session_stats(self@),
    {
        let mut r: Vec<PlayerStatistics> = Vec::new();
        let mut i: usize = 0;
        while i < self.players.len()
            invariant
                self.wf(),
                i <= self.players.len(),
                r@.len() == i,
                forall|j: int| 0 <= j < i ==> #[trigger] r@[j]@ == statistics_of(self@[j]),
            decreases self.players.len() - i,
        {
            let p = &self.players[i];
            let damage = p.get_damage_dealt();
            let time = p.get_time_elapsed();
            r.push(PlayerStatistics {
                player: self.names[i].clone(),
                damage,
                time_in_combat: time,
                dps: DPS::new(damage, time),
            });
            i += 1;
        }
        assert(r@.map_values(|p: PlayerStatistics| p@) =~= session_stats(self@));
        r
    }

    /// The position of the first player with `player_id`.
    pub fn get_player_by_id(&self, player_id: usize) -> (r: Option<usize>)
        requires
            self.wf(),
        ensures
            match r {
                Some(k) => k == id_pos(self@, player_id),
                None => id_pos(self@, player_id) < 0,
            },
    {
        let ghost bs = has_id(self@, player_id);
        proof {
            lemma_first_true(bs);
        }
        let mut i: usize = 0;
        while i < self.players.len()
            invariant
                self.wf(),
                i <= self.players.len(),
                bs == has_id(self@, player_id),
                forall|j: int| 0 <= j < i ==> !bs[j],
            decreases self.players.len() - i,
        {
            if self.players[i].id() == player_id {
                assert(bs.len() == self@.len());
                assert(bs[i as int]);
                proof {
                    lemma_first_true(bs);
                }
                assert(first_true(bs) == i);
                return Some(i);
            }
            i += 1;
        }
        proof {
            lemma_first_true(bs);
        }
        None
    }

    /// The player at position `i`.
    pub fn player(&self, i: usize) -> (r: Player)
        requires
            self.wf(),
            i < self@.len(),
        ensures
            r@ == self@[i as int].1,
    {
        self.players[i]
    }

    /// Replaces the player at position `i`, under the same name.
    pub fn set_player(&mut self, i: usize, p: Player)
        requires
            old(self).wf(),
            i < old(self)@.len(),
        ensures
            final(self).wf(),
            names_distinct(final(self)@),
            final(self)@ == old(self)@.update(i as int, (old(self)@[i as int].0, p@)),
    {
        self.players.set(i, p);
        assert(self@ =~= old(self)@.update(i as int, (old(self)@[i as int].0, p@)));
    }

    /// Adds a fresh player under `player_name`, in place of any player stored
    /// under that name before.
    pub fn add_player(&mut self, player_name: &str, player_id: usize)
        requires
            old(self).wf(),
        ensures
            final(self).wf(),
            names_distinct(final(self)@),
            final(self)@ == added(old(self)@, player_name@, player_id),
    {
        let name = player_name.to_owned();
        let ghost bs = has_name(self@, player_name@);
        proof {
            lemma_first_true(bs);
        }
        let mut i: usize = 0;
        while i < self.names.len()
            invariant
                self.wf(),
                self.names == old(self).names,
                self.players == old(self).players,
                name@ == player_name@,
                i <= self.names.len(),
                bs == has_name(self@, player_name@),
                forall|j: int| 0 <= j < i ==> !bs[j],
            decreases self.names.len() - i,
        {
            if self.names[i] == name {
                assert(bs.len() == self@.len());
                assert(bs[i as int]);
                proof {
                    lemma_first_true(bs);
                }
                assert(first_true(bs) == i);
                self.players.set(i, Player::new(player_id));
                assert(self@ =~= added(old(self)@, player_name@, player_id));
                return;
            }
            i += 1;
        }
        assert(bs.len() == self@.len());
        proof {
            lemma_first_true(bs);
        }
        assert(first_true(bs) == -1);
        assert forall|j: int| 0 <= j < old(self)@.len() implies old(self)@[j].0 != name@ by {
            assert(!bs[j]);
        }
        self.names.push(name);
        self.players.push(Player::new(player_id));
        assert(self@ =~= added(old(self)@, player_name@, player_id));
    }
}

} // verus!
