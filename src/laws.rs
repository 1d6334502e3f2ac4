//! Laws of the meter, stated over the views that the operations' contracts use.
use vstd::prelude::*;

use crate::meter::{damage_amount, MeterView};
use crate::player::{sat_add, PlayerView};
use crate::session::{
    added, first_true, has_id, has_name, lemma_first_true, lemma_id_pos, name_pos, session_stats, Entry,
    StatisticsView,
};

verus! {

/// Total magnitude of the negative readings among `ds`.
pub open spec fn negative_total(ds: Seq<i64>) -> int
    decreases ds.len(),
{
    if ds.len() == 0 {
        0
    } else {
        negative_total(ds.drop_last()) + damage_amount(ds.last())
    }
}

/// The meter after the damage readings `ds` for `id`, in order.
pub open spec fn damage_sequence(m: MeterView, id: usize, ds: Seq<i64>) -> MeterView
    decreases ds.len(),
{
    if ds.len() == 0 {
        m
    } else {
        damage_sequence(m, id, ds.drop_last()).damage_dealt(id, ds.last())
    }
}

proof fn lemma_negative_total_nonnegative(ds: Seq<i64>)
    ensures
        negative_total(ds) >= 0,
    decreases ds.len(),
{
    if ds.len() > 0 {
        lemma_negative_total_nonnegative(ds.drop_last());
    }
}

/// Replacing the current player with `id` by another with that id keeps it
/// where it was, and a second replacement overrides the first.
proof fn lemma_with_player(m: MeterView, id: usize, p: PlayerView)
    requires
        m.player_index(id) >= 0,
        p.id == id,
    ensures
        m.with_player(id, p).player_index(id) == m.player_index(id),
        m.with_player(id, p).player(id) == p,
        forall|q: PlayerView|
            q.id == id ==> #[trigger] m.with_player(id, p).with_player(id, q) == m.with_player(id, q),
{
    let s = m.current();
    let k = m.player_index(id);
    lemma_id_pos(s, id);
    let t = m.with_player(id, p).current();
    assert(has_id(t, id) =~= has_id(s, id));
    assert forall|q: PlayerView| q.id == id implies #[trigger] m.with_player(id, p).with_player(
        id,
        q,
    ) == m.with_player(id, q) by {
        let k = m.player_index(id);
        assert(t.update(k, (t[k].0, q)) =~= s.update(k, (s[k].0, q)));
        assert(m.with_player(id, p).with_player(id, q).sessions =~= m.with_player(id, q).sessions);
    }
}

/// `r` keeps every session of `m` but the current one, and has as many or more.
pub open spec fn keeps_history(m: MeterView, r: MeterView) -> bool {
    &&& r.sessions.len() >= m.sessions.len()
    &&& forall|i: int| 0 <= i < m.sessions.len() - 1 ==> r.sessions[i] == m.sessions[i]
}

/// The history of sessions is append-only: no event removes a session or
/// changes one before the current one.
pub proof fn lemma_history_append_only(
    m: MeterView,
    name: Seq<char>,
    id: usize,
    damage: i64,
    now: i64,
)
    ensures
        keeps_history(m, m.main_player_registered(name, id)),
        keeps_history(m, m.player_registered(name, id)),
        keeps_history(m, m.after_leave(id)),
        keeps_history(m, m.damage_dealt(id, damage)),
        keeps_history(m, m.combat_entered(id, now)),
        keeps_history(m, m.combat_left(id, now)),
{
}

/// Leaving as the main player ends the encounter: one new, empty session is
/// appended after all earlier ones, so the snapshot no longer shows any
/// player of the session before.
pub proof fn lemma_main_leave_starts_new_session(m: MeterView, id: usize)
    requires
        m.main_player_id == Some(id),
    ensures
        m.after_leave(id).sessions.len() == m.sessions.len() + 1,
        m.after_leave(id).sessions.take(m.sessions.len() as int) == m.sessions,
        m.after_leave(id).instance_session() == Some(Seq::<StatisticsView>::empty()),
{
    assert(m.after_leave(id).sessions.take(m.sessions.len() as int) =~= m.sessions);
    assert(session_stats(Seq::<Entry>::empty()) =~= Seq::<StatisticsView>::empty());
}

/// A leave of any player but the main one never starts a session: the meter
/// stays as it was.
pub proof fn lemma_other_leave_keeps_sessions(m: MeterView, id: usize)
    requires
        m.main_player_id != Some(id),
    ensures
        m.after_leave(id) == m,
{
}

/// After a run of damage readings for a player of the current session, its
/// damage has grown by the magnitudes of the negative readings and by nothing
/// else (held at `u64::MAX`); where there is no such player, nothing changes.
pub proof fn lemma_damage_accumulates(m: MeterView, id: usize, ds: Seq<i64>)
    ensures
        m.player_index(id) >= 0 ==> damage_sequence(m, id, ds) == m.with_player(
            id,
            PlayerView { damage: sat_add(m.player(id).damage, negative_total(ds)), ..m.player(id) },
        ),
        m.player_index(id) < 0 ==> damage_sequence(m, id, ds) == m,
        m.player_index(id) >= 0 && m.player(id).damage + negative_total(ds) <= u64::MAX
            ==> damage_sequence(m, id, ds).player(id).damage == m.player(id).damage
            + negative_total(ds),
    decreases ds.len(),
{
    lemma_negative_total_nonnegative(ds);
    if m.player_index(id) >= 0 {
        lemma_id_pos(m.current(), id);
        lemma_with_player(
            m,
            id,
            PlayerView { damage: sat_add(m.player(id).damage, negative_total(ds)), ..m.player(id) },
        );
    }
    if ds.len() > 0 {
        lemma_damage_accumulates(m, id, ds.drop_last());
        lemma_negative_total_nonnegative(ds.drop_last());
        if m.player_index(id) >= 0 {
            lemma_id_pos(m.current(), id);
            let q = PlayerView {
                damage: sat_add(m.player(id).damage, negative_total(ds.drop_last())),
                ..m.player(id)
            };
            lemma_with_player(m, id, q);
        }
    } else {
        if m.player_index(id) >= 0 {
            lemma_id_pos(m.current(), id);
            let s = m.current();
            let k = m.player_index(id);
            assert(s.update(k, (s[k].0, s[k].1)) =~= s);
            assert(m.with_player(id, m.player(id)).sessions =~= m.sessions);
        }
    }
}

/// Removing one reading takes its magnitude off the total.
proof fn lemma_negative_total_remove(ds: Seq<i64>, j: int)
    requires
        0 <= j < ds.len(),
    ensures
        negative_total(ds) == negative_total(ds.remove(j)) + damage_amount(ds[j]),
    decreases ds.len(),
{
    if j == ds.len() - 1 {
        assert(ds.remove(j) =~= ds.drop_last());
    } else {
        lemma_negative_total_remove(ds.drop_last(), j);
        assert(ds.remove(j).drop_last() =~= ds.drop_last().remove(j));
    }
}

/// Readings that are the same up to order have the same total.
proof fn lemma_negative_total_permutation(a: Seq<i64>, b: Seq<i64>)
    requires
        a.to_multiset() == b.to_multiset(),
    ensures
        negative_total(a) == negative_total(b),
    decreases a.len(),
{
    broadcast use vstd::seq_lib::group_to_multiset_ensures;

    a.to_multiset_ensures();
    b.to_multiset_ensures();
    if a.len() > 0 {
        let x = a.last();
        let rest = a.drop_last();
        assert(a =~= rest.push(x));
        assert(a.to_multiset().count(x) > 0);
        assert(b.contains(x));
        let j = choose|j: int| 0 <= j < b.len() && b[j] == x;
        lemma_negative_total_remove(b, j);
        assert(rest.to_multiset() =~= a.to_multiset().remove(x));
        assert(b.remove(j).to_multiset() =~= b.to_multiset().remove(x));
        lemma_negative_total_permutation(rest, b.remove(j));
        assert(negative_total(a) == negative_total(rest) + damage_amount(x));
    } else {
        assert(b.len() == 0);
    }
}

/// Damage readings for one player give the same meter in every order.
pub proof fn lemma_damage_order_free(m: MeterView, id: usize, ds1: Seq<i64>, ds2: Seq<i64>)
    requires
        ds1.to_multiset() == ds2.to_multiset(),
    ensures
        damage_sequence(m, id, ds1) == damage_sequence(m, id, ds2),
{
    lemma_negative_total_permutation(ds1, ds2);
    lemma_damage_accumulates(m, id, ds1);
    lemma_damage_accumulates(m, id, ds2);
}

/// Two damage readings for the same player give the same meter in either order.
pub proof fn lemma_damage_commutes(m: MeterView, id: usize, a: i64, b: i64)
    ensures
        m.damage_dealt(id, a).damage_dealt(id, b) == m.damage_dealt(id, b).damage_dealt(id, a),
{
    if m.player_index(id) >= 0 {
        lemma_id_pos(m.current(), id);
        let p = m.player(id);
        lemma_with_player(m, id, p.damaged(damage_amount(a)));
        lemma_with_player(m, id, p.damaged(damage_amount(b)));
        assert(p.damaged(damage_amount(a)).damaged(damage_amount(b)) == p.damaged(
            damage_amount(b),
        ).damaged(damage_amount(a)));
    }
}

/// A combat enter at `start` followed by a leave at `end` adds exactly
/// `end - start` to the player's time in combat (held at `u64::MAX`); a
/// second leave, without an enter between, changes nothing.
pub proof fn lemma_combat_interval(m: MeterView, id: usize, start: i64, end: i64, later: i64)
    requires
        m.player_index(id) >= 0,
        m.player(id).combat_start is None,
        start <= end,
    ensures
        m.combat_entered(id, start).combat_left(id, end) == m.with_player(
            id,
            PlayerView {
                time_in_combat: sat_add(m.player(id).time_in_combat, end - start),
                ..m.player(id)
            },
        ),
        m.combat_entered(id, start).combat_left(id, end).combat_left(id, later)
            == m.combat_entered(id, start).combat_left(id, end),
        m.player(id).time_in_combat + (end - start) <= u64::MAX ==> m.combat_entered(
            id,
            start,
        ).combat_left(id, end).player(id).time_in_combat == m.player(id).time_in_combat + (end
            - start),
{
    lemma_id_pos(m.current(), id);
    let p = m.player(id);
    let entered = p.entered(start);
    let left = entered.left(end);
    lemma_with_player(m, id, entered);
    lemma_with_player(m, id, left);
    let r = m.with_player(id, left);
    assert(r.combat_left(id, later) == r.with_player(id, left));
    lemma_with_player(r, id, left);
    let t = r.current();
    let k = r.player_index(id);
    assert(t.update(k, (t[k].0, t[k].1)) =~= t);
    assert(r.with_player(id, left).sessions =~= r.sessions);
}

/// The entry that `added` makes under `name` is a fresh player.
proof fn lemma_added_is_fresh(s: Seq<Entry>, name: Seq<char>, id: usize)
    ensures
        0 <= name_pos(added(s, name, id), name) < added(s, name, id).len(),
        added(s, name, id)[name_pos(added(s, name, id), name)] == (name, PlayerView::fresh(id)),
{
    let bs = has_name(s, name);
    let t = added(s, name, id);
    let bt = has_name(t, name);
    lemma_first_true(bs);
    lemma_first_true(bt);
    if first_true(bs) >= 0 {
        assert(bt =~= bs);
    } else {
        assert(bt.drop_last() =~= bs);
    }
}

/// Adding a player under a name already in use within the current session
/// resets that name's player: whatever it had accumulated, it now has no
/// damage, no time in combat and no running interval.
pub proof fn lemma_reregister_resets(m: MeterView, name: Seq<char>, id: usize)
    ensures
        m.player_registered(name, id).sessions.len() == (if m.sessions.len() == 0 {
            1
        } else {
            m.sessions.len()
        }),
        0 <= name_pos(m.player_registered(name, id).current(), name),
        m.player_registered(name, id).current()[name_pos(
            m.player_registered(name, id).current(),
            name,
        )].1 == PlayerView::fresh(id),
{
    let s = if m.sessions.len() == 0 {
        Seq::<Entry>::empty()
    } else {
        m.current()
    };
    lemma_added_is_fresh(s, name, id);
}

} // verus!
