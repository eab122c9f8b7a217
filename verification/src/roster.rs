//! The players of a match, kept as a list in which each (player id, faction) occurs at
//! most once.

use vstd::prelude::*;

use crate::model::Factions;
use crate::player::{Player, PlayerView};
use crate::search::{first_index, lemma_first_index, lemma_first_index_at, lemma_first_index_none};

verus! {

/// The records of a list of players.
pub open spec fn roster_view(ps: Seq<Player>) -> Seq<PlayerView> {
    ps.map_values(|p: Player| p@)
}

/// Whether a record belongs to the player `id` playing for `f`.
pub open spec fn has_key(p: PlayerView, id: i64, f: Factions) -> bool {
    p.player_id == id && p.faction_type == f
}

/// Whether a record is of the player `id` playing for `f`, as a property.
pub open spec fn keyed(id: i64, f: Factions) -> spec_fn(PlayerView) -> bool {
    |p: PlayerView| has_key(p, id, f)
}

/// The position of the first record of (`id`, `f`), or -1 when there is none.
pub open spec fn key_index(ps: Seq<PlayerView>, id: i64, f: Factions) -> int {
    first_index(ps, keyed(id, f))
}

/// The list with `fresh` added, unless a record of its player and faction is there already.
pub open spec fn upsert(ps: Seq<PlayerView>, fresh: PlayerView) -> Seq<PlayerView> {
    if key_index(ps, fresh.player_id, fresh.faction_type) >= 0 {
        ps
    } else {
        ps.push(fresh)
    }
}

/// Where the record of (`id`, `f`) stands once `upsert` has run.
pub open spec fn slot(ps: Seq<PlayerView>, id: i64, f: Factions) -> int {
    let k = key_index(ps, id, f);
    if k >= 0 {
        k
    } else {
        ps.len() as int
    }
}

/// No player and faction has two records.
pub open spec fn keys_unique(ps: Seq<PlayerView>) -> bool {
    forall|i: int, j: int|
        0 <= i < j < ps.len() ==> !has_key(
            #[trigger] ps[i],
            #[trigger] ps[j].player_id,
            ps[j].faction_type,
        )
}

/// `new` keeps every record of `old`, in its place and with its player and faction, and
/// may add more after them.
pub open spec fn keeps_records(old: Seq<PlayerView>, new: Seq<PlayerView>) -> bool {
    &&& old.len() <= new.len()
    &&& forall|i: int|
        0 <= i < old.len() ==> (#[trigger] new[i]).player_id == old[i].player_id
            && new[i].faction_type == old[i].faction_type
}

/// No record is of the faction `Wildlife`.
pub open spec fn no_wildlife(ps: Seq<PlayerView>) -> bool {
    forall|i: int| 0 <= i < ps.len() ==> (#[trigger] ps[i]).faction_type != Factions::Wildlife
}

/// What `key_index` finds.
pub proof fn lemma_key_index(ps: Seq<PlayerView>, id: i64, f: Factions)
    ensures
        -1 <= key_index(ps, id, f) < ps.len(),
        key_index(ps, id, f) >= 0 ==> has_key(ps[key_index(ps, id, f)], id, f),
        key_index(ps, id, f) >= 0 ==> forall|j: int|
            0 <= j < key_index(ps, id, f) ==> !has_key(#[trigger] ps[j], id, f),
        key_index(ps, id, f) < 0 ==> forall|j: int|
            0 <= j < ps.len() ==> !has_key(#[trigger] ps[j], id, f),
{
    lemma_first_index(ps, keyed(id, f));
}

/// Where a list keeps the keys of another at its positions and adds none of (`id`, `f`)
/// after them, the first record of (`id`, `f`) stands at the same place in both.
pub proof fn lemma_key_index_kept(a: Seq<PlayerView>, b: Seq<PlayerView>, id: i64, f: Factions)
    requires
        a.len() <= b.len(),
        forall|i: int| 0 <= i < a.len() ==> has_key(#[trigger] b[i], id, f) == has_key(a[i], id, f),
        forall|i: int| a.len() <= i < b.len() ==> !has_key(#[trigger] b[i], id, f),
    ensures
        key_index(b, id, f) == key_index(a, id, f),
{
    lemma_key_index(a, id, f);
    let ka = key_index(a, id, f);
    if ka >= 0 {
        assert forall|j: int| 0 <= j < ka implies !keyed(id, f)(#[trigger] b[j]) by {
            assert(!has_key(a[j], id, f));
        }
        assert(has_key(b[ka], id, f));
        lemma_first_index_at(b, keyed(id, f), ka);
    } else {
        assert forall|j: int| 0 <= j < b.len() implies !keyed(id, f)(#[trigger] b[j]) by {
            if j < a.len() {
                assert(!has_key(a[j], id, f));
            }
        }
        lemma_first_index_none(b, keyed(id, f));
    }
}

/// What `upsert` and `slot` give.
pub proof fn lemma_upsert(ps: Seq<PlayerView>, fresh: PlayerView)
    ensures
        ({
            let ps1 = upsert(ps, fresh);
            let k = slot(ps, fresh.player_id, fresh.faction_type);
            &&& 0 <= k < ps1.len()
            &&& has_key(ps1[k], fresh.player_id, fresh.faction_type)
            &&& keeps_records(ps, ps1)
            &&& (k == ps.len() ==> ps1[k] == fresh)
            &&& (keys_unique(ps) ==> keys_unique(ps1))
        }),
{
    lemma_key_index(ps, fresh.player_id, fresh.faction_type);
}

/// Replacing a record by one of the same player and faction keeps the list's keys.
pub proof fn lemma_replace_keeps(ps: Seq<PlayerView>, k: int, p: PlayerView)
    requires
        0 <= k < ps.len(),
        p.player_id == ps[k].player_id,
        p.faction_type == ps[k].faction_type,
    ensures
        keeps_records(ps, ps.update(k, p)),
        keys_unique(ps) ==> keys_unique(ps.update(k, p)),
        no_wildlife(ps) ==> no_wildlife(ps.update(k, p)),
{
    let ps1 = ps.update(k, p);
    if keys_unique(ps) {
        assert forall|i: int, j: int| 0 <= i < j < ps1.len() implies !has_key(
            #[trigger] ps1[i],
            #[trigger] ps1[j].player_id,
            ps1[j].faction_type,
        ) by {
            assert(!has_key(ps[i], ps[j].player_id, ps[j].faction_type));
        }
    }
    if no_wildlife(ps) {
        assert forall|i: int| 0 <= i < ps1.len() implies (#[trigger] ps1[i]).faction_type
            != Factions::Wildlife by {
            assert(ps[i].faction_type != Factions::Wildlife);
        }
    }
}

/// `keeps_records` is transitive.
pub proof fn lemma_keeps_trans(a: Seq<PlayerView>, b: Seq<PlayerView>, c: Seq<PlayerView>)
    requires
        keeps_records(a, b),
        keeps_records(b, c),
    ensures
        keeps_records(a, c),
{
    assert forall|i: int| 0 <= i < a.len() implies (#[trigger] c[i]).player_id == a[i].player_id
        && c[i].faction_type == a[i].faction_type by {
        assert(b[i].player_id == a[i].player_id);
    }
}

/// The position of the first record of (`id`, `f`).
pub fn find_player(ps: &Vec<Player>, id: i64, f: Factions) -> (r: Option<usize>)
    ensures
        r matches Some(k) ==> k == key_index(roster_view(ps@), id, f) && k < ps@.len(),
        r is None ==> key_index(roster_view(ps@), id, f) < 0,
{
    let ghost v = roster_view(ps@);
    let mut i: usize = 0;
    while i < ps.len()
        invariant
            i <= ps@.len(),
            v == roster_view(ps@),
            forall|j: int| 0 <= j < i ==> !has_key(#[trigger] v[j], id, f),
        decreases ps@.len() - i,
    {
        if ps[i].player_id == id && ps[i].faction_type == f {
            proof {
                lemma_first_index_at(v, keyed(id, f), i as int);
            }
            return Some(i);
        }
        i = i + 1;
    }
    proof {
        lemma_first_index_none(v, keyed(id, f));
    }
    None
}

/// Adds `fresh` unless its player and faction have a record already; gives where that
/// player's record stands.
pub fn upsert_player(ps: &mut Vec<Player>, fresh: Player) -> (k: usize)
    ensures
        roster_view(final(ps)@) == upsert(roster_view(old(ps)@), fresh@),
        k == slot(roster_view(old(ps)@), fresh@.player_id, fresh@.faction_type),
{
    match find_player(ps, fresh.player_id, fresh.faction_type) {
        Some(k) => k,
        None => {
            let k = ps.len();
            ps.push(fresh);
            assert(roster_view(ps@) =~= roster_view(old(ps)@).push(fresh@));
            k
        },
    }
}

/// Replaces the record at `k`.
pub fn replace_player(ps: &mut Vec<Player>, k: usize, p: Player)
    requires
        k < old(ps)@.len(),
    ensures
        roster_view(final(ps)@) == roster_view(old(ps)@).update(k as int, p@),
{
    ps.set(k, p);
    assert(roster_view(ps@) =~= roster_view(old(ps)@).update(k as int, p@));
}

/// A copy of every record, in order.
pub fn copy_players(ps: &Vec<Player>) -> (r: Vec<Player>)
    ensures
        roster_view(r@) == roster_view(ps@),
{
    let mut out: Vec<Player> = Vec::new();
    let mut i: usize = 0;
    while i < ps.len()
        invariant
            i <= ps@.len(),
            roster_view(out@) == roster_view(ps@).take(i as int),
        decreases ps@.len() - i,
    {
        let c = ps[i].copy();
        let ghost before = out@;
        out.push(c);
        assert(out@ == before.push(c));
        assert(roster_view(out@) =~= roster_view(before).push(c@));
        i = i + 1;
        assert(roster_view(out@) =~= roster_view(ps@).take(i as int));
    }
    assert(roster_view(ps@).take(ps@.len() as int) =~= roster_view(ps@));
    out
}

} // verus!

verus! {

/// What one line does to the records: the new records, or `None` where the line cannot
/// be taken (the match's processing would stop there).
pub type LineStep = spec_fn(Seq<PlayerView>, Seq<char>) -> Option<Seq<PlayerView>>;

/// The records after `step` has taken every line in order; `None` if a line cannot be taken.
pub open spec fn run_lines(step: LineStep, ps: Seq<PlayerView>, lines: Seq<Seq<char>>) -> Option<
    Seq<PlayerView>,
>
    decreases lines.len(),
{
    if lines.len() == 0 {
        Some(ps)
    } else {
        match step(ps, lines[0]) {
            Some(ps1) => run_lines(step, ps1, lines.drop_first()),
            None => None,
        }
    }
}

/// One step of `run_lines`, seen from the position `i`.
pub proof fn lemma_run_lines_unfold(step: LineStep, ps: Seq<PlayerView>, lines: Seq<Seq<char>>, i: int)
    requires
        0 <= i < lines.len(),
    ensures
        run_lines(step, ps, lines.skip(i)) == (match step(ps, lines[i]) {
            Some(ps1) => run_lines(step, ps1, lines.skip(i + 1)),
            None => None,
        }),
{
    assert(lines.skip(i).drop_first() =~= lines.skip(i + 1));
    assert(lines.skip(i)[0] == lines[i]);
}

/// What every step keeps: the records already there, unique keys, and the absence of
/// `Wildlife` records.
pub open spec fn step_keeps(old: Seq<PlayerView>, new: Seq<PlayerView>) -> bool {
    &&& keeps_records(old, new)
    &&& keys_unique(old) ==> keys_unique(new)
    &&& no_wildlife(old) ==> no_wildlife(new)
}

/// `step_keeps` is transitive.
pub proof fn lemma_step_keeps_trans(a: Seq<PlayerView>, b: Seq<PlayerView>, c: Seq<PlayerView>)
    requires
        step_keeps(a, b),
        step_keeps(b, c),
    ensures
        step_keeps(a, c),
{
    lemma_keeps_trans(a, b, c);
}

/// A run of steps that each keep the records keeps them.
pub proof fn lemma_run_lines_keeps(step: LineStep, ps: Seq<PlayerView>, lines: Seq<Seq<char>>)
    requires
        forall|p: Seq<PlayerView>, l: Seq<char>|
            (#[trigger] step(p, l)) is Some ==> step_keeps(p, step(p, l)->0),
    ensures
        run_lines(step, ps, lines) is Some ==> step_keeps(ps, run_lines(step, ps, lines)->0),
    decreases lines.len(),
{
    if lines.len() == 0 {
        assert(keeps_records(ps, ps));
    } else {
        match step(ps, lines[0]) {
            Some(ps1) => {
                lemma_run_lines_keeps(step, ps1, lines.drop_first());
                if run_lines(step, ps, lines) is Some {
                    lemma_step_keeps_trans(ps, ps1, run_lines(step, ps, lines)->0);
                }
            },
            None => {},
        }
    }
}

/// Taking the lines `a + b` is taking `a`, then `b` from where `a` left the records.
pub proof fn lemma_run_lines_append(step: LineStep, ps: Seq<PlayerView>, a: Seq<Seq<char>>, b: Seq<Seq<char>>)
    ensures
        run_lines(step, ps, a + b) == (match run_lines(step, ps, a) {
            Some(q) => run_lines(step, q, b),
            None => None,
        }),
    decreases a.len(),
{
    if a.len() == 0 {
        assert(a + b =~= b);
    } else {
        assert((a + b).drop_first() =~= a.drop_first() + b);
        assert((a + b)[0] == a[0]);
        if let Some(ps1) = step(ps, a[0]) {
            lemma_run_lines_append(step, ps1, a.drop_first(), b);
        }
    }
}

/// Lines that each leave every record list as it is can be put anywhere in a run without
/// changing its outcome.
pub proof fn lemma_run_lines_inert(
    step: LineStep,
    ps: Seq<PlayerView>,
    a: Seq<Seq<char>>,
    extra: Seq<Seq<char>>,
    b: Seq<Seq<char>>,
)
    requires
        forall|p: Seq<PlayerView>, i: int| 0 <= i < extra.len() ==> #[trigger] step(p, extra[i]) == Some(p),
    ensures
        run_lines(step, ps, a + extra + b) == run_lines(step, ps, a + b),
{
    lemma_run_lines_append(step, ps, a + extra, b);
    lemma_run_lines_append(step, ps, a, extra);
    lemma_run_lines_append(step, ps, a, b);
    if let Some(q) = run_lines(step, ps, a) {
        lemma_run_inert_lines(step, q, extra);
    }
}

proof fn lemma_run_inert_lines(step: LineStep, ps: Seq<PlayerView>, extra: Seq<Seq<char>>)
    requires
        forall|p: Seq<PlayerView>, i: int| 0 <= i < extra.len() ==> #[trigger] step(p, extra[i]) == Some(p),
    ensures
        run_lines(step, ps, extra) == Some(ps),
    decreases extra.len(),
{
    if extra.len() > 0 {
        assert(step(ps, extra[0]) == Some(ps));
        let rest = extra.drop_first();
        assert forall|p: Seq<PlayerView>, i: int| 0 <= i < rest.len() implies #[trigger] step(p, rest[i]) == Some(p) by {
            assert(rest[i] == extra[i + 1]);
        }
        lemma_run_inert_lines(step, ps, rest);
    }
}

} // verus!
