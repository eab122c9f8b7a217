//! Who commanded each faction: the time each player spent as commander of a faction, and
//! the faction's commander of the match, the player who commanded it longest.

use vstd::prelude::*;

use crate::clock::{elapsed, elapsed_seconds};
use crate::model::Factions;
use crate::player::{fits_duration, MAX_DURATION_SECS};
use crate::search::{first_index, lemma_first_index, lemma_first_index_at, lemma_first_index_none};

verus! {

/// Per player and faction: since when the player commands (`current_commander`), which
/// player last took command of each faction (`commander_faction`), and how many seconds
/// each player has commanded each faction (`commander_time`). Each key occurs once in each
/// list (the type's invariant, `commanders_wf`).
pub struct CommanderDataStructure {
    current_commander: Vec<(i64, Factions, i64)>,
    commander_faction: Vec<(Factions, i64)>,
    commander_time: Vec<(i64, Factions, i64)>,
}

/// What a `CommanderDataStructure` holds.
#[verifier::ext_equal]
pub struct CommanderView {
    pub current: Seq<(i64, Factions, i64)>,
    pub faction: Seq<(Factions, i64)>,
    pub time: Seq<(i64, Factions, i64)>,
}

impl View for CommanderDataStructure {
    type V = CommanderView;

    closed spec fn view(&self) -> CommanderView {
        CommanderView {
            current: self.current_commander@,
            faction: self.commander_faction@,
            time: self.commander_time@,
        }
    }
}

/// No commander yet.
pub open spec fn no_commanders() -> CommanderView {
    CommanderView { current: Seq::empty(), faction: Seq::empty(), time: Seq::empty() }
}

/// Whether an entry is of player `id` and faction `f`, as a property.
pub open spec fn is_entry(id: i64, f: Factions) -> spec_fn((i64, Factions, i64)) -> bool {
    |e: (i64, Factions, i64)| e.0 == id && e.1 == f
}

/// The position of the first entry of (`id`, `f`), or -1.
pub open spec fn entry_index(s: Seq<(i64, Factions, i64)>, id: i64, f: Factions) -> int {
    first_index(s, is_entry(id, f))
}

/// Whether a (faction, player) entry is of faction `f`, as a property.
pub open spec fn is_faction(f: Factions) -> spec_fn((Factions, i64)) -> bool {
    |e: (Factions, i64)| e.0 == f
}

/// The position of the first entry of faction `f`, or -1.
pub open spec fn faction_index(s: Seq<(Factions, i64)>, f: Factions) -> int {
    first_index(s, is_faction(f))
}

proof fn lemma_entry_index(s: Seq<(i64, Factions, i64)>, id: i64, f: Factions)
    ensures
        -1 <= entry_index(s, id, f) < s.len(),
        entry_index(s, id, f) >= 0 ==> s[entry_index(s, id, f)].0 == id && s[entry_index(s, id, f)].1 == f,
        entry_index(s, id, f) >= 0 ==> forall|j: int|
            0 <= j < entry_index(s, id, f) ==> !((#[trigger] s[j]).0 == id && s[j].1 == f),
        entry_index(s, id, f) < 0 ==> forall|j: int|
            0 <= j < s.len() ==> !((#[trigger] s[j]).0 == id && s[j].1 == f),
{
    lemma_first_index(s, is_entry(id, f));
}

proof fn lemma_faction_index(s: Seq<(Factions, i64)>, f: Factions)
    ensures
        -1 <= faction_index(s, f) < s.len(),
        faction_index(s, f) >= 0 ==> s[faction_index(s, f)].0 == f,
        faction_index(s, f) >= 0 ==> forall|j: int| 0 <= j < faction_index(s, f) ==> (#[trigger] s[j]).0 != f,
        faction_index(s, f) < 0 ==> forall|j: int| 0 <= j < s.len() ==> (#[trigger] s[j]).0 != f,
{
    lemma_first_index(s, is_faction(f));
}

fn find_entry(s: &Vec<(i64, Factions, i64)>, id: i64, f: Factions) -> (r: Option<usize>)
    ensures
        r matches Some(k) ==> k == entry_index(s@, id, f) && k < s@.len(),
        r is None ==> entry_index(s@, id, f) < 0,
{
    let mut i: usize = 0;
    while i < s.len()
        invariant
            i <= s@.len(),
            forall|j: int| 0 <= j < i ==> !((#[trigger] s@[j]).0 == id && s@[j].1 == f),
        decreases s@.len() - i,
    {
        if s[i].0 == id && s[i].1 == f {
            proof {
                lemma_first_index_at(s@, is_entry(id, f), i as int);
            }
            return Some(i);
        }
        i = i + 1;
    }
    proof {
        lemma_first_index_none(s@, is_entry(id, f));
    }
    None
}

fn find_faction(s: &Vec<(Factions, i64)>, f: Factions) -> (r: Option<usize>)
    ensures
        r matches Some(k) ==> k == faction_index(s@, f) && k < s@.len(),
        r is None ==> faction_index(s@, f) < 0,
{
    let mut i: usize = 0;
    while i < s.len()
        invariant
            i <= s@.len(),
            forall|j: int| 0 <= j < i ==> (#[trigger] s@[j]).0 != f,
        decreases s@.len() - i,
    {
        if s[i].0 == f {
            proof {
                lemma_first_index_at(s@, is_faction(f), i as int);
            }
            return Some(i);
        }
        i = i + 1;
    }
    proof {
        lemma_first_index_none(s@, is_faction(f));
    }
    None
}

/// After player `id` took command of `f` at time `t`: `f`'s commander is `id`, and `id`
/// commands `f` since `t`.
pub open spec fn start_commander(c: CommanderView, id: i64, f: Factions, t: i64) -> CommanderView {
    let fi = faction_index(c.faction, f);
    let ci = entry_index(c.current, id, f);
    CommanderView {
        faction: if fi >= 0 {
            c.faction.update(fi, (f, id))
        } else {
            c.faction.push((f, id))
        },
        current: if ci >= 0 {
            c.current.update(ci, (id, f, t))
        } else {
            c.current.push((id, f, t))
        },
        time: c.time,
    }
}

/// After player `id` stopped commanding `f` at time `t`: if `id` commanded `f`, the time
/// since they took command is added to their time as commander of `f`, and they command no
/// longer. `None` where that time leaves what `TimeDelta` holds.
pub open spec fn end_commander(c: CommanderView, id: i64, f: Factions, t: i64) -> Option<CommanderView> {
    let ci = entry_index(c.current, id, f);
    if ci < 0 {
        Some(c)
    } else {
        let d = elapsed(t as int, c.current[ci].2 as int);
        let ti = entry_index(c.time, id, f);
        let total = if ti >= 0 {
            c.time[ti].2 + d
        } else {
            d
        };
        if !fits_duration(d) || !fits_duration(total) {
            None
        } else {
            Some(
                CommanderView {
                    current: c.current.remove(ci),
                    faction: c.faction,
                    time: if ti >= 0 {
                        c.time.update(ti, (id, f, total as i64))
                    } else {
                        c.time.push((id, f, total as i64))
                    },
                },
            )
        }
    }
}

/// Whether `id` is the player who last took command of `f`.
pub open spec fn is_current(c: CommanderView, f: Factions, id: i64) -> bool {
    let fi = faction_index(c.faction, f);
    fi >= 0 && c.faction[fi].1 == id
}

/// The longest commander of each faction, as (faction, player, seconds), after looking at
/// the entries of `time` in order: an entry replaces the faction's best one only if it is
/// strictly longer.
pub open spec fn longest_commanders(time: Seq<(i64, Factions, i64)>) -> Seq<(Factions, i64, i64)>
    decreases time.len(),
{
    if time.len() == 0 {
        Seq::empty()
    } else {
        let best = longest_commanders(time.drop_last());
        let (id, f, d) = time.last();
        let j = best_index(best, f);
        if j < 0 {
            best.push((f, id, d))
        } else if best[j].2 < d {
            best.update(j, (f, id, d))
        } else {
            best
        }
    }
}

/// Whether a best entry is of faction `f`, as a property.
pub open spec fn is_best_of(f: Factions) -> spec_fn((Factions, i64, i64)) -> bool {
    |e: (Factions, i64, i64)| e.0 == f
}

/// The position of faction `f` among the best entries, or -1.
pub open spec fn best_index(best: Seq<(Factions, i64, i64)>, f: Factions) -> int {
    first_index(best, is_best_of(f))
}

proof fn lemma_best_index(s: Seq<(Factions, i64, i64)>, f: Factions)
    ensures
        -1 <= best_index(s, f) < s.len(),
        best_index(s, f) >= 0 ==> s[best_index(s, f)].0 == f,
        best_index(s, f) >= 0 ==> forall|j: int| 0 <= j < best_index(s, f) ==> (#[trigger] s[j]).0 != f,
        best_index(s, f) < 0 ==> forall|j: int| 0 <= j < s.len() ==> (#[trigger] s[j]).0 != f,
{
    lemma_first_index(s, is_best_of(f));
}

fn find_best(s: &Vec<(Factions, i64, i64)>, f: Factions) -> (r: Option<usize>)
    ensures
        r matches Some(k) ==> k == best_index(s@, f) && k < s@.len(),
        r is None ==> best_index(s@, f) < 0,
{
    let mut i: usize = 0;
    while i < s.len()
        invariant
            i <= s@.len(),
            forall|j: int| 0 <= j < i ==> (#[trigger] s@[j]).0 != f,
        decreases s@.len() - i,
    {
        if s[i].0 == f {
            proof {
                lemma_first_index_at(s@, is_best_of(f), i as int);
            }
            return Some(i);
        }
        i = i + 1;
    }
    proof {
        lemma_first_index_none(s@, is_best_of(f));
    }
    None
}

/// The faction and player of each best entry.
pub open spec fn commander_pairs(best: Seq<(Factions, i64, i64)>) -> Seq<(Factions, i64)> {
    best.map_values(|e: (Factions, i64, i64)| (e.0, e.1))
}

/// No (player, faction) key occurs twice among the entries.
pub open spec fn entries_unique(s: Seq<(i64, Factions, i64)>) -> bool {
    forall|i: int, j: int|
        #![trigger s[i], s[j]]
        0 <= i < j < s.len() ==> !(s[i].0 == s[j].0 && s[i].1 == s[j].1)
}

/// No faction occurs twice among the (faction, player) entries.
pub open spec fn factions_unique(s: Seq<(Factions, i64)>) -> bool {
    forall|i: int, j: int| #![trigger s[i], s[j]] 0 <= i < j < s.len() ==> s[i].0 != s[j].0
}

/// Each key occurs once in each list of a record of commanders.
pub open spec fn commanders_wf(c: CommanderView) -> bool {
    &&& entries_unique(c.current)
    &&& factions_unique(c.faction)
    &&& entries_unique(c.time)
}

proof fn lemma_entries_update(s: Seq<(i64, Factions, i64)>, k: int, e: (i64, Factions, i64))
    requires
        entries_unique(s),
        0 <= k < s.len(),
        s[k].0 == e.0 && s[k].1 == e.1,
    ensures
        entries_unique(s.update(k, e)),
{
    let r = s.update(k, e);
    assert forall|i: int, j: int| #![trigger r[i], r[j]] 0 <= i < j < r.len() implies !(r[i].0 == r[j].0
        && r[i].1 == r[j].1) by {
        assert(!(s[i].0 == s[j].0 && s[i].1 == s[j].1));
    }
}

proof fn lemma_entries_push(s: Seq<(i64, Factions, i64)>, e: (i64, Factions, i64))
    requires
        entries_unique(s),
        forall|j: int| 0 <= j < s.len() ==> !((#[trigger] s[j]).0 == e.0 && s[j].1 == e.1),
    ensures
        entries_unique(s.push(e)),
{
    let r = s.push(e);
    assert forall|i: int, j: int| #![trigger r[i], r[j]] 0 <= i < j < r.len() implies !(r[i].0 == r[j].0
        && r[i].1 == r[j].1) by {
        if j < s.len() {
            assert(!(s[i].0 == s[j].0 && s[i].1 == s[j].1));
        } else {
            assert(!(s[i].0 == e.0 && s[i].1 == e.1));
        }
    }
}

proof fn lemma_entries_remove(s: Seq<(i64, Factions, i64)>, k: int)
    requires
        entries_unique(s),
        0 <= k < s.len(),
    ensures
        entries_unique(s.remove(k)),
{
    let r = s.remove(k);
    assert forall|i: int, j: int| #![trigger r[i], r[j]] 0 <= i < j < r.len() implies !(r[i].0 == r[j].0
        && r[i].1 == r[j].1) by {
        let i2 = if i < k { i } else { i + 1 };
        let j2 = if j < k { j } else { j + 1 };
        assert(r[i] == s[i2] && r[j] == s[j2]);
        assert(!(s[i2].0 == s[j2].0 && s[i2].1 == s[j2].1));
    }
}

proof fn lemma_factions_update(s: Seq<(Factions, i64)>, k: int, e: (Factions, i64))
    requires
        factions_unique(s),
        0 <= k < s.len(),
        s[k].0 == e.0,
    ensures
        factions_unique(s.update(k, e)),
{
    let r = s.update(k, e);
    assert forall|i: int, j: int| #![trigger r[i], r[j]] 0 <= i < j < r.len() implies r[i].0 != r[j].0 by {
        assert(s[i].0 != s[j].0);
    }
}

proof fn lemma_factions_push(s: Seq<(Factions, i64)>, e: (Factions, i64))
    requires
        factions_unique(s),
        forall|j: int| 0 <= j < s.len() ==> (#[trigger] s[j]).0 != e.0,
    ensures
        factions_unique(s.push(e)),
{
    let r = s.push(e);
    assert forall|i: int, j: int| #![trigger r[i], r[j]] 0 <= i < j < r.len() implies r[i].0 != r[j].0 by {
        if j < s.len() {
            assert(s[i].0 != s[j].0);
        } else {
            assert(s[i].0 != e.0);
        }
    }
}

/// Taking and giving up command keep each key once in each list.
pub proof fn law_commander_keys_stay_unique(c: CommanderView, id: i64, f: Factions, t: i64)
    requires
        commanders_wf(c),
    ensures
        commanders_wf(start_commander(c, id, f, t)),
        end_commander(c, id, f, t) matches Some(c2) ==> commanders_wf(c2),
{
    lemma_faction_index(c.faction, f);
    lemma_entry_index(c.current, id, f);
    lemma_entry_index(c.time, id, f);
    let fi = faction_index(c.faction, f);
    let ci = entry_index(c.current, id, f);
    let ti = entry_index(c.time, id, f);
    if fi >= 0 {
        lemma_factions_update(c.faction, fi, (f, id));
    } else {
        lemma_factions_push(c.faction, (f, id));
    }
    if ci >= 0 {
        lemma_entries_update(c.current, ci, (id, f, t));
        lemma_entries_remove(c.current, ci);
    } else {
        lemma_entries_push(c.current, (id, f, t));
    }
    if let Some(c2) = end_commander(c, id, f, t) {
        if ci >= 0 {
            if ti >= 0 {
                lemma_entries_update(c.time, ti, c2.time[ti]);
            } else {
                lemma_entries_push(c.time, c2.time[c.time.len() as int]);
                assert(c2.time =~= c.time.push(c2.time[c.time.len() as int]));
            }
        }
    }
}

impl CommanderDataStructure {
    /// Each key occurs once in each list.
    #[verifier::type_invariant]
    spec fn keys_unique(&self) -> bool {
        commanders_wf(self@)
    }

    /// An empty record of commanders.
    pub fn new() -> (r: Self)
        ensures
            r@ == no_commanders(),
    {
        let r = CommanderDataStructure {
            current_commander: Vec::new(),
            commander_faction: Vec::new(),
            commander_time: Vec::new(),
        };
        assert(r@ =~= no_commanders());
        r
    }

    /// Player `player_id` takes command of `faction_type` at `time_start`.
    pub fn add_commander_start(&mut self, player_id: i64, faction_type: Factions, time_start: i64)
        ensures
            final(self)@ == start_commander(old(self)@, player_id, faction_type, time_start),
    {
        proof {
            use_type_invariant(&*self);
            lemma_faction_index(self.commander_faction@, faction_type);
            lemma_entry_index(self.current_commander@, player_id, faction_type);
        }
        let mut faction: Vec<(Factions, i64)> = Vec::new();
        std::mem::swap(&mut faction, &mut self.commander_faction);
        let mut current: Vec<(i64, Factions, i64)> = Vec::new();
        std::mem::swap(&mut current, &mut self.current_commander);
        match find_faction(&faction, faction_type) {
            Some(k) => {
                proof {
                    lemma_factions_update(faction@, k as int, (faction_type, player_id));
                }
                faction.set(k, (faction_type, player_id));
            },
            None => {
                proof {
                    lemma_factions_push(faction@, (faction_type, player_id));
                }
                faction.push((faction_type, player_id));
            },
        }
        match find_entry(&current, player_id, faction_type) {
            Some(k) => {
                proof {
                    lemma_entries_update(current@, k as int, (player_id, faction_type, time_start));
                }
                current.set(k, (player_id, faction_type, time_start));
            },
            None => {
                proof {
                    lemma_entries_push(current@, (player_id, faction_type, time_start));
                }
                current.push((player_id, faction_type, time_start));
            },
        }
        self.commander_faction = faction;
        self.current_commander = current;
        assert(self@ =~= start_commander(old(self)@, player_id, faction_type, time_start));
    }

    /// Whether `add_commander_end` can run without the commander's time leaving what
    /// `TimeDelta` holds.
    pub fn can_end_commander(&self, player_id: i64, faction_type: Factions, time_end: i64) -> (r: bool)
        ensures
            r == end_commander(self@, player_id, faction_type, time_end) is Some,
    {
        match find_entry(&self.current_commander, player_id, faction_type) {
            None => true,
            Some(ci) => {
                let d = elapsed_seconds(time_end, self.current_commander[ci].2);
                let total = match find_entry(&self.commander_time, player_id, faction_type) {
                    Some(ti) => self.commander_time[ti].2 as i128 + d,
                    None => d,
                };
                let m = MAX_DURATION_SECS as i128;
                -m <= d && d <= m && -m <= total && total <= m
            },
        }
    }

    /// Player `player_id` stops commanding `faction_type` at `time_end`; nothing happens if
    /// they did not command it.
    pub fn add_commander_end(&mut self, player_id: i64, faction_type: Factions, time_end: i64)
        requires
            end_commander(old(self)@, player_id, faction_type, time_end) is Some,
        ensures
            final(self)@ == end_commander(old(self)@, player_id, faction_type, time_end)->0,
    {
        proof {
            use_type_invariant(&*self);
            lemma_entry_index(self.commander_time@, player_id, faction_type);
        }
        let mut current: Vec<(i64, Factions, i64)> = Vec::new();
        std::mem::swap(&mut current, &mut self.current_commander);
        let mut time: Vec<(i64, Factions, i64)> = Vec::new();
        std::mem::swap(&mut time, &mut self.commander_time);
        match find_entry(&current, player_id, faction_type) {
            None => {},
            Some(ci) => {
                proof {
                    lemma_entries_remove(current@, ci as int);
                }
                let (_, _, time_start) = current.remove(ci);
                let duration = elapsed_seconds(time_end, time_start) as i64;
                match find_entry(&time, player_id, faction_type) {
                    Some(ti) => {
                        let total = time[ti].2 + duration;
                        proof {
                            lemma_entries_update(time@, ti as int, (player_id, faction_type, total));
                        }
                        time.set(ti, (player_id, faction_type, total));
                    },
                    None => {
                        proof {
                            lemma_entries_push(time@, (player_id, faction_type, duration));
                        }
                        time.push((player_id, faction_type, duration));
                    },
                }
            },
        }
        self.current_commander = current;
        self.commander_time = time;
        assert(self@ =~= end_commander(old(self)@, player_id, faction_type, time_end)->0);
    }

    /// Whether `player_id` is the player who last took command of `faction_type`.
    pub fn is_current_commander(&self, faction_type: Factions, player_id: i64) -> (r: bool)
        ensures
            r == is_current(self@, faction_type, player_id),
    {
        match find_faction(&self.commander_faction, faction_type) {
            Some(k) => self.commander_faction[k].1 == player_id,
            None => false,
        }
    }

    /// The (player, faction) pairs that command at the moment, in order.
    pub fn current_keys(&self) -> (r: Vec<(i64, Factions)>)
        ensures
            r@ == self@.current.map_values(|e: (i64, Factions, i64)| (e.0, e.1)),
    {
        let mut r: Vec<(i64, Factions)> = Vec::new();
        let mut i: usize = 0;
        while i < self.current_commander.len()
            invariant
                i <= self@.current.len(),
                r@ == self@.current.take(i as int).map_values(|e: (i64, Factions, i64)| (e.0, e.1)),
            decreases self@.current.len() - i,
        {
            r.push((self.current_commander[i].0, self.current_commander[i].1));
            i = i + 1;
            assert(r@ =~= self@.current.take(i as int).map_values(|e: (i64, Factions, i64)| (e.0, e.1)));
        }
        assert(self@.current.take(i as int) =~= self@.current);
        r
    }

    /// The commander of each faction: the player who commanded it longest (of players with
    /// the same time, the one whose time was recorded first).
    pub fn get_all_commander(&self) -> (r: Vec<(Factions, i64)>)
        ensures
            r@ == commander_pairs(longest_commanders(self@.time)),
    {
        let mut best: Vec<(Factions, i64, i64)> = Vec::new();
        let mut i: usize = 0;
        while i < self.commander_time.len()
            invariant
                i <= self@.time.len(),
                best@ == longest_commanders(self@.time.take(i as int)),
            decreases self@.time.len() - i,
        {
            let (id, f, d) = self.commander_time[i];
            proof {
                assert(self@.time.take(i + 1).drop_last() =~= self@.time.take(i as int));
                assert(self@.time.take(i + 1).last() == (id, f, d));
            }
            match find_best(&best, f) {
                None => {
                    best.push((f, id, d));
                },
                Some(j) => {
                    if best[j].2 < d {
                        best.set(j, (f, id, d));
                    }
                },
            }
            i = i + 1;
        }
        assert(self@.time.take(i as int) =~= self@.time);
        let mut r: Vec<(Factions, i64)> = Vec::new();
        let mut j: usize = 0;
        while j < best.len()
            invariant
                j <= best@.len(),
                r@ == commander_pairs(best@.take(j as int)),
            decreases best@.len() - j,
        {
            r.push((best[j].0, best[j].1));
            j = j + 1;
            assert(r@ =~= commander_pairs(best@.take(j as int)));
        }
        assert(best@.take(j as int) =~= best@);
        r
    }
}


/// A player who takes command of a faction is its current commander.
pub proof fn law_start_makes_current(c: CommanderView, id: i64, f: Factions, t: i64)
    ensures
        is_current(start_commander(c, id, f, t), f, id),
{
    lemma_faction_index(c.faction, f);
    let c1 = start_commander(c, id, f, t);
    let fi = faction_index(c.faction, f);
    if fi >= 0 {
        assert(c1.faction[fi] == (f, id));
        assert forall|j: int| 0 <= j < fi implies (#[trigger] c1.faction[j]).0 != f by {
            assert(c1.faction[j] == c.faction[j]);
        }
        lemma_faction_index_at(c1.faction, f, fi);
    } else {
        let k = c.faction.len() as int;
        assert(c1.faction[k] == (f, id));
        assert forall|j: int| 0 <= j < k implies (#[trigger] c1.faction[j]).0 != f by {
            assert(c1.faction[j] == c.faction[j]);
        }
        lemma_faction_index_at(c1.faction, f, k);
    }
}

proof fn lemma_faction_index_at(s: Seq<(Factions, i64)>, f: Factions, k: int)
    requires
        0 <= k < s.len(),
        s[k].0 == f,
        forall|j: int| 0 <= j < k ==> (#[trigger] s[j]).0 != f,
    ensures
        faction_index(s, f) == k,
{
    lemma_first_index_at(s, is_faction(f), k);
}

proof fn lemma_entry_index_at(s: Seq<(i64, Factions, i64)>, id: i64, f: Factions, k: int)
    requires
        0 <= k < s.len(),
        s[k].0 == id && s[k].1 == f,
        forall|j: int| 0 <= j < k ==> !((#[trigger] s[j]).0 == id && s[j].1 == f),
    ensures
        entry_index(s, id, f) == k,
{
    lemma_first_index_at(s, is_entry(id, f), k);
}

/// The seconds player `id` has commanded faction `f` (0 when there is no entry).
pub open spec fn command_seconds(c: CommanderView, id: i64, f: Factions) -> int {
    let ti = entry_index(c.time, id, f);
    if ti >= 0 {
        c.time[ti].2 as int
    } else {
        0
    }
}

/// A command that starts at instant `t1` and ends at instant `t2` adds the seconds between
/// them (`elapsed(t2, t1)`) to the player's time as commander of the faction.
pub proof fn law_start_then_end_adds_time(c: CommanderView, id: i64, f: Factions, t1: i64, t2: i64)
    requires
        end_commander(start_commander(c, id, f, t1), id, f, t2) is Some,
    ensures
        ({
            let c2 = end_commander(start_commander(c, id, f, t1), id, f, t2)->0;
            command_seconds(c2, id, f) == command_seconds(c, id, f) + elapsed(t2 as int, t1 as int)
        }),
{
    let c1 = start_commander(c, id, f, t1);
    lemma_entry_index(c.current, id, f);
    let ci = entry_index(c.current, id, f);
    let k = if ci >= 0 { ci } else { c.current.len() as int };
    assert(c1.current[k] == (id, f, t1));
    assert forall|j: int| 0 <= j < k implies !((#[trigger] c1.current[j]).0 == id && c1.current[j].1 == f) by {
        assert(c1.current[j] == c.current[j]);
    }
    lemma_entry_index_at(c1.current, id, f, k);
    let c2 = end_commander(c1, id, f, t2)->0;
    lemma_entry_index(c.time, id, f);
    let ti = entry_index(c.time, id, f);
    if ti >= 0 {
        assert(c2.time[ti] == (id, f, (c.time[ti].2 + elapsed(t2 as int, t1 as int)) as i64));
        assert forall|j: int| 0 <= j < ti implies !((#[trigger] c2.time[j]).0 == id && c2.time[j].1 == f) by {
            assert(c2.time[j] == c.time[j]);
        }
        lemma_entry_index_at(c2.time, id, f, ti);
    } else {
        let n = c.time.len() as int;
        assert(c2.time[n] == (id, f, elapsed(t2 as int, t1 as int) as i64));
        assert forall|j: int| 0 <= j < n implies !((#[trigger] c2.time[j]).0 == id && c2.time[j].1 == f) by {
            assert(c2.time[j] == c.time[j]);
        }
        lemma_entry_index_at(c2.time, id, f, n);
    }
}

/// Ending an open command closes it: where player `id` commands `f` since the instant of
/// entry `k`, stopping at `t` leaves them no open command of `f`, adds the seconds from that
/// instant to `t` to their time as commander of `f`, and keeps who last took command of each
/// faction. It can be done exactly when that time and the new total are durations that
/// `TimeDelta` holds.
pub proof fn law_end_closes_the_command(c: CommanderView, id: i64, f: Factions, t: i64, k: int)
    requires
        commanders_wf(c),
        0 <= k < c.current.len(),
        c.current[k].0 == id,
        c.current[k].1 == f,
    ensures
        ({
            let d = elapsed(t as int, c.current[k].2 as int);
            &&& (end_commander(c, id, f, t) is Some <==> fits_duration(d) && fits_duration(
                command_seconds(c, id, f) + d,
            ))
            &&& (end_commander(c, id, f, t) matches Some(c2) ==> {
                &&& forall|j: int| 0 <= j < c2.current.len() ==> !((#[trigger] c2.current[j]).0 == id && c2.current[j].1 == f)
                &&& c2.current.len() == c.current.len() - 1
                &&& command_seconds(c2, id, f) == command_seconds(c, id, f) + d
                &&& c2.faction == c.faction
            })
        }),
{
    assert forall|j: int| 0 <= j < k implies !((#[trigger] c.current[j]).0 == id && c.current[j].1 == f) by {
        assert(!(c.current[j].0 == c.current[k].0 && c.current[j].1 == c.current[k].1));
    }
    lemma_entry_index_at(c.current, id, f, k);
    let d = elapsed(t as int, c.current[k].2 as int);
    lemma_entry_index(c.time, id, f);
    let ti = entry_index(c.time, id, f);
    if let Some(c2) = end_commander(c, id, f, t) {
        assert forall|j: int| 0 <= j < c2.current.len() implies !((#[trigger] c2.current[j]).0 == id
            && c2.current[j].1 == f) by {
            let j2 = if j < k { j } else { j + 1 };
            assert(c2.current[j] == c.current[j2]);
            assert(!(c.current[j2].0 == c.current[k].0 && c.current[j2].1 == c.current[k].1));
        }
        if ti >= 0 {
            assert forall|j: int| 0 <= j < ti implies !((#[trigger] c2.time[j]).0 == id && c2.time[j].1 == f) by {
                assert(c2.time[j] == c.time[j]);
            }
            lemma_entry_index_at(c2.time, id, f, ti);
        } else {
            let n = c.time.len() as int;
            assert forall|j: int| 0 <= j < n implies !((#[trigger] c2.time[j]).0 == id && c2.time[j].1 == f) by {
                assert(c2.time[j] == c.time[j]);
            }
            lemma_entry_index_at(c2.time, id, f, n);
        }
    }
}

/// The commander chosen for each faction commanded it longest: every best entry is an
/// entry of `time`, no entry of its faction is longer, each faction has at most one best
/// entry, and every faction with an entry has one.
pub proof fn law_longest_commanders(time: Seq<(i64, Factions, i64)>)
    ensures
        ({
            let best = longest_commanders(time);
            &&& forall|j: int| #![trigger best[j]] 0 <= j < best.len() ==> exists|i: int|
                0 <= i < time.len() && #[trigger] time[i] == (best[j].1, best[j].0, best[j].2)
            &&& forall|i: int, j: int|
                0 <= i < time.len() && 0 <= j < best.len() && (#[trigger] time[i]).1 == (#[trigger] best[j]).0
                    ==> time[i].2 <= best[j].2
            &&& forall|j: int, k: int| 0 <= j < k < best.len() ==> (#[trigger] best[j]).0 != (#[trigger] best[k]).0
            &&& forall|i: int| 0 <= i < time.len() ==> best_index(best, (#[trigger] time[i]).1) >= 0
        }),
    decreases time.len(),
{
    if time.len() > 0 {
        let prev = time.drop_last();
        law_longest_commanders(prev);
        let best0 = longest_commanders(prev);
        let (id, f, d) = time.last();
        lemma_best_index(best0, f);
        let j0 = best_index(best0, f);
        let best = longest_commanders(time);
        let n = time.len() - 1;
        assert forall|j: int| #![trigger best[j]] 0 <= j < best.len() implies exists|i: int|
            0 <= i < time.len() && #[trigger] time[i] == (best[j].1, best[j].0, best[j].2) by {
            if (j0 < 0 && j == best0.len()) || (j0 >= 0 && j == j0 && best0[j0].2 < d) {
                assert(time[n] == (best[j].1, best[j].0, best[j].2));
            } else {
                let i = choose|i: int| 0 <= i < prev.len() && #[trigger] prev[i] == (best0[j].1, best0[j].0, best0[j].2);
                assert(time[i] == prev[i]);
            }
        }
        assert forall|i: int, j: int|
            0 <= i < time.len() && 0 <= j < best.len() && (#[trigger] time[i]).1 == (#[trigger] best[j]).0
                implies time[i].2 <= best[j].2 by {
            if i < n {
                assert(time[i] == prev[i]);
                if j < best0.len() {
                    assert(prev[i].2 <= best0[j].2);
                } else {
                    assert(best_index(best0, prev[i].1) >= 0);
                    lemma_best_index(best0, prev[i].1);
                }
            } else {
                if j0 >= 0 && j != j0 && j < best0.len() {
                    assert(best0[j].0 != f);
                }
            }
        }
        assert forall|i: int| 0 <= i < time.len() implies best_index(best, (#[trigger] time[i]).1) >= 0 by {
            let g = time[i].1;
            lemma_best_index(best, g);
            if best_index(best, g) < 0 {
                if i < n {
                    assert(time[i] == prev[i]);
                    lemma_best_index(best0, g);
                    let q = best_index(best0, g);
                    assert(best[q].0 == g);
                } else {
                    if j0 < 0 {
                        assert(best[best0.len() as int].0 == g);
                    } else {
                        assert(best[j0].0 == g);
                    }
                }
            }
        }
    }
}

} // verus!
