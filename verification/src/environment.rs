//! The environment overrides that a child is started with.

use vstd::prelude::*;

verus! {

/// A base mapping with the entries laid over it one after the other: each
/// entry sets its name to its value, so of two entries with one name the
/// later one stays.
pub open spec fn overlay(
    base: Map<Seq<char>, Seq<char>>,
    entries: Seq<(Seq<char>, Seq<char>)>,
) -> Map<Seq<char>, Seq<char>>
    decreases entries.len(),
{
    if entries.len() == 0 {
        base
    } else {
        overlay(base, entries.drop_last()).insert(entries.last().0, entries.last().1)
    }
}

/// No two entries share a name.
pub open spec fn names_distinct(entries: Seq<(Seq<char>, Seq<char>)>) -> bool {
    forall|i: int, j: int| 0 <= i < j < entries.len() ==> entries[i].0 != entries[j].0
}

/// Whether some entry carries the name.
pub open spec fn has_name(entries: Seq<(Seq<char>, Seq<char>)>, name: Seq<char>) -> bool {
    exists|i: int| 0 <= i < entries.len() && #[trigger] entries[i].0 == name
}

/// A name that no entry carries keeps what the base has for it.
pub proof fn lemma_overlay_keeps_others(
    base: Map<Seq<char>, Seq<char>>,
    entries: Seq<(Seq<char>, Seq<char>)>,
    name: Seq<char>,
)
    requires
        !has_name(entries, name),
    ensures
        overlay(base, entries).contains_key(name) == base.contains_key(name),
        base.contains_key(name) ==> overlay(base, entries)[name] == base[name],
    decreases entries.len(),
{
    if entries.len() > 0 {
        let earlier = entries.drop_last();
        assert(entries[entries.len() - 1].0 != name);
        assert forall|i: int| 0 <= i < earlier.len() implies #[trigger] earlier[i].0 != name by {
            assert(entries[i].0 != name);
        }
        lemma_overlay_keeps_others(base, earlier, name);
    }
}

/// The name of an entry that no later entry repeats has that entry's value,
/// whatever the base held for it.
pub proof fn lemma_overlay_last_wins(
    base: Map<Seq<char>, Seq<char>>,
    entries: Seq<(Seq<char>, Seq<char>)>,
    at: int,
)
    requires
        0 <= at < entries.len(),
        forall|j: int| at < j < entries.len() ==> entries[j].0 != entries[at].0,
    ensures
        overlay(base, entries).contains_key(entries[at].0),
        overlay(base, entries)[entries[at].0] == entries[at].1,
    decreases entries.len(),
{
    if at < entries.len() - 1 {
        let earlier = entries.drop_last();
        assert(entries[entries.len() - 1].0 != entries[at].0);
        assert(earlier[at] == entries[at]);
        assert forall|j: int| at < j < earlier.len() implies earlier[j].0 != earlier[at].0 by {
            assert(earlier[j] == entries[j]);
        }
        lemma_overlay_last_wins(base, earlier, at);
    }
}

/// Every name of the result comes from the base or from an entry.
pub proof fn lemma_overlay_names(
    base: Map<Seq<char>, Seq<char>>,
    entries: Seq<(Seq<char>, Seq<char>)>,
    name: Seq<char>,
)
    ensures
        overlay(base, entries).contains_key(name) == (base.contains_key(name) || has_name(
            entries,
            name,
        )),
    decreases entries.len(),
{
    if entries.len() > 0 {
        let earlier = entries.drop_last();
        lemma_overlay_names(base, earlier, name);
        if has_name(earlier, name) {
            let i = choose|i: int| 0 <= i < earlier.len() && #[trigger] earlier[i].0 == name;
            assert(entries[i].0 == name);
        }
        if entries.last().0 == name {
            assert(entries[entries.len() - 1].0 == name);
        }
        if has_name(entries, name) {
            let i = choose|i: int| 0 <= i < entries.len() && #[trigger] entries[i].0 == name;
            if i < earlier.len() {
                assert(earlier[i].0 == name);
            }
        }
    }
}

/// Laying entries over a base in two runs is laying all of them over it.
pub proof fn lemma_overlay_twice(
    base: Map<Seq<char>, Seq<char>>,
    first: Seq<(Seq<char>, Seq<char>)>,
    second: Seq<(Seq<char>, Seq<char>)>,
)
    ensures
        overlay(overlay(base, first), second) == overlay(base, first + second),
    decreases second.len(),
{
    if second.len() == 0 {
        assert(first + second == first);
    } else {
        lemma_overlay_twice(base, first, second.drop_last());
        assert((first + second).drop_last() == first + second.drop_last());
        assert((first + second).last() == second.last());
    }
}

/// What a child sees for a name when it is started with overrides over an
/// ambient environment: the override where there is one, else what the
/// ambient environment holds for the name, if anything.
pub open spec fn seen_by_child(
    overrides: Map<Seq<char>, Seq<char>>,
    name: Seq<char>,
    ambient: Option<Seq<char>>,
) -> Option<Seq<char>> {
    if overrides.contains_key(name) {
        Some(overrides[name])
    } else {
        ambient
    }
}

/// An override wins over the ambient value of its name, and every name
/// without an override keeps its ambient value: a child started with the
/// entries as overrides sees, for the name of an entry that no later entry
/// repeats, that entry's value, and for a name that no entry carries, what
/// the ambient environment holds.
pub proof fn lemma_overrides_win_and_others_stay(
    entries: Seq<(Seq<char>, Seq<char>)>,
    name: Seq<char>,
    ambient: Option<Seq<char>>,
)
    ensures
        forall|at: int|
            0 <= at < entries.len() && #[trigger] entries[at].0 == name && (forall|j: int|
                at < j < entries.len() ==> entries[j].0 != name) ==> seen_by_child(
                overlay(Map::empty(), entries),
                name,
                ambient,
            ) == Some(entries[at].1),
        !has_name(entries, name) ==> seen_by_child(overlay(Map::empty(), entries), name, ambient)
            == ambient,
{
    assert forall|at: int|
        0 <= at < entries.len() && #[trigger] entries[at].0 == name && (forall|j: int|
            at < j < entries.len() ==> entries[j].0 != name) implies seen_by_child(
        overlay(Map::empty(), entries),
        name,
        ambient,
    ) == Some(entries[at].1) by {
        lemma_overlay_last_wins(Map::empty(), entries, at);
    }
    if !has_name(entries, name) {
        lemma_overlay_keeps_others(Map::empty(), entries, name);
    }
}

/// The overrides laid over the ambient environment when a child is started.
/// Each name occurs once.
#[derive(Debug)]
pub struct ExecutionEnvironment {
    vars: Vec<(String, String)>,
}

impl View for ExecutionEnvironment {
    type V = Map<Seq<char>, Seq<char>>;

    closed spec fn view(&self) -> Map<Seq<char>, Seq<char>> {
        overlay(Map::empty(), self.vars.deep_view())
    }
}

/// Sets one name to one value in a list of entries with distinct names:
/// in place where the name is there, at the end where it is new.
fn set_entry(vars: &mut Vec<(String, String)>, name: String, value: String)
    requires
        names_distinct(old(vars).deep_view()),
    ensures
        names_distinct(final(vars).deep_view()),
        overlay(Map::empty(), final(vars).deep_view()) == overlay(
            Map::empty(),
            old(vars).deep_view(),
        ).insert(name@, value@),
{
    let ghost before = vars.deep_view();
    let mut i: usize = 0;
    while i < vars.len()
        invariant
            i <= vars.len(),
            vars.deep_view() == before,
            before == old(vars).deep_view(),
            names_distinct(before),
            forall|j: int| 0 <= j < i ==> before[j].0 != name@,
        decreases vars.len() - i,
    {
        assert(vars.deep_view()[i as int] == (vars@[i as int].0@, vars@[i as int].1@));
        if vars[i].0 == name {
            vars.set(i, (name, value));
            proof {
                let base = Map::<Seq<char>, Seq<char>>::empty();
                let after = vars.deep_view();
                assert(before[i as int].0 == name@);
                assert(after == before.update(i as int, (name@, value@)));
                assert forall|a: int| 0 <= a < after.len() implies #[trigger] after[a].0
                    == before[a].0 by {}
                assert forall|a: int, b: int| 0 <= a < b < after.len() implies after[a].0
                    != after[b].0 by {
                    assert(before[a].0 != before[b].0);
                }
                assert forall|key: Seq<char>|
                    overlay(base, after).contains_key(key) == #[trigger] overlay(base, before).insert(
                        name@,
                        value@,
                    ).contains_key(key) by {
                    lemma_overlay_names(base, after, key);
                    lemma_overlay_names(base, before, key);
                    if has_name(before, key) {
                        let k = choose|k: int| 0 <= k < before.len() && #[trigger] before[k].0 == key;
                        assert(after[k].0 == key);
                    }
                    if has_name(after, key) {
                        let k = choose|k: int| 0 <= k < after.len() && #[trigger] after[k].0 == key;
                        assert(before[k].0 == key);
                    }
                }
                assert forall|key: Seq<char>| #[trigger]
                    overlay(base, after).contains_key(key) implies overlay(base, after)[key]
                    == overlay(base, before).insert(name@, value@)[key] by {
                    lemma_overlay_names(base, after, key);
                    let k = choose|k: int| 0 <= k < after.len() && #[trigger] after[k].0 == key;
                    lemma_overlay_last_wins(base, after, k);
                    if key != name@ {
                        assert(before[k] == after[k]);
                        lemma_overlay_last_wins(base, before, k);
                    }
                }
                assert(overlay(base, after) =~= overlay(base, before).insert(name@, value@));
            }
            return ;
        }
        i += 1;
    }
    vars.push((name, value));
    proof {
        let after = vars.deep_view();
        assert(after == before.push((name@, value@)));
        assert(after.drop_last() == before);
        assert forall|a: int, b: int| 0 <= a < b < after.len() implies after[a].0 != after[b].0 by {
            if b < before.len() {
                assert(before[a].0 != before[b].0);
            }
        }
    }
}

impl ExecutionEnvironment {
    #[verifier::type_invariant]
    spec fn each_name_once(self) -> bool {
        names_distinct(self.vars.deep_view())
    }

    /// An environment without overrides: a child started with it sees the
    /// ambient environment as it is.
    pub fn new() -> (env: Self)
        ensures
            env@ == Map::<Seq<char>, Seq<char>>::empty(),
    {
        let vars: Vec<(String, String)> = Vec::new();
        assert(vars.deep_view() == Seq::<(Seq<char>, Seq<char>)>::empty());
        ExecutionEnvironment { vars }
    }

    /// Lays the overrides over this environment, in their order: each name
    /// among them gets its value, every other name keeps what it had.
    pub fn with_overrides(self, overrides: &Vec<(String, String)>) -> (merged: Self)
        ensures
            merged@ == overlay(self@, overrides.deep_view()),
    {
        proof {
            use_type_invariant(&self);
        }
        let ghost start = self@;
        let ghost all = overrides.deep_view();
        let mut vars = self.vars;
        let mut i: usize = 0;
        while i < overrides.len()
            invariant
                i <= overrides.len(),
                all == overrides.deep_view(),
                names_distinct(vars.deep_view()),
                overlay(Map::empty(), vars.deep_view()) == overlay(start, all.take(i as int)),
            decreases overrides.len() - i,
        {
            let name = overrides[i].0.clone();
            let value = overrides[i].1.clone();
            proof {
                assert(all[i as int] == (overrides@[i as int].0@, overrides@[i as int].1@));
                assert(all.take(i + 1).drop_last() == all.take(i as int));
                assert(all.take(i + 1).last() == all[i as int]);
            }
            set_entry(&mut vars, name, value);
            i += 1;
        }
        proof {
            assert(all.take(all.len() as int) == all);
        }
        ExecutionEnvironment { vars }
    }

    /// Looks up the override for a name.
    pub fn get(&self, name: &str) -> (found: Option<&String>)
        ensures
            match found {
                Some(value) => self@.contains_key(name@) && self@[name@] == value@,
                None => !self@.contains_key(name@),
            },
    {
        proof {
            use_type_invariant(self);
        }
        let wanted = name.to_owned();
        let ghost entries = self.vars.deep_view();
        let mut i: usize = 0;
        while i < self.vars.len()
            invariant
                i <= self.vars.len(),
                entries == self.vars.deep_view(),
                names_distinct(entries),
                wanted@ == name@,
                forall|j: int| 0 <= j < i ==> entries[j].0 != name@,
            decreases self.vars.len() - i,
        {
            assert(entries[i as int] == (self.vars@[i as int].0@, self.vars@[i as int].1@));
            if self.vars[i].0 == wanted {
                proof {
                    lemma_overlay_last_wins(Map::empty(), entries, i as int);
                }
                return Some(&self.vars[i].1);
            }
            i += 1;
        }
        proof {
            lemma_overlay_names(Map::empty(), entries, name@);
        }
        None
    }

    /// The value that a child started with this environment sees for a name,
    /// given what the ambient environment holds for it: the override where
    /// there is one, else the ambient value.
    pub fn lookup(&self, name: &str, ambient: Option<String>) -> (seen: Option<String>)
        ensures
            seen.deep_view() == seen_by_child(self@, name@, ambient.deep_view()),
            !self@.contains_key(name@) ==> seen == ambient,
    {
        match self.get(name) {
            Some(value) => Some(value.clone()),
            None => ambient,
        }
    }

    /// The overrides as entries, each name once.
    pub closed spec fn entries_view(&self) -> Seq<(Seq<char>, Seq<char>)> {
        self.vars.deep_view()
    }

    /// The overrides as a list of entries with distinct names, for whoever
    /// starts the process.
    pub fn entries(&self) -> (list: &Vec<(String, String)>)
        ensures
            list.deep_view() == self.entries_view(),
            names_distinct(list.deep_view()),
            overlay(Map::empty(), list.deep_view()) == self@,
    {
        proof {
            use_type_invariant(self);
        }
        &self.vars
    }
}

} // verus!
