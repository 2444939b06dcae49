//! Frequency tables of author identities, and their most frequent entry.
use vstd::prelude::*;

verus! {

/// One entry of a table: an identity and how often it occurred.
pub type Entry = (Seq<char>, nat);

/// Whether `t` holds an entry for `id`.
pub open spec fn has_key(t: Seq<Entry>, id: Seq<char>) -> bool {
    exists|i: int| 0 <= i < t.len() && t[i].0 == id
}

/// `t` with one more occurrence of `id`: its entry counts one more, or a new
/// entry with count 1 goes to the end.
pub open spec fn bump(t: Seq<Entry>, id: Seq<char>) -> Seq<Entry> {
    if has_key(t, id) {
        let i = choose|i: int| 0 <= i < t.len() && t[i].0 == id;
        t.update(i, (id, t[i].1 + 1))
    } else {
        t.push((id, 1))
    }
}

/// The table built from the occurrences `s`, entries in order of first occurrence.
pub open spec fn tally(s: Seq<Seq<char>>) -> Seq<Entry>
    decreases s.len(),
{
    if s.len() == 0 {
        Seq::empty()
    } else {
        bump(tally(s.drop_last()), s.last())
    }
}

/// No two entries share an identity, and every count is at least 1.
pub open spec fn table_wf(t: Seq<Entry>) -> bool {
    &&& forall|i: int, j: int| 0 <= i < t.len() && 0 <= j < t.len() && i != j ==> t[i].0 != t[j].0
    &&& forall|i: int| 0 <= i < t.len() ==> t[i].1 >= 1
}

/// The first entry of greatest count, or `None` for an empty table.
pub open spec fn mode_of(t: Seq<Entry>) -> Option<Entry>
    decreases t.len(),
{
    if t.len() == 0 {
        None
    } else {
        match mode_of(t.drop_last()) {
            None => Some(t.last()),
            Some(best) => if t.last().1 > best.1 {
                Some(t.last())
            } else {
                Some(best)
            },
        }
    }
}

/// The sum of the counts of `t`.
pub open spec fn total(t: Seq<Entry>) -> nat
    decreases t.len(),
{
    if t.len() == 0 {
        0
    } else {
        total(t.drop_last()) + t.last().1
    }
}

/// The identities of the entries of `t`, in order.
pub open spec fn keys(t: Seq<Entry>) -> Seq<Seq<char>> {
    t.map_values(|e: Entry| e.0)
}

proof fn lemma_total_update(t: Seq<Entry>, i: int, e: Entry)
    requires
        0 <= i < t.len(),
    ensures
        total(t.update(i, e)) == total(t) - t[i].1 + e.1,
    decreases t.len(),
{
    let u = t.update(i, e);
    if i < t.len() - 1 {
        assert(u.drop_last() =~= t.drop_last().update(i, e));
        lemma_total_update(t.drop_last(), i, e);
    } else {
        assert(u.drop_last() =~= t.drop_last());
    }
}

/// What holds of every table built by `tally`: it is well formed, no count
/// exceeds the number of occurrences, the counts add up to that number, and
/// its identities are those that occur.
pub proof fn lemma_tally_facts(s: Seq<Seq<char>>)
    ensures
        table_wf(tally(s)),
        forall|i: int| 0 <= i < tally(s).len() ==> tally(s)[i].1 <= s.len(),
        total(tally(s)) == s.len(),
        keys(tally(s)).to_set() == s.to_set(),
    decreases s.len(),
{
    if s.len() == 0 {
        assert(keys(tally(s)) =~= Seq::<Seq<char>>::empty());
        assert(s =~= Seq::<Seq<char>>::empty());
    } else {
        let rest = s.drop_last();
        let id = s.last();
        lemma_tally_facts(rest);
        let t = tally(rest);
        assert(s =~= rest.push(id));
        rest.lemma_push_to_set_commute(id);
        if has_key(t, id) {
            let i = choose|i: int| 0 <= i < t.len() && t[i].0 == id;
            let u = t.update(i, (id, t[i].1 + 1));
            lemma_total_update(t, i, (id, t[i].1 + 1));
            assert(keys(u) =~= keys(t));
            assert(keys(t)[i] == id);
            assert(keys(t).to_set().contains(id));
            assert(s.to_set() =~= rest.to_set());
        } else {
            let u = t.push((id, 1));
            assert(u.drop_last() =~= t);
            assert(keys(u) =~= keys(t).push(id));
            keys(t).lemma_push_to_set_commute(id);
            assert forall|i: int, j: int| 0 <= i < u.len() && 0 <= j < u.len() && i != j implies u[i].0 != u[j].0 by {
                if i == t.len() {
                    assert(t[j].0 != id);
                } else if j == t.len() {
                    assert(t[i].0 != id);
                }
            }
        }
    }
}

/// How many times `id` occurs in `s`.
pub open spec fn occurrences(s: Seq<Seq<char>>, id: Seq<char>) -> nat
    decreases s.len(),
{
    if s.len() == 0 {
        0
    } else {
        occurrences(s.drop_last(), id) + if s.last() == id {
            1nat
        } else {
            0nat
        }
    }
}

proof fn lemma_no_occurrences(s: Seq<Seq<char>>, id: Seq<char>)
    requires
        !s.contains(id),
    ensures
        occurrences(s, id) == 0,
    decreases s.len(),
{
    if s.len() > 0 {
        assert(s.last() == s[s.len() - 1]);
        assert(!s.drop_last().contains(id)) by {
            if s.drop_last().contains(id) {
                let i = choose|i: int| 0 <= i < s.drop_last().len() && s.drop_last()[i] == id;
                assert(s[i] == id);
            }
        }
        lemma_no_occurrences(s.drop_last(), id);
    }
}

/// Each entry of the table built from `s` counts how often its identity occurs in `s`.
pub proof fn lemma_tally_counts_occurrences(s: Seq<Seq<char>>)
    ensures
        forall|i: int| 0 <= i < tally(s).len() ==> #[trigger] tally(s)[i].1 == occurrences(s, tally(s)[i].0),
    decreases s.len(),
{
    if s.len() > 0 {
        let rest = s.drop_last();
        let id = s.last();
        lemma_tally_counts_occurrences(rest);
        lemma_tally_facts(rest);
        let t = tally(rest);
        if !has_key(t, id) {
            assert(!rest.contains(id)) by {
                if rest.contains(id) {
                    assert(rest.to_set().contains(id));
                    assert(keys(t).to_set().contains(id));
                    let j = choose|j: int| 0 <= j < keys(t).len() && keys(t)[j] == id;
                    assert(t[j].0 == id);
                }
            }
            lemma_no_occurrences(rest, id);
            assert(tally(s)[t.len() as int] == (id, 1nat));
        }
        assert forall|i: int| 0 <= i < tally(s).len() implies #[trigger] tally(s)[i].1 == occurrences(
            s,
            tally(s)[i].0,
        ) by {
            if i < t.len() {
                assert(t[i].1 == occurrences(rest, t[i].0));
            }
        }
    }
}

/// The mode of a nonempty table is one of its entries, no count exceeds it, and
/// it times the number of entries is at least the total of the counts.
pub proof fn lemma_mode_facts(t: Seq<Entry>)
    ensures
        mode_of(t) is None <==> t.len() == 0,
        mode_of(t) matches Some(m) ==> {
            &&& exists|i: int| 0 <= i < t.len() && t[i] == m
            &&& forall|i: int| 0 <= i < t.len() ==> t[i].1 <= m.1
            &&& m.1 * t.len() >= total(t)
        },
    decreases t.len(),
{
    if t.len() > 0 {
        let rest = t.drop_last();
        lemma_mode_facts(rest);
        let m = mode_of(t)->Some_0;
        assert(t.last() == t[t.len() - 1]);
        match mode_of(rest) {
            None => {
                assert(rest.len() == 0);
                assert(total(rest) == 0);
                assert(m.1 * t.len() == m.1) by (nonlinear_arith)
                    requires
                        t.len() == 1,
                ;
            },
            Some(b) => {
                if t.last().1 > b.1 {
                    assert(b.1 * rest.len() >= total(rest));
                    assert(m.1 * rest.len() >= b.1 * rest.len()) by (nonlinear_arith)
                        requires
                            m.1 > b.1,
                    ;
                } else {
                    let i = choose|i: int| 0 <= i < rest.len() && rest[i] == b;
                    assert(t[i] == b);
                }
                assert(m.1 * t.len() == m.1 * rest.len() + m.1) by (nonlinear_arith)
                    requires
                        t.len() == rest.len() + 1,
                ;
            },
        }
        assert(total(t) == total(rest) + t.last().1);
        assert forall|i: int| 0 <= i < t.len() implies t[i].1 <= m.1 by {
            if i < rest.len() {
                assert(t[i] == rest[i]);
            }
        }
        if m == t.last() {
            assert(t[t.len() - 1] == m);
        } else {
            let b = mode_of(rest)->Some_0;
            let i = choose|i: int| 0 <= i < rest.len() && rest[i] == b;
            assert(t[i] == m);
        }
    }
}

/// Of occurrences `s` of K distinct identities, N in all: the counts of the table
/// built from them add up to N, the table has K entries, and for N > 0 its most
/// frequent entry has a count c of at least the ceiling of N / K (c * K >= N).
pub proof fn law_tally_counts(s: Seq<Seq<char>>)
    ensures
        total(tally(s)) == s.len(),
        tally(s).len() == s.to_set().len(),
        s.len() > 0 ==> (mode_of(tally(s)) matches Some(m) && m.1 * s.to_set().len() >= s.len()
            && m.1 >= (s.len() + s.to_set().len() - 1) as int / s.to_set().len() as int),
{
    let t = tally(s);
    lemma_tally_facts(s);
    assert(keys(t).no_duplicates());
    keys(t).unique_seq_to_set();
    lemma_mode_facts(t);
    if s.len() > 0 {
        let m = mode_of(t)->Some_0;
        let n = s.len() as int;
        let k = t.len() as int;
        let c = m.1 as int;
        assert(c >= (n + k - 1) / k) by (nonlinear_arith)
            requires
                c * k >= n,
                k > 0,
        ;
    }
}

/// The views of a sequence of strings.
pub open spec fn strings_view(v: Seq<String>) -> Seq<Seq<char>> {
    v.map_values(|x: String| x@)
}

/// The view of a selected entry.
pub open spec fn mode_view(r: Option<(String, usize)>) -> Option<Entry> {
    match r {
        None => None,
        Some(p) => Some((p.0@, p.1 as nat)),
    }
}

/// A table of how often each author identity occurred.
pub struct FrequencyTable {
    entries: Vec<(String, usize)>,
}

impl View for FrequencyTable {
    type V = Seq<Entry>;

    closed spec fn view(&self) -> Seq<Entry> {
        self.entries@.map_values(|e: (String, usize)| (e.0@, e.1 as nat))
    }
}

impl FrequencyTable {
    /// The table's invariant.
    pub open spec fn wf(&self) -> bool {
        table_wf(self@)
    }

    /// An empty table.
    pub fn new() -> (r: FrequencyTable)
        ensures
            r@ == Seq::<Entry>::empty(),
            r.wf(),
    {
        let r = FrequencyTable { entries: Vec::new() };
        assert(r@ =~= Seq::<Entry>::empty());
        r
    }

    /// The table of the occurrences `ids`.
    pub fn from_occurrences(ids: &Vec<String>) -> (r: FrequencyTable)
        ensures
            r@ == tally(strings_view(ids@)),
            r.wf(),
            keys(r@).to_set() == strings_view(ids@).to_set(),
            forall|i: int| 0 <= i < r@.len() ==> r@[i].1 == occurrences(strings_view(ids@), r@[i].0),
    {
        let mut r = FrequencyTable::new();
        let mut i: usize = 0;
        while i < ids.len()
            invariant
                i <= ids.len(),
                r@ == tally(strings_view(ids@).take(i as int)),
                r.wf(),
            decreases ids.len() - i,
        {
            let ghost s = strings_view(ids@);
            proof {
                lemma_tally_facts(s.take(i as int));
                assert(s.take(i + 1).drop_last() =~= s.take(i as int));
            }
            r.add(ids[i].clone());
            i = i + 1;
        }
        assert(strings_view(ids@).take(i as int) =~= strings_view(ids@));
        proof {
            lemma_tally_facts(strings_view(ids@));
            lemma_tally_counts_occurrences(strings_view(ids@));
        }
        r
    }

    /// The number of distinct identities.
    pub fn len(&self) -> (r: usize)
        ensures
            r == self@.len(),
    {
        self.entries.len()
    }

    /// Counts one more occurrence of `id`.
    pub fn add(&mut self, id: String)
        requires
            old(self).wf(),
            forall|i: int| 0 <= i < old(self)@.len() ==> old(self)@[i].1 < usize::MAX,
        ensures
            final(self)@ == bump(old(self)@, id@),
            final(self).wf(),
    {
        let ghost t = self@;
        let mut i: usize = 0;
        let mut found: bool = false;
        while i < self.entries.len() && !found
            invariant
                self@ == t,
                table_wf(t),
                i <= t.len(),
                forall|j: int| 0 <= j < i ==> t[j].0 != id@,
                found ==> i < t.len() && t[i as int].0 == id@,
            decreases self.entries.len() - i + if found { 0int } else { 1int },
        {
            assert(t[i as int] == (self.entries@[i as int].0@, self.entries@[i as int].1 as nat));
            if self.entries[i].0 == id {
                found = true;
            } else {
                i = i + 1;
            }
        }
        if found {
            assert(has_key(t, id@));
            assert(t[i as int] == (self.entries@[i as int].0@, self.entries@[i as int].1 as nat));
            let c = self.entries[i].1 + 1;
            let ghost k = choose|k: int| 0 <= k < t.len() && t[k].0 == id@;
            assert(k == i);
            self.entries.set(i, (id, c));
        } else {
            assert(!has_key(t, id@));
            self.entries.push((id, 1));
        }
        assert(self@ =~= bump(t, id@));
    }

    /// The entry of greatest count; of several with that count, the one that
    /// came into the table first. `None` for an empty table.
    pub fn mode(&self) -> (r: Option<(String, usize)>)
        ensures
            mode_view(r) == mode_of(self@),
    {
        let mut best: Option<usize> = None;
        let mut i: usize = 0;
        while i < self.entries.len()
            invariant
                i <= self@.len(),
                self@.len() == self.entries@.len(),
                best is None <==> mode_of(self@.take(i as int)) is None,
                best matches Some(b) ==> b < i && mode_of(self@.take(i as int)) == Some(self@[b as int]),
            decreases self.entries.len() - i,
        {
            assert(self@.take(i + 1).drop_last() =~= self@.take(i as int));
            assert(self@[i as int] == (self.entries@[i as int].0@, self.entries@[i as int].1 as nat));
            match best {
                None => {
                    best = Some(i);
                },
                Some(b) => {
                    assert(self@[b as int] == (self.entries@[b as int].0@, self.entries@[b as int].1 as nat));
                    if self.entries[i].1 > self.entries[b].1 {
                        best = Some(i);
                    }
                },
            }
            i = i + 1;
        }
        assert(self@.take(i as int) =~= self@);
        match best {
            None => None,
            Some(b) => {
                assert(self@[b as int] == (self.entries@[b as int].0@, self.entries@[b as int].1 as nat));
                Some((self.entries[b].0.clone(), self.entries[b].1))
            },
        }
    }
}

} // verus!
