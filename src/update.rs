use crate::source::{Input, Source, Stats};
use vstd::prelude::*;

verus! {

/// What the engine tells the presentation side.
#[derive(Debug, PartialEq, Eq, Structural)]
pub enum Update {
    /// A tick is complete: the store holds a new snapshot.
    Tick,
    /// A device group joined the catalogue.
    Created,
    /// A device group left the catalogue.
    Removed,
}

/// A named device group with its adapters, in display order, as discovery
/// hands it over.
pub struct Group<I> {
    pub name: String,
    pub sources: Vec<I>,
}

/// What one tick guarantees of the records, before `a` and after `b`: the
/// same number; a record whose latch was tripped is exactly as it was; any
/// other has folded in one read outcome.
pub open spec fn tick_step<I: Input>(a: Seq<Source<I>>, b: Seq<Source<I>>) -> bool {
    &&& a.len() == b.len()
    &&& forall|i: int| 0 <= i < a.len() && (#[trigger] a[i]).stats().faulted ==> b[i] == a[i]
    &&& forall|i: int|
        0 <= i < a.len() && !(#[trigger] a[i]).stats().faulted ==> exists|s: Option<i64>|
            b[i].stats() == #[trigger] a[i].stats().after(s)
}

/// Once a record's adapter has failed and its latch is tripped, no later tick
/// reads that adapter again or changes the record: over any run of ticks,
/// the record at `k` after tick `u` is the record after tick `t`.
pub proof fn lemma_fuse_latches<I: Input>(runs: Seq<Seq<Source<I>>>, k: int, t: int, u: int)
    requires
        forall|v: int| 0 <= v < runs.len() - 1 ==> tick_step(#[trigger] runs[v], runs[v + 1]),
        0 <= t <= u < runs.len(),
        0 <= k < runs[t].len(),
        runs[t][k].stats().faulted,
    ensures
        k < runs[u].len(),
        runs[u][k] == runs[t][k],
    decreases u - t,
{
    if u > t {
        lemma_fuse_latches(runs, k, t, u - 1);
        assert(tick_step(runs[u - 1], runs[u]));
    }
}

/// The adapters of `groups` in order, each with its group's name.
pub open spec fn flatten<I>(groups: Seq<Group<I>>) -> Seq<(Seq<char>, I)>
    decreases groups.len(),
{
    if groups.len() == 0 {
        Seq::empty()
    } else {
        tagged(groups[0].name@, groups[0].sources@) + flatten(groups.drop_first())
    }
}

/// `sources`, each with the group name `name`.
pub open spec fn tagged<I>(name: Seq<char>, sources: Seq<I>) -> Seq<(Seq<char>, I)> {
    sources.map_values(|a: I| (name, a))
}

/// One insertion into a catalogue of keys and adapters: a key already present
/// keeps its place and takes the new adapter; a new key goes last.
pub open spec fn ins<I>(c: Seq<((Seq<char>, Seq<char>), I)>, k: (Seq<char>, Seq<char>), a: I) -> Seq<
    ((Seq<char>, Seq<char>), I),
> {
    if exists|i: int| 0 <= i < c.len() && c[i].0 == k {
        let i = choose|i: int| 0 <= i < c.len() && c[i].0 == k;
        c.update(i, (k, a))
    } else {
        c.push((k, a))
    }
}

proof fn lemma_ins_present<I>(c: Seq<((Seq<char>, Seq<char>), I)>, k: (Seq<char>, Seq<char>), a: I, i: int)
    requires
        0 <= i < c.len(),
        c[i].0 == k,
        forall|x: int, y: int| 0 <= x < y < c.len() ==> c[x].0 != c[y].0,
    ensures
        ins(c, k, a) == c.update(i, (k, a)),
{
    assert(exists|j: int| 0 <= j < c.len() && c[j].0 == k);
    let j = choose|j: int| 0 <= j < c.len() && c[j].0 == k;
    if j < i {
        assert(c[j].0 != c[i].0);
    } else if j > i {
        assert(c[i].0 != c[j].0);
    }
}

/// The catalogue built from adapters handed over with their group names, in
/// order, where `names[i]` is the name that adapter `i` reports.
pub open spec fn built<I>(flat: Seq<(Seq<char>, I)>, names: Seq<Seq<char>>) -> Seq<
    ((Seq<char>, Seq<char>), I),
>
    decreases flat.len(),
{
    if flat.len() == 0 || names.len() != flat.len() {
        Seq::empty()
    } else {
        ins(
            built(flat.drop_last(), names.drop_last()),
            (flat.last().0, names.last()),
            flat.last().1,
        )
    }
}

/// One catalogue entry: the record and its key, group name and source name.
pub struct Entry<I> {
    group: String,
    name: String,
    source: Source<I>,
}

/// What the presentation side shows of one record.
pub struct Reading {
    pub group: String,
    pub name: String,
    pub unit: String,
    pub cur: i64,
    pub min: i64,
    pub max: i64,
    pub faulted: bool,
}

/// The sampling engine: the catalogue of records, in display order, with
/// unique keys.
pub struct Updater<I> {
    entries: Vec<Entry<I>>,
}

impl<I: Input> Updater<I> {
    /// The keys in display order: (group name, source name).
    pub closed spec fn keys(&self) -> Seq<(Seq<char>, Seq<char>)> {
        self.entries@.map_values(|e: Entry<I>| (e.group@, e.name@))
    }

    /// The records in display order.
    pub closed spec fn records(&self) -> Seq<Source<I>> {
        self.entries@.map_values(|e: Entry<I>| e.source)
    }

    /// Each key with the adapter of its record.
    pub closed spec fn shape(&self) -> Seq<((Seq<char>, Seq<char>), I)> {
        self.entries@.map_values(|e: Entry<I>| ((e.group@, e.name@), e.source.adapter()))
    }

    /// Keys are unique and every record is well formed.
    pub open spec fn wf(&self) -> bool {
        &&& self.records().len() == self.keys().len()
        &&& forall|i: int, j: int|
            0 <= i < j < self.keys().len() ==> self.keys()[i] != self.keys()[j]
        &&& forall|i: int| 0 <= i < self.records().len() ==> (#[trigger] self.records()[i]).wf()
    }

    /// An empty catalogue.
    pub fn empty() -> (r: Updater<I>)
        ensures
            r.wf(),
            r.keys().len() == 0,
            r.shape().len() == 0,
    {
        Updater { entries: Vec::new() }
    }

    /// The number of records.
    pub fn len(&self) -> (r: usize)
        ensures
            r == self.keys().len(),
    {
        self.entries.len()
    }

    /// Where the key `(group, name)` stands, if it does.
    pub fn position(&self, group: &String, name: &String) -> (r: Option<usize>)
        ensures
            r matches Some(i) ==> i < self.keys().len() && self.keys()[i as int] == (group@, name@),
            r is None ==> forall|i: int|
                0 <= i < self.keys().len() ==> self.keys()[i] != (group@, name@),
    {
        let mut i: usize = 0;
        while i < self.entries.len()
            invariant
                i <= self.entries@.len(),
                forall|j: int| 0 <= j < i ==> self.keys()[j] != (group@, name@),
            decreases self.entries@.len() - i,
        {
            if self.entries[i].group == *group && self.entries[i].name == *name {
                return Some(i);
            }
            i = i + 1;
        }
        None
    }

    /// Adds a fresh record for `input` under `group` and the adapter's name.
    /// A key that is already present keeps its place and gets the fresh record;
    /// a new key goes last. Returns where the record stands.
    pub fn insert(&mut self, group: &str, input: I) -> (r: usize)
        requires
            old(self).wf(),
        ensures
            final(self).wf(),
            r < final(self).keys().len(),
            r <= old(self).keys().len(),
            final(self).keys()[r as int].0 == group@,
            final(self).records()[r as int].stats() == Stats::fresh(),
            final(self).records()[r as int].adapter() == input,
            final(self).shape() == ins(old(self).shape(), final(self).keys()[r as int], input),
            r < old(self).keys().len() ==> final(self).keys() == old(self).keys()
                && final(self).records() == old(self).records().update(
                r as int,
                final(self).records()[r as int],
            ),
            r == old(self).keys().len() ==> final(self).keys() == old(self).keys().push(
                final(self).keys()[r as int],
            ) && final(self).records() == old(self).records().push(final(self).records()[r as int])
                && !old(self).keys().contains(final(self).keys()[r as int]),
    {
        let name = input.name().to_owned();
        let group = group.to_owned();
        let found = self.position(&group, &name);
        let entry = Entry { group, name, source: Source::new(input) };
        match found {
            Some(i) => {
                self.entries.set(i, entry);
                proof {
                    assert(self.keys() =~= old(self).keys());
                    assert(old(self).shape()[i as int].0 == (entry.group@, entry.name@));
                    assert(self.shape() =~= old(self).shape().update(i as int, ((entry.group@, entry.name@), input)));
                    assert forall|x: int, y: int| 0 <= x < y < old(self).shape().len() implies old(self).shape()[x].0
                        != old(self).shape()[y].0 by {
                        assert(old(self).keys()[x] == old(self).shape()[x].0);
                        assert(old(self).keys()[y] == old(self).shape()[y].0);
                    }
                    lemma_ins_present(old(self).shape(), (entry.group@, entry.name@), input, i as int);
                    assert(self.records() =~= old(self).records().update(i as int, entry.source));
                }
                i
            },
            None => {
                let n = self.entries.len();
                self.entries.push(entry);
                proof {
                    assert(self.keys() =~= old(self).keys().push((entry.group@, entry.name@)));
                    assert(self.records() =~= old(self).records().push(entry.source));
                    assert(self.shape() =~= old(self).shape().push(((entry.group@, entry.name@), input)));
                    assert forall|j: int| 0 <= j < old(self).shape().len() implies old(self).shape()[j].0 != (entry.group@, entry.name@) by {
                        assert(old(self).keys()[j] == old(self).shape()[j].0);
                    }
                    assert(self.keys()[n as int] == (entry.group@, entry.name@));
                }
                n
            },
        }
    }

    /// Builds the catalogue from discovery's groups: each adapter in turn goes
    /// in, as `insert` puts it, under its group's name and the name it reports;
    /// every record is fresh.
    pub fn new(groups: Vec<Group<I>>) -> (r: Updater<I>)
        ensures
            r.wf(),
            forall|i: int| 0 <= i < r.records().len() ==> (#[trigger] r.records()[i]).stats() == Stats::fresh(),
            exists|names: Seq<Seq<char>>|
                names.len() == flatten(groups@).len() && r.shape() == built(flatten(groups@), names),
    {
        let ghost all = flatten(groups@);
        let mut upd = Updater::empty();
        let mut groups = groups;
        let ghost mut done: Seq<(Seq<char>, I)> = Seq::empty();
        let ghost mut names: Seq<Seq<char>> = Seq::empty();
        assert(upd.shape() =~= built(done, names));
        assert(all =~= done + flatten(groups@));
        while groups.len() > 0
            invariant
                upd.wf(),
                forall|i: int| 0 <= i < upd.records().len() ==> (#[trigger] upd.records()[i]).stats() == Stats::fresh(),
                names.len() == done.len(),
                upd.shape() == built(done, names),
                all == done + flatten(groups@),
            decreases groups@.len(),
        {
            let ghost gs = groups@;
            let mut group = groups.remove(0);
            proof {
                assert(gs.drop_first() =~= groups@);
                assert(all =~= done + tagged(group.name@, group.sources@) + flatten(groups@));
            }
            while group.sources.len() > 0
                invariant
                    upd.wf(),
                    forall|i: int| 0 <= i < upd.records().len() ==> (#[trigger] upd.records()[i]).stats() == Stats::fresh(),
                    names.len() == done.len(),
                    upd.shape() == built(done, names),
                    all == done + tagged(group.name@, group.sources@) + flatten(groups@),
                decreases group.sources@.len(),
            {
                let ghost srcs = group.sources@;
                let input = group.sources.remove(0);
                let ghost before = upd;
                let k = upd.insert(group.name.as_str(), input);
                proof {
                    let item = (group.name@, input);
                    assert(srcs[0] == input);
                    assert(tagged(group.name@, srcs) =~= seq![item] + tagged(group.name@, group.sources@));
                    assert(done + tagged(group.name@, srcs) + flatten(groups@) =~= done.push(item) + tagged(
                        group.name@,
                        group.sources@,
                    ) + flatten(groups@));
                    let n = upd.keys()[k as int].1;
                    assert(upd.keys()[k as int] == (group.name@, n));
                    assert(done.push(item).drop_last() =~= done);
                    assert(names.push(n).drop_last() =~= names);
                    assert(built(done.push(item), names.push(n)) == ins(built(done, names), (group.name@, n), input));
                    done = done.push(item);
                    names = names.push(n);
                    assert forall|i: int| 0 <= i < upd.records().len() implies (#[trigger] upd.records()[i]).stats() == Stats::fresh() by {
                        if i != k {
                            if k < before.keys().len() {
                                assert(upd.records() == before.records().update(k as int, upd.records()[k as int]));
                            } else {
                                assert(upd.records() == before.records().push(upd.records()[k as int]));
                            }
                            assert(upd.records()[i] == before.records()[i]);
                        }
                    }
                }
            }
            proof {
                assert(tagged(group.name@, group.sources@) =~= Seq::<(Seq<char>, I)>::empty());
                assert(all =~= done + flatten(groups@));
            }
        }
        proof {
            assert(flatten(groups@) =~= Seq::<(Seq<char>, I)>::empty());
            assert(all =~= done);
        }
        upd
    }

    /// One tick: every record whose latch is intact reads its adapter once
    /// and folds in the outcome; a record whose latch is tripped is left as it
    /// is, adapter unread. Keys and order do not change. Returns the one
    /// notification that the tick owes, whatever the reads gave.
    pub fn update(&mut self) -> (r: Update)
        requires
            old(self).wf(),
        ensures
            r == Update::Tick,
            final(self).wf(),
            final(self).keys() == old(self).keys(),
            tick_step(old(self).records(), final(self).records()),
    {
        let n = self.entries.len();
        let mut i: usize = 0;
        while i < n
            invariant
                n == old(self).keys().len(),
                i <= n,
                old(self).wf(),
                self.wf(),
                self.keys() == old(self).keys(),
                forall|j: int| i <= j < n ==> self.records()[j] == old(self).records()[j],
                forall|j: int|
                    0 <= j < i && (#[trigger] old(self).records()[j]).stats().faulted
                        ==> self.records()[j] == old(self).records()[j],
                forall|j: int|
                    0 <= j < i && !(#[trigger] old(self).records()[j]).stats().faulted
                        ==> exists|s: Option<i64>| self.records()[j].stats() == #[trigger] old(self).records()[j].stats().after(s),
            decreases n - i,
        {
            let ghost prev = *self;
            self.entries[i].source.update();
            proof {
                assert(self.keys() =~= prev.keys());
                assert(self.records() =~= prev.records().update(i as int, self.records()[i as int]));
                assert(prev.records()[i as int] == old(self).records()[i as int]);
                assert(self.records()[i as int].wf());
            }
            i = i + 1;
        }
        Update::Tick
    }

    /// The record at `i`.
    pub fn source(&self, i: usize) -> (r: &Source<I>)
        requires
            i < self.keys().len(),
            self.wf(),
        ensures
            *r == self.records()[i as int],
    {
        &self.entries[i].source
    }

    /// The group name of the record at `i`.
    pub fn group(&self, i: usize) -> (r: &str)
        requires
            i < self.keys().len(),
            self.wf(),
        ensures
            r@ == self.keys()[i as int].0,
    {
        self.entries[i].group.as_str()
    }

    /// The source name of the record at `i`.
    pub fn name(&self, i: usize) -> (r: &str)
        requires
            i < self.keys().len(),
            self.wf(),
        ensures
            r@ == self.keys()[i as int].1,
    {
        self.entries[i].name.as_str()
    }

    /// Every record as the presentation side shows it, in display order.
    pub fn snapshot(&self) -> (r: Vec<Reading>)
        requires
            self.wf(),
        ensures
            r@.len() == self.keys().len(),
            forall|i: int| 0 <= i < r@.len() ==> {
                &&& (#[trigger] r@[i]).group@ == self.keys()[i].0
                &&& r@[i].name@ == self.keys()[i].1
                &&& r@[i].cur as int == self.records()[i].stats().cur
                &&& r@[i].min as int == self.records()[i].stats().min
                &&& r@[i].max as int == self.records()[i].stats().max
                &&& r@[i].faulted == self.records()[i].stats().faulted
            },
    {
        let mut out: Vec<Reading> = Vec::new();
        let mut i: usize = 0;
        while i < self.entries.len()
            invariant
                self.wf(),
                i <= self.entries@.len(),
                out@.len() == i,
                forall|j: int| 0 <= j < i ==> {
                    &&& (#[trigger] out@[j]).group@ == self.keys()[j].0
                    &&& out@[j].name@ == self.keys()[j].1
                    &&& out@[j].cur as int == self.records()[j].stats().cur
                    &&& out@[j].min as int == self.records()[j].stats().min
                    &&& out@[j].max as int == self.records()[j].stats().max
                    &&& out@[j].faulted == self.records()[j].stats().faulted
                },
            decreases self.entries@.len() - i,
        {
            let e = &self.entries[i];
            let reading = Reading {
                group: e.group.clone(),
                name: e.name.clone(),
                unit: e.source.input().unit().to_owned(),
                cur: e.source.cur(),
                min: e.source.min(),
                max: e.source.max(),
                faulted: e.source.faulted(),
            };
            out.push(reading);
            i = i + 1;
        }
        out
    }
}

} // verus!
