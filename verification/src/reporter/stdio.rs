//! A reporter that counts what a search from the command line finds.

use vstd::prelude::*;
use crate::manager::{EnvManager, EnvManagerType};
use crate::r_installation::{same_installation, RInstallation, RInstallationKind};
use crate::reporter::{first_value, lemma_first_value_absent, lemma_first_value_at, lemma_first_value_push, lemma_first_value_update, Reporter};

verus! {

/// How many of each manager type and installation kind were reported, and
/// the installations of each kind.
#[derive(Debug)]
pub struct Summary {
    pub managers: Vec<(EnvManagerType, u16)>,
    pub installations: Vec<(Option<RInstallationKind>, u16)>,
    pub installation_paths: Vec<(Option<RInstallationKind>, Vec<RInstallation>)>,
}

/// Counts what is reported, optionally only installations of one kind; the
/// caller prints each report when `print_list` is set.
#[derive(Debug)]
pub struct StdioReporter {
    pub print_list: bool,
    pub managers: Vec<(EnvManagerType, u16)>,
    pub installations: Vec<(Option<RInstallationKind>, u16)>,
    pub installation_paths: Vec<(Option<RInstallationKind>, Vec<RInstallation>)>,
    pub kind: Option<RInstallationKind>,
}

pub open spec fn count_of<K>(s: Seq<(K, u16)>, k: K) -> int {
    match first_value(s, k) {
        Some(c) => c as int,
        None => 0,
    }
}

pub open spec fn group_of(s: Seq<(Option<RInstallationKind>, Vec<RInstallation>)>, k: Option<RInstallationKind>) -> Seq<RInstallation> {
    match first_value(s, k) {
        Some(g) => g@,
        None => Seq::empty(),
    }
}

fn bump_manager(counts: &mut Vec<(EnvManagerType, u16)>, k: EnvManagerType)
    requires
        count_of(old(counts)@, k) < u16::MAX,
    ensures
        forall|o: EnvManagerType| #[trigger] count_of(final(counts)@, o) == if o == k {
            count_of(old(counts)@, k) + 1
        } else {
            count_of(old(counts)@, o)
        },
{
    let mut i: usize = 0;
    while i < counts.len()
        invariant
            i <= counts.len(),
            counts@ == old(counts)@,
            count_of(old(counts)@, k) < u16::MAX,
            forall|j: int| 0 <= j < i ==> counts@[j].0 != k,
        decreases counts.len() - i,
    {
        if counts[i].0 == k {
            let c = counts[i].1;
            proof {
                lemma_first_value_at(counts@, i as int, k);
            }
            let ghost before = counts@;
            counts.set(i, (k, c + 1));
            assert forall|o: EnvManagerType| #[trigger] count_of(counts@, o) == if o == k {
                count_of(before, k) + 1
            } else {
                count_of(before, o)
            } by {
                lemma_first_value_update(before, i as int, k, (c + 1) as u16, o);
            }
            return;
        }
        i = i + 1;
    }
    proof {
        lemma_first_value_absent(counts@, k);
    }
    let ghost before = counts@;
    counts.push((k, 1));
    assert forall|o: EnvManagerType| #[trigger] count_of(counts@, o) == if o == k {
        count_of(before, k) + 1
    } else {
        count_of(before, o)
    } by {
        lemma_first_value_push(before, k, 1u16, o);
    }
}

fn bump_kind(counts: &mut Vec<(Option<RInstallationKind>, u16)>, k: Option<RInstallationKind>)
    requires
        count_of(old(counts)@, k) < u16::MAX,
    ensures
        forall|o: Option<RInstallationKind>| #[trigger] count_of(final(counts)@, o) == if o == k {
            count_of(old(counts)@, k) + 1
        } else {
            count_of(old(counts)@, o)
        },
{
    let mut i: usize = 0;
    while i < counts.len()
        invariant
            i <= counts.len(),
            counts@ == old(counts)@,
            count_of(old(counts)@, k) < u16::MAX,
            forall|j: int| 0 <= j < i ==> counts@[j].0 != k,
        decreases counts.len() - i,
    {
        if counts[i].0 == k {
            let c = counts[i].1;
            proof {
                lemma_first_value_at(counts@, i as int, k);
            }
            let ghost before = counts@;
            counts.set(i, (k, c + 1));
            assert forall|o: Option<RInstallationKind>| #[trigger] count_of(counts@, o) == if o == k {
                count_of(before, k) + 1
            } else {
                count_of(before, o)
            } by {
                lemma_first_value_update(before, i as int, k, (c + 1) as u16, o);
            }
            return;
        }
        i = i + 1;
    }
    proof {
        lemma_first_value_absent(counts@, k);
    }
    let ghost before = counts@;
    counts.push((k, 1));
    assert forall|o: Option<RInstallationKind>| #[trigger] count_of(counts@, o) == if o == k {
        count_of(before, k) + 1
    } else {
        count_of(before, o)
    } by {
        lemma_first_value_push(before, k, 1u16, o);
    }
}

fn add_to_group(
    groups: &mut Vec<(Option<RInstallationKind>, Vec<RInstallation>)>,
    k: Option<RInstallationKind>,
    installation: RInstallation,
)
    ensures
        forall|o: Option<RInstallationKind>| #[trigger] group_of(final(groups)@, o) == if o == k {
            group_of(old(groups)@, k).push(installation)
        } else {
            group_of(old(groups)@, o)
        },
{
    let mut i: usize = 0;
    while i < groups.len()
        invariant
            i <= groups.len(),
            groups@ == old(groups)@,
            forall|j: int| 0 <= j < i ==> groups@[j].0 != k,
        decreases groups.len() - i,
    {
        if groups[i].0 == k {
            proof {
                lemma_first_value_at(groups@, i as int, k);
            }
            let ghost before = groups@;
            let mut entry: (Option<RInstallationKind>, Vec<RInstallation>) = (k, Vec::new());
            groups.set_and_swap(i, &mut entry);
            let mut members = entry.1;
            members.push(installation);
            let ghost grown = members;
            let mut back: (Option<RInstallationKind>, Vec<RInstallation>) = (k, members);
            groups.set_and_swap(i, &mut back);
            proof {
                assert(groups@ == before.update(i as int, (k, grown)));
            }
            assert forall|o: Option<RInstallationKind>| #[trigger] group_of(groups@, o) == if o == k {
                group_of(before, k).push(installation)
            } else {
                group_of(before, o)
            } by {
                lemma_first_value_update(before, i as int, k, grown, o);
            }
            return;
        }
        i = i + 1;
    }
    proof {
        lemma_first_value_absent(groups@, k);
    }
    let ghost before = groups@;
    let mut members: Vec<RInstallation> = Vec::new();
    members.push(installation);
    let ghost grown = members;
    groups.push((k, members));
    assert forall|o: Option<RInstallationKind>| #[trigger] group_of(groups@, o) == if o == k {
        group_of(before, k).push(installation)
    } else {
        group_of(before, o)
    } by {
        lemma_first_value_push(before, k, grown, o);
        assert(Seq::<RInstallation>::empty().push(installation) == grown@);
    }
}

/// What counting `i` makes of a reporter: when the kind filter passes it,
/// the count of its kind goes up by one and a copy of it joins the group of
/// its kind; else counts and groups stay. The manager counts, the filter
/// and `print_list` stay.
pub open spec fn counted(before: StdioReporter, i: RInstallation, after: StdioReporter) -> bool {
    let accepted = before.kind is None || i.kind == before.kind;
    &&& !accepted ==> after.installations@ == before.installations@
        && after.installation_paths@ == before.installation_paths@
    &&& accepted ==> forall|k: Option<RInstallationKind>| #[trigger] count_of(after.installations@, k)
        == if k == i.kind {
        count_of(before.installations@, k) + 1
    } else {
        count_of(before.installations@, k)
    }
    &&& accepted ==> forall|k: Option<RInstallationKind>| #[trigger] group_of(after.installation_paths@, k)
        =~= if k == i.kind {
        group_of(before.installation_paths@, k).push(group_of(after.installation_paths@, k).last())
    } else {
        group_of(before.installation_paths@, k)
    }
    &&& accepted ==> same_installation(group_of(after.installation_paths@, i.kind).last(), i)
    &&& after.managers@ == before.managers@
    &&& after.kind == before.kind
    &&& after.print_list == before.print_list
}

/// Two lists of installations that agree entry by entry.
pub open spec fn same_members(a: Seq<RInstallation>, b: Seq<RInstallation>) -> bool {
    &&& a.len() == b.len()
    &&& forall|j: int| 0 <= j < a.len() ==> same_installation(#[trigger] a[j], b[j])
}

/// Two groupings by kind that agree group by group.
pub open spec fn same_groups(
    a: Seq<(Option<RInstallationKind>, Vec<RInstallation>)>,
    b: Seq<(Option<RInstallationKind>, Vec<RInstallation>)>,
) -> bool {
    &&& a.len() == b.len()
    &&& forall|i: int| 0 <= i < a.len() ==> (#[trigger] a[i]).0 == b[i].0 && same_members(a[i].1@, b[i].1@)
}

fn copy_counts<K: Copy>(v: &Vec<(K, u16)>) -> (r: Vec<(K, u16)>)
    ensures
        r@ == v@,
{
    let mut r: Vec<(K, u16)> = Vec::new();
    let mut i: usize = 0;
    while i < v.len()
        invariant
            i <= v.len(),
            r@ == v@.subrange(0, i as int),
        decreases v.len() - i,
    {
        r.push(v[i]);
        i = i + 1;
    }
    assert(v@.subrange(0, v.len() as int) == v@);
    r
}

fn copy_members(v: &Vec<RInstallation>) -> (r: Vec<RInstallation>)
    ensures
        same_members(r@, v@),
{
    let mut r: Vec<RInstallation> = Vec::new();
    let mut i: usize = 0;
    while i < v.len()
        invariant
            i <= v.len(),
            r@.len() == i,
            forall|j: int| 0 <= j < i ==> same_installation(#[trigger] r@[j], v@[j]),
        decreases v.len() - i,
    {
        r.push(v[i].copy());
        i = i + 1;
    }
    r
}

fn copy_groups(v: &Vec<(Option<RInstallationKind>, Vec<RInstallation>)>) -> (r: Vec<(Option<RInstallationKind>, Vec<RInstallation>)>)
    ensures
        same_groups(r@, v@),
{
    let mut r: Vec<(Option<RInstallationKind>, Vec<RInstallation>)> = Vec::new();
    let mut i: usize = 0;
    while i < v.len()
        invariant
            i <= v.len(),
            r@.len() == i,
            forall|j: int| 0 <= j < i ==> (#[trigger] r@[j]).0 == v@[j].0 && same_members(r@[j].1@, v@[j].1@),
        decreases v.len() - i,
    {
        r.push((v[i].0, copy_members(&v[i].1)));
        i = i + 1;
    }
    r
}

impl StdioReporter {
    /// Whether an installation passes the kind filter.
    pub fn accepts(&self, installation: &RInstallation) -> (r: bool)
        ensures
            r == (self.kind is None || installation.kind == self.kind),
    {
        self.kind.is_none() || installation.kind == self.kind
    }

    /// Counts a manager by its type.
    pub fn count_manager(&mut self, manager: &EnvManager)
        requires
            count_of(old(self).managers@, manager.tool) < u16::MAX,
        ensures
            forall|t: EnvManagerType| #[trigger] count_of(final(self).managers@, t) == if t == manager.tool {
                count_of(old(self).managers@, t) + 1
            } else {
                count_of(old(self).managers@, t)
            },
            final(self).installations@ == old(self).installations@,
            final(self).installation_paths@ == old(self).installation_paths@,
            final(self).kind == old(self).kind,
            final(self).print_list == old(self).print_list,
    {
        bump_manager(&mut self.managers, manager.tool);
    }

    /// Counts an installation by its kind and keeps it with its kind, unless
    /// the kind filter rejects it; returns whether it was counted.
    pub fn count_installation(&mut self, installation: &RInstallation) -> (r: bool)
        requires
            count_of(old(self).installations@, installation.kind) < u16::MAX,
        ensures
            r == (old(self).kind is None || installation.kind == old(self).kind),
            counted(*old(self), *installation, *final(self)),
    {
        if !self.accepts(installation) {
            return false;
        }
        bump_kind(&mut self.installations, installation.kind);
        let copy = installation.copy();
        let ghost c = copy;
        add_to_group(&mut self.installation_paths, installation.kind, copy);
        proof {
            assert(group_of(self.installation_paths@, installation.kind).last() == c);
        }
        true
    }

    /// The counts and groups so far.
    pub fn get_summary(&self) -> (r: Summary)
        ensures
            r.managers@ == self.managers@,
            r.installations@ == self.installations@,
            same_groups(r.installation_paths@, self.installation_paths@),
    {
        Summary {
            managers: copy_counts(&self.managers),
            installations: copy_counts(&self.installations),
            installation_paths: copy_groups(&self.installation_paths),
        }
    }
}

fn manager_count(counts: &Vec<(EnvManagerType, u16)>, k: EnvManagerType) -> (r: u16)
    ensures
        r == count_of(counts@, k),
{
    let mut i: usize = 0;
    while i < counts.len()
        invariant
            i <= counts.len(),
            forall|j: int| 0 <= j < i ==> counts@[j].0 != k,
        decreases counts.len() - i,
    {
        if counts[i].0 == k {
            proof {
                lemma_first_value_at(counts@, i as int, k);
            }
            return counts[i].1;
        }
        i = i + 1;
    }
    proof {
        lemma_first_value_absent(counts@, k);
    }
    0
}

fn kind_count(counts: &Vec<(Option<RInstallationKind>, u16)>, k: Option<RInstallationKind>) -> (r: u16)
    ensures
        r == count_of(counts@, k),
{
    let mut i: usize = 0;
    while i < counts.len()
        invariant
            i <= counts.len(),
            forall|j: int| 0 <= j < i ==> counts@[j].0 != k,
        decreases counts.len() - i,
    {
        if counts[i].0 == k {
            proof {
                lemma_first_value_at(counts@, i as int, k);
            }
            return counts[i].1;
        }
        i = i + 1;
    }
    proof {
        lemma_first_value_absent(counts@, k);
    }
    0
}

/// A count that has reached the largest 16-bit value stays there.
impl Reporter for StdioReporter {
    fn report_manager(&mut self, manager: &EnvManager) {
        if manager_count(&self.managers, manager.tool) < u16::MAX {
            self.count_manager(manager);
        }
    }

    fn report_installation(&mut self, installation: &RInstallation) {
        if kind_count(&self.installations, installation.kind) < u16::MAX {
            self.count_installation(installation);
        }
    }
}

pub fn create_reporter(print_list: bool, kind: Option<RInstallationKind>) -> (r: StdioReporter)
    ensures
        r.print_list == print_list,
        r.kind == kind,
        r.managers@.len() == 0,
        r.installations@.len() == 0,
        r.installation_paths@.len() == 0,
{
    StdioReporter {
        print_list,
        managers: Vec::new(),
        installations: Vec::new(),
        installation_paths: Vec::new(),
        kind,
    }
}

/// The installations among `items` that a reporter with kind filter
/// `filter` keeps in the group of kind `k`, in the order reported.
pub open spec fn kept(filter: Option<RInstallationKind>, items: Seq<RInstallation>, k: Option<RInstallationKind>) -> Seq<RInstallation>
    decreases items.len(),
{
    if items.len() == 0 {
        Seq::empty()
    } else {
        let rest = kept(filter, items.drop_last(), k);
        let x = items.last();
        if (filter is None || x.kind == filter) && x.kind == k {
            rest.push(x)
        } else {
            rest
        }
    }
}

/// After a fresh reporter with kind filter `filter` has counted `items` one
/// by one (`states[j + 1]` being what counting `items[j]` made of
/// `states[j]`), the count of each kind is the number of installations of
/// that kind that passed the filter, the group of each kind holds them in
/// the order reported, and no manager is counted.
pub proof fn law_summary_after_reports(
    filter: Option<RInstallationKind>,
    items: Seq<RInstallation>,
    states: Seq<StdioReporter>,
)
    requires
        states.len() == items.len() + 1,
        states[0].kind == filter,
        states[0].managers@.len() == 0,
        states[0].installations@.len() == 0,
        states[0].installation_paths@.len() == 0,
        forall|j: int| 0 <= j < items.len() ==> #[trigger] counted(states[j], items[j], states[j + 1]),
    ensures
        forall|k: Option<RInstallationKind>| #[trigger] count_of(states.last().installations@, k)
            == kept(filter, items, k).len(),
        forall|k: Option<RInstallationKind>| #[trigger] group_of(states.last().installation_paths@, k).len()
            == kept(filter, items, k).len(),
        forall|k: Option<RInstallationKind>, m: int| 0 <= m < kept(filter, items, k).len() ==> same_installation(
            #[trigger] group_of(states.last().installation_paths@, k)[m],
            kept(filter, items, k)[m],
        ),
        states.last().managers@.len() == 0,
{
    lemma_reports_prefix(filter, items, states, items.len() as int);
    assert(items.subrange(0, items.len() as int) =~= items);
}

proof fn lemma_reports_prefix(
    filter: Option<RInstallationKind>,
    items: Seq<RInstallation>,
    states: Seq<StdioReporter>,
    n: int,
)
    requires
        0 <= n <= items.len(),
        states.len() == items.len() + 1,
        states[0].kind == filter,
        states[0].managers@.len() == 0,
        states[0].installations@.len() == 0,
        states[0].installation_paths@.len() == 0,
        forall|j: int| 0 <= j < items.len() ==> #[trigger] counted(states[j], items[j], states[j + 1]),
    ensures
        states[n].kind == filter,
        states[n].managers@.len() == 0,
        forall|k: Option<RInstallationKind>| #[trigger] count_of(states[n].installations@, k)
            == kept(filter, items.subrange(0, n), k).len(),
        forall|k: Option<RInstallationKind>| #[trigger] group_of(states[n].installation_paths@, k).len()
            == kept(filter, items.subrange(0, n), k).len(),
        forall|k: Option<RInstallationKind>, m: int| 0 <= m < kept(filter, items.subrange(0, n), k).len()
            ==> same_installation(
            #[trigger] group_of(states[n].installation_paths@, k)[m],
            kept(filter, items.subrange(0, n), k)[m],
        ),
    decreases n,
{
    if n == 0 {
        assert forall|k: Option<RInstallationKind>| #[trigger] count_of(states[0].installations@, k) == 0 by {
            lemma_first_value_absent(states[0].installations@, k);
        }
        assert forall|k: Option<RInstallationKind>| #[trigger] group_of(states[0].installation_paths@, k).len() == 0 by {
            lemma_first_value_absent(states[0].installation_paths@, k);
        }
    } else {
        lemma_reports_prefix(filter, items, states, n - 1);
        let j = n - 1;
        assert(counted(states[j], items[j], states[j + 1]));
        assert(j + 1 == n);
        let before = states[j];
        let after = states[n];
        let x = items[j];
        let pre = items.subrange(0, n - 1);
        let cur = items.subrange(0, n);
        assert(cur.drop_last() =~= pre);
        assert(cur.last() == x);
        assert forall|k: Option<RInstallationKind>| #[trigger] count_of(after.installations@, k) == kept(filter, cur, k).len() by {
            assert(count_of(before.installations@, k) == kept(filter, pre, k).len());
        }
        assert forall|k: Option<RInstallationKind>| #[trigger] group_of(after.installation_paths@, k).len() == kept(filter, cur, k).len() by {
            assert(group_of(before.installation_paths@, k).len() == kept(filter, pre, k).len());
        }
        assert forall|k: Option<RInstallationKind>, m: int| 0 <= m < kept(filter, cur, k).len() implies same_installation(
            #[trigger] group_of(after.installation_paths@, k)[m],
            kept(filter, cur, k)[m],
        ) by {
            let g0 = group_of(before.installation_paths@, k);
            let g1 = group_of(after.installation_paths@, k);
            assert(g0.len() == kept(filter, pre, k).len());
            if m < kept(filter, pre, k).len() {
                assert(same_installation(g0[m], kept(filter, pre, k)[m]));
            }
        }
    }
}

/// Asking a reporter for its summary twice gives the same counts and
/// groups both times.
pub proof fn law_summary_is_repeatable(s: StdioReporter, a: Summary, b: Summary)
    requires
        a.managers@ == s.managers@,
        a.installations@ == s.installations@,
        same_groups(a.installation_paths@, s.installation_paths@),
        b.managers@ == s.managers@,
        b.installations@ == s.installations@,
        same_groups(b.installation_paths@, s.installation_paths@),
    ensures
        a.managers@ == b.managers@,
        a.installations@ == b.installations@,
        same_groups(a.installation_paths@, b.installation_paths@),
{
    assert forall|i: int| 0 <= i < a.installation_paths@.len() implies (#[trigger] a.installation_paths@[i]).0
        == b.installation_paths@[i].0 && same_members(a.installation_paths@[i].1@, b.installation_paths@[i].1@) by {
        assert(s.installation_paths@[i].0 == a.installation_paths@[i].0);
        let x = a.installation_paths@[i].1@;
        let y = b.installation_paths@[i].1@;
        let z = s.installation_paths@[i].1@;
        assert(same_members(x, z) && same_members(y, z));
        assert forall|j: int| 0 <= j < x.len() implies same_installation(#[trigger] x[j], y[j]) by {
            assert(same_installation(x[j], z[j]));
            assert(same_installation(y[j], z[j]));
        }
    }
}

} // verus!
