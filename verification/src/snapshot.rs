//! The one-shot text snapshot of the dashboard: the hosts' lines under their
//! groups, the groups in ascending order, each host in the order given.
use vstd::prelude::*;
use crate::aliases::{chars_less, text_lt};
use crate::text::{chars_eq, chars_of, string_views};

verus! {

/// The number of leading groups that come before `k`: where `k` belongs in
/// an ascending list.
pub open spec fn group_pos(s: Seq<Seq<char>>, k: Seq<char>) -> nat
    decreases s.len(),
{
    if s.len() > 0 && text_lt(s[0], k) {
        1 + group_pos(s.drop_first(), k)
    } else {
        0
    }
}

/// `s` with the group `k` added where it belongs, unless it is there.
pub open spec fn with_group(s: Seq<Seq<char>>, k: Seq<char>) -> Seq<Seq<char>> {
    let p = group_pos(s, k) as int;
    if p < s.len() && s[p] == k {
        s
    } else {
        s.insert(p, k)
    }
}

/// The groups of the hosts, in ascending order, each once.
pub open spec fn group_order(groups: Seq<Seq<char>>) -> Seq<Seq<char>>
    decreases groups.len(),
{
    if groups.len() == 0 {
        Seq::empty()
    } else {
        with_group(group_order(groups.drop_last()), groups.last())
    }
}

/// The lines of the hosts in group `g`, in the order given, each ended by
/// a newline.
pub open spec fn group_lines(entries: Seq<(Seq<char>, Seq<char>)>, g: Seq<char>) -> Seq<char>
    decreases entries.len(),
{
    if entries.len() == 0 {
        Seq::empty()
    } else {
        group_lines(entries.drop_last(), g) + if entries.last().0 == g {
            entries.last().1 + "\n"@
        } else {
            Seq::empty()
        }
    }
}

/// For each group of `gs`: a blank line, `[group]`, and its hosts' lines.
pub open spec fn groups_text(entries: Seq<(Seq<char>, Seq<char>)>, gs: Seq<Seq<char>>) -> Seq<char>
    decreases gs.len(),
{
    if gs.len() == 0 {
        Seq::empty()
    } else {
        groups_text(entries, gs.drop_last()) + "\n["@ + gs.last() + "]\n"@ + group_lines(entries, gs.last())
    }
}

pub open spec fn entry_groups(entries: Seq<(Seq<char>, Seq<char>)>) -> Seq<Seq<char>> {
    entries.map_values(|e: (Seq<char>, Seq<char>)| e.0)
}

/// The snapshot: the header, then the hosts' lines grouped (see `groups_text`),
/// the groups in ascending order.
pub open spec fn snapshot_spec(header: Seq<char>, entries: Seq<(Seq<char>, Seq<char>)>) -> Seq<char> {
    header + groups_text(entries, group_order(entry_groups(entries)))
}

pub open spec fn entry_views(v: Seq<(String, String)>) -> Seq<(Seq<char>, Seq<char>)> {
    v.map_values(|e: (String, String)| (e.0@, e.1@))
}

proof fn lemma_group_pos_at(s: Seq<Seq<char>>, k: Seq<char>, i: int)
    requires
        0 <= i <= s.len(),
        forall|j: int| 0 <= j < i ==> text_lt(#[trigger] s[j], k),
        i == s.len() || !text_lt(s[i], k),
    ensures
        group_pos(s, k) == i,
    decreases i,
{
    if i > 0 {
        let t = s.drop_first();
        assert forall|j: int| 0 <= j < i - 1 implies text_lt(#[trigger] t[j], k) by {
            assert(t[j] == s[j + 1]);
        }
        if i < s.len() {
            assert(t[i - 1] == s[i]);
        }
        lemma_group_pos_at(t, k, i - 1);
        assert(text_lt(s[0], k));
    }
}

/// Adds `group` to the ascending list `groups` (see `with_group`).
fn add_group(groups: &mut Vec<String>, group: &String)
    ensures
        string_views(final(groups)@) == with_group(string_views(old(groups)@), group@),
{
    let ghost s = string_views(groups@);
    let k = chars_of(group.as_str());
    let n = groups.len();
    let mut i: usize = 0;
    let mut stop = false;
    while i < n && !stop
        invariant
            i <= n == groups@.len() == s.len(),
            s == string_views(groups@),
            k@ == group@,
            forall|j: int| 0 <= j < i ==> text_lt(#[trigger] s[j], k@),
            stop ==> i < n && !text_lt(s[i as int], k@),
        decreases n - i + (if stop { 0int } else { 1 }),
    {
        let g = chars_of(groups[i].as_str());
        assert(s[i as int] == g@);
        if chars_less(&g, &k) {
            i = i + 1;
        } else {
            stop = true;
        }
    }
    proof {
        lemma_group_pos_at(s, k@, i as int);
    }
    let present = if i < n {
        let g = chars_of(groups[i].as_str());
        assert(s[i as int] == g@);
        chars_eq(&g, &k)
    } else {
        false
    };
    if !present {
        groups.insert(i, group.clone());
        assert(string_views(groups@) =~= s.insert(i as int, group@));
    }
}

/// The hosts' lines under their groups; `entries` holds each host's group and
/// line in host order, and `header` comes first.
pub fn grouped_snapshot_text(header: &str, entries: &Vec<(String, String)>) -> (r: String)
    ensures
        r@ == snapshot_spec(header@, entry_views(entries@)),
{
    let ghost e = entry_views(entries@);
    let ghost gs_all = entry_groups(e);
    let mut groups: Vec<String> = Vec::new();
    let mut i: usize = 0;
    assert(gs_all.take(0) =~= Seq::<Seq<char>>::empty());
    assert(string_views(groups@) =~= group_order(gs_all.take(0)));
    while i < entries.len()
        invariant
            i <= entries@.len() == e.len() == gs_all.len(),
            e == entry_views(entries@),
            gs_all == entry_groups(e),
            string_views(groups@) == group_order(gs_all.take(i as int)),
        decreases entries.len() - i,
    {
        assert(gs_all.take(i + 1).drop_last() =~= gs_all.take(i as int));
        assert(gs_all.take(i + 1).last() == entries@[i as int].0@);
        add_group(&mut groups, &entries[i].0);
        i = i + 1;
    }
    assert(gs_all.take(entries@.len() as int) =~= gs_all);
    let ghost gs = string_views(groups@);
    let mut out = String::from_str(header);
    let mut k: usize = 0;
    assert(gs.take(0) =~= Seq::<Seq<char>>::empty());
    while k < groups.len()
        invariant
            k <= groups@.len() == gs.len(),
            gs == string_views(groups@),
            gs == group_order(entry_groups(e)),
            e == entry_views(entries@),
            out@ == header@ + groups_text(e, gs.take(k as int)),
        decreases groups.len() - k,
    {
        let g = &groups[k];
        let gc = chars_of(g.as_str());
        assert(gs[k as int] == g@);
        out.append("\n[");
        out.append(g.as_str());
        out.append("]\n");
        let ghost start = out@;
        let mut j: usize = 0;
        assert(e.take(0) =~= Seq::<(Seq<char>, Seq<char>)>::empty());
        while j < entries.len()
            invariant
                j <= entries@.len() == e.len(),
                e == entry_views(entries@),
                gc@ == g@,
                out@ == start + group_lines(e.take(j as int), g@),
            decreases entries.len() - j,
        {
            assert(e.take(j + 1).drop_last() =~= e.take(j as int));
            assert(e.take(j + 1).last() == (entries@[j as int].0@, entries@[j as int].1@));
            let eg = chars_of(entries[j].0.as_str());
            if chars_eq(&eg, &gc) {
                out.append(entries[j].1.as_str());
                out.append("\n");
            }
            j = j + 1;
        }
        assert(e.take(entries@.len() as int) =~= e);
        assert(gs.take(k + 1).drop_last() =~= gs.take(k as int));
        assert(gs.take(k + 1).last() == g@);
        k = k + 1;
    }
    assert(gs.take(groups@.len() as int) =~= gs);
    out
}

} // verus!
