//! Per-server disk mount aliases: a map from mount path to label, kept sorted
//! by mount path as a `BTreeMap<String, String>` keeps it.
use vstd::prelude::*;
use crate::text::{chars_of, chars_eq};

verus! {

/// Lexicographic order on character sequences (the order of `String`s).
pub open spec fn text_lt(a: Seq<char>, b: Seq<char>) -> bool
    decreases a.len(),
{
    if a.len() == 0 {
        b.len() > 0
    } else if b.len() == 0 {
        false
    } else if a[0] != b[0] {
        a[0] < b[0]
    } else {
        text_lt(a.drop_first(), b.drop_first())
    }
}

pub proof fn lemma_text_lt_irreflexive(a: Seq<char>)
    ensures
        !text_lt(a, a),
    decreases a.len(),
{
    if a.len() > 0 {
        lemma_text_lt_irreflexive(a.drop_first());
    }
}

pub proof fn lemma_text_lt_total(a: Seq<char>, b: Seq<char>)
    ensures
        a == b || text_lt(a, b) || text_lt(b, a),
    decreases a.len(),
{
    if a.len() > 0 && b.len() > 0 && a[0] == b[0] {
        lemma_text_lt_total(a.drop_first(), b.drop_first());
        if a.drop_first() == b.drop_first() {
            assert(a =~= seq![a[0]] + a.drop_first());
            assert(b =~= seq![b[0]] + b.drop_first());
        }
    } else if a.len() == 0 && b.len() == 0 {
        assert(a =~= b);
    }
}

pub proof fn lemma_text_lt_asym(a: Seq<char>, b: Seq<char>)
    requires
        text_lt(a, b),
    ensures
        !text_lt(b, a),
    decreases a.len(),
{
    if a.len() > 0 && b.len() > 0 && a[0] == b[0] {
        lemma_text_lt_asym(a.drop_first(), b.drop_first());
    }
}

pub proof fn lemma_text_lt_trans(a: Seq<char>, b: Seq<char>, c: Seq<char>)
    requires
        text_lt(a, b),
        text_lt(b, c),
    ensures
        text_lt(a, c),
    decreases a.len(),
{
    if a.len() > 0 && b.len() > 0 && c.len() > 0 && a[0] == b[0] && b[0] == c[0] {
        lemma_text_lt_trans(a.drop_first(), b.drop_first(), c.drop_first());
    }
}

/// Whether `a` comes before `b` in lexicographic order.
pub fn chars_less(a: &Vec<char>, b: &Vec<char>) -> (r: bool)
    ensures
        r == text_lt(a@, b@),
{
    let mut i: usize = 0;
    assert(a@.skip(0) =~= a@);
    assert(b@.skip(0) =~= b@);
    loop
        invariant
            i <= a.len(),
            i <= b.len(),
            text_lt(a@, b@) == text_lt(a@.skip(i as int), b@.skip(i as int)),
        ensures
            i <= a.len(),
            i <= b.len(),
            text_lt(a@, b@) == text_lt(a@.skip(i as int), b@.skip(i as int)),
            i < a.len() && i < b.len() ==> a@[i as int] != b@[i as int],
        decreases a.len() - i,
    {
        if i == a.len() || i == b.len() {
            break;
        }
        if a[i] != b[i] {
            break;
        }
        assert(a@.skip(i as int).drop_first() =~= a@.skip(i + 1));
        assert(b@.skip(i as int).drop_first() =~= b@.skip(i + 1));
        i = i + 1;
    }
    let ghost sa = a@.skip(i as int);
    let ghost sb = b@.skip(i as int);
    assert(sa.len() == a.len() - i && sb.len() == b.len() - i);
    if i == a.len() {
        assert(text_lt(sa, sb) == (sb.len() > 0));
        i < b.len()
    } else if i == b.len() {
        assert(!text_lt(sa, sb));
        false
    } else {
        assert(a@.skip(i as int)[0] == a@[i as int]);
        assert(b@.skip(i as int)[0] == b@[i as int]);
        a[i] < b[i]
    }
}

/// Keys in strictly increasing order.
pub open spec fn sorted_keys(e: Seq<(Seq<char>, Seq<char>)>) -> bool {
    forall|i: int, j: int| 0 <= i < j < e.len() ==> text_lt(#[trigger] e[i].0, #[trigger] e[j].0)
}

/// The map that a list of entries describes.
pub open spec fn entries_map(e: Seq<(Seq<char>, Seq<char>)>) -> Map<Seq<char>, Seq<char>>
    decreases e.len(),
{
    if e.len() == 0 {
        Map::empty()
    } else {
        entries_map(e.drop_last()).insert(e.last().0, e.last().1)
    }
}

/// Disk mount aliases, sorted by mount.
#[derive(Debug, PartialEq, Eq)]
pub struct DiskAliases {
    entries: Vec<(String, String)>,
}

impl View for DiskAliases {
    type V = Seq<(Seq<char>, Seq<char>)>;

    /// The (mount, alias) entries in mount order.
    closed spec fn view(&self) -> Seq<(Seq<char>, Seq<char>)> {
        self.entries@.map_values(|p: (String, String)| (p.0@, p.1@))
    }
}

impl DiskAliases {
    /// The entries are kept in strictly increasing mount order, so no mount
    /// appears twice.
    #[verifier::type_invariant]
    pub closed spec fn sorted_by_mount(self) -> bool {
        sorted_keys(self@)
    }
}

impl Clone for DiskAliases {
    /// A copy with the same entries.
    fn clone(&self) -> (r: Self)
        ensures
            r@ == self@,
    {
        self.duplicate()
    }
}

/// The label of the first entry whose key is `k`.
pub open spec fn alias_lookup(e: Seq<(Seq<char>, Seq<char>)>, k: Seq<char>) -> Option<Seq<char>>
    decreases e.len(),
{
    if e.len() == 0 {
        None
    } else if e[0].0 == k {
        Some(e[0].1)
    } else {
        alias_lookup(e.drop_first(), k)
    }
}

/// The number of leading entries whose key comes before `k`: where `k`
/// belongs in a sorted list.
pub open spec fn lower_bound(e: Seq<(Seq<char>, Seq<char>)>, k: Seq<char>) -> nat
    decreases e.len(),
{
    if e.len() > 0 && text_lt(e[0].0, k) {
        1 + lower_bound(e.drop_first(), k)
    } else {
        0
    }
}

/// `e` with `k` mapped to `v`: the entry for `k` replaced, or a new entry
/// placed where `k` belongs.
pub open spec fn insert_entry(e: Seq<(Seq<char>, Seq<char>)>, k: Seq<char>, v: Seq<char>) -> Seq<
    (Seq<char>, Seq<char>),
> {
    let p = lower_bound(e, k) as int;
    if p < e.len() && e[p].0 == k {
        e.update(p, (k, v))
    } else {
        e.insert(p, (k, v))
    }
}

pub proof fn lemma_lower_bound_at(e: Seq<(Seq<char>, Seq<char>)>, k: Seq<char>, i: int)
    requires
        0 <= i <= e.len(),
        forall|j: int| 0 <= j < i ==> text_lt(#[trigger] e[j].0, k),
        i == e.len() || !text_lt(e[i].0, k),
    ensures
        lower_bound(e, k) == i,
    decreases i,
{
    if i > 0 {
        let t = e.drop_first();
        assert forall|j: int| 0 <= j < i - 1 implies text_lt(#[trigger] t[j].0, k) by {
            assert(t[j] == e[j + 1]);
        }
        if i < e.len() {
            assert(t[i - 1] == e[i]);
        }
        lemma_lower_bound_at(t, k, i - 1);
        assert(text_lt(e[0].0, k));
    }
}

proof fn lemma_lower_bound_props(e: Seq<(Seq<char>, Seq<char>)>, k: Seq<char>)
    ensures
        lower_bound(e, k) <= e.len(),
        forall|j: int| 0 <= j < lower_bound(e, k) ==> text_lt(#[trigger] e[j].0, k),
    decreases e.len(),
{
    if e.len() > 0 && text_lt(e[0].0, k) {
        let t = e.drop_first();
        lemma_lower_bound_props(t, k);
        assert forall|j: int| 0 <= j < lower_bound(e, k) implies text_lt(#[trigger] e[j].0, k) by {
            if j > 0 {
                assert(e[j] == t[j - 1]);
            }
        }
    }
}

proof fn lemma_lookup_first(e: Seq<(Seq<char>, Seq<char>)>, k: Seq<char>, i: int)
    requires
        0 <= i < e.len(),
        e[i].0 == k,
        forall|j: int| 0 <= j < i ==> #[trigger] e[j].0 != k,
    ensures
        alias_lookup(e, k) == Some(e[i].1),
    decreases i,
{
    if i > 0 {
        let t = e.drop_first();
        assert forall|j: int| 0 <= j < i - 1 implies #[trigger] t[j].0 != k by {
            assert(t[j] == e[j + 1]);
        }
        assert(t[i - 1] == e[i]);
        lemma_lookup_first(t, k, i - 1);
        assert(e[0].0 != k);
    }
}

proof fn lemma_lookup_insert(e: Seq<(Seq<char>, Seq<char>)>, p: int, x: (Seq<char>, Seq<char>), other: Seq<char>)
    requires
        0 <= p <= e.len(),
        x.0 != other,
    ensures
        alias_lookup(e.insert(p, x), other) == alias_lookup(e, other),
    decreases p,
{
    let f = e.insert(p, x);
    if p == 0 {
        assert(f.drop_first() =~= e);
    } else {
        assert(f[0] == e[0]);
        if e[0].0 != other {
            assert(f.drop_first() =~= e.drop_first().insert(p - 1, x));
            lemma_lookup_insert(e.drop_first(), p - 1, x, other);
        }
    }
}

proof fn lemma_lookup_update(e: Seq<(Seq<char>, Seq<char>)>, p: int, x: (Seq<char>, Seq<char>), other: Seq<char>)
    requires
        0 <= p < e.len(),
        x.0 != other,
        e[p].0 != other,
    ensures
        alias_lookup(e.update(p, x), other) == alias_lookup(e, other),
    decreases p,
{
    let f = e.update(p, x);
    if p == 0 {
        assert(f.drop_first() =~= e.drop_first());
    } else {
        assert(f[0] == e[0]);
        if e[0].0 != other {
            assert(f.drop_first() =~= e.drop_first().update(p - 1, x));
            lemma_lookup_update(e.drop_first(), p - 1, x, other);
        }
    }
}

/// Reading an alias back after setting it gives the alias just set, and
/// setting one mount's alias leaves every other mount's alias as it was.
pub proof fn lemma_alias_read_after_write(e: Seq<(Seq<char>, Seq<char>)>, k: Seq<char>, v: Seq<char>, other: Seq<char>)
    ensures
        alias_lookup(insert_entry(e, k, v), k) == Some(v),
        other != k ==> alias_lookup(insert_entry(e, k, v), other) == alias_lookup(e, other),
{
    let p = lower_bound(e, k) as int;
    lemma_lower_bound_props(e, k);
    let f = insert_entry(e, k, v);
    assert forall|j: int| 0 <= j < p implies #[trigger] f[j].0 != k by {
        assert(f[j] == e[j]);
        lemma_text_lt_irreflexive(k);
    }
    assert(f[p] == (k, v));
    lemma_lookup_first(f, k, p);
    if other != k {
        if p < e.len() && e[p].0 == k {
            lemma_lookup_update(e, p, (k, v), other);
        } else {
            lemma_lookup_insert(e, p, (k, v), other);
        }
    }
}

impl DiskAliases {
    pub fn new() -> (r: Self)
        ensures
            r@ == Seq::<(Seq<char>, Seq<char>)>::empty(),
            sorted_keys(r@),
    {
        let r = DiskAliases { entries: Vec::new() };
        assert(r@ =~= Seq::<(Seq<char>, Seq<char>)>::empty());
        r
    }

    /// A copy of these aliases.
    pub fn duplicate(&self) -> (r: Self)
        ensures
            r@ == self@,
            sorted_keys(r@),
    {
        proof {
            use_type_invariant(self);
        }
        let mut entries: Vec<(String, String)> = Vec::new();
        let mut i: usize = 0;
        while i < self.entries.len()
            invariant
                i <= self.entries@.len(),
                entries@.map_values(|p: (String, String)| (p.0@, p.1@)) == self@.take(i as int),
            decreases self.entries.len() - i,
        {
            let ghost before = entries@.map_values(|p: (String, String)| (p.0@, p.1@));
            assert(self@[i as int] == (self.entries@[i as int].0@, self.entries@[i as int].1@));
            let a = self.entries[i].0.clone();
            let b = self.entries[i].1.clone();
            entries.push((a, b));
            assert(entries@.map_values(|p: (String, String)| (p.0@, p.1@)) =~= before.push(self@[i as int]));
            assert(entries@.map_values(|p: (String, String)| (p.0@, p.1@)) =~= self@.take(i + 1));
            i = i + 1;
        }
        assert(self@.take(self.entries@.len() as int) =~= self@);
        DiskAliases { entries }
    }

    pub fn len(&self) -> (r: usize)
        ensures
            r == self@.len(),
    {
        self.entries.len()
    }

    pub fn is_empty(&self) -> (r: bool)
        ensures
            r == (self@.len() == 0),
    {
        self.entries.len() == 0
    }

    /// The mount and alias of entry `i` (in mount order).
    pub fn entry(&self, i: usize) -> (r: (&String, &String))
        requires
            i < self@.len(),
        ensures
            r.0@ == self@[i as int].0,
            r.1@ == self@[i as int].1,
    {
        let p = &self.entries[i];
        (&p.0, &p.1)
    }

    /// The alias of `mount`, if it has one.
    pub fn get(&self, mount: &Vec<char>) -> (r: Option<&String>)
        ensures
            match r {
                Some(a) => alias_lookup(self@, mount@) == Some(a@),
                None => alias_lookup(self@, mount@) is None,
            },
    {
        let mut i: usize = 0;
        assert(self@.skip(0) =~= self@);
        while i < self.entries.len()
            invariant
                i <= self@.len(),
                self@.len() == self.entries@.len(),
                alias_lookup(self@, mount@) == alias_lookup(self@.skip(i as int), mount@),
            decreases self.entries.len() - i,
        {
            let k = chars_of(self.entries[i].0.as_str());
            assert(self@[i as int].0 == self.entries@[i as int].0@);
            assert(self@.skip(i as int)[0] == self@[i as int]);
            if chars_eq(&k, mount) {
                assert(self@[i as int].1 == self.entries@[i as int].1@);
                return Some(&self.entries[i].1);
            }
            assert(self@.skip(i as int).drop_first() =~= self@.skip(i + 1));
            i = i + 1;
        }
        None
    }

    /// Whether both hold the same entries.
    pub fn same_as(&self, other: &DiskAliases) -> (r: bool)
        ensures
            r == (self@ == other@),
    {
        if self.entries.len() != other.entries.len() {
            return false;
        }
        let mut i: usize = 0;
        while i < self.entries.len()
            invariant
                i <= self.entries.len() == other.entries.len(),
                self@.len() == self.entries.len(),
                other@.len() == other.entries.len(),
                forall|j: int| 0 <= j < i ==> #[trigger] self@[j] == other@[j],
            decreases self.entries.len() - i,
        {
            let a = chars_of(self.entries[i].0.as_str());
            let b = chars_of(other.entries[i].0.as_str());
            let c = chars_of(self.entries[i].1.as_str());
            let d = chars_of(other.entries[i].1.as_str());
            assert(self@[i as int] == (self.entries@[i as int].0@, self.entries@[i as int].1@));
            assert(other@[i as int] == (other.entries@[i as int].0@, other.entries@[i as int].1@));
            if !chars_eq(&a, &b) || !chars_eq(&c, &d) {
                return false;
            }
            i = i + 1;
        }
        assert(self@ =~= other@);
        true
    }

    /// Maps `mount` to `alias`, replacing an alias that `mount` had.
    pub fn insert(&mut self, mount: String, alias: String)
        ensures
            final(self)@ == insert_entry(old(self)@, mount@, alias@),
            sorted_keys(final(self)@),
    {
        proof {
            use_type_invariant(&*self);
        }
        let m = chars_of(mount.as_str());
        let ghost e = self@;
        let n = self.entries.len();
        let mut i: usize = 0;
        let mut stop = false;
        while i < n && !stop
            invariant
                i <= n == self.entries@.len() == e.len(),
                e == self@,
                m@ == mount@,
                forall|j: int| 0 <= j < i ==> text_lt(#[trigger] e[j].0, m@),
                stop ==> i < n && !text_lt(e[i as int].0, m@),
            decreases n - i + (if stop { 0int } else { 1 }),
        {
            let k = chars_of(self.entries[i].0.as_str());
            assert(e[i as int].0 == k@);
            if chars_less(&k, &m) {
                i = i + 1;
            } else {
                stop = true;
            }
        }
        proof {
            lemma_lower_bound_at(e, m@, i as int);
        }
        let same = if i < n {
            let k = chars_of(self.entries[i].0.as_str());
            assert(e[i as int].0 == k@);
            chars_eq(&k, &m)
        } else {
            false
        };
        let ghost r = insert_entry(e, m@, alias@);
        let mut entries: Vec<(String, String)> = Vec::new();
        std::mem::swap(&mut entries, &mut self.entries);
        assert(entries@.map_values(|p: (String, String)| (p.0@, p.1@)) == e);
        if same {
            entries.set(i, (mount, alias));
            assert(entries@.map_values(|p: (String, String)| (p.0@, p.1@)) =~= r);
            assert(sorted_keys(e) ==> sorted_keys(r)) by {
                if sorted_keys(e) {
                    assert forall|x: int, y: int| 0 <= x < y < r.len() implies text_lt(
                        #[trigger] r[x].0,
                        #[trigger] r[y].0,
                    ) by {
                        assert(r[x].0 == e[x].0 && r[y].0 == e[y].0);
                    }
                }
            }
        } else {
            entries.insert(i, (mount, alias));
            assert(entries@.map_values(|p: (String, String)| (p.0@, p.1@)) =~= r);
            proof {
            if sorted_keys(e) {
                assert forall|x: int, y: int| 0 <= x < y < r.len() implies text_lt(
                    #[trigger] r[x].0,
                    #[trigger] r[y].0,
                ) by {
                    if y == i {
                        assert(r[x] == e[x]);
                    } else if x == i {
                        assert(r[y] == e[y - 1]);
                        lemma_text_lt_total(e[i as int].0, m@);
                        if y - 1 > i {
                            lemma_text_lt_trans(m@, e[i as int].0, e[y - 1].0);
                        }
                    } else if y < i {
                        assert(r[x] == e[x] && r[y] == e[y]);
                    } else if x > i {
                        assert(r[x] == e[x - 1] && r[y] == e[y - 1]);
                    } else {
                        assert(r[x] == e[x] && r[y] == e[y - 1]);
                    }
                }
            }
            }
        }
        self.entries = entries;
    }
}

} // verus!
