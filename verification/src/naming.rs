//! Ids and display names for servers added from an SSH target such as
//! `admin@db-1.example.com`, and ids made unique within a configuration.
use vstd::prelude::*;
use vstd::set_lib::{lemma_int_range, lemma_len_subset, lemma_map_size, lemma_map_size_bound, set_int_range};
use crate::config::{AppConfig, ServerConfig};
use crate::text::{
    char_lowercase, char_uppercase, chars_eq, chars_of, decimal, is_ascii_alnum, lemma_decimal_injective,
    lemma_split_on_nonempty, lowercase_of, split_chars, split_on, split_words, string_of, trim,
    trim_chars, u128_text, uppercase_of, views, words,
};

verus! {

/// The text after the last `sep` (all of `s` without one), as
/// `s.rsplit(sep).next()`.
pub open spec fn last_piece(s: Seq<char>, sep: char) -> Seq<char> {
    split_on(s, sep).last()
}

/// The text before the first `sep` (all of `s` without one), as
/// `s.split(sep).next()`.
pub open spec fn first_piece(s: Seq<char>, sep: char) -> Seq<char> {
    split_on(s, sep)[0]
}

/// Every character replaced by its lowercase mapping.
pub open spec fn lower_all(s: Seq<char>) -> Seq<char>
    decreases s.len(),
{
    if s.len() == 0 {
        Seq::empty()
    } else {
        lower_all(s.drop_last()) + lowercase_of(s.last())
    }
}

/// ASCII letters, digits and `_` kept; every run of other characters
/// becomes one `-`. The flag tells whether the text ends in such a `-`.
pub open spec fn id_scan(s: Seq<char>) -> (Seq<char>, bool)
    decreases s.len(),
{
    if s.len() == 0 {
        (Seq::empty(), false)
    } else {
        let (id, dash) = id_scan(s.drop_last());
        let c = s.last();
        if is_ascii_alnum(c) || c == '_' {
            (id.push(c), false)
        } else if !dash {
            (id.push('-'), true)
        } else {
            (id, dash)
        }
    }
}

/// `s` without leading `-`.
pub open spec fn trim_leading_dashes(s: Seq<char>) -> Seq<char>
    decreases s.len(),
{
    if s.len() > 0 && s[0] == '-' {
        trim_leading_dashes(s.drop_first())
    } else {
        s
    }
}

/// `s` without trailing `-`.
pub open spec fn trim_trailing_dashes(s: Seq<char>) -> Seq<char>
    decreases s.len(),
{
    if s.len() > 0 && s.last() == '-' {
        trim_trailing_dashes(s.drop_last())
    } else {
        s
    }
}

/// The id for a target: its host part (after the last `@`) lowercased,
/// reduced to ASCII letters, digits, `_` and single `-`, without `-` at the
/// ends; `server` when nothing is left.
pub open spec fn safe_id_text(v: Seq<char>) -> Seq<char> {
    let id = trim_trailing_dashes(trim_leading_dashes(id_scan(lower_all(last_piece(v, '@'))).0));
    if id.len() == 0 {
        "server"@
    } else {
        id
    }
}

fn last_piece_of(v: &Vec<char>, sep: char) -> (r: Vec<char>)
    ensures
        r@ == last_piece(v@, sep),
{
    let mut pieces = split_chars(v, sep);
    proof {
        lemma_split_on_nonempty(v@, sep);
    }
    let ghost ps = views(pieces@);
    assert(ps.last() == pieces@[pieces.len() - 1]@);
    pieces.pop().unwrap()
}

fn trim_dashes(v: &Vec<char>) -> (r: Vec<char>)
    ensures
        r@ == trim_trailing_dashes(trim_leading_dashes(v@)),
{
    let n = v.len();
    let mut lo: usize = 0;
    assert(v@.subrange(0, n as int) =~= v@);
    while lo < n && v[lo] == '-'
        invariant
            lo <= n == v.len(),
            trim_leading_dashes(v@) == trim_leading_dashes(v@.subrange(lo as int, n as int)),
        decreases n - lo,
    {
        assert(v@.subrange(lo as int, n as int).drop_first() =~= v@.subrange(lo + 1, n as int));
        lo = lo + 1;
    }
    let ghost t = v@.subrange(lo as int, n as int);
    let mut hi: usize = n;
    while hi > lo && v[hi - 1] == '-'
        invariant
            lo <= hi <= n == v.len(),
            t == v@.subrange(lo as int, n as int),
            trim_trailing_dashes(t) == trim_trailing_dashes(v@.subrange(lo as int, hi as int)),
        decreases hi,
    {
        assert(v@.subrange(lo as int, hi as int).drop_last() =~= v@.subrange(lo as int, hi - 1));
        hi = hi - 1;
    }
    crate::text::sub_chars(v, lo, hi)
}

/// The id for a server added from `value` (see `safe_id_text`).
pub fn safe_server_id(value: &str) -> (r: String)
    ensures
        r@ == safe_id_text(value@),
{
    let v = chars_of(value);
    let host = last_piece_of(&v, '@');
    let ghost hp = host@;
    let mut id: Vec<char> = Vec::new();
    let mut dash = false;
    let mut i: usize = 0;
    assert(hp.take(0) =~= Seq::<char>::empty());
    assert(lower_all(hp.take(0)) =~= Seq::<char>::empty());
    while i < host.len()
        invariant
            i <= host.len(),
            hp == host@,
            (id@, dash) == id_scan(lower_all(hp.take(i as int))),
        decreases host.len() - i,
    {
        let low = char_lowercase(host[i]);
        let ghost pre = lower_all(hp.take(i as int));
        assert(hp.take(i + 1).drop_last() =~= hp.take(i as int));
        assert(hp.take(i + 1).last() == hp[i as int]);
        assert(lower_all(hp.take(i + 1)) == pre + low@);
        let mut j: usize = 0;
        assert(pre + low@.take(0) =~= pre);
        while j < low.len()
            invariant
                j <= low.len(),
                (id@, dash) == id_scan(pre + low@.take(j as int)),
            decreases low.len() - j,
        {
            let c = low[j];
            assert((pre + low@.take(j + 1)).drop_last() =~= pre + low@.take(j as int));
            assert((pre + low@.take(j + 1)).last() == c);
            if ('a' <= c && c <= 'z') || ('A' <= c && c <= 'Z') || ('0' <= c && c <= '9') || c
                == '_' {
                id.push(c);
                dash = false;
            } else if !dash {
                id.push('-');
                dash = true;
            }
            j = j + 1;
        }
        assert(pre + low@.take(low.len() as int) =~= pre + low@);
        i = i + 1;
    }
    assert(hp.take(host.len() as int) =~= hp);
    let trimmed = trim_dashes(&id);
    if trimmed.len() == 0 {
        String::from_str("server")
    } else {
        string_of(&trimmed)
    }
}

/// The id for a server added from an SSH target.
pub fn server_id_from_target(target: &str) -> (r: String)
    ensures
        r@ == safe_id_text(target@),
{
    safe_server_id(target)
}

/// `-` and `_` read as spaces.
pub open spec fn dashes_to_spaces(s: Seq<char>) -> Seq<char> {
    s.map_values(|c: char| if c == '-' || c == '_' {
        ' '
    } else {
        c
    })
}

/// A word with its first character in uppercase.
pub open spec fn capitalized(w: Seq<char>) -> Seq<char> {
    if w.len() == 0 {
        Seq::empty()
    } else {
        uppercase_of(w[0]) + w.drop_first()
    }
}

/// The words, capitalized and joined by single spaces.
pub open spec fn title_words(ws: Seq<Seq<char>>) -> Seq<char>
    decreases ws.len(),
{
    if ws.len() == 0 {
        Seq::empty()
    } else if ws.len() == 1 {
        capitalized(ws[0])
    } else {
        title_words(ws.drop_last()) + " "@ + capitalized(ws.last())
    }
}

/// The display name for a target: `Server` when it is blank; else the
/// first label of its host part (the whole trimmed target when that label
/// is empty), `-` and `_` as spaces, each word capitalized.
pub open spec fn display_name_text(target: Seq<char>) -> Seq<char> {
    let t = trim(target);
    if t.len() == 0 {
        "Server"@
    } else {
        let label = first_piece(last_piece(t, '@'), '.');
        let base = if label.len() > 0 {
            label
        } else {
            t
        };
        title_words(words(dashes_to_spaces(base)))
    }
}

pub fn display_name_from_target(target: &str) -> (r: String)
    ensures
        r@ == display_name_text(target@),
{
    let t = trim_chars(&chars_of(target));
    if t.len() == 0 {
        return String::from_str("Server");
    }
    let host = last_piece_of(&t, '@');
    let labels = split_chars(&host, '.');
    proof {
        lemma_split_on_nonempty(host@, '.');
    }
    assert(views(labels@)[0] == labels@[0]@);
    let label = &labels[0];
    let base: &Vec<char> = if label.len() > 0 {
        label
    } else {
        &t
    };
    let mut spaced: Vec<char> = Vec::new();
    let mut i: usize = 0;
    while i < base.len()
        invariant
            i <= base.len(),
            spaced@ == dashes_to_spaces(base@.take(i as int)),
        decreases base.len() - i,
    {
        let c = base[i];
        if c == '-' || c == '_' {
            spaced.push(' ');
        } else {
            spaced.push(c);
        }
        i = i + 1;
        assert(spaced@ =~= dashes_to_spaces(base@.take(i as int)));
    }
    assert(base@.take(base.len() as int) =~= base@);
    let ws = split_words(&spaced);
    let ghost wv = views(ws@);
    let mut out = String::new();
    let mut k: usize = 0;
    assert(wv.take(0) =~= Seq::<Seq<char>>::empty());
    while k < ws.len()
        invariant
            k <= ws.len(),
            wv == views(ws@),
            out@ == title_words(wv.take(k as int)),
        decreases ws.len() - k,
    {
        let w = &ws[k];
        assert(wv[k as int] == w@);
        assert(wv.take(k + 1).drop_last() =~= wv.take(k as int));
        assert(wv.take(k + 1).last() == w@);
        let ghost before = out@;
        if k > 0 {
            out.append(" ");
        }
        if w.len() > 0 {
            let up = char_uppercase(w[0]);
            out.append(string_of(&up).as_str());
            let rest = crate::text::sub_chars(w, 1, w.len());
            assert(rest@ =~= w@.drop_first());
            out.append(string_of(&rest).as_str());
        }
        if k == 0 {
            assert(wv.take(1)[0] == w@);
            assert(out@ =~= title_words(wv.take(1)));
        } else {
            assert(out@ =~= title_words(wv.take(k + 1)));
        }
        k = k + 1;
    }
    assert(wv.take(ws.len() as int) =~= wv);
    out
}

pub open spec fn server_ids(c: AppConfig) -> Seq<Seq<char>> {
    c.servers@.map_values(|s: ServerConfig| s.id@)
}

pub open spec fn id_taken(ids: Seq<Seq<char>>, x: Seq<char>) -> bool {
    exists|j: int| 0 <= j < ids.len() && #[trigger] ids[j] == x
}

/// The `k`-th alternative to a taken id: `<base>-<k>`.
pub open spec fn numbered_id(base: Seq<char>, k: nat) -> Seq<char> {
    base + "-"@ + decimal(k)
}

proof fn lemma_numbered_injective(base: Seq<char>, a: nat, b: nat)
    requires
        numbered_id(base, a) == numbered_id(base, b),
    ensures
        a == b,
{
    reveal_strlit("-");
    let n = base.len() + 1;
    assert(numbered_id(base, a).skip(n as int) =~= decimal(a));
    assert(numbered_id(base, b).skip(n as int) =~= decimal(b));
    lemma_decimal_injective(a, b);
}

/// Among `ids.len() + 1` numbered alternatives at least one is free.
proof fn lemma_some_number_free(ids: Seq<Seq<char>>, base: Seq<char>)
    ensures
        exists|k: nat| 2 <= k <= ids.len() + 2 && !id_taken(ids, #[trigger] numbered_id(base, k)),
{
    let n = ids.len() as int;
    if forall|k: nat| 2 <= k <= n + 2 ==> id_taken(ids, #[trigger] numbered_id(base, k)) {
        let ks = set_int_range(2, n + 3);
        lemma_int_range(2, n + 3);
        let f = |k: int| numbered_id(base, k as nat);
        let cands = ks.map(f);
        assert(vstd::relations::injective_on(f, ks)) by {
            assert forall|x: int, y: int|
                ks.contains(x) && ks.contains(y) && #[trigger] f(x) == #[trigger] f(y) implies x == y by {
                lemma_numbered_injective(base, x as nat, y as nat);
            }
        }
        lemma_map_size(ks, cands, f);
        let js = set_int_range(0, n);
        lemma_int_range(0, n);
        let g = |j: int| ids[j];
        let taken = js.map(g);
        lemma_map_size_bound(js, taken, g);
        assert(cands.subset_of(taken)) by {
            assert forall|c: Seq<char>| cands.contains(c) implies taken.contains(c) by {
                let k = choose|k: int| ks.contains(k) && f(k) == c;
                assert(id_taken(ids, numbered_id(base, k as nat)));
                let j = choose|j: int| 0 <= j < ids.len() && #[trigger] ids[j] == numbered_id(base, k as nat);
                assert(js.contains(j) && g(j) == c);
            }
        }
        lemma_len_subset(cands, taken);
        assert(false);
    }
}

/// `k` is the first number from 2 whose alternative is free.
pub open spec fn first_free(ids: Seq<Seq<char>>, base: Seq<char>, k: nat) -> bool {
    &&& 2 <= k
    &&& !id_taken(ids, numbered_id(base, k))
    &&& forall|m: nat| 2 <= m < k ==> id_taken(ids, #[trigger] numbered_id(base, m))
}

/// `base` when no id in `ids` is `base`; else `<base>-<k>` for the first
/// free `k` from 2.
pub open spec fn unique_id_for(ids: Seq<Seq<char>>, base: Seq<char>) -> Seq<char> {
    if !id_taken(ids, base) {
        base
    } else {
        numbered_id(base, choose|k: nat| first_free(ids, base, k))
    }
}

fn id_in_use(config: &AppConfig, id: &Vec<char>) -> (r: bool)
    ensures
        r == id_taken(server_ids(*config), id@),
{
    let ghost ids = server_ids(*config);
    let mut j: usize = 0;
    while j < config.servers.len()
        invariant
            j <= config.servers.len(),
            ids == server_ids(*config),
            forall|m: int| 0 <= m < j ==> #[trigger] ids[m] != id@,
        decreases config.servers.len() - j,
    {
        let s = chars_of(config.servers[j].id.as_str());
        assert(ids[j as int] == config.servers@[j as int].id@);
        if chars_eq(&s, id) {
            return true;
        }
        j = j + 1;
    }
    false
}

/// An id from `base` (see `safe_id_text`) that no server of `config` has:
/// the id itself when free, else the first free `<id>-<k>` for k = 2, 3, …
pub fn unique_server_id_from_base(config: &AppConfig, base: &str) -> (r: String)
    ensures
        r@ == unique_id_for(server_ids(*config), safe_id_text(base@)),
        !id_taken(server_ids(*config), r@),
{
    let b = safe_server_id(base);
    let bc = chars_of(b.as_str());
    if !id_in_use(config, &bc) {
        return b;
    }
    let ghost ids = server_ids(*config);
    let ghost bv = b@;
    proof {
        lemma_some_number_free(ids, bv);
    }
    let n = config.servers.len();
    let mut index: u128 = 2;
    loop
        invariant
            2 <= index <= n as int + 2,
            ids == server_ids(*config),
            bv == b@,
            bv == safe_id_text(base@),
            id_taken(ids, bv),
            n == config.servers.len(),
            exists|k: nat| index <= k <= ids.len() + 2 && !id_taken(ids, #[trigger] numbered_id(bv, k)),
            forall|m: nat| 2 <= m < index ==> id_taken(ids, #[trigger] numbered_id(bv, m)),
        decreases n as int + 2 - index,
    {
        let mut cand = b.clone();
        cand.append("-");
        cand.append(u128_text(index).as_str());
        assert(cand@ == numbered_id(bv, index as nat));
        let cc = chars_of(cand.as_str());
        if !id_in_use(config, &cc) {
            proof {
                assert(first_free(ids, bv, index as nat));
                let k0 = choose|k: nat| first_free(ids, bv, k);
                assert(first_free(ids, bv, k0));
                if k0 < index {
                    assert(id_taken(ids, numbered_id(bv, k0)));
                } else if k0 > index {
                    assert(id_taken(ids, numbered_id(bv, index as nat)));
                }
                assert(k0 == index);
            }
            return cand;
        }
        assert(index < n as int + 2) by {
            let k = choose|k: nat| index <= k <= ids.len() + 2 && !id_taken(ids, #[trigger] numbered_id(bv, k));
            assert(k != index);
        }
        index = index + 1;
    }
}

} // verus!
