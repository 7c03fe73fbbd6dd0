//! The hosts of an OpenSSH client config that the add-server wizard offers:
//! each concrete `Host` alias with the `HostName` and `User` of its block.
use vstd::prelude::*;
use crate::collectors::{lines, lines_of};
use crate::text::{
    chars_eq, chars_of, find_char, find_first, split_words, string_of, sub_chars, trim, trim_chars,
    views, words,
};

verus! {

/// A host of the SSH config.
#[derive(Clone, Debug, PartialEq, Eq)]
pub struct SshConfigEntry {
    pub alias: String,
    pub hostname: Option<String>,
    pub user: Option<String>,
}

pub struct EntryView {
    pub alias: Seq<char>,
    pub hostname: Option<Seq<char>>,
    pub user: Option<Seq<char>>,
}

pub open spec fn opt_seq(o: Option<String>) -> Option<Seq<char>> {
    match o {
        Some(s) => Some(s@),
        None => None,
    }
}

impl View for SshConfigEntry {
    type V = EntryView;

    open spec fn view(&self) -> EntryView {
        EntryView { alias: self.alias@, hostname: opt_seq(self.hostname), user: opt_seq(self.user) }
    }
}

pub open spec fn entry_views(v: Seq<SshConfigEntry>) -> Seq<EntryView> {
    v.map_values(|e: SshConfigEntry| e@)
}

/// `user@hostname`, the hostname alone, or `ssh config host`.
pub open spec fn detail_text(e: EntryView) -> Seq<char> {
    match (e.user, e.hostname) {
        (Some(u), Some(h)) => u + "@"@ + h,
        (None, Some(h)) => h,
        _ => "ssh config host"@,
    }
}

impl SshConfigEntry {
    /// The line under the alias in the wizard.
    pub fn detail(&self) -> (r: String)
        ensures
            r@ == detail_text(self@),
    {
        match (&self.user, &self.hostname) {
            (Some(user), Some(hostname)) => {
                let mut s = user.clone();
                s.append("@");
                s.append(hostname.as_str());
                s
            },
            (None, Some(hostname)) => hostname.clone(),
            _ => String::from_str("ssh config host"),
        }
    }
}

/// A `Host` pattern that names one host: not empty, not negated with `!`,
/// and without the wildcards `*`, `?` or the token `%`.
pub open spec fn selectable_alias(a: Seq<char>) -> bool {
    &&& a.len() > 0
    &&& a[0] != '!'
    &&& !a.contains('*')
    &&& !a.contains('?')
    &&& !a.contains('%')
}

pub fn is_selectable_ssh_host_alias(alias: &Vec<char>) -> (r: bool)
    ensures
        r == selectable_alias(alias@),
{
    if alias.len() == 0 || alias[0] == '!' {
        return false;
    }
    let mut i: usize = 0;
    while i < alias.len()
        invariant
            i <= alias.len(),
            forall|j: int| 0 <= j < i ==> alias@[j] != '*' && alias@[j] != '?' && alias@[j] != '%',
        decreases alias.len() - i,
    {
        let c = alias[i];
        if c == '*' || c == '?' || c == '%' {
            assert(alias@.contains(c));
            return false;
        }
        i = i + 1;
    }
    true
}

/// ASCII letters compared without case.
pub open spec fn ascii_fold(c: char) -> int {
    if 'A' <= c && c <= 'Z' {
        c as int + 32
    } else {
        c as int
    }
}

pub open spec fn eq_ignore_ascii_case(a: Seq<char>, b: Seq<char>) -> bool {
    a.len() == b.len() && forall|i: int| 0 <= i < a.len() ==> ascii_fold(#[trigger] a[i]) == ascii_fold(b[i])
}

pub(crate) fn same_ignoring_case(a: &Vec<char>, lit: &str) -> (r: bool)
    ensures
        r == eq_ignore_ascii_case(a@, lit@),
{
    let b = chars_of(lit);
    if a.len() != b.len() {
        return false;
    }
    let mut i: usize = 0;
    while i < a.len()
        invariant
            i <= a.len() == b.len(),
            b@ == lit@,
            forall|j: int| 0 <= j < i ==> ascii_fold(#[trigger] a@[j]) == ascii_fold(b@[j]),
        decreases a.len() - i,
    {
        let x = a[i];
        let y = b[i];
        let xu = 'A' <= x && x <= 'Z';
        let yu = 'A' <= y && y <= 'Z';
        let same = if xu && yu {
            x == y
        } else if xu {
            'a' <= y && y <= 'z' && (x as u32) + 32 == (y as u32)
        } else if yu {
            'a' <= x && x <= 'z' && (y as u32) + 32 == (x as u32)
        } else {
            x == y
        };
        assert(same == (ascii_fold(x) == ascii_fold(y)));
        if !same {
            return false;
        }
        i = i + 1;
    }
    true
}

/// What has been read of the config so far: the hosts found, the aliases of
/// the open `Host` block, and its `HostName` and `User`.
pub struct ScanState {
    pub entries: Seq<EntryView>,
    pub aliases: Seq<Seq<char>>,
    pub hostname: Option<Seq<char>>,
    pub user: Option<Seq<char>>,
}

pub open spec fn has_alias(entries: Seq<EntryView>, a: Seq<char>) -> bool {
    exists|i: int| 0 <= i < entries.len() && #[trigger] entries[i].alias == a
}

/// The open block's aliases added as hosts, each alias only the first time
/// it appears in the file.
pub open spec fn add_aliases(
    entries: Seq<EntryView>,
    aliases: Seq<Seq<char>>,
    hostname: Option<Seq<char>>,
    user: Option<Seq<char>>,
) -> Seq<EntryView>
    decreases aliases.len(),
{
    if aliases.len() == 0 {
        entries
    } else {
        let e = add_aliases(entries, aliases.drop_last(), hostname, user);
        let a = aliases.last();
        if has_alias(e, a) {
            e
        } else {
            e.push(EntryView { alias: a, hostname: hostname, user: user })
        }
    }
}

/// Closing a block: its hosts are added and its settings forgotten.
pub open spec fn flush_block(st: ScanState) -> ScanState {
    ScanState {
        entries: add_aliases(st.entries, st.aliases, st.hostname, st.user),
        aliases: Seq::empty(),
        hostname: None,
        user: None,
    }
}

/// The selectable aliases of `ws`, in order.
pub open spec fn selectable_aliases(ws: Seq<Seq<char>>) -> Seq<Seq<char>>
    decreases ws.len(),
{
    if ws.len() == 0 {
        Seq::empty()
    } else {
        let rest = selectable_aliases(ws.drop_last());
        if selectable_alias(ws.last()) {
            rest.push(ws.last())
        } else {
            rest
        }
    }
}

/// A line without its comment (from the first `#`), trimmed.
pub open spec fn line_content(raw: Seq<char>) -> Seq<char> {
    match find_char(raw, '#') {
        Some(i) => trim(raw.take(i)),
        None => trim(raw),
    }
}

pub open spec fn second_word(ws: Seq<Seq<char>>) -> Option<Seq<char>> {
    if ws.len() > 1 {
        Some(ws[1])
    } else {
        None
    }
}

/// One line: `Host` closes the open block and opens one with its selectable
/// aliases; `HostName` and `User` set the block's values (to their first
/// argument, or to none without one); other lines change nothing.
pub open spec fn scan_line(st: ScanState, raw: Seq<char>) -> ScanState {
    let ws = words(line_content(raw));
    if ws.len() == 0 {
        st
    } else if eq_ignore_ascii_case(ws[0], "Host"@) {
        ScanState { aliases: selectable_aliases(ws.drop_first()), ..flush_block(st) }
    } else if eq_ignore_ascii_case(ws[0], "HostName"@) {
        ScanState { hostname: second_word(ws), ..st }
    } else if eq_ignore_ascii_case(ws[0], "User"@) {
        ScanState { user: second_word(ws), ..st }
    } else {
        st
    }
}

pub open spec fn scan_lines(ls: Seq<Seq<char>>) -> ScanState
    decreases ls.len(),
{
    if ls.len() == 0 {
        ScanState { entries: Seq::empty(), aliases: Seq::empty(), hostname: None, user: None }
    } else {
        scan_line(scan_lines(ls.drop_last()), ls.last())
    }
}

/// The hosts of an SSH config text.
pub open spec fn ssh_config_hosts(input: Seq<char>) -> Seq<EntryView> {
    flush_block(scan_lines(lines(input))).entries
}

/// No two hosts share an alias, and each alias names a single host.
pub open spec fn distinct_selectable(es: Seq<EntryView>) -> bool {
    &&& forall|i: int, j: int| 0 <= i < j < es.len() ==> #[trigger] es[i].alias != #[trigger] es[j].alias
    &&& forall|i: int| 0 <= i < es.len() ==> selectable_alias(#[trigger] es[i].alias)
}

pub open spec fn all_selectable(a: Seq<Seq<char>>) -> bool {
    forall|i: int| 0 <= i < a.len() ==> selectable_alias(#[trigger] a[i])
}

proof fn lemma_selectable_aliases(ws: Seq<Seq<char>>)
    ensures
        all_selectable(selectable_aliases(ws)),
    decreases ws.len(),
{
    if ws.len() > 0 {
        lemma_selectable_aliases(ws.drop_last());
    }
}

proof fn lemma_add_aliases_keeps(
    entries: Seq<EntryView>,
    aliases: Seq<Seq<char>>,
    hostname: Option<Seq<char>>,
    user: Option<Seq<char>>,
)
    requires
        distinct_selectable(entries),
        all_selectable(aliases),
    ensures
        distinct_selectable(add_aliases(entries, aliases, hostname, user)),
    decreases aliases.len(),
{
    if aliases.len() > 0 {
        let rest = aliases.drop_last();
        assert(all_selectable(rest)) by {
            assert forall|i: int| 0 <= i < rest.len() implies selectable_alias(#[trigger] rest[i]) by {
                assert(rest[i] == aliases[i]);
            }
        }
        lemma_add_aliases_keeps(entries, rest, hostname, user);
        let e = add_aliases(entries, rest, hostname, user);
        let a = aliases.last();
        assert(selectable_alias(aliases[aliases.len() - 1]));
        if !has_alias(e, a) {
            let e2 = e.push(EntryView { alias: a, hostname: hostname, user: user });
            assert forall|i: int, j: int| 0 <= i < j < e2.len() implies #[trigger] e2[i].alias
                != #[trigger] e2[j].alias by {
                assert(e2[i] == e[i]);
                if j < e.len() {
                    assert(e2[j] == e[j]);
                } else if e[i].alias == a {
                    assert(has_alias(e, a));
                }
            }
            assert forall|i: int| 0 <= i < e2.len() implies selectable_alias(#[trigger] e2[i].alias) by {
                if i < e.len() {
                    assert(e2[i] == e[i]);
                }
            }
        }
    }
}

/// The state while scanning: the hosts found so far are distinct and
/// selectable, and so are the aliases of the open block.
pub open spec fn scan_ok(st: ScanState) -> bool {
    distinct_selectable(st.entries) && all_selectable(st.aliases)
}

proof fn lemma_scan_keeps(ls: Seq<Seq<char>>)
    ensures
        scan_ok(scan_lines(ls)),
    decreases ls.len(),
{
    if ls.len() > 0 {
        lemma_scan_keeps(ls.drop_last());
        let st = scan_lines(ls.drop_last());
        lemma_add_aliases_keeps(st.entries, st.aliases, st.hostname, st.user);
        let ws = words(line_content(ls.last()));
        if ws.len() > 0 {
            lemma_selectable_aliases(ws.drop_first());
        }
    }
}

/// The hosts read from an SSH config are offered once each: no alias
/// appears twice, and none is a pattern (`!`, `*`, `?`, `%`) or empty.
pub proof fn lemma_hosts_distinct_and_selectable(input: Seq<char>)
    ensures
        distinct_selectable(ssh_config_hosts(input)),
{
    let st = scan_lines(lines(input));
    lemma_scan_keeps(lines(input));
    lemma_add_aliases_keeps(st.entries, st.aliases, st.hostname, st.user);
}

/// The words of a config line, comment removed.
pub open spec fn line_words(raw: Seq<char>) -> Seq<Seq<char>> {
    words(line_content(raw))
}

/// A line whose keyword is `key` (ASCII case ignored).
pub open spec fn keyword_line(raw: Seq<char>, key: Seq<char>) -> bool {
    line_words(raw).len() > 0 && eq_ignore_ascii_case(line_words(raw)[0], key)
}

/// The argument of the last `key` line among lines `lo..hi`, or none when
/// no such line has one.
pub open spec fn last_setting(ls: Seq<Seq<char>>, key: Seq<char>, lo: int, hi: int) -> Option<
    Seq<char>,
>
    decreases hi - lo,
{
    if hi <= lo {
        None
    } else if keyword_line(ls[hi - 1], key) {
        second_word(line_words(ls[hi - 1]))
    } else {
        last_setting(ls, key, lo, hi - 1)
    }
}

/// The index of the last `Host` line before line `n`, or -1.
pub open spec fn last_host_line(ls: Seq<Seq<char>>, n: int) -> int
    decreases n,
{
    if n <= 0 {
        -1
    } else if keyword_line(ls[n - 1], "Host"@) {
        n - 1
    } else {
        last_host_line(ls, n - 1)
    }
}

/// Lines `h..e` form one `Host` block: line `h` is a `Host` line, none
/// follows before `e`, and `e` is the next `Host` line or the end.
pub open spec fn block_span(ls: Seq<Seq<char>>, h: int, e: int) -> bool {
    &&& 0 <= h < e <= ls.len()
    &&& keyword_line(ls[h], "Host"@)
    &&& forall|k: int| h < k < e ==> !keyword_line(#[trigger] ls[k], "Host"@)
    &&& (e == ls.len() || keyword_line(ls[e], "Host"@))
}

/// `ent` is a host of the block `h..e`: its alias is one of the block's
/// `Host` patterns and its `HostName` and `User` are the block's own.
pub open spec fn entry_from_block(ls: Seq<Seq<char>>, ent: EntryView, h: int, e: int) -> bool {
    &&& block_span(ls, h, e)
    &&& selectable_aliases(line_words(ls[h]).drop_first()).contains(ent.alias)
    &&& ent.hostname == last_setting(ls, "HostName"@, h + 1, e)
    &&& ent.user == last_setting(ls, "User"@, h + 1, e)
}

proof fn lemma_last_host_line(ls: Seq<Seq<char>>, n: int)
    requires
        0 <= n <= ls.len(),
    ensures
        -1 <= last_host_line(ls, n) < n,
        last_host_line(ls, n) >= 0 ==> keyword_line(ls[last_host_line(ls, n)], "Host"@),
        forall|k: int| last_host_line(ls, n) < k < n ==> !keyword_line(#[trigger] ls[k], "Host"@),
    decreases n,
{
    if n > 0 && !keyword_line(ls[n - 1], "Host"@) {
        lemma_last_host_line(ls, n - 1);
    }
}

proof fn lemma_add_aliases_shape(
    entries: Seq<EntryView>,
    aliases: Seq<Seq<char>>,
    hostname: Option<Seq<char>>,
    user: Option<Seq<char>>,
)
    ensures
        add_aliases(entries, aliases, hostname, user).len() >= entries.len(),
        forall|i: int|
            0 <= i < entries.len() ==> #[trigger] add_aliases(entries, aliases, hostname, user)[i]
                == entries[i],
        forall|i: int|
            entries.len() <= i < add_aliases(entries, aliases, hostname, user).len() ==> {
                let x = #[trigger] add_aliases(entries, aliases, hostname, user)[i];
                &&& aliases.contains(x.alias)
                &&& x.hostname == hostname
                &&& x.user == user
            },
    decreases aliases.len(),
{
    if aliases.len() > 0 {
        let rest = aliases.drop_last();
        lemma_add_aliases_shape(entries, rest, hostname, user);
        let e = add_aliases(entries, rest, hostname, user);
        let r = add_aliases(entries, aliases, hostname, user);
        assert forall|i: int| entries.len() <= i < r.len() implies {
            let x = #[trigger] r[i];
            &&& aliases.contains(x.alias)
            &&& x.hostname == hostname
            &&& x.user == user
        } by {
            if i < e.len() {
                assert(r[i] == e[i]);
                let j = choose|j: int| 0 <= j < rest.len() && rest[j] == e[i].alias;
                assert(aliases[j] == rest[j]);
            } else {
                assert(aliases[aliases.len() - 1] == aliases.last());
            }
        }
    }
}

proof fn lemma_keywords_differ(w: Seq<char>)
    ensures
        !(eq_ignore_ascii_case(w, "Host"@) && eq_ignore_ascii_case(w, "HostName"@)),
        !(eq_ignore_ascii_case(w, "HostName"@) && eq_ignore_ascii_case(w, "User"@)),
{
    reveal_strlit("Host");
    reveal_strlit("HostName");
    reveal_strlit("User");
}

/// `ent` is a host of one of the `Host` blocks of `ls`.
pub open spec fn from_own_block(ls: Seq<Seq<char>>, ent: EntryView) -> bool {
    exists|h: int, e: int| #[trigger] entry_from_block(ls, ent, h, e)
}

/// `ent` is a host of some block that ends before line `n`.
pub open spec fn from_block_before(ls: Seq<Seq<char>>, ent: EntryView, n: int) -> bool {
    exists|h: int, e: int| e < n && #[trigger] entry_from_block(ls, ent, h, e)
}

/// What the scan of the first `n` lines knows: the open block is the one of
/// the last `Host` line, with that block's own settings, and every host found
/// so far comes from a block closed before line `n`.
pub open spec fn scan_tracks_blocks(ls: Seq<Seq<char>>, n: int, st: ScanState) -> bool {
    let lh = last_host_line(ls, n);
    &&& (lh < 0 ==> st.aliases.len() == 0)
    &&& (lh >= 0 ==> {
        &&& st.aliases == selectable_aliases(line_words(ls[lh]).drop_first())
        &&& st.hostname == last_setting(ls, "HostName"@, lh + 1, n)
        &&& st.user == last_setting(ls, "User"@, lh + 1, n)
    })
    &&& forall|i: int|
        0 <= i < st.entries.len() ==> from_block_before(ls, #[trigger] st.entries[i], n)
}

proof fn lemma_scan_tracks_blocks(ls: Seq<Seq<char>>, n: int)
    requires
        0 <= n <= ls.len(),
    ensures
        scan_tracks_blocks(ls, n, scan_lines(ls.take(n))),
    decreases n,
{
    if n > 0 {
        lemma_scan_tracks_blocks(ls, n - 1);
        assert(ls.take(n).drop_last() =~= ls.take(n - 1));
        assert(ls.take(n).last() == ls[n - 1]);
        let st = scan_lines(ls.take(n - 1));
        let raw = ls[n - 1];
        let ws = line_words(raw);
        let lh = last_host_line(ls, n - 1);
        lemma_last_host_line(ls, n - 1);
        let st2 = scan_lines(ls.take(n));
        assert(st2 == scan_line(st, raw));
        if ws.len() > 0 {
            lemma_keywords_differ(ws[0]);
        }
        if keyword_line(raw, "Host"@) {
            assert(last_host_line(ls, n) == n - 1);
            lemma_add_aliases_shape(st.entries, st.aliases, st.hostname, st.user);
            assert forall|i: int|
                0 <= i < st2.entries.len() implies from_block_before(ls, #[trigger] st2.entries[i], n) by {
                if i < st.entries.len() {
                    assert(st2.entries[i] == st.entries[i]);
                } else {
                    assert(entry_from_block(ls, st2.entries[i], lh, n - 1));
                }
            }
        } else {
            assert(last_host_line(ls, n) == lh);
            assert forall|i: int|
                0 <= i < st2.entries.len() implies from_block_before(ls, #[trigger] st2.entries[i], n) by {
                assert(st2.entries[i] == st.entries[i]);
            }
        }
    } else {
        assert(ls.take(0) =~= Seq::<Seq<char>>::empty());
    }
}

/// Each host read from an SSH config takes its `HostName` and `User` from
/// its own `Host` block: the argument of the last such line between that
/// `Host` line and the next one (or the end), none when the block has none.
/// A `Host` line opens a block with no hostname and no user.
pub proof fn lemma_host_settings_from_own_block(input: Seq<char>, i: int)
    requires
        0 <= i < ssh_config_hosts(input).len(),
    ensures
        exists|h: int, e: int| #[trigger]
            entry_from_block(lines(input), ssh_config_hosts(input)[i], h, e),
{
    let ls = lines(input);
    let n = ls.len() as int;
    lemma_scan_tracks_blocks(ls, n);
    assert(ls.take(n) =~= ls);
    let st = scan_lines(ls);
    let lh = last_host_line(ls, n);
    lemma_last_host_line(ls, n);
    lemma_add_aliases_shape(st.entries, st.aliases, st.hostname, st.user);
    let r = ssh_config_hosts(input);
    if i < st.entries.len() {
        assert(r[i] == st.entries[i]);
    } else {
        assert(lh >= 0);
        assert(entry_from_block(ls, r[i], lh, n));
    }
}

fn copy_opt(o: &Option<String>) -> (r: Option<String>)
    ensures
        opt_seq(r) == opt_seq(*o),
{
    match o {
        Some(s) => Some(s.clone()),
        None => None,
    }
}

fn flush(
    entries: &mut Vec<SshConfigEntry>,
    aliases: &mut Vec<String>,
    hostname: &mut Option<String>,
    user: &mut Option<String>,
)
    ensures
        entry_views(final(entries)@) == add_aliases(
            entry_views(old(entries)@),
            aliases_view(old(aliases)@),
            opt_seq(*old(hostname)),
            opt_seq(*old(user)),
        ),
        final(aliases)@.len() == 0,
        *final(hostname) is None,
        *final(user) is None,
{
    let ghost a0 = aliases_view(aliases@);
    let ghost e0 = entry_views(entries@);
    let ghost h0 = opt_seq(*hostname);
    let ghost u0 = opt_seq(*user);
    let mut k: usize = 0;
    assert(a0.take(0) =~= Seq::<Seq<char>>::empty());
    while k < aliases.len()
        invariant
            k <= aliases.len(),
            a0 == aliases_view(aliases@),
            h0 == opt_seq(*hostname),
            u0 == opt_seq(*user),
            entry_views(entries@) == add_aliases(e0, a0.take(k as int), h0, u0),
        decreases aliases.len() - k,
    {
        let ghost ev = entry_views(entries@);
        assert(a0.take(k + 1).drop_last() =~= a0.take(k as int));
        assert(a0.take(k + 1).last() == a0[k as int]);
        assert(a0[k as int] == aliases@[k as int]@);
        let a = chars_of(aliases[k].as_str());
        let mut i: usize = 0;
        let mut found = false;
        while i < entries.len() && !found
            invariant
                i <= entries.len(),
                ev == entry_views(entries@),
                a@ == a0[k as int],
                found ==> has_alias(ev, a@),
                !found ==> forall|j: int| 0 <= j < i ==> #[trigger] ev[j].alias != a@,
            decreases entries.len() - i + if found { 0int } else { 1int },
        {
            let b = chars_of(entries[i].alias.as_str());
            assert(ev[i as int] == entries@[i as int]@);
            if chars_eq(&a, &b) {
                found = true;
                assert(ev[i as int].alias == a@);
            } else {
                i = i + 1;
            }
        }
        if !found {
            let entry = SshConfigEntry {
                alias: aliases[k].clone(),
                hostname: copy_opt(hostname),
                user: copy_opt(user),
            };
            entries.push(entry);
            assert(entry_views(entries@) =~= ev.push(
                EntryView { alias: a0[k as int], hostname: h0, user: u0 },
            ));
        }
        k = k + 1;
    }
    assert(a0.take(aliases.len() as int) =~= a0);
    aliases.clear();
    *hostname = None;
    *user = None;
}

pub open spec fn aliases_view(v: Seq<String>) -> Seq<Seq<char>> {
    v.map_values(|s: String| s@)
}

fn content_of(raw: &Vec<char>) -> (r: Vec<char>)
    ensures
        r@ == line_content(raw@),
{
    match find_first(raw, '#') {
        Some(i) => {
            let before = sub_chars(raw, 0, i);
            assert(raw@.take(i as int) == raw@.subrange(0, i as int));
            trim_chars(&before)
        },
        None => trim_chars(raw),
    }
}

fn selectable_of(ws: &Vec<Vec<char>>) -> (r: Vec<String>)
    requires
        ws.len() >= 1,
    ensures
        aliases_view(r@) == selectable_aliases(views(ws@).drop_first()),
{
    let ghost rest = views(ws@).drop_first();
    let mut out: Vec<String> = Vec::new();
    let mut i: usize = 1;
    assert(rest.take(0) =~= Seq::<Seq<char>>::empty());
    assert(aliases_view(out@) =~= Seq::<Seq<char>>::empty());
    while i < ws.len()
        invariant
            1 <= i <= ws.len(),
            rest == views(ws@).drop_first(),
            aliases_view(out@) == selectable_aliases(rest.take(i - 1)),
        decreases ws.len() - i,
    {
        assert(rest.take(i as int).drop_last() =~= rest.take(i - 1));
        assert(rest.take(i as int).last() == ws@[i as int]@);
        if is_selectable_ssh_host_alias(&ws[i]) {
            let ghost before = aliases_view(out@);
            out.push(string_of(&ws[i]));
            assert(aliases_view(out@) =~= before.push(ws@[i as int]@));
        }
        i = i + 1;
    }
    assert(rest.take(ws.len() - 1) =~= rest);
    out
}

/// The hosts of an SSH config text (see `ssh_config_hosts`).
pub fn parse_ssh_config_hosts(input: &str) -> (r: Vec<SshConfigEntry>)
    ensures
        entry_views(r@) == ssh_config_hosts(input@),
        forall|i: int| 0 <= i < r.len() ==> from_own_block(lines(input@), #[trigger] r@[i]@),
{
    let text = chars_of(input);
    let ls = lines_of(&text);
    let ghost lv = lines(input@);
    let mut entries: Vec<SshConfigEntry> = Vec::new();
    let mut aliases: Vec<String> = Vec::new();
    let mut hostname: Option<String> = None;
    let mut user: Option<String> = None;
    let mut i: usize = 0;
    assert(lv.take(0) =~= Seq::<Seq<char>>::empty());
    assert(entry_views(entries@) =~= Seq::<EntryView>::empty());
    assert(aliases_view(aliases@) =~= Seq::<Seq<char>>::empty());
    while i < ls.len()
        invariant
            i <= ls.len(),
            views(ls@) == lv,
            (ScanState {
                entries: entry_views(entries@),
                aliases: aliases_view(aliases@),
                hostname: opt_seq(hostname),
                user: opt_seq(user),
            }) == scan_lines(lv.take(i as int)),
        decreases ls.len() - i,
    {
        assert(lv.take(i + 1).drop_last() =~= lv.take(i as int));
        assert(lv.take(i + 1).last() == ls@[i as int]@);
        let content = content_of(&ls[i]);
        let ws = split_words(&content);
        if ws.len() > 0 {
            assert(views(ws@)[0] == ws@[0]@);
            if same_ignoring_case(&ws[0], "Host") {
                flush(&mut entries, &mut aliases, &mut hostname, &mut user);
                aliases = selectable_of(&ws);
            } else if same_ignoring_case(&ws[0], "HostName") {
                hostname = if ws.len() > 1 {
                    assert(views(ws@)[1] == ws@[1]@);
                    Some(string_of(&ws[1]))
                } else {
                    None
                };
            } else if same_ignoring_case(&ws[0], "User") {
                user = if ws.len() > 1 {
                    assert(views(ws@)[1] == ws@[1]@);
                    Some(string_of(&ws[1]))
                } else {
                    None
                };
            }
        }
        i = i + 1;
    }
    assert(lv.take(ls.len() as int) =~= lv);
    flush(&mut entries, &mut aliases, &mut hostname, &mut user);
    proof {
        assert forall|i: int| 0 <= i < entries.len() implies from_own_block(
            lines(input@),
            #[trigger] entries@[i]@,
        ) by {
            assert(entry_views(entries@)[i] == entries@[i]@);
            lemma_host_settings_from_own_block(input@, i);
        }
    }
    entries
}

} // verus!
