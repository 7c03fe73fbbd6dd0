//! Where configuration files are looked for: the user config directory from
//! the environment, the system path, the legacy path, and the lookup order.
use vstd::prelude::*;
use crate::config::{APP_CONFIG_DIR, APP_CONFIG_FILE, LEGACY_APP_CONFIG_DIR};
use crate::text::{chars_eq, chars_of, split_chars, split_on, sub_chars, views};

verus! {

/// The environment variables that the config lookup reads, each as set (an
/// unset variable is `None`), the directory that holds the running program
/// (`None` when it cannot be found), and whether the platform is Windows.
#[derive(Clone, Debug, PartialEq, Eq)]
pub struct ConfigEnv {
    pub rktop_config: Option<String>,
    pub exe_dir: Option<String>,
    pub xdg_config_home: Option<String>,
    pub appdata: Option<String>,
    pub home: Option<String>,
    pub userprofile: Option<String>,
    pub windows: bool,
}

pub struct EnvView {
    pub rktop_config: Option<Seq<char>>,
    pub exe_dir: Option<Seq<char>>,
    pub xdg_config_home: Option<Seq<char>>,
    pub appdata: Option<Seq<char>>,
    pub home: Option<Seq<char>>,
    pub userprofile: Option<Seq<char>>,
    pub windows: bool,
}

pub open spec fn text_opt(o: Option<String>) -> Option<Seq<char>> {
    match o {
        Some(s) => Some(s@),
        None => None,
    }
}

impl View for ConfigEnv {
    type V = EnvView;

    open spec fn view(&self) -> EnvView {
        EnvView {
            rktop_config: text_opt(self.rktop_config),
            exe_dir: text_opt(self.exe_dir),
            xdg_config_home: text_opt(self.xdg_config_home),
            appdata: text_opt(self.appdata),
            home: text_opt(self.home),
            userprofile: text_opt(self.userprofile),
            windows: self.windows,
        }
    }
}

/// A path separator: `/`, and on Windows also `\\`.
pub open spec fn is_sep(c: char, windows: bool) -> bool {
    c == '/' || (windows && c == '\\')
}

/// The separator a join writes: `\\` on Windows, `/` elsewhere.
pub open spec fn main_sep(windows: bool) -> char {
    if windows {
        '\\'
    } else {
        '/'
    }
}

/// `base` extended by the relative component `comp`, as `Path::join` does:
/// the platform's separator between them, none after an empty base or a
/// base that already ends in a separator.
pub open spec fn join_spec(base: Seq<char>, comp: Seq<char>, windows: bool) -> Seq<char> {
    if base.len() == 0 {
        comp
    } else if is_sep(base.last(), windows) {
        base + comp
    } else {
        base.push(main_sep(windows)) + comp
    }
}

pub fn join_path(base: &str, comp: &str, windows: bool) -> (r: String)
    ensures
        r@ == join_spec(base@, comp@, windows),
{
    let b = chars_of(base);
    let mut out = String::from_str(base);
    if b.len() > 0 {
        let last = b[b.len() - 1];
        if !(last == '/' || (windows && last == '\\')) {
            out.push(if windows { '\\' } else { '/' });
        }
    }
    out.append(comp);
    out
}

/// `p` with each separator written as `/`.
pub open spec fn slashed(p: Seq<char>, windows: bool) -> Seq<char> {
    p.map_values(|c: char| if is_sep(c, windows) { '/' } else { c })
}

/// A part that `Path::components` leaves out after the first: an empty one
/// (from repeated or trailing separators) or `.`.
pub open spec fn skipped_part(x: Seq<char>) -> bool {
    x.len() == 0 || x == "."@
}

/// The components of `p` as `Path::components` gives them: whether it starts
/// at the root, and its names, without empty parts and without `.` except
/// a leading one.
pub open spec fn path_parts(p: Seq<char>, windows: bool) -> (bool, Seq<Seq<char>>) {
    let s = slashed(p, windows);
    let ps = split_on(s, '/');
    let head: Seq<Seq<char>> = if ps.len() > 0 && ps[0].len() > 0 {
        seq![ps[0]]
    } else {
        Seq::empty()
    };
    (s.len() > 0 && s[0] == '/', head + ps.drop_first().filter(|x: Seq<char>| !skipped_part(x)))
}

/// Two paths name the same place when their components are equal, as two
/// `PathBuf`s compare.
pub open spec fn same_path(a: Seq<char>, b: Seq<char>, windows: bool) -> bool {
    path_parts(a, windows) == path_parts(b, windows)
}

/// Some path of `s` is the same path as `p`.
pub open spec fn has_same_path(s: Seq<Seq<char>>, p: Seq<char>, windows: bool) -> bool {
    exists|j: int| 0 <= j < s.len() && same_path(#[trigger] s[j], p, windows)
}

fn path_parts_of(p: &str, windows: bool) -> (r: (bool, Vec<Vec<char>>))
    ensures
        r.0 == path_parts(p@, windows).0,
        views(r.1@) == path_parts(p@, windows).1,
{
    let v = chars_of(p);
    let ghost f = |c: char| if is_sep(c, windows) { '/' } else { c };
    let mut s: Vec<char> = Vec::new();
    let mut i: usize = 0;
    while i < v.len()
        invariant
            i <= v.len(),
            v@ == p@,
            f == (|c: char| if is_sep(c, windows) { '/' } else { c }),
            s@ == v@.take(i as int).map_values(f),
        decreases v.len() - i,
    {
        let c = v[i];
        s.push(if c == '/' || (windows && c == '\\') { '/' } else { c });
        assert(s@ =~= v@.take(i + 1).map_values(f));
        i = i + 1;
    }
    assert(v@.take(v.len() as int) =~= v@);
    assert(s@ == slashed(p@, windows));
    let rooted = s.len() > 0 && s[0] == '/';
    let ps = split_chars(&s, '/');
    let ghost pv = views(ps@);
    proof {
        crate::text::lemma_split_on_nonempty(s@, '/');
    }
    let ghost keep = |x: Seq<char>| !skipped_part(x);
    proof {
        reveal_strlit(".");
    }
    let mut out: Vec<Vec<char>> = Vec::new();
    if ps.len() > 0 && ps[0].len() > 0 {
        out.push(sub_chars(&ps[0], 0, ps[0].len()));
        assert(pv[0] == ps@[0]@);
        assert(views(out@)[0] == pv[0]);
    }
    let ghost head = views(out@);
    assert(head == if pv.len() > 0 && pv[0].len() > 0 {
        seq![pv[0]]
    } else {
        Seq::<Seq<char>>::empty()
    }) by {
        if pv.len() > 0 && pv[0].len() > 0 {
            assert(head =~= seq![pv[0]]);
        } else {
            assert(head =~= Seq::<Seq<char>>::empty());
        }
    }
    let ghost rest = pv.drop_first();
    let mut j: usize = 1;
    proof {
        reveal_with_fuel(Seq::<Seq<char>>::filter, 1);
        assert(rest.take(0) =~= Seq::<Seq<char>>::empty());
    }
    while j < ps.len()
        invariant
            1 <= j,
            pv == views(ps@),
            rest == pv.drop_first(),
            keep == (|x: Seq<char>| !skipped_part(x)),
            j <= ps.len(),
            pv.len() >= 1,
            views(out@) == head + rest.take(j - 1).filter(keep),
        decreases ps.len() - j,
    {
        let x = &ps[j];
        assert(rest[j - 1] == x@);
        assert(rest.take(j as int).drop_last() =~= rest.take(j - 1));
        let skip = x.len() == 0 || (x.len() == 1 && x[0] == '.');
        assert(skip == skipped_part(x@)) by {
            reveal_strlit(".");
            assert("."@.len() == 1 && "."@[0] == '.');
            if x.len() == 1 && x@[0] == '.' {
                assert(x@ =~= "."@);
            }
        }
        let ghost before = views(out@);
        proof {
            reveal_with_fuel(Seq::<Seq<char>>::filter, 1);
        }
        if !skip {
            let copy = sub_chars(x, 0, x.len());
            assert(copy@ =~= x@);
            out.push(copy);
            assert(views(out@) =~= before.push(x@));
        }
        assert(head + rest.take(j as int).filter(keep) =~= if skip {
            head + rest.take(j - 1).filter(keep)
        } else {
            (head + rest.take(j - 1).filter(keep)).push(x@)
        });
        j = j + 1;
    }
    assert(rest.take(ps.len() - 1) =~= rest);
    (rooted, out)
}

/// Whether `a` and `b` are the same path (see `same_path`).
pub fn paths_equal(a: &str, b: &str, windows: bool) -> (r: bool)
    ensures
        r == same_path(a@, b@, windows),
{
    let (ra, pa) = path_parts_of(a, windows);
    let (rb, pb) = path_parts_of(b, windows);
    if ra != rb || pa.len() != pb.len() {
        assert(views(pa@).len() == pa.len() && views(pb@).len() == pb.len());
        return false;
    }
    let mut i: usize = 0;
    while i < pa.len()
        invariant
            i <= pa.len() == pb.len(),
            ra == rb,
            ra == path_parts(a@, windows).0 && rb == path_parts(b@, windows).0,
            views(pa@) == path_parts(a@, windows).1,
            views(pb@) == path_parts(b@, windows).1,
            forall|k: int| 0 <= k < i ==> #[trigger] pa@[k]@ == pb@[k]@,
        decreases pa.len() - i,
    {
        if !chars_eq(&pa[i], &pb[i]) {
            assert(views(pa@)[i as int] != views(pb@)[i as int]);
            return false;
        }
        i = i + 1;
    }
    assert(views(pa@) =~= views(pb@));
    true
}

/// A variable that is set and not empty.
pub open spec fn set_value(v: Option<Seq<char>>) -> Option<Seq<char>> {
    match v {
        Some(s) => if s.len() > 0 {
            Some(s)
        } else {
            None
        },
        None => None,
    }
}

pub(crate) fn set_text(v: &Option<String>) -> (r: Option<&String>)
    ensures
        match r {
            Some(s) => set_value(text_opt(*v)) == Some(s@),
            None => set_value(text_opt(*v)) is None,
        },
{
    match v {
        Some(s) => {
            let c = chars_of(s.as_str());
            if c.len() > 0 {
                Some(s)
            } else {
                None
            }
        },
        None => None,
    }
}

/// The user configuration directory: `$XDG_CONFIG_HOME`, else `$APPDATA`,
/// else `$HOME/.config`, else `$USERPROFILE/.config` (empty values skipped).
pub open spec fn config_home(e: EnvView) -> Option<Seq<char>> {
    match set_value(e.xdg_config_home) {
        Some(x) => Some(x),
        None => match set_value(e.appdata) {
            Some(a) => Some(a),
            None => match set_value(e.home) {
                Some(h) => Some(join_spec(h, ".config"@, e.windows)),
                None => match set_value(e.userprofile) {
                    Some(u) => Some(join_spec(u, ".config"@, e.windows)),
                    None => None,
                },
            },
        },
    }
}

pub fn default_config_home(env: &ConfigEnv) -> (r: Option<String>)
    ensures
        text_opt(r) == config_home(env@),
{
    if let Some(x) = set_text(&env.xdg_config_home) {
        return Some(x.clone());
    }
    if let Some(a) = set_text(&env.appdata) {
        return Some(a.clone());
    }
    if let Some(h) = set_text(&env.home) {
        return Some(join_path(h.as_str(), ".config", env.windows));
    }
    if let Some(u) = set_text(&env.userprofile) {
        return Some(join_path(u.as_str(), ".config", env.windows));
    }
    None
}

/// `<config home>/<dir>/config.toml`.
pub open spec fn config_file_under(home: Option<Seq<char>>, dir: Seq<char>, windows: bool) -> Option<Seq<char>> {
    match home {
        Some(h) => Some(join_spec(join_spec(h, dir, windows), APP_CONFIG_FILE@, windows)),
        None => None,
    }
}

fn config_file_in(home: &Option<String>, dir: &str, windows: bool) -> (r: Option<String>)
    ensures
        text_opt(r) == config_file_under(text_opt(*home), dir@, windows),
{
    match home {
        Some(h) => {
            let d = join_path(h.as_str(), dir, windows);
            Some(join_path(d.as_str(), APP_CONFIG_FILE, windows))
        },
        None => None,
    }
}

/// The user config file: `<config home>/rktop/config.toml`.
pub fn default_user_config_path(env: &ConfigEnv) -> (r: Option<String>)
    ensures
        text_opt(r) == config_file_under(config_home(env@), APP_CONFIG_DIR@, env.windows),
{
    let home = default_config_home(env);
    config_file_in(&home, APP_CONFIG_DIR, env.windows)
}

/// The config file that a first run creates: the user config file.
pub fn default_config_path(env: &ConfigEnv) -> (r: Option<String>)
    ensures
        text_opt(r) == config_file_under(config_home(env@), APP_CONFIG_DIR@, env.windows),
{
    default_user_config_path(env)
}

/// The file kept from the project's former name:
/// `<config home>/server-tui-monitor/config.toml`.
pub fn legacy_user_config_path(env: &ConfigEnv) -> (r: Option<String>)
    ensures
        text_opt(r) == config_file_under(config_home(env@), LEGACY_APP_CONFIG_DIR@, env.windows),
{
    let home = default_config_home(env);
    config_file_in(&home, LEGACY_APP_CONFIG_DIR, env.windows)
}

pub open spec fn system_path(windows: bool) -> Option<Seq<char>> {
    if windows {
        None
    } else {
        Some(join_spec(join_spec("/etc"@, APP_CONFIG_DIR@, false), APP_CONFIG_FILE@, false))
    }
}

/// `/etc/rktop/config.toml`, except on Windows, which has none.
pub fn system_config_path(windows: bool) -> (r: Option<String>)
    ensures
        text_opt(r) == system_path(windows),
{
    if windows {
        None
    } else {
        let d = join_path("/etc", APP_CONFIG_DIR, false);
        Some(join_path(d.as_str(), APP_CONFIG_FILE, false))
    }
}

/// `config.toml` in the directory of the running program, when it is known.
pub open spec fn beside_program(e: EnvView) -> Option<Seq<char>> {
    match set_value(e.exe_dir) {
        Some(d) => Some(join_spec(d, APP_CONFIG_FILE@, e.windows)),
        None => None,
    }
}

/// `config.toml` beside the running program (see `beside_program`).
pub fn program_config_path(env: &ConfigEnv) -> (r: Option<String>)
    ensures
        text_opt(r) == beside_program(env@),
{
    match set_text(&env.exe_dir) {
        Some(d) => Some(join_path(d.as_str(), APP_CONFIG_FILE, env.windows)),
        None => None,
    }
}

/// The places a config file may be, in lookup order, before duplicates are
/// dropped: `$RKTOP_CONFIG` (when set and not empty), `config.toml` beside
/// the program, the user file, the system file, the legacy file.
pub open spec fn candidate_paths(e: EnvView) -> Seq<Option<Seq<char>>> {
    seq![
        set_value(e.rktop_config),
        beside_program(e),
        config_file_under(config_home(e), APP_CONFIG_DIR@, e.windows),
        system_path(e.windows),
        config_file_under(config_home(e), LEGACY_APP_CONFIG_DIR@, e.windows),
    ]
}

/// The present candidates in order, each kept unless an earlier kept one is
/// the same path (see `same_path`).
pub open spec fn unique_paths(c: Seq<Option<Seq<char>>>, windows: bool) -> Seq<Seq<char>>
    decreases c.len(),
{
    if c.len() == 0 {
        Seq::empty()
    } else {
        let earlier = unique_paths(c.drop_last(), windows);
        match c.last() {
            Some(p) => if has_same_path(earlier, p, windows) {
                earlier
            } else {
                earlier.push(p)
            },
            None => earlier,
        }
    }
}

pub open spec fn search_paths(e: EnvView) -> Seq<Seq<char>> {
    unique_paths(candidate_paths(e), e.windows)
}

pub open spec fn text_views(v: Seq<String>) -> Seq<Seq<char>> {
    v.map_values(|s: String| s@)
}

fn push_unique(paths: &mut Vec<String>, p: Option<String>, windows: bool)
    ensures
        text_views(final(paths)@) == match text_opt(p) {
            Some(q) => if has_same_path(text_views(old(paths)@), q, windows) {
                text_views(old(paths)@)
            } else {
                text_views(old(paths)@).push(q)
            },
            None => text_views(old(paths)@),
        },
{
    match p {
        Some(q) => {
            let ghost before = text_views(paths@);
            let mut i: usize = 0;
            let mut found = false;
            while i < paths.len() && !found
                invariant
                    i <= paths.len(),
                    before == text_views(paths@),
                    found ==> i < paths.len() && same_path(before[i as int], q@, windows),
                    !found ==> forall|j: int| 0 <= j < i ==> !same_path(#[trigger] before[j], q@, windows),
                decreases paths.len() - i + if found { 0int } else { 1int },
            {
                assert(before[i as int] == paths@[i as int]@);
                if paths_equal(paths[i].as_str(), q.as_str(), windows) {
                    found = true;
                } else {
                    i = i + 1;
                }
            }
            if !found {
                paths.push(q);
                assert(text_views(paths@) =~= before.push(q@));
            }
        },
        None => {},
    }
}

/// Every place a config file is looked for, in order, without duplicates.
pub fn config_search_paths(env: &ConfigEnv) -> (r: Vec<String>)
    ensures
        text_views(r@) == search_paths(env@),
{
    let ghost c = candidate_paths(env@);
    let mut paths: Vec<String> = Vec::new();
    let first = match set_text(&env.rktop_config) {
        Some(p) => Some(p.clone()),
        None => None,
    };
    assert(text_views(paths@) =~= Seq::<Seq<char>>::empty());
    assert(text_opt(first) == c[0]);
    push_unique(&mut paths, first, env.windows);
    assert(text_views(paths@) =~= unique_paths(c.take(1), env.windows)) by {
        let t = c.take(1);
        assert(t.drop_last() =~= Seq::<Option<Seq<char>>>::empty());
        assert(unique_paths(t.drop_last(), env.windows) =~= Seq::<Seq<char>>::empty());
        assert(t.last() == c[0]);
    }
    push_unique(&mut paths, program_config_path(env), env.windows);
    assert(text_views(paths@) =~= unique_paths(c.take(2), env.windows)) by {
        assert(c.take(2).drop_last() =~= c.take(1));
    }
    push_unique(&mut paths, default_user_config_path(env), env.windows);
    assert(text_views(paths@) =~= unique_paths(c.take(3), env.windows)) by {
        assert(c.take(3).drop_last() =~= c.take(2));
    }
    push_unique(&mut paths, system_config_path(env.windows), env.windows);
    assert(text_views(paths@) =~= unique_paths(c.take(4), env.windows)) by {
        assert(c.take(4).drop_last() =~= c.take(3));
    }
    push_unique(&mut paths, legacy_user_config_path(env), env.windows);
    assert(text_views(paths@) =~= unique_paths(c.take(5), env.windows)) by {
        assert(c.take(5).drop_last() =~= c.take(4));
    }
    assert(c.take(5) =~= c);
    paths
}

/// Where the configuration comes from: a file to read, or the built-in
/// defaults (with the user file a first run would create).
#[derive(Clone, Debug, PartialEq, Eq)]
pub enum ConfigLookup {
    ReadFile(String),
    BuiltIn { default_path: Option<String> },
}

pub enum LookupView {
    ReadFile(Seq<char>),
    BuiltIn(Option<Seq<char>>),
}

pub open spec fn lookup_view(l: ConfigLookup) -> LookupView {
    match l {
        ConfigLookup::ReadFile(p) => LookupView::ReadFile(p@),
        ConfigLookup::BuiltIn { default_path } => LookupView::BuiltIn(text_opt(default_path)),
    }
}

/// The first search path from index `i` on that exists.
pub open spec fn first_existing(paths: Seq<Seq<char>>, exists: Seq<bool>, i: int) -> Option<Seq<char>>
    decreases paths.len() - i,
{
    if i < 0 || i >= paths.len() {
        None
    } else if i < exists.len() && exists[i] {
        Some(paths[i])
    } else {
        first_existing(paths, exists, i + 1)
    }
}

pub open spec fn lookup_spec(explicit: Option<Seq<char>>, e: EnvView, exists: Seq<bool>) -> LookupView {
    match explicit {
        Some(p) => LookupView::ReadFile(p),
        None => match first_existing(search_paths(e), exists, 0) {
            Some(p) => LookupView::ReadFile(p),
            None => LookupView::BuiltIn(config_file_under(config_home(e), APP_CONFIG_DIR@, e.windows)),
        },
    }
}

/// Which configuration to load: the explicit path when given; else the
/// first search path that exists (`exists[i]` tells whether the `i`-th path
/// of `config_search_paths(env)` exists); else the built-in defaults.
pub fn load_config(explicit_path: Option<String>, env: &ConfigEnv, exists: &Vec<bool>) -> (r: ConfigLookup)
    ensures
        lookup_view(r) == lookup_spec(text_opt(explicit_path), env@, exists@),
{
    match explicit_path {
        Some(p) => ConfigLookup::ReadFile(p),
        None => {
            let paths = config_search_paths(env);
            let ghost ps = text_views(paths@);
            let mut i: usize = 0;
            loop
                invariant
                    i <= paths.len(),
                    ps == text_views(paths@),
                    ps == search_paths(env@),
                    first_existing(ps, exists@, 0) == first_existing(ps, exists@, i as int),
                ensures
                    i <= paths.len(),
                    first_existing(ps, exists@, 0) == first_existing(ps, exists@, i as int),
                    i < paths.len() ==> i < exists.len() && exists@[i as int],
                decreases paths.len() - i,
            {
                if i >= paths.len() {
                    break;
                }
                if i < exists.len() && exists[i] {
                    break;
                }
                i = i + 1;
            }
            if i < paths.len() {
                let p = paths[i].clone();
                assert(ps[i as int] == paths@[i as int]@);
                assert(first_existing(ps, exists@, i as int) == Some(ps[i as int]));
                return ConfigLookup::ReadFile(p);
            }
            ConfigLookup::BuiltIn { default_path: default_user_config_path(env) }
        },
    }
}

/// `<home>/.ssh/config`.
pub open spec fn ssh_config_under(home: Seq<char>, windows: bool) -> Seq<char> {
    join_spec(join_spec(home, ".ssh"@, windows), "config"@, windows)
}

/// The SSH config files to read, in order: under `$HOME`, then under
/// `$USERPROFILE` (empty values skipped, the same path once).
pub open spec fn ssh_config_paths_spec(home: Option<Seq<char>>, userprofile: Option<Seq<char>>, windows: bool) -> Seq<Seq<char>> {
    let first: Seq<Seq<char>> = match set_value(home) {
        Some(h) => seq![ssh_config_under(h, windows)],
        None => Seq::empty(),
    };
    match set_value(userprofile) {
        Some(u) => if has_same_path(first, ssh_config_under(u, windows), windows) {
            first
        } else {
            first.push(ssh_config_under(u, windows))
        },
        None => first,
    }
}

pub fn ssh_config_paths(home: &Option<String>, userprofile: &Option<String>, windows: bool) -> (r: Vec<String>)
    ensures
        crate::text::string_views(r@) == ssh_config_paths_spec(text_opt(*home), text_opt(*userprofile), windows),
{
    let mut paths: Vec<String> = Vec::new();
    if let Some(h) = set_text(home) {
        let d = join_path(h.as_str(), ".ssh", windows);
        paths.push(join_path(d.as_str(), "config", windows));
    }
    let ghost first = crate::text::string_views(paths@);
    assert(first == match set_value(text_opt(*home)) {
        Some(h) => seq![ssh_config_under(h, windows)],
        None => Seq::<Seq<char>>::empty(),
    });
    if let Some(u) = set_text(userprofile) {
        let d = join_path(u.as_str(), ".ssh", windows);
        let p = join_path(d.as_str(), "config", windows);
        let same = paths.len() > 0 && paths_equal(paths[0].as_str(), p.as_str(), windows);
        assert(same == has_same_path(first, p@, windows)) by {
            if first.len() > 0 {
                assert(first[0] == paths@[0]@);
            }
            if has_same_path(first, p@, windows) {
                let i = choose|i: int| 0 <= i < first.len() && same_path(#[trigger] first[i], p@, windows);
                assert(i == 0);
            }
        }
        if !same {
            paths.push(p);
            assert(crate::text::string_views(paths@) =~= first.push(ssh_config_under(u@, windows)));
        }
    }
    paths
}

} // verus!
