//! What a host card and the status line show that is not arithmetic on
//! metrics: the role line, the host name, statuses that the host's state
//! decides, and the tone of a config manager message.
use vstd::prelude::*;
use crate::model::{kind_name, HostSource, HostStatus};
use crate::sshconfig::eq_ignore_ascii_case;
use crate::text::{ascii_lower, ascii_lowercase, chars_of, string_of, sub_chars};
use crate::theme::Status;

verus! {

/// `needle` occurs in `hay` starting at `i`.
pub open spec fn occurs_at(hay: Seq<char>, needle: Seq<char>, i: int) -> bool {
    0 <= i && i + needle.len() <= hay.len() && hay.subrange(i, i + needle.len()) == needle
}

/// `needle` occurs somewhere in `hay` (as `str::contains`).
pub open spec fn contains_text(hay: Seq<char>, needle: Seq<char>) -> bool {
    exists|i: int| occurs_at(hay, needle, i)
}

fn matches_at(hay: &Vec<char>, needle: &Vec<char>, i: usize) -> (r: bool)
    requires
        i + needle@.len() <= hay@.len(),
    ensures
        r == occurs_at(hay@, needle@, i as int),
{
    let n = needle.len();
    let mut k: usize = 0;
    while k < n
        invariant
            n == needle@.len(),
            k <= n,
            i + n <= hay.len(),
            forall|j: int| 0 <= j < k ==> hay@[i + j] == needle@[j],
        decreases n - k,
    {
        let at: usize = i + k;
        if hay[at] != needle[k] {
            assert(hay@.subrange(i as int, i + needle@.len())[k as int] != needle@[k as int]);
            return false;
        }
        k = k + 1;
    }
    assert(hay@.subrange(i as int, i + needle@.len()) =~= needle@);
    true
}

/// Whether `needle` occurs in `hay`.
pub fn contains_chars(hay: &Vec<char>, needle: &str) -> (r: bool)
    ensures
        r == contains_text(hay@, needle@),
{
    let n = chars_of(needle);
    if n.len() == 0 {
        assert(hay@.subrange(0, 0) =~= needle@);
        assert(occurs_at(hay@, needle@, 0));
        return true;
    }
    if n.len() > hay.len() {
        assert forall|i: int| !occurs_at(hay@, needle@, i) by {}
        return false;
    }
    let last: usize = hay.len() - n.len();
    let mut i: usize = 0;
    while i <= last
        invariant
            n@ == needle@,
            n@.len() > 0,
            last + n.len() == hay.len(),
            n.len() == n@.len(),
            i <= last + 1,
            forall|j: int| 0 <= j < i ==> !occurs_at(hay@, needle@, j),
        decreases last + 1 - i,
    {
        if matches_at(hay, &n, i) {
            return true;
        }
        i = i + 1;
    }
    assert forall|j: int| !occurs_at(hay@, needle@, j) by {
        if 0 <= j < i {
        }
    }
    false
}

/// The role line: the configured role (else the source kind), then `: `
/// and the error when collection failed.
pub open spec fn role_text(role: Option<Seq<char>>, source: HostSource, error: Option<Seq<char>>) -> Seq<char> {
    let base = match role {
        Some(r) => r,
        None => kind_name(source@),
    };
    match error {
        Some(e) => base + ": "@ + e,
        None => base,
    }
}

pub fn live_role(role: Option<&str>, source: &HostSource, error: Option<&str>) -> (r: String)
    ensures
        r@ == role_text(
            match role {
                Some(x) => Some(x@),
                None => None,
            },
            *source,
            match error {
                Some(x) => Some(x@),
                None => None,
            },
        ),
{
    let base = match role {
        Some(r) => r,
        None => source.kind(),
    };
    let s = String::from_str(base);
    match error {
        Some(e) => s.concat(": ").concat(e),
        None => s,
    }
}

/// The host name on a card: `cloud` for the `cloud` host; for the `local`
/// host its reported name unless that is just "local" (in any case), else
/// `local`; for others the reported name, else the display name in ASCII
/// lower case.
pub open spec fn hostname_text(id: Seq<char>, hostname: Option<Seq<char>>, name: Seq<char>) -> Seq<char> {
    if id == "cloud"@ {
        "cloud"@
    } else if id == "local"@ {
        match hostname {
            Some(h) => if eq_ignore_ascii_case(h, "local"@) {
                "local"@
            } else {
                h
            },
            None => "local"@,
        }
    } else {
        match hostname {
            Some(h) => h,
            None => name.map_values(|c: char| ascii_lower(c)),
        }
    }
}

pub fn visible_hostname(id: &str, hostname: Option<&str>, name: &str) -> (r: String)
    ensures
        r@ == hostname_text(
            id@,
            match hostname {
                Some(x) => Some(x@),
                None => None,
            },
            name@,
        ),
{
    let idv = chars_of(id);
    if crate::text::eq_str(&idv, "cloud") {
        String::from_str("cloud")
    } else if crate::text::eq_str(&idv, "local") {
        match hostname {
            Some(h) => {
                if crate::sshconfig::same_ignoring_case(&chars_of(h), "local") {
                    String::from_str("local")
                } else {
                    String::from_str(h)
                }
            },
            None => String::from_str("local"),
        }
    } else {
        match hostname {
            Some(h) => String::from_str(h),
            None => ascii_lowercase(name),
        }
    }
}

/// The card status that a host's state settles without looking at its
/// figures: unavailable when offline or disabled, a warning when degraded,
/// stale when unknown; an online host is judged by its figures (none here).
pub open spec fn status_of_state(s: HostStatus) -> Option<Status> {
    match s {
        HostStatus::Offline | HostStatus::Disabled => Some(Status::Unavailable),
        HostStatus::Degraded => Some(Status::Warn),
        HostStatus::Unknown => Some(Status::Stale),
        HostStatus::Online => None,
    }
}

pub fn status_from_host_state(state: HostStatus) -> (r: Option<Status>)
    ensures
        r == status_of_state(state),
{
    match state {
        HostStatus::Offline | HostStatus::Disabled => Some(Status::Unavailable),
        HostStatus::Degraded => Some(Status::Warn),
        HostStatus::Unknown => Some(Status::Stale),
        HostStatus::Online => None,
    }
}

/// In mock mode a host whose name holds `nas` (in any ASCII case) shows
/// stale and one whose name holds `cloud` unavailable; others are judged by
/// their figures (none here).
pub open spec fn mock_status_of_name(name: Seq<char>) -> Option<Status> {
    let n = name.map_values(|c: char| ascii_lower(c));
    if contains_text(n, "nas"@) {
        Some(Status::Stale)
    } else if contains_text(n, "cloud"@) {
        Some(Status::Unavailable)
    } else {
        None
    }
}

pub fn mock_status_override(name: &str) -> (r: Option<Status>)
    ensures
        r == mock_status_of_name(name@),
{
    let lower = chars_of(ascii_lowercase(name).as_str());
    if contains_chars(&lower, "nas") {
        Some(Status::Stale)
    } else if contains_chars(&lower, "cloud") {
        Some(Status::Unavailable)
    } else {
        None
    }
}

/// How the config manager's status line shows a message: a command to
/// copy (the text after `Command: `), or a tone for the whole message.
#[derive(Clone, Debug, PartialEq, Eq)]
pub enum MessageTone {
    Command(String),
    Problem,
    Success,
    Attention,
    Info,
}

pub enum ToneView {
    Command(Seq<char>),
    Problem,
    Success,
    Attention,
    Info,
}

pub open spec fn tone_view(t: MessageTone) -> ToneView {
    match t {
        MessageTone::Command(c) => ToneView::Command(c@),
        MessageTone::Problem => ToneView::Problem,
        MessageTone::Success => ToneView::Success,
        MessageTone::Attention => ToneView::Attention,
        MessageTone::Info => ToneView::Info,
    }
}

/// A message starting with `Command: ` shows its command; otherwise words
/// of failure make it a problem, words of success a success, and deleting,
/// showing or editing call for attention.
pub open spec fn message_tone_spec(m: Seq<char>) -> ToneView {
    if crate::text::starts_with(m, "Command: "@) {
        ToneView::Command(m.skip(9))
    } else if contains_text(m, "error"@) || contains_text(m, "failed"@) || contains_text(m, "skipped"@)
        || contains_text(m, "could not"@) {
        ToneView::Problem
    } else if contains_text(m, "ok"@) || contains_text(m, "saved"@) || contains_text(m, "updated"@)
        || contains_text(m, "enabled"@) {
        ToneView::Success
    } else if contains_text(m, "delete"@) || contains_text(m, "show"@) || contains_text(m, "editing"@) {
        ToneView::Attention
    } else {
        ToneView::Info
    }
}

pub fn message_tone(message: &str) -> (r: MessageTone)
    ensures
        tone_view(r) == message_tone_spec(message@),
{
    let m = chars_of(message);
    let prefix = chars_of("Command: ");
    proof {
        reveal_strlit("Command: ");
    }
    if crate::text::chars_start_with(&m, &prefix) {
        let rest = sub_chars(&m, 9, m.len());
        assert(rest@ =~= message@.skip(9));
        return MessageTone::Command(string_of(&rest));
    }
    if contains_chars(&m, "error") || contains_chars(&m, "failed") || contains_chars(&m, "skipped")
        || contains_chars(&m, "could not") {
        MessageTone::Problem
    } else if contains_chars(&m, "ok") || contains_chars(&m, "saved") || contains_chars(&m, "updated")
        || contains_chars(&m, "enabled") {
        MessageTone::Success
    } else if contains_chars(&m, "delete") || contains_chars(&m, "show") || contains_chars(&m, "editing") {
        MessageTone::Attention
    } else {
        MessageTone::Info
    }
}

} // verus!
