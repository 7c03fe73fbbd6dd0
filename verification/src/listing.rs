//! The config manager's server list as text: each row's columns padded to
//! fixed widths, long values cut with an ellipsis, and the health cell.
use vstd::prelude::*;
use crate::cardtext::{pad_left, pad_left_text, push_repeated, repeated, two_digit_text, two_digits};
use crate::config::{ServerConfig, ServerView};
use crate::manager::{health_label, ConfigHealthStatus, HealthView};
use crate::model::{endpoint_of, kind_name};
use crate::text::{chars_of, string_of, sub_chars};

verus! {

/// `value` unchanged when it fits in `width` characters; else cut to
/// `width` characters, the last of them `…` (nothing at width 0).
pub open spec fn cut_spec(value: Seq<char>, width: nat) -> Seq<char> {
    if value.len() <= width {
        value
    } else if width == 0 {
        Seq::empty()
    } else {
        value.take(width - 1) + "\u{2026}"@
    }
}

/// A cut cell never takes more than its column's width, and a cell that
/// fits is kept whole.
pub proof fn lemma_cut_within_width(value: Seq<char>, width: nat)
    ensures
        cut_spec(value, width).len() <= width,
        value.len() <= width ==> cut_spec(value, width) == value,
{
    reveal_strlit("\u{2026}");
}

pub fn fit_text(value: &str, width: usize) -> (r: String)
    ensures
        r@ == cut_spec(value@, width as nat),
{
    let v = chars_of(value);
    if v.len() <= width {
        return String::from_str(value);
    }
    if width == 0 {
        return String::new();
    }
    let head = sub_chars(&v, 0, width - 1);
    assert(head@ =~= value@.take(width - 1));
    let s = string_of(&head);
    s.concat("\u{2026}")
}

/// `value` left-aligned in `width` characters.
pub open spec fn pad_right(value: Seq<char>, width: nat) -> Seq<char> {
    if value.len() >= width {
        value
    } else {
        value + repeated(' ', (width - value.len()) as nat)
    }
}

fn push_padded(out: &mut String, value: &str, width: usize)
    ensures
        final(out)@ == old(out)@ + pad_right(value@, width as nat),
{
    let n = chars_of(value).len();
    out.append(value);
    if n < width {
        push_repeated(out, ' ', width - n);
    }
}

/// The cells of a list row, before padding.
pub struct ServerListColumns {
    pub marker: String,
    pub number: String,
    pub id: String,
    pub name: String,
    pub source: String,
    pub enabled: String,
    pub required: String,
    pub host: String,
}

/// A row: the marker, the number right-aligned in 2, then id (16), name
/// (24), source (11), status (8), required (8) and host (32) left-aligned,
/// each followed by ` │`.
pub open spec fn columns_text(c: ServerListColumns) -> Seq<char> {
    c.marker@ + " "@ + pad_left(c.number@, 2) + " \u{2502} "@ + pad_right(c.id@, 16) + " \u{2502} "@
        + pad_right(c.name@, 24) + " \u{2502} "@ + pad_right(c.source@, 11) + " \u{2502} "@
        + pad_right(c.enabled@, 8) + " \u{2502} "@ + pad_right(c.required@, 8) + " \u{2502} "@
        + pad_right(c.host@, 32) + " \u{2502}"@
}

pub fn server_list_columns(columns: &ServerListColumns) -> (r: String)
    ensures
        r@ == columns_text(*columns),
{
    let mut s = columns.marker.clone();
    s.append(" ");
    s.append(pad_left_text(&columns.number, 2).as_str());
    s.append(" \u{2502} ");
    push_padded(&mut s, columns.id.as_str(), 16);
    s.append(" \u{2502} ");
    push_padded(&mut s, columns.name.as_str(), 24);
    s.append(" \u{2502} ");
    push_padded(&mut s, columns.source.as_str(), 11);
    s.append(" \u{2502} ");
    push_padded(&mut s, columns.enabled.as_str(), 8);
    s.append(" \u{2502} ");
    push_padded(&mut s, columns.required.as_str(), 8);
    s.append(" \u{2502} ");
    push_padded(&mut s, columns.host.as_str(), 32);
    s.append(" \u{2502}");
    s
}

/// The header row's cells.
pub open spec fn header_columns_text() -> Seq<char> {
    " "@ + " "@ + pad_left("#"@, 2) + " \u{2502} "@ + pad_right("ID"@, 16) + " \u{2502} "@
        + pad_right("NAME"@, 24) + " \u{2502} "@ + pad_right("SOURCE"@, 11) + " \u{2502} "@
        + pad_right("STATUS"@, 8) + " \u{2502} "@ + pad_right("REQUIRED"@, 8) + " \u{2502} "@
        + pad_right("HOST"@, 32) + " \u{2502}"@
}

pub fn server_list_header_text() -> (r: String)
    ensures
        r@ == header_columns_text(),
{
    let columns = ServerListColumns {
        marker: String::from_str(" "),
        number: String::from_str("#"),
        id: String::from_str("ID"),
        name: String::from_str("NAME"),
        source: String::from_str("SOURCE"),
        enabled: String::from_str("STATUS"),
        required: String::from_str("REQUIRED"),
        host: String::from_str("HOST"),
    };
    server_list_columns(&columns)
}

/// The row of the server at `index` (numbered from 1, two digits at
/// least): `>` when selected, its id, name, source kind and host cut to
/// their columns, and whether it is enabled and required.
pub open spec fn server_row_text(index: nat, s: ServerView, selected: bool) -> Seq<char> {
    (if selected {
        ">"@
    } else {
        " "@
    }) + " "@ + pad_left(two_digits(index + 1), 2) + " \u{2502} "@ + pad_right(cut_spec(s.id, 16), 16)
        + " \u{2502} "@ + pad_right(cut_spec(s.name, 24), 24) + " \u{2502} "@ + pad_right(
        cut_spec(kind_name(s.source), 11),
        11,
    ) + " \u{2502} "@ + pad_right(
        if s.enabled {
            "enabled"@
        } else {
            "disabled"@
        },
        8,
    ) + " \u{2502} "@ + pad_right(
        if s.optional {
            "optional"@
        } else {
            "required"@
        },
        8,
    ) + " \u{2502} "@ + pad_right(
        cut_spec(
            match endpoint_of(s.source) {
                Some(h) => h,
                None => "-"@,
            },
            32,
        ),
        32,
    ) + " \u{2502}"@
}

pub fn server_list_text(index: usize, server: &ServerConfig, selected: bool) -> (r: String)
    requires
        index < u64::MAX,
    ensures
        r@ == server_row_text(index as nat, server@, selected),
{
    let host = match server.source.endpoint() {
        Some(h) => h,
        None => "-",
    };
    let columns = ServerListColumns {
        marker: String::from_str(if selected {
            ">"
        } else {
            " "
        }),
        number: two_digit_text(index as u64 + 1),
        id: fit_text(server.id.as_str(), 16),
        name: fit_text(server.name.as_str(), 24),
        source: fit_text(server.source.kind(), 11),
        enabled: String::from_str(if server.enabled {
            "enabled"
        } else {
            "disabled"
        }),
        required: String::from_str(if server.optional {
            "optional"
        } else {
            "required"
        }),
        host: fit_text(host, 32),
    };
    server_list_columns(&columns)
}

/// The health cell: the status label, or `health -` before any check.
pub open spec fn health_cell(h: Option<HealthView>) -> Seq<char> {
    match h {
        Some(v) => health_label(v),
        None => "health -"@,
    }
}

pub fn health_cell_text(health: Option<&ConfigHealthStatus>) -> (r: String)
    ensures
        r@ == health_cell(
            match health {
                Some(h) => Some(h@),
                None => None,
            },
        ),
{
    match health {
        Some(h) => h.label(),
        None => String::from_str("health -"),
    }
}

/// A wizard option: `>` when highlighted, then the label in 24 columns.
pub open spec fn option_label_text(selected: bool, label: Seq<char>) -> Seq<char> {
    (if selected {
        ">"@
    } else {
        " "@
    }) + " "@ + pad_right(label, 24)
}

pub fn add_option_text(selected: bool, label: &str) -> (r: String)
    ensures
        r@ == option_label_text(selected, label@),
{
    let mut s = String::from_str(if selected {
        ">"
    } else {
        " "
    });
    s.append(" ");
    push_padded(&mut s, label, 24);
    s
}

/// The value shown for a field: the input with a cursor while it is being
/// typed, `∅` for an empty value, else the value.
pub open spec fn field_value_text(typing: bool, input: Seq<char>, value: Seq<char>) -> Seq<char> {
    if typing {
        input + "\u{258c}"@
    } else if value.len() == 0 {
        "\u{2205}"@
    } else {
        value
    }
}

pub fn field_value_display(typing: bool, input: &str, value: &str) -> (r: String)
    ensures
        r@ == field_value_text(typing, input@, value@),
{
    if typing {
        String::from_str(input).concat("\u{258c}")
    } else if chars_of(value).len() == 0 {
        String::from_str("\u{2205}")
    } else {
        String::from_str(value)
    }
}

/// A row of the field editor: `>` when highlighted, the label in 14
/// columns, the value in 38, then the hint.
pub open spec fn field_row_text(selected: bool, label: Seq<char>, value: Seq<char>, hint: Seq<char>) -> Seq<char> {
    (if selected {
        ">"@
    } else {
        " "@
    }) + " "@ + pad_right(label, 14) + " \u{2502} "@ + pad_right(value, 38) + " \u{2502} "@ + hint
}

pub fn edit_field_row_text(selected: bool, label: &str, value: &str, hint: &str) -> (r: String)
    ensures
        r@ == field_row_text(selected, label@, value@, hint@),
{
    let mut s = String::from_str(if selected {
        ">"
    } else {
        " "
    });
    s.append(" ");
    push_padded(&mut s, label, 14);
    s.append(" \u{2502} ");
    push_padded(&mut s, value, 38);
    s.append(" \u{2502} ");
    s.append(hint);
    s
}

} // verus!
