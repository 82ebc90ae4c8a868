//! The rows of the interactive profile picker: label, destination and mode
//! in fixed-width columns.

use vstd::prelude::*;
use crate::text::{decimal, is_ascii_text, push_decimal};
use crate::usecase::ProfileView;

verus! {

/// What `console::truncate_str(s, width, tail)` makes of `s`.
pub uninterp spec fn truncated_text(s: Seq<char>, width: nat, tail: Seq<char>) -> Seq<char>;

/// What `console::pad_str(s, width, Alignment::Left, None)` makes of `s`.
pub uninterp spec fn left_padded_text(s: Seq<char>, width: nat) -> Seq<char>;

/// Relies on `console::truncate_str`: `s` cut to `width` display columns,
/// ending in `tail` where it was cut. It subtracts the width of `tail` from
/// `width`, so `tail` must fit.
#[verifier::external_body]
fn truncate_to_width(s: &str, width: usize, tail: &str) -> (r: String)
    requires
        is_ascii_text(tail@),
        tail@.len() <= width,
    ensures
        r@ == truncated_text(s@, width as nat, tail@),
{
    console::truncate_str(s, width, tail).to_string()
}

/// Relies on `console::pad_str` with left alignment and no truncation: `s`
/// followed by spaces up to `width` display columns.
#[verifier::external_body]
fn pad_to_width(s: &str, width: usize) -> (r: String)
    ensures
        r@ == left_padded_text(s@, width as nat),
{
    console::pad_str(s, width, console::Alignment::Left, None).to_string()
}

/// The width of the label column.
pub const W_LABEL: usize = 22;

/// The width of the destination column.
pub const W_DEST: usize = 30;

/// The width of the mode column.
pub const W_MODE: usize = 10;

/// `s` as a column of `width`: cut with `...` when too wide, then padded.
pub open spec fn fitted(s: Seq<char>, width: nat) -> Seq<char> {
    left_padded_text(truncated_text(s, width, "..."@), width)
}

/// `s` as a column of `width`.
pub fn fit_col(s: &str, width: usize) -> (r: String)
    requires
        width >= 3,
    ensures
        r@ == fitted(s@, width as nat),
{
    proof { reveal_strlit("..."); }
    let t = truncate_to_width(s, width, "...");
    pad_to_width(t.as_str(), width)
}

/// The three columns side by side, two spaces apart.
pub open spec fn joined_columns(label: Seq<char>, dest: Seq<char>, mode: Seq<char>) -> Seq<char> {
    label + "  "@ + dest + "  "@ + mode
}

/// The three columns side by side, two spaces apart.
pub fn join_columns(label: &str, dest: &str, mode: &str) -> (r: String)
    ensures
        r@ == joined_columns(label@, dest@, mode@),
{
    let mut out = String::from_str(label);
    out.append("  ");
    out.append(dest);
    out.append("  ");
    out.append(mode);
    out
}

/// Where the label, destination and mode columns of a row start and end,
/// counted in characters, for columns of `l`, `d` and `m` characters that
/// stand two characters apart.
pub open spec fn spans_of(l: int, d: int, m: int) -> ((int, int), (int, int), (int, int)) {
    ((0, l), (l + 2, l + 2 + d), (l + 2 + d + 2, l + 2 + d + 2 + m))
}

/// Where the three columns of the row `join_columns(label, dest, mode)`
/// start and end, counted in characters.
pub fn column_spans(label: &str, dest: &str, mode: &str) -> (r: ((u32, u32), (u32, u32), (u32, u32)))
    requires
        label@.len() + dest@.len() + mode@.len() + 4 <= u32::MAX,
    ensures
        ({
            let s = spans_of(label@.len() as int, dest@.len() as int, mode@.len() as int);
            &&& r.0.0 == s.0.0 && r.0.1 == s.0.1
            &&& r.1.0 == s.1.0 && r.1.1 == s.1.1
            &&& r.2.0 == s.2.0 && r.2.1 == s.2.1
        }),
{
    let l = label.unicode_len() as u32;
    let d = dest.unicode_len() as u32;
    let m = mode.unicode_len() as u32;
    let dest_start = l + 2;
    let dest_end = dest_start + d;
    let mode_start = dest_end + 2;
    let mode_end = mode_start + m;
    ((0, l), (dest_start, dest_end), (mode_start, mode_end))
}

/// `user@host:port` of a profile.
pub open spec fn dest_text(p: ProfileView) -> Seq<char> {
    p.user@ + "@"@ + p.host@ + ":"@ + decimal(p.port as nat)
}

/// One profile as a picker row.
pub struct ProfileSkimItem {
    pub p: ProfileView,
}

impl ProfileSkimItem {
    pub fn new(p: ProfileView) -> (r: ProfileSkimItem)
        ensures
            r.p == p,
    {
        ProfileSkimItem { p }
    }

    /// The label, destination and mode columns.
    pub fn cols(&self) -> (r: (String, String, String))
        ensures
            r.0@ == fitted(self.p.label@, W_LABEL as nat),
            r.1@ == fitted(dest_text(self.p), W_DEST as nat),
            r.2@ == fitted(self.p.mode@, W_MODE as nat),
    {
        let label = fit_col(self.p.label.as_str(), W_LABEL);
        let mut dest_raw = self.p.user.clone();
        dest_raw.append("@");
        dest_raw.append(self.p.host.as_str());
        dest_raw.append(":");
        push_decimal(&mut dest_raw, self.p.port as u32);
        let dest = fit_col(dest_raw.as_str(), W_DEST);
        let mode = fit_col(self.p.mode.as_str(), W_MODE);
        (label, dest, mode)
    }

    /// The row as plain text: what the picker searches and shows.
    pub fn line(&self) -> (r: String)
        ensures
            r@ == joined_columns(
                fitted(self.p.label@, W_LABEL as nat),
                fitted(dest_text(self.p), W_DEST as nat),
                fitted(self.p.mode@, W_MODE as nat),
            ),
    {
        let (label, dest, mode) = self.cols();
        join_columns(label.as_str(), dest.as_str(), mode.as_str())
    }
}

} // verus!
