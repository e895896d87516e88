//! The mount table: lines of white-space separated fields, of which the first is
//! the mounted source and the second the mount point. Lines with fewer than two
//! fields are skipped.
use vstd::prelude::*;
use crate::text::{blank, chars_of, has_prefix, is_blank, starts_with};

verus! {

/// One line of the mount table.
pub struct MountEntry {
    /// What is mounted, such as `/dev/sda1`.
    pub source: String,
    /// Where it is mounted.
    pub target: String,
}

impl View for MountEntry {
    type V = (Seq<char>, Seq<char>);

    open spec fn view(&self) -> (Seq<char>, Seq<char>) {
        (self.source@, self.target@)
    }
}

/// The (source, mount point) pairs that `entries` hold.
pub open spec fn entry_views(entries: Seq<MountEntry>) -> Seq<(Seq<char>, Seq<char>)> {
    entries.map_values(|m: MountEntry| m@)
}

/// The first index at or after `i`, and not after `e`, that holds no white space.
pub open spec fn skip_blanks(s: Seq<char>, i: int, e: int) -> int
    decreases e - i,
{
    if i < e && is_blank(s[i]) {
        skip_blanks(s, i + 1, e)
    } else {
        i
    }
}

/// The first index at or after `i`, and not after `e`, that holds white space.
pub open spec fn field_end(s: Seq<char>, i: int, e: int) -> int
    decreases e - i,
{
    if i < e && !is_blank(s[i]) {
        field_end(s, i + 1, e)
    } else {
        i
    }
}

/// The first two fields of the line `s[i..e]`, if it has two.
pub open spec fn entry_in(s: Seq<char>, i: int, e: int) -> Option<(Seq<char>, Seq<char>)> {
    let a = skip_blanks(s, i, e);
    let b = field_end(s, a, e);
    let c = skip_blanks(s, b, e);
    let d = field_end(s, c, e);
    if a < b && c < d {
        Some((s.subrange(a, b), s.subrange(c, d)))
    } else {
        None
    }
}

pub open spec fn entries_in(s: Seq<char>, i: int, e: int) -> Seq<(Seq<char>, Seq<char>)> {
    match entry_in(s, i, e) {
        Some(p) => seq![p],
        None => Seq::empty(),
    }
}

/// The entries of the lines of `s` from the line that starts at `start`, where
/// no line break stands in `s[start..i]`.
pub open spec fn entries_from(s: Seq<char>, start: int, i: int) -> Seq<(Seq<char>, Seq<char>)>
    decreases s.len() - i,
{
    if i >= s.len() {
        entries_in(s, start, s.len() as int)
    } else if s[i] == '\n' {
        entries_in(s, start, i) + entries_from(s, i + 1, i + 1)
    } else {
        entries_from(s, start, i + 1)
    }
}

/// The (source, mount point) pairs of the mount table `s`, in order.
pub open spec fn mount_table(s: Seq<char>) -> Seq<(Seq<char>, Seq<char>)> {
    entries_from(s, 0, 0)
}

/// Some source of `mounts` starts with `dev_file`: the device itself or one of
/// its partitions is mounted. This is a string test, so `/dev/sda` also matches
/// a source `/dev/sdaa`.
pub open spec fn mounted(dev_file: Seq<char>, mounts: Seq<MountEntry>) -> bool {
    exists|i: int| 0 <= i < mounts.len() && has_prefix(#[trigger] mounts[i].source@, dev_file)
}

fn skip_blanks_from(s: &Vec<char>, i: usize, e: usize) -> (r: usize)
    requires
        i <= e <= s@.len(),
    ensures
        r == skip_blanks(s@, i as int, e as int),
        i <= r <= e,
{
    let mut k = i;
    while k < e && blank(s[k])
        invariant
            i <= k <= e,
            e <= s@.len(),
            skip_blanks(s@, k as int, e as int) == skip_blanks(s@, i as int, e as int),
        decreases e - k,
    {
        k = k + 1;
    }
    k
}

fn field_end_from(s: &Vec<char>, i: usize, e: usize) -> (r: usize)
    requires
        i <= e <= s@.len(),
    ensures
        r == field_end(s@, i as int, e as int),
        i <= r <= e,
{
    let mut k = i;
    while k < e && !blank(s[k])
        invariant
            i <= k <= e,
            e <= s@.len(),
            field_end(s@, k as int, e as int) == field_end(s@, i as int, e as int),
        decreases e - k,
    {
        k = k + 1;
    }
    k
}

/// The entry of the line `text[i..e]`, whose characters are `s`.
fn entry_at(text: &str, s: &Vec<char>, i: usize, e: usize) -> (r: Option<MountEntry>)
    requires
        s@ == text@,
        i <= e <= s@.len(),
    ensures
        match r {
            Some(m) => entry_in(s@, i as int, e as int) == Some(m@),
            None => entry_in(s@, i as int, e as int) is None,
        },
{
    let a = skip_blanks_from(s, i, e);
    let b = field_end_from(s, a, e);
    let c = skip_blanks_from(s, b, e);
    let d = field_end_from(s, c, e);
    if a < b && c < d {
        let source = String::from_str(text.substring_char(a, b));
        let target = String::from_str(text.substring_char(c, d));
        Some(MountEntry { source, target })
    } else {
        None
    }
}

/// Parses a mount table into its (source, mount point) pairs, skipping the lines
/// that hold fewer than two fields.
pub fn parse_mounts(text: &str) -> (r: Vec<MountEntry>)
    ensures
        entry_views(r@) == mount_table(text@),
{
    let s = chars_of(text);
    let n = s.len();
    let mut out: Vec<MountEntry> = Vec::new();
    let mut start: usize = 0;
    let mut i: usize = 0;
    while i < n
        invariant
            start <= i <= n,
            n == s@.len(),
            s@ == text@,
            entry_views(out@) + entries_from(s@, start as int, i as int)
                == mount_table(s@),
        decreases n - i,
    {
        if s[i] == '\n' {
            let ghost before = entry_views(out@);
            match entry_at(text, &s, start, i) {
                Some(m) => {
                    out.push(m);
                    assert(entry_views(out@) =~= before + entries_in(
                        s@,
                        start as int,
                        i as int,
                    ));
                },
                None => {
                    assert(entries_in(s@, start as int, i as int) =~= Seq::empty());
                },
            }
            assert(before + entries_from(s@, start as int, i as int) =~= before + entries_in(
                s@,
                start as int,
                i as int,
            ) + entries_from(s@, i + 1, i + 1));
            start = i + 1;
        }
        i = i + 1;
    }
    let ghost before = entry_views(out@);
    match entry_at(text, &s, start, n) {
        Some(m) => {
            out.push(m);
            assert(entry_views(out@) =~= before + entries_in(
                s@,
                start as int,
                n as int,
            ));
        },
        None => {
            assert(entries_in(s@, start as int, n as int) =~= Seq::empty());
            assert(before + entries_in(s@, start as int, n as int) =~= before);
        },
    }
    out
}

/// Whether some source of `mounts` starts with `dev_file`.
pub fn is_mounted(dev_file: &str, mounts: &Vec<MountEntry>) -> (r: bool)
    ensures
        r == mounted(dev_file@, mounts@),
{
    let mut i: usize = 0;
    while i < mounts.len()
        invariant
            i <= mounts@.len(),
            forall|j: int| 0 <= j < i ==> !has_prefix(#[trigger] mounts@[j].source@, dev_file@),
        decreases mounts@.len() - i,
    {
        if starts_with(mounts[i].source.as_str(), dev_file) {
            return true;
        }
        i = i + 1;
    }
    false
}

} // verus!
