//! The text of directory and drive listings.
//!
//! The agent answers `ListDrives` with the drives separated by commas,
//! and `ListDir` with one field for each entry, separated by semicolons:
//!
//! ```text
//! PATH|<path>;<name>|<1 for a directory, else 0>|<size>;...
//! ```

use vstd::prelude::*;
use vstd::string::StrSliceExecFns;
use vstd::string::StringExecFns;
use crate::text::{decimal, decimal_text};
use crate::textscan::{
    begins_with, index_of, lemma_index_of_is, piece_views, pieces, split_at_char, starts_with,
};

verus! {

/// One entry of a directory as the agent lists it.
#[derive(Debug, Clone, PartialEq, Eq)]
pub struct DirEntry {
    /// Name of the file or directory.
    pub name: String,
    /// Whether the entry is a directory.
    pub is_dir: bool,
    /// Size in bytes.
    pub size: u64,
}

/// The texts of the first `n` drives, each behind a comma but the first.
pub open spec fn joined_drives(drives: Seq<String>, n: nat) -> Seq<char>
    decreases n,
{
    if n == 0 {
        Seq::empty()
    } else if n == 1 {
        drives[0]@
    } else {
        joined_drives(drives, (n - 1) as nat) + seq![','] + drives[n - 1]@
    }
}

/// The answer to `ListDrives`: the drives, separated by commas.
#[verifier::loop_isolation(false)]
pub fn drives_text(drives: &Vec<String>) -> (r: String)
    ensures
        r@ == joined_drives(drives@, drives@.len()),
{
    let mut out = String::new();
    let mut i: usize = 0;
    proof {
        reveal_strlit(",");
    }
    while i < drives.len()
        invariant
            i <= drives@.len(),
            out@ == joined_drives(drives@, i as nat),
        decreases drives@.len() - i,
    {
        if i > 0 {
            out.append(",");
            assert(","@ =~= seq![',']);
        }
        out.append(drives[i].as_str());
        assert(out@ =~= joined_drives(drives@, (i + 1) as nat));
        i += 1;
    }
    out
}

/// The drives of an answer to `ListDrives`: the pieces between the
/// commas that are not empty.
pub open spec fn drives_of(parts: Seq<Seq<char>>, n: nat) -> Seq<Seq<char>>
    decreases n,
{
    if n == 0 {
        Seq::empty()
    } else if parts[n - 1].len() == 0 {
        drives_of(parts, (n - 1) as nat)
    } else {
        drives_of(parts, (n - 1) as nat).push(parts[n - 1])
    }
}

/// Reads the drives from an answer to `ListDrives`.
pub fn drive_names<'a>(data: &'a str) -> (r: Vec<&'a str>)
    ensures
        piece_views(r@) == drives_of(pieces(data@, ','), pieces(data@, ',').len()),
{
    let parts = split_at_char(data, ',');
    let mut out: Vec<&'a str> = Vec::new();
    let mut i: usize = 0;
    while i < parts.len()
        invariant
            i <= parts@.len(),
            piece_views(parts@) == pieces(data@, ','),
            piece_views(out@) == drives_of(pieces(data@, ','), i as nat),
        decreases parts@.len() - i,
    {
        let p = parts[i];
        assert(piece_views(parts@)[i as int] == p@);
        if p.unicode_len() > 0 {
            let ghost before = piece_views(out@);
            out.push(p);
            assert(piece_views(out@) =~= before.push(p@));
        }
        i += 1;
    }
    out
}

/// The field of one entry: name, directory flag and size.
pub open spec fn entry_text(e: DirEntry) -> Seq<char> {
    e.name@ + seq!['|'] + (if e.is_dir {
        seq!['1']
    } else {
        seq!['0']
    }) + seq!['|'] + decimal_text(e.size as nat)
}

/// The fields of the first `n` entries, each behind a semicolon.
pub open spec fn entries_text(entries: Seq<DirEntry>, n: nat) -> Seq<char>
    decreases n,
{
    if n == 0 {
        Seq::empty()
    } else {
        entries_text(entries, (n - 1) as nat) + seq![';'] + entry_text(entries[n - 1])
    }
}

/// The answer to `ListDir`: the path, then the entries.
pub open spec fn listing_of(path: Seq<char>, entries: Seq<DirEntry>) -> Seq<char> {
    "PATH|"@ + path + entries_text(entries, entries.len())
}

/// The answer to `ListDir` for a directory and its entries.
#[verifier::loop_isolation(false)]
pub fn listing_text(path: &str, entries: &Vec<DirEntry>) -> (r: String)
    ensures
        r@ == listing_of(path@, entries@),
{
    let mut out = String::from_str("PATH|");
    out.append(path);
    proof {
        reveal_strlit(";");
        reveal_strlit("|");
        reveal_strlit("1");
        reveal_strlit("0");
    }
    let mut i: usize = 0;
    while i < entries.len()
        invariant
            i <= entries@.len(),
            out@ == "PATH|"@ + path@ + entries_text(entries@, i as nat),
        decreases entries@.len() - i,
    {
        let ghost before = out@;
        out.append(";");
        out.append(entries[i].name.as_str());
        out.append("|");
        if entries[i].is_dir {
            out.append("1");
            assert("1"@ =~= seq!['1']);
        } else {
            out.append("0");
            assert("0"@ =~= seq!['0']);
        }
        out.append("|");
        let size = decimal(entries[i].size);
        out.append(size.as_str());
        assert(";"@ =~= seq![';']);
        assert("|"@ =~= seq!['|']);
        assert(out@ =~= before + seq![';'] + entry_text(entries@[i as int]));
        assert(out@ =~= "PATH|"@ + path@ + entries_text(entries@, (i + 1) as nat));
        i += 1;
    }
    out
}

/// What the controller reads from one field of a listing: the name and
/// whether it is a directory. A field is read when it is not empty and
/// holds a `|`.
pub open spec fn field_entry(field: Seq<char>) -> Option<(Seq<char>, bool)> {
    let parts = pieces(field, '|');
    if field.len() > 0 && parts.len() >= 2 {
        Some((parts[0], parts[1] == seq!['1']))
    } else {
        None
    }
}

/// The entries that the fields `from..to` give, in order.
pub open spec fn fields_entries(fields: Seq<Seq<char>>, from: int, to: int) -> Seq<
    (Seq<char>, bool),
>
    decreases to - from,
{
    if to <= from {
        Seq::empty()
    } else {
        match field_entry(fields[to - 1]) {
            Some(e) => fields_entries(fields, from, to - 1).push(e),
            None => fields_entries(fields, from, to - 1),
        }
    }
}

/// The path that a listing names: what follows `PATH|` in its first
/// field, or nothing when the first field is no path.
pub open spec fn listed_path(data: Seq<char>) -> Seq<char> {
    let fields = pieces(data, ';');
    if begins_with(fields[0], "PATH|"@) {
        fields[0].skip(5)
    } else {
        Seq::empty()
    }
}

/// The entries of a listing: the fields behind the path field.
pub open spec fn listed_entries(data: Seq<char>) -> Seq<(Seq<char>, bool)> {
    let fields = pieces(data, ';');
    let start: int = if begins_with(fields[0], "PATH|"@) {
        1
    } else {
        0
    };
    fields_entries(fields, start, fields.len() as int)
}

/// The views of the entries of a list.
pub open spec fn entry_views(entries: Seq<(&str, bool)>) -> Seq<(Seq<char>, bool)> {
    Seq::new(entries.len(), |i: int| (entries[i].0@, entries[i].1))
}

/// Reads an answer to `ListDir`: the path that it names (empty when it
/// names none) and the name and directory flag of each entry.
#[verifier::loop_isolation(false)]
pub fn parse_listing<'a>(data: &'a str) -> (r: (&'a str, Vec<(&'a str, bool)>))
    ensures
        r.0@ == listed_path(data@),
        entry_views(r.1@) == listed_entries(data@),
{
    let fields = split_at_char(data, ';');
    let first = fields[0];
    assert(piece_views(fields@)[0] == first@);
    proof {
        reveal_strlit("PATH|");
        reveal_strlit("");
        reveal_strlit("1");
    }
    let has_path = starts_with(first, "PATH|");
    let path: &'a str = if has_path {
        let n = first.unicode_len();
        let p = first.substring_char(5, n);
        assert(first@.subrange(5, n as int) =~= first@.skip(5));
        p
    } else {
        let p = first.substring_char(0, 0);
        assert(first@.subrange(0, 0) =~= Seq::<char>::empty());
        p
    };
    let start: usize = if has_path {
        1
    } else {
        0
    };
    let mut out: Vec<(&'a str, bool)> = Vec::new();
    let mut i: usize = start;
    while i < fields.len()
        invariant
            start <= i <= fields@.len(),
            piece_views(fields@) == pieces(data@, ';'),
            entry_views(out@) == fields_entries(pieces(data@, ';'), start as int, i as int),
        decreases fields@.len() - i,
    {
        let field = fields[i];
        assert(piece_views(fields@)[i as int] == field@);
        if field.unicode_len() > 0 {
            let parts = split_at_char(field, '|');
            if parts.len() >= 2 {
                let name = parts[0];
                let flag = parts[1];
                assert(piece_views(parts@)[0] == name@);
                assert(piece_views(parts@)[1] == flag@);
                let is_dir = flag.unicode_len() == 1 && flag.get_char(0) == '1';
                assert(is_dir == (flag@ == seq!['1'])) by {
                    if is_dir {
                        assert(flag@ =~= seq!['1']);
                    }
                }
                let ghost before = entry_views(out@);
                out.push((name, is_dir));
                assert(entry_views(out@) =~= before.push((name@, is_dir)));
            }
        }
        i += 1;
    }
    (path, out)
}

} // verus!
