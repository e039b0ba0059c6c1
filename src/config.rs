use crate::error::ShoalError;
use crate::name_map::{has_key, map_of, NameMap};
use crate::text::names_of;
use crate::traits::FileSystem;
use vstd::prelude::*;
use vstd::string::*;

verus! {

/// The names whose record replaced an earlier record of the same name, in
/// the order in which the replacing records come.
pub open spec fn replaced_names<T>(records: Seq<(String, T)>) -> Seq<Seq<char>>
    decreases records.len(),
{
    if records.len() == 0 {
        Seq::empty()
    } else {
        let rest = replaced_names(records.drop_last());
        if has_key(records.drop_last(), records.last().0@) {
            rest.push(records.last().0@)
        } else {
            rest
        }
    }
}

/// Gathers named records given in precedence order, lowest first (the
/// global scope before the local one): a later record replaces an earlier
/// record of the same name. Also returns the names that were replaced, so
/// that each collision can be reported.
pub fn collect_by_name<T>(records: Vec<(String, T)>) -> (r: (NameMap<T>, Vec<String>))
    ensures
        r.0@ == map_of(records@),
        names_of(r.1@) == replaced_names(records@),
{
    let ghost all = records@;
    let n = records.len();
    let mut rest = records;
    let mut items: NameMap<T> = NameMap::new();
    let mut replaced: Vec<String> = Vec::new();
    let mut i: usize = 0;
    while rest.len() > 0
        invariant
            i <= all.len(),
            all.len() == n,
            rest@ == all.subrange(i as int, all.len() as int),
            items@ == map_of(all.take(i as int)),
            names_of(replaced@) == replaced_names(all.take(i as int)),
        decreases rest@.len(),
    {
        let (name, item) = rest.remove(0);
        proof {
            assert(all[i as int] == (name, item));
            let next = all.take(i as int + 1);
            assert(next.drop_last() =~= all.take(i as int));
            assert(next.last() == all[i as int]);
            crate::name_map::lemma_map_of_dom(all.take(i as int), name@);
        }
        if items.contains_key(name.as_str()) {
            let ghost before = replaced@;
            replaced.push(name.clone());
            assert(names_of(replaced@) =~= names_of(before).push(name@));
        }
        items.insert(name, item);
        i = i + 1;
        assert(rest@ =~= all.subrange(i as int, all.len() as int));
    }
    assert(all.take(i as int) =~= all);
    (items, replaced)
}

/// The position just after the last `c` in `s` before `end`, or 0 when there
/// is none.
pub open spec fn after_last(s: Seq<char>, c: char, end: int) -> int
    decreases end,
{
    if end <= 0 {
        0
    } else if s[end - 1] == c {
        end
    } else {
        after_last(s, c, end - 1)
    }
}

/// The extension of a path: the text after the last '.' of its last
/// '/'-separated part, when that '.' is not the part's first character.
pub open spec fn extension_of(path: Seq<char>) -> Option<Seq<char>> {
    let start = after_last(path, '/', path.len() as int);
    let dot = after_last(path, '.', path.len() as int);
    if dot > start + 1 {
        Some(path.subrange(dot, path.len() as int))
    } else {
        None
    }
}

/// Configuration files are the ".yaml" and ".yml" files.
pub open spec fn is_yaml_path(path: Seq<char>) -> bool {
    extension_of(path) == Some("yaml"@) || extension_of(path) == Some("yml"@)
}

proof fn lemma_after_last_range(s: Seq<char>, c: char, end: int)
    requires
        0 <= end <= s.len(),
    ensures
        0 <= after_last(s, c, end) <= end,
    decreases end,
{
    if end > 0 && s[end - 1] != c {
        lemma_after_last_range(s, c, end - 1);
    }
}

fn find_after_last(s: &str, c: char, n: usize) -> (r: usize)
    requires
        n == s@.len(),
    ensures
        r == after_last(s@, c, n as int),
{
    let mut end: usize = n;
    while end > 0
        invariant
            end <= n,
            n == s@.len(),
            after_last(s@, c, end as int) == after_last(s@, c, n as int),
        decreases end,
    {
        if s.get_char(end - 1) == c {
            return end;
        }
        end = end - 1;
    }
    0
}

fn same_text(a: &str, b: &str) -> (r: bool)
    ensures
        r == (a@ == b@),
{
    let x = a.to_owned();
    let y = b.to_owned();
    x == y
}

/// Whether a path names a configuration file.
pub fn is_yaml_file(path: &str) -> (r: bool)
    ensures
        r == is_yaml_path(path@),
{
    let n = path.unicode_len();
    let start = find_after_last(path, '/', n);
    let dot = find_after_last(path, '.', n);
    proof {
        lemma_after_last_range(path@, '/', n as int);
        lemma_after_last_range(path@, '.', n as int);
    }
    if dot > start && dot - start > 1 {
        let ext = path.substring_char(dot, n);
        same_text(ext, "yaml") || same_text(ext, "yml")
    } else {
        false
    }
}

/// The configuration files of a directory with their contents, and, apart,
/// the files that could not be read with the reason.
pub fn read_yaml_files_in_directory<FS: FileSystem>(file_system: &FS, path: &str) -> (r: Result<
    (Vec<(String, String)>, Vec<(String, String)>),
    ShoalError,
>)
    ensures
        r matches Ok((read, skipped)) ==> (forall|i: int|
            0 <= i < read@.len() ==> is_yaml_path(#[trigger] read@[i].0@)) && (forall|i: int|
            0 <= i < skipped@.len() ==> is_yaml_path(#[trigger] skipped@[i].0@)),
        r matches Err(e) ==> e is Io,
{
    let entries = match file_system.read_dir(path) {
        Ok(entries) => entries,
        Err(message) => {
            return Err(ShoalError::Io { message });
        },
    };
    let mut read: Vec<(String, String)> = Vec::new();
    let mut skipped: Vec<(String, String)> = Vec::new();
    let mut i: usize = 0;
    while i < entries.len()
        invariant
            i <= entries@.len(),
            forall|j: int| 0 <= j < read@.len() ==> is_yaml_path(#[trigger] read@[j].0@),
            forall|j: int| 0 <= j < skipped@.len() ==> is_yaml_path(#[trigger] skipped@[j].0@),
        decreases entries@.len() - i,
    {
        let file_path = &entries[i];
        if is_yaml_file(file_path.as_str()) {
            match file_system.read_file(file_path.as_str()) {
                Ok(contents) => {
                    read.push((file_path.clone(), contents));
                },
                Err(reason) => {
                    skipped.push((file_path.clone(), reason));
                },
            }
        }
        i = i + 1;
    }
    Ok((read, skipped))
}

} // verus!
