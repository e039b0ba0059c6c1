use crate::name_map::NameMap;
use crate::types::Stack;
use vstd::prelude::*;
use vstd::string::*;

verus! {

/// The first `i` characters of `id` name a known stack, and end either the
/// identifier or one of its dot-separated segments.
pub open spec fn stack_ends_at(id: Seq<char>, names: Set<Seq<char>>, i: int) -> bool {
    &&& 0 <= i <= id.len()
    &&& (i == id.len() || id[i] == '.')
    &&& names.contains(id.subrange(0, i))
}

/// `i` is the longest such stack prefix.
pub open spec fn longest_stack_end(id: Seq<char>, names: Set<Seq<char>>, i: int) -> bool {
    &&& stack_ends_at(id, names, i)
    &&& forall|j: int| i < j <= id.len() ==> !stack_ends_at(id, names, j)
}

/// Splits an identifier into a stack name and an optional override name: the
/// longest run of leading segments that names a stack is the stack, and the
/// remaining segments, joined by '.', are the override. With no such run the
/// whole identifier is the stack name.
pub open spec fn resolve_identifier(id: Seq<char>, names: Set<Seq<char>>) -> (
    Seq<char>,
    Option<Seq<char>>,
) {
    if exists|i: int| longest_stack_end(id, names, i) {
        let i = choose|i: int| longest_stack_end(id, names, i);
        if i == id.len() {
            (id, None)
        } else {
            (id.subrange(0, i), Some(id.subrange(i + 1, id.len() as int)))
        }
    } else {
        (id, None)
    }
}

pub open spec fn opt_text(o: Option<String>) -> Option<Seq<char>> {
    match o {
        Some(s) => Some(s@),
        None => None,
    }
}

/// Splits `input` into (stack name, override name) against the known stacks.
pub fn extract_override(input: &str, stacks: &NameMap<Stack>) -> (r: (String, Option<String>))
    ensures
        (r.0@, opt_text(r.1)) == resolve_identifier(input@, stacks@.dom()),
{
    let ghost id = input@;
    let ghost names = stacks@.dom();
    let n = input.unicode_len();
    let mut end: usize = n;
    loop
        invariant
            end <= n,
            n == id.len(),
            id == input@,
            names == stacks@.dom(),
            forall|j: int| end < j <= n ==> !stack_ends_at(id, names, j),
        decreases end,
    {
        let at_boundary = end == n || input.get_char(end) == '.';
        if at_boundary {
            let prefix = input.substring_char(0, end);
            if stacks.contains_key(prefix) {
                proof {
                    assert(longest_stack_end(id, names, end as int));
                    let c = choose|i: int| longest_stack_end(id, names, i);
                    assert(c == end as int);
                }
                if end == n {
                    return (input.to_owned(), None);
                } else {
                    let rest = input.substring_char(end + 1, n);
                    return (prefix.to_owned(), Some(rest.to_owned()));
                }
            }
        }
        if end == 0 {
            proof {
                assert(!stack_ends_at(id, names, 0));
                assert forall|i: int| !longest_stack_end(id, names, i) by {
                    if 0 <= i <= n {
                        assert(!stack_ends_at(id, names, i));
                    }
                }
            }
            return (input.to_owned(), None);
        }
        end = end - 1;
    }
}

} // verus!
