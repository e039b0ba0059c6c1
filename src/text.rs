use vstd::prelude::*;

verus! {

/// The texts of a list of strings.
pub open spec fn names_of(v: Seq<String>) -> Seq<Seq<char>> {
    v.map_values(|s: String| s@)
}

/// Each text between double quotes, separated by ", ", the whole between
/// brackets: `["a", "b"]`.
pub open spec fn quoted_list(items: Seq<Seq<char>>) -> Seq<char> {
    seq!['['] + quoted_items(items) + seq![']']
}

pub open spec fn quoted_items(items: Seq<Seq<char>>) -> Seq<char>
    decreases items.len(),
{
    if items.len() == 0 {
        Seq::empty()
    } else if items.len() == 1 {
        seq!['"'] + items[0] + seq!['"']
    } else {
        quoted_items(items.drop_last()) + seq![',', ' ', '"'] + items.last() + seq!['"']
    }
}

/// Renders a list of texts as `quoted_list` describes.
pub fn render_quoted_list(items: &Vec<String>) -> (r: String)
    ensures
        r@ == quoted_list(names_of(items@)),
{
    let mut r = String::new();
    let mut i: usize = 0;
    while i < items.len()
        invariant
            i <= items@.len(),
            r@ == quoted_items(names_of(items@).take(i as int)),
        decreases items@.len() - i,
    {
        proof {
            reveal_strlit("\"");
            reveal_strlit(", \"");
            let next = names_of(items@).take(i as int + 1);
            assert(next.drop_last() =~= names_of(items@).take(i as int));
            assert(next.last() == items@[i as int]@);
        }
        if i == 0 {
            r.append("\"");
        } else {
            r.append(", \"");
        }
        r.append(items[i].as_str());
        r.append("\"");
        proof {
            let next = names_of(items@).take(i as int + 1);
            if i == 0 {
                assert(next[0] == items@[0]@);
            }
            assert(r@ =~= quoted_items(next));
        }
        i = i + 1;
    }
    assert(names_of(items@).take(i as int) =~= names_of(items@));
    let mut out = String::new();
    out.append("[");
    out.append(r.as_str());
    out.append("]");
    proof {
        reveal_strlit("[");
        reveal_strlit("]");
        assert(out@ =~= quoted_list(names_of(items@)));
    }
    out
}

} // verus!
