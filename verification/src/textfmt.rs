use vstd::prelude::*;
use vstd::string::StrSliceExecFns;
use vstd::string::StringExecFns;

verus! {

/// Whether `p` is a prefix of `s`.
pub open spec fn starts_with(s: Seq<char>, p: Seq<char>) -> bool {
    p.len() <= s.len() && s.subrange(0, p.len() as int) == p
}

/// Checks whether `s` begins with the tag `tag`.
pub fn starts_with_tag(s: &str, tag: &str) -> (b: bool)
    ensures
        b == starts_with(s@, tag@),
{
    let tl = tag.unicode_len();
    let sl = s.unicode_len();
    if tl > sl {
        proof {
            assert(!starts_with(s@, tag@));
        }
        return false;
    }
    let mut i: usize = 0;
    while i < tl
        invariant
            0 <= i <= tl,
            tl == tag@.len(),
            sl == s@.len(),
            tl <= sl,
            forall|j: int| 0 <= j < i ==> s@[j] == tag@[j],
        decreases tl - i,
    {
        if s.get_char(i) != tag.get_char(i) {
            proof {
                assert(s@.subrange(0, tl as int)[i as int] != tag@[i as int]);
            }
            return false;
        }
        i = i + 1;
    }
    proof {
        assert(s@.subrange(0, tl as int) =~= tag@);
    }
    true
}

/// The elements joined with a comma and a space between each pair.
pub open spec fn join_comma(elems: Seq<Seq<char>>) -> Seq<char>
    decreases elems.len(),
{
    if elems.len() == 0 {
        Seq::empty()
    } else if elems.len() == 1 {
        elems[0]
    } else {
        join_comma(elems.drop_last()) + ", "@ + elems.last()
    }
}

/// The elements joined with commas and enclosed in square brackets: the
/// display form of an ordered collection.
pub open spec fn bracketed(elems: Seq<Seq<char>>) -> Seq<char> {
    "["@ + join_comma(elems) + "]"@
}

/// Joins the given parts into a bracketed, comma-separated list.
pub fn bracket_join(parts: &Vec<String>) -> (r: String)
    ensures
        r@ == bracketed(parts.deep_view()),
{
    let mut s = String::new();
    s.append("[");
    let mut i: usize = 0;
    while i < parts.len()
        invariant
            0 <= i <= parts.len(),
            s@ == "["@ + join_comma(parts.deep_view().subrange(0, i as int)),
        decreases parts.len() - i,
    {
        if i > 0 {
            s.append(", ");
        }
        s.append(parts[i].as_str());
        proof {
            let dv = parts.deep_view();
            let pre = dv.subrange(0, i as int);
            let cur = dv.subrange(0, i + 1);
            assert(cur.drop_last() =~= pre);
            assert(cur.last() == dv[i as int]);
            if i == 0 {
                assert(join_comma(pre) == Seq::<char>::empty());
                assert(s@ =~= "["@ + join_comma(cur));
            } else {
                assert(s@ =~= "["@ + (join_comma(pre) + ", "@ + dv[i as int]));
            }
        }
        i = i + 1;
    }
    proof {
        assert(parts.deep_view().subrange(0, parts.len() as int) =~= parts.deep_view());
    }
    s.append("]");
    s
}

} // verus!
