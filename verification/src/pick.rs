//! Parsing the interactive selection the pick UI reads: a comma-separated
//! list of one-based indices and dash ranges, such as `1,3,5` or `1-5`.

use vstd::prelude::*;

use crate::text::contains_char;
use crate::text::parse_usize;
use crate::text::spec_parse_usize;
use crate::text::spec_split;
use crate::text::spec_trim;
use crate::text::split_at_char;
use crate::text::trim;

verus! {

/// The indices one comma-separated segment selects, out of `1..=max`:
/// - a segment with a dash is a range; it counts only when it has exactly
///   two pieces and both parse as numbers, and it is clipped to `1` below
///   and `max` above;
/// - any other segment counts when it parses as a number within bounds;
/// - anything else selects nothing.
pub open spec fn spec_part_selection(part: Seq<char>, max: int) -> Set<int> {
    let t = spec_trim(part);
    if t.contains('-') {
        let pieces = spec_split(t, '-');
        if pieces.len() == 2 {
            match (spec_parse_usize(pieces[0]), spec_parse_usize(pieces[1])) {
                (Option::Some(a), Option::Some(b)) => Set::new(
                    |i: int|
                        (if a < 1 {
                            1int
                        } else {
                            a
                        }) <= i <= (if b < max {
                            b
                        } else {
                            max
                        }),
                ),
                _ => Set::empty(),
            }
        } else {
            Set::empty()
        }
    } else {
        match spec_parse_usize(t) {
            Option::Some(v) => if 1 <= v <= max {
                set![v]
            } else {
                Set::empty()
            },
            _ => Set::empty(),
        }
    }
}

/// The indices a sequence of segments selects together.
pub open spec fn spec_selection_of(parts: Seq<Seq<char>>, max: int) -> Set<int>
    decreases parts.len(),
{
    if parts.len() == 0 {
        Set::empty()
    } else {
        spec_part_selection(parts.first(), max).union(
            spec_selection_of(parts.drop_first(), max),
        )
    }
}

/// The indices a whole selection line selects, out of `1..=max`.
pub open spec fn spec_selection(input: Seq<char>, max: int) -> Set<int> {
    spec_selection_of(spec_split(input, ','), max)
}

/// Whether a list of indices holds the given one.
fn indices_contain(v: &Vec<usize>, x: usize) -> (r: bool)
    ensures
        r == v@.contains(x),
{
    let n = v.len();
    let mut i: usize = 0;
    while i < n
        invariant
            n == v@.len(),
            i <= n,
            forall|j: int| 0 <= j < i ==> v@[j] != x,
        decreases n - i,
    {
        if v[i] == x {
            return true;
        }
        i += 1;
    }
    false
}

/// Sort a list of indices, keeping exactly its elements.
fn sort_indices(v: Vec<usize>) -> (r: Vec<usize>)
    ensures
        forall|i: int, j: int| 0 <= i < j < r@.len() ==> r@[i] <= r@[j],
        r@.to_multiset() == v@.to_multiset(),
{
    broadcast use vstd::seq_lib::group_to_multiset_ensures;

    let mut rest = v;
    let mut out: Vec<usize> = Vec::new();
    #[verifier::loop_isolation(false)]
    while rest.len() > 0
        invariant
            forall|i: int, j: int| 0 <= i < j < out@.len() ==> out@[i] <= out@[j],
            forall|i: int, j: int|
                0 <= i < out@.len() && 0 <= j < rest@.len() ==> out@[i] <= rest@[j],
            out@.to_multiset().add(rest@.to_multiset()) == v@.to_multiset(),
        decreases rest@.len(),
    {
        let n = rest.len();
        let mut m: usize = 0;
        let mut i: usize = 1;
        while i < n
            invariant
                n == rest@.len(),
                m < i <= n,
                forall|j: int| 0 <= j < i ==> rest@[m as int] <= rest@[j],
            decreases n - i,
        {
            if rest[i] < rest[m] {
                m = i;
            }
            i += 1;
        }
        let ghost old_rest = rest@;
        let ghost old_out = out@;
        let x = rest.remove(m);
        out.push(x);
        proof {
            assert(rest@.to_multiset() =~= old_rest.to_multiset().remove(x));
            assert(out@.to_multiset() =~= old_out.to_multiset().insert(x));
            assert(out@.to_multiset().add(rest@.to_multiset()) =~= v@.to_multiset());
            assert(forall|j: int|
                0 <= j < rest@.len() ==> x <= #[trigger] rest@[j]) by {
                assert(forall|j: int|
                    0 <= j < rest@.len() ==> rest@[j] == old_rest.remove(m as int)[j]);
            }
        }
    }
    out
}

/// Parse a selection line against a list of `max_index` items: the result
/// holds, in increasing order and once each, exactly the indices the line
/// selects out of `1..=max_index`.
pub fn parse_selection(input: &str, max_index: usize) -> (r: Vec<usize>)
    ensures
        forall|i: int, j: int| 0 <= i < j < r@.len() ==> r@[i] < r@[j],
        forall|x: usize|
            r@.contains(x) <==> spec_selection(input@, max_index as int).contains(x as int),
{
    broadcast use vstd::seq_lib::lemma_seq_contains_after_push;

    let parts = split_at_char(input, ',');
    let ghost parts_model = parts@.map_values(|p: String| p@);
    let mut selected: Vec<usize> = Vec::new();
    let np = parts.len();
    let mut p: usize = 0;
    #[verifier::loop_isolation(false)]
    while p < np
        invariant
            p <= np,
            selected@.no_duplicates(),
            forall|x: usize| #[trigger] selected@.contains(x) ==> 1 <= x <= max_index,
            forall|x: usize|
                selected@.contains(x) <==> spec_selection_of(
                    parts_model.take(p as int),
                    max_index as int,
                ).contains(x as int),
        decreases np - p,
    {
        let ghost before = selected@;
        let t = trim(parts[p].as_str());
        let ghost part_set = spec_part_selection(parts_model[p as int], max_index as int);
        proof {
            assert(parts_model[p as int] == parts@[p as int]@);
        }
        if contains_char(t.as_str(), '-') {
            let pieces = split_at_char(t.as_str(), '-');
            if pieces.len() == 2 {
                let a = parse_usize(pieces[0].as_str());
                let b = parse_usize(pieces[1].as_str());
                if a.is_some() && b.is_some() {
                    let av = a.unwrap();
                    let bv = b.unwrap();
                    let start: usize = if av < 1 {
                        1
                    } else {
                        av
                    };
                    let end: usize = if bv < max_index {
                        bv
                    } else {
                        max_index
                    };
                    proof {
                        assert(pieces@.map_values(|q: String| q@)[0] == pieces@[0]@);
                        assert(pieces@.map_values(|q: String| q@)[1] == pieces@[1]@);
                        assert(part_set =~= Set::new(
                            |i: int| start as int <= i <= end as int,
                        ));
                    }
                    if start <= end {
                        let count = end - start + 1;
                        let mut off: usize = 0;
                        while off < count
                            invariant
                                count == end - start + 1,
                                1 <= start,
                                end <= max_index,
                                off <= count,
                                selected@.no_duplicates(),
                                forall|x: usize| #[trigger]
                                    selected@.contains(x) ==> 1 <= x <= max_index,
                                forall|x: usize|
                                    (#[trigger] selected@.contains(x)) <==> (before.contains(x)
                                        || (start <= x && x - start < off)),
                            decreases count - off,
                        {
                            let k = start + off;
                            let ghost pre = selected@;
                            if !indices_contain(&selected, k) {
                                selected.push(k);
                                proof {
                                    assert forall|x: usize|
                                        #[trigger] selected@.contains(x) <==> pre.contains(x) || x
                                            == k by {
                                        assert(selected@ == pre.push(k));
                                        vstd::seq_lib::lemma_seq_contains_after_push(pre, k, x);
                                    }
                                    assert(selected@.no_duplicates()) by {
                                        assert(forall|i: int|
                                            0 <= i < pre.len() ==> selected@[i] == pre[i]);
                                        assert(selected@.last() == k);
                                        assert(forall|i: int|
                                            0 <= i < pre.len() ==> pre[i] != k) by {
                                            assert(forall|i: int|
                                                0 <= i < pre.len() ==> pre.contains(#[trigger] pre[i]));
                                        }
                                    }
                                }
                            }
                            off += 1;
                        }
                    }
                }
            }
        } else {
            match parse_usize(t.as_str()) {
                Option::Some(v) => {
                    if 1 <= v && v <= max_index {
                        let ghost pre = selected@;
                        if !indices_contain(&selected, v) {
                            selected.push(v);
                            proof {
                                assert forall|x: usize|
                                    #[trigger] selected@.contains(x) <==> pre.contains(x) || x
                                        == v by {
                                    assert(selected@ == pre.push(v));
                                    vstd::seq_lib::lemma_seq_contains_after_push(pre, v, x);
                                }
                                assert(selected@.no_duplicates()) by {
                                    assert(forall|i: int|
                                        0 <= i < pre.len() ==> selected@[i] == pre[i]);
                                    assert(selected@.last() == v);
                                    assert(forall|i: int| 0 <= i < pre.len() ==> pre[i] != v) by {
                                        assert(forall|i: int|
                                            0 <= i < pre.len() ==> pre.contains(#[trigger] pre[i]));
                                    }
                                }
                            }
                        }
                    }
                },
                Option::None => {},
            }
        }
        proof {
            assert(parts_model.take(p + 1) =~= parts_model.take(p as int).push(
                parts_model[p as int],
            ));
            lemma_selection_of_push(
                parts_model.take(p as int),
                parts_model[p as int],
                max_index as int,
            );
        }
        p += 1;
    }
    proof {
        assert(parts_model.take(np as int) =~= parts_model);
    }
    let ghost sel = selected@;
    let r = sort_indices(selected);
    proof {
        broadcast use vstd::seq_lib::group_to_multiset_ensures;

        assert forall|x: usize| r@.contains(x) <==> sel.contains(x) by {
            assert(r@.contains(x) <==> r@.to_multiset().count(x) > 0);
            assert(sel.contains(x) <==> sel.to_multiset().count(x) > 0);
        }
        sel.lemma_multiset_has_no_duplicates();
        r@.lemma_multiset_has_no_duplicates_conv();
        assert(forall|i: int, j: int| 0 <= i < j < r@.len() ==> r@[i] < r@[j]) by {
            assert(r@.no_duplicates());
            assert(forall|i: int, j: int| 0 <= i < j < r@.len() ==> r@[i] <= r@[j]);
        }
        assert(spec_split(input@, ',') == parts_model);
        assert forall|x: usize|
            r@.contains(x) <==> spec_selection(input@, max_index as int).contains(x as int) by {
            assert(sel.contains(x) <==> spec_selection_of(
                parts_model.take(np as int),
                max_index as int,
            ).contains(x as int));
        }
    }
    r
}

/// Appending one segment adds exactly its selection.
proof fn lemma_selection_of_push(parts: Seq<Seq<char>>, part: Seq<char>, max: int)
    ensures
        spec_selection_of(parts.push(part), max) == spec_selection_of(parts, max).union(
            spec_part_selection(part, max),
        ),
    decreases parts.len(),
{
    if parts.len() == 0 {
        assert(parts.push(part).drop_first() =~= Seq::<Seq<char>>::empty());
        assert(parts.push(part).first() == part);
        assert(spec_selection_of(Seq::<Seq<char>>::empty(), max) == Set::<int>::empty());
        assert(spec_selection_of(parts.push(part), max) == spec_part_selection(part, max).union(
            Set::<int>::empty(),
        ));
        assert(spec_selection_of(parts, max) == Set::<int>::empty());
        assert(spec_part_selection(part, max).union(Set::<int>::empty()) =~= Set::<int>::empty().union(
            spec_part_selection(part, max),
        ));
    } else {
        assert(parts.push(part).first() == parts.first());
        assert(parts.push(part).drop_first() =~= parts.drop_first().push(part));
        lemma_selection_of_push(parts.drop_first(), part, max);
        assert(spec_selection_of(parts.push(part), max) =~= spec_selection_of(parts, max).union(
            spec_part_selection(part, max),
        ));
    }
}

} // verus!
