use vstd::prelude::*;
use vstd::string::StringExecFns;

verus! {

/// The character sequences of a sequence of strings.
pub open spec fn string_views(s: Seq<String>) -> Seq<Seq<char>> {
    s.map_values(|x: String| x@)
}

/// Joining with one separator throughout.
pub open spec fn join_plain_spec(items: Seq<Seq<char>>, sep: Seq<char>) -> Seq<char>
    decreases items.len(),
{
    if items.len() == 0 {
        Seq::empty()
    } else if items.len() == 1 {
        items[0]
    } else {
        join_plain_spec(items.drop_last(), sep) + sep + items.last()
    }
}

/// Joining as a natural-language list: `sep` between all elements except
/// that `last_sep` stands before the final one.
pub open spec fn join_with_spec(
    items: Seq<Seq<char>>,
    sep: Seq<char>,
    last_sep: Seq<char>,
) -> Seq<char> {
    if items.len() <= 1 {
        join_plain_spec(items, sep)
    } else {
        join_plain_spec(items.drop_last(), sep) + last_sep + items.last()
    }
}

/// Render a list of strings as a natural-language enumeration, with `sep`
/// between the elements and `last_sep` before the final one
/// ("x, y or z" for `sep` ", " and `last_sep` " or ").
pub fn join_with(items: &Vec<String>, sep: &str, last_sep: &str) -> (r: String)
    ensures
        r@ == join_with_spec(string_views(items@), sep@, last_sep@),
{
    let n = items.len();
    let mut r = String::new();
    if n == 0 {
        return r;
    }
    let mut i: usize = 0;
    while i < n
        invariant
            n == items@.len(),
            0 <= i <= n,
            i == 0 ==> r@ == Seq::<char>::empty(),
            0 < i < n ==> r@ == join_plain_spec(string_views(items@).take(i as int), sep@),
            i == n ==> r@ == join_with_spec(string_views(items@), sep@, last_sep@),
        decreases n - i,
    {
        if i > 0 {
            if i + 1 == n {
                r.append(last_sep);
            } else {
                r.append(sep);
            }
        }
        r.append(items[i].as_str());
        proof {
            let vs = string_views(items@);
            assert(vs.take(i + 1 as int).drop_last() =~= vs.take(i as int));
            assert(vs.take(i + 1 as int).last() == vs[i as int]);
            if i + 1 == n {
                assert(vs.take(n as int) =~= vs);
                if n == 1 {
                    assert(r@ == join_plain_spec(vs, sep@));
                } else {
                    assert(r@ == join_plain_spec(vs.drop_last(), sep@) + last_sep@ + vs.last());
                }
            } else if i == 0 {
                assert(r@ == vs[0]);
                assert(join_plain_spec(vs.take(1), sep@) == vs.take(1)[0]);
            }
        }
        i = i + 1;
    }
    r
}

/// Whether some string in `v` has the same characters as `s`.
pub fn contains_string(v: &Vec<String>, s: &String) -> (r: bool)
    ensures
        r == string_views(v@).contains(s@),
{
    let mut i: usize = 0;
    while i < v.len()
        invariant
            0 <= i <= v@.len(),
            forall|k: int| 0 <= k < i ==> string_views(v@)[k] != s@,
        decreases v@.len() - i,
    {
        if v[i] == *s {
            assert(string_views(v@)[i as int] == s@);
            return true;
        }
        i = i + 1;
    }
    assert(forall|k: int| 0 <= k < v@.len() ==> string_views(v@)[k] != s@);
    false
}

/// The subsequence of `s` that keeps the first occurrence of every element
/// and drops later repetitions.
pub open spec fn dedup_first<A>(s: Seq<A>) -> Seq<A>
    decreases s.len(),
{
    if s.len() == 0 {
        Seq::empty()
    } else {
        let d = dedup_first(s.drop_last());
        if d.contains(s.last()) {
            d
        } else {
            d.push(s.last())
        }
    }
}

/// Deduplication keeps exactly the elements of the input.
pub proof fn lemma_dedup_first_contains<A>(s: Seq<A>, x: A)
    ensures
        dedup_first(s).contains(x) <==> s.contains(x),
    decreases s.len(),
{
    if s.len() > 0 {
        lemma_dedup_first_contains(s.drop_last(), x);
        if s.contains(x) {
            if x == s.last() {
                if !dedup_first(s.drop_last()).contains(x) {
                    assert(dedup_first(s) == dedup_first(s.drop_last()).push(x));
                    assert(dedup_first(s).last() == x);
                    assert(dedup_first(s).contains(x));
                }
            } else {
                let k = choose|k: int| 0 <= k < s.len() && s[k] == x;
                assert(k < s.len() - 1);
                assert(s.drop_last()[k] == x);
                assert(s.drop_last().contains(x));
                assert(dedup_first(s.drop_last()).contains(x));
                if !dedup_first(s.drop_last()).contains(s.last()) {
                    let j = choose|j: int|
                        0 <= j < dedup_first(s.drop_last()).len()
                            && dedup_first(s.drop_last())[j] == x;
                    assert(dedup_first(s)[j] == x);
                }
            }
        } else {
            if dedup_first(s).contains(x) {
                let j = choose|j: int|
                    0 <= j < dedup_first(s).len() && dedup_first(s)[j] == x;
                if !dedup_first(s.drop_last()).contains(s.last())
                    && j == dedup_first(s).len() - 1 {
                    assert(x == s.last());
                    assert(s.contains(x));
                } else {
                    assert(dedup_first(s.drop_last())[j] == x);
                    assert(s.drop_last().contains(x));
                    let k = choose|k: int|
                        0 <= k < s.drop_last().len() && s.drop_last()[k] == x;
                    assert(s[k] == x);
                }
            }
        }
    }
}

/// Deduplication leaves no two equal elements.
pub proof fn lemma_dedup_first_distinct<A>(s: Seq<A>)
    ensures
        forall|i: int, j: int|
            0 <= i < j < dedup_first(s).len() ==> dedup_first(s)[i] != dedup_first(s)[j],
    decreases s.len(),
{
    if s.len() > 0 {
        lemma_dedup_first_distinct(s.drop_last());
        let d = dedup_first(s.drop_last());
        if !d.contains(s.last()) {
            assert forall|i: int, j: int|
                0 <= i < j < dedup_first(s).len() implies dedup_first(s)[i] != dedup_first(s)[j]
            by {
                if j < d.len() {
                } else {
                    assert(dedup_first(s)[j] == s.last());
                    assert(dedup_first(s)[i] == d[i]);
                    assert(d.contains(d[i]));
                }
            }
        }
    }
}

} // verus!
