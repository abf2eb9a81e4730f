use vstd::prelude::*;

verus! {

/// The name-indexed table that a sequence of (name, value) bindings
/// denotes. A later binding of a name shadows every earlier one, which is
/// the registry's last-write-wins policy.
pub open spec fn table_of<V>(s: Seq<(String, V)>) -> Map<Seq<char>, V>
    decreases s.len(),
{
    if s.len() == 0 {
        Map::empty()
    } else {
        table_of(s.drop_last()).insert(s.last().0@, s.last().1)
    }
}

/// A name is in the table exactly when some binding carries it.
pub proof fn lemma_table_contains<V>(s: Seq<(String, V)>, n: Seq<char>)
    ensures
        table_of(s).contains_key(n) <==> exists|j: int|
            0 <= j < s.len() && (#[trigger] s[j]).0@ == n,
    decreases s.len(),
{
    if s.len() > 0 {
        lemma_table_contains(s.drop_last(), n);
        if s.last().0@ == n {
            assert(s[s.len() - 1].0@ == n);
        } else if table_of(s).contains_key(n) {
            let j = choose|j: int| 0 <= j < s.drop_last().len() && (#[trigger] s.drop_last()[j]).0@
                == n;
            assert(s[j].0@ == n);
        } else if exists|j: int| 0 <= j < s.len() && (#[trigger] s[j]).0@ == n {
            let j = choose|j: int| 0 <= j < s.len() && (#[trigger] s[j]).0@ == n;
            assert(s.drop_last()[j].0@ == n);
        }
    }
}

/// When the binding at `i` carries `n` and no later binding does, the
/// table maps `n` to that binding's value.
pub proof fn lemma_table_last<V>(s: Seq<(String, V)>, n: Seq<char>, i: int)
    requires
        0 <= i < s.len(),
        s[i].0@ == n,
        forall|j: int| i < j < s.len() ==> (#[trigger] s[j]).0@ != n,
    ensures
        table_of(s).contains_key(n),
        table_of(s)[n] == s[i].1,
    decreases s.len(),
{
    if i == s.len() - 1 {
    } else {
        assert(s.drop_last()[i] == s[i]);
        lemma_table_last(s.drop_last(), n, i);
        assert(s.last().0@ != n);
    }
}

/// Every table value comes from some binding.
pub proof fn lemma_table_value_from<V>(s: Seq<(String, V)>, n: Seq<char>)
    requires
        table_of(s).contains_key(n),
    ensures
        exists|j: int|
            0 <= j < s.len() && (#[trigger] s[j]).0@ == n && s[j].1 == table_of(s)[n],
    decreases s.len(),
{
    if s.len() > 0 {
        if s.last().0@ == n {
            assert(s[s.len() - 1].0@ == n && s[s.len() - 1].1 == table_of(s)[n]);
        } else {
            lemma_table_value_from(s.drop_last(), n);
            let j = choose|j: int|
                0 <= j < s.drop_last().len() && (#[trigger] s.drop_last()[j]).0@ == n && s.drop_last()[j].1
                    == table_of(s.drop_last())[n];
            assert(s[j].0@ == n && s[j].1 == table_of(s)[n]);
        }
    }
}

/// Concatenating binding sequences unions their tables, with the later
/// sequence preferred on a shared name.
pub proof fn lemma_table_concat<V>(a: Seq<(String, V)>, b: Seq<(String, V)>)
    ensures
        table_of(a + b) == table_of(a).union_prefer_right(table_of(b)),
    decreases b.len(),
{
    if b.len() == 0 {
        assert(a + b =~= a);
        assert(table_of(a).union_prefer_right(table_of(b)) =~= table_of(a));
    } else {
        lemma_table_concat(a, b.drop_last());
        assert((a + b).drop_last() =~= a + b.drop_last());
        assert((a + b).last() == b.last());
        assert(table_of(a).union_prefer_right(table_of(b.drop_last())).insert(
            b.last().0@,
            b.last().1,
        ) =~= table_of(a).union_prefer_right(
            table_of(b.drop_last()).insert(b.last().0@, b.last().1),
        ));
    }
}

} // verus!
