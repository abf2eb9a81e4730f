use vstd::prelude::*;
use crate::numfmt::{dec_int, dec_nat, digit_char};
use crate::parse::{digit_value, digits_value, int_value, is_space, trim_back, trim_front, trimmed};

verus! {

/// Loading two modules that register disjoint name sets yields the union
/// of both sets: whatever the table held before, every name of the first
/// pass maps to the first pass's entry and every name of the second pass
/// to the second's, so each stays dispatchable.
pub proof fn lemma_disjoint_passes_union<V>(
    t0: Map<Seq<char>, V>,
    ma: Map<Seq<char>, V>,
    mb: Map<Seq<char>, V>,
)
    requires
        ma.dom().disjoint(mb.dom()),
    ensures
        forall|k: Seq<char>| #[trigger]
            ma.contains_key(k) ==> t0.union_prefer_right(ma).union_prefer_right(
                mb,
            ).contains_key(k) && t0.union_prefer_right(ma).union_prefer_right(mb)[k] == ma[k],
        forall|k: Seq<char>| #[trigger]
            mb.contains_key(k) ==> t0.union_prefer_right(ma).union_prefer_right(
                mb,
            ).contains_key(k) && t0.union_prefer_right(ma).union_prefer_right(mb)[k] == mb[k],
{
    assert forall|k: Seq<char>| #[trigger] ma.contains_key(k) implies t0.union_prefer_right(
        ma,
    ).union_prefer_right(mb).contains_key(k) && t0.union_prefer_right(ma).union_prefer_right(mb)[k]
        == ma[k] by {
        assert(!mb.dom().contains(k));
    }
}

/// Registering a name that is already present overwrites, with no error:
/// within one registration pass the later binding wins, and at merge time
/// a later pass's binding wins over whatever the table already held.
pub proof fn lemma_overwrite<V>(t: Map<Seq<char>, V>, m: Map<Seq<char>, V>, k: Seq<char>, a: V, b: V)
    ensures
        m.insert(k, a).insert(k, b).contains_key(k),
        m.insert(k, a).insert(k, b)[k] == b,
        m.contains_key(k) ==> t.union_prefer_right(m).contains_key(k) && t.union_prefer_right(m)[k]
            == m[k],
{
}

/// A successful load never touches a name its pass did not register:
/// whether such a name is present, and the entry it maps to, are exactly
/// as before — the registry only grows, and only with what was
/// registered.
pub proof fn lemma_untouched_name<V>(t: Map<Seq<char>, V>, m: Map<Seq<char>, V>, k: Seq<char>)
    requires
        !m.contains_key(k),
    ensures
        t.union_prefer_right(m).contains_key(k) == t.contains_key(k),
        t.contains_key(k) ==> t.union_prefer_right(m)[k] == t[k],
{
}

/// A loaded module stays mapped: a load only ever appends one handle to
/// the keep-alive list, so an entry's owner index stays a valid position
/// and keeps naming the same module handle. Together with the bound that
/// `get` states on every returned entry's owner, a function entry can
/// always reach its owning module.
pub proof fn lemma_module_stays_mapped<L>(mods0: Seq<L>, mods1: Seq<L>, h: L, owner: int)
    requires
        mods1 == mods0.push(h),
        0 <= owner < mods0.len(),
    ensures
        owner < mods1.len(),
        mods1[owner] == mods0[owner],
{
}

proof fn lemma_dec_nat_digits(n: nat)
    ensures
        dec_nat(n).len() >= 1,
        forall|i: int| 0 <= i < dec_nat(n).len() ==> digit_value(#[trigger] dec_nat(n)[i]) is Some,
        digits_value(dec_nat(n)) == Some(n as int),
    decreases n,
{
    if n < 10 {
        assert(digit_value(digit_char(n as int)) == Some(n as int));
    } else {
        lemma_dec_nat_digits(n / 10);
        let s = dec_nat(n);
        assert(s.drop_last() =~= dec_nat(n / 10));
        assert(s.last() == digit_char((n % 10) as int));
        assert(digit_value(digit_char((n % 10) as int)) == Some((n % 10) as int));
        assert((n / 10) * 10 + (n % 10) == n) by {
            vstd::arithmetic::div_mod::lemma_fundamental_div_mod(n as int, 10);
        }
        assert(digits_value(s) == Some(n as int));
        assert forall|i: int| 0 <= i < s.len() implies digit_value(#[trigger] s[i]) is Some by {
            if i < s.len() - 1 {
                assert(s[i] == dec_nat(n / 10)[i]);
            }
        }
    }
}

/// What the decimal renderer writes, the decimal parser reads back: the
/// rendering of any integer carries no surrounding whitespace and denotes
/// exactly that integer.
pub proof fn lemma_decimal_round_trip(n: int)
    ensures
        trimmed(dec_int(n)) == dec_int(n),
        int_value(dec_int(n)) == Some(n),
{
    let s = dec_int(n);
    if n >= 0 {
        lemma_dec_nat_digits(n as nat);
        assert(digit_value(s[0]) is Some);
        assert(digit_value(s.last()) is Some);
        assert(!is_space(s[0]) && s[0] != '-' && s[0] != '+');
        assert(!is_space(s.last()));
        assert(trim_front(s) == s);
        assert(trim_back(s) == s);
    } else {
        lemma_dec_nat_digits((-n) as nat);
        let digits = dec_nat((-n) as nat);
        assert(s == seq!['-'] + digits);
        assert(s[0] == '-');
        assert(s.skip(1) =~= digits);
        assert(s.last() == digits.last());
        assert(digit_value(s.last()) is Some);
        assert(!is_space(s[0]));
        assert(!is_space(s.last()));
        assert(trim_front(s) == s);
        assert(trim_back(s) == s);
        assert(digits_value(s.skip(1)) == Some(-n));
    }
}

} // verus!
