use vstd::prelude::*;
use vstd::string::StrSliceExecFns;
use vstd::string::StringExecFns;
use crate::errors::InvocationError;

verus! {

/// A whitespace character, as trimmed from a response body: the Unicode
/// White_Space set.
pub open spec fn is_space(c: char) -> bool {
    ||| c == '\u{9}'
    ||| c == '\u{a}'
    ||| c == '\u{b}'
    ||| c == '\u{c}'
    ||| c == '\u{d}'
    ||| c == ' '
    ||| c == '\u{85}'
    ||| c == '\u{a0}'
    ||| c == '\u{1680}'
    ||| ('\u{2000}' <= c && c <= '\u{200a}')
    ||| c == '\u{2028}'
    ||| c == '\u{2029}'
    ||| c == '\u{202f}'
    ||| c == '\u{205f}'
    ||| c == '\u{3000}'
}

/// `s` without its leading whitespace.
pub open spec fn trim_front(s: Seq<char>) -> Seq<char>
    decreases s.len(),
{
    if s.len() > 0 && is_space(s[0]) {
        trim_front(s.skip(1))
    } else {
        s
    }
}

/// `s` without its trailing whitespace.
pub open spec fn trim_back(s: Seq<char>) -> Seq<char>
    decreases s.len(),
{
    if s.len() > 0 && is_space(s.last()) {
        trim_back(s.drop_last())
    } else {
        s
    }
}

/// `s` without leading and trailing whitespace.
pub open spec fn trimmed(s: Seq<char>) -> Seq<char> {
    trim_back(trim_front(s))
}

/// The numeric value of one decimal digit character, if it is one.
pub open spec fn digit_value(c: char) -> Option<int> {
    if c == '0' {
        Some(0int)
    } else if c == '1' {
        Some(1int)
    } else if c == '2' {
        Some(2int)
    } else if c == '3' {
        Some(3int)
    } else if c == '4' {
        Some(4int)
    } else if c == '5' {
        Some(5int)
    } else if c == '6' {
        Some(6int)
    } else if c == '7' {
        Some(7int)
    } else if c == '8' {
        Some(8int)
    } else if c == '9' {
        Some(9int)
    } else {
        None
    }
}

/// The value of an unsigned decimal digit string: defined exactly when
/// the string is nonempty and all digits.
pub open spec fn digits_value(s: Seq<char>) -> Option<int>
    decreases s.len(),
{
    if s.len() == 0 {
        None
    } else if s.len() == 1 {
        digit_value(s[0])
    } else {
        match (digits_value(s.drop_last()), digit_value(s.last())) {
            (Some(hi), Some(lo)) => Some(hi * 10 + lo),
            _ => None,
        }
    }
}

/// The signed integer a character sequence denotes: an optional sign,
/// then one or more decimal digits; nothing otherwise.
pub open spec fn int_value(s: Seq<char>) -> Option<int> {
    if s.len() > 0 && s[0] == '-' {
        match digits_value(s.skip(1)) {
            Some(v) => Some(-v),
            None => None,
        }
    } else if s.len() > 0 && s[0] == '+' {
        digits_value(s.skip(1))
    } else {
        digits_value(s)
    }
}

proof fn lemma_trim_front_skip(s: Seq<char>, lo: int)
    requires
        0 <= lo <= s.len(),
        forall|j: int| 0 <= j < lo ==> is_space(#[trigger] s[j]),
        lo == s.len() || !is_space(s[lo]),
    ensures
        trim_front(s) == s.skip(lo),
    decreases lo,
{
    if lo == 0 {
        assert(s.skip(0) =~= s);
    } else {
        assert(is_space(s[0]));
        lemma_trim_front_skip(s.skip(1), lo - 1);
        assert(s.skip(1).skip(lo - 1) =~= s.skip(lo));
    }
}

proof fn lemma_trim_back_take(s: Seq<char>, hi: int)
    requires
        0 <= hi <= s.len(),
        forall|j: int| hi <= j < s.len() ==> is_space(#[trigger] s[j]),
        hi == 0 || !is_space(s[hi - 1]),
    ensures
        trim_back(s) == s.take(hi),
    decreases s.len() - hi,
{
    if hi == s.len() {
        assert(s.take(hi) =~= s);
    } else {
        assert(is_space(s.last()));
        lemma_trim_back_take(s.drop_last(), hi);
        assert(s.drop_last().take(hi) =~= s.take(hi));
    }
}

proof fn lemma_digits_value_none(s: Seq<char>, j: int)
    requires
        0 <= j < s.len(),
        digit_value(s[j]) is None,
    ensures
        digits_value(s) is None,
    decreases s.len(),
{
    if s.len() > 1 && j < s.len() - 1 {
        assert(s.drop_last()[j] == s[j]);
        lemma_digits_value_none(s.drop_last(), j);
    }
}

fn is_space_char(c: char) -> (r: bool)
    ensures
        r == is_space(c),
{
    c == '\u{9}' || c == '\u{a}' || c == '\u{b}' || c == '\u{c}' || c == '\u{d}' || c == ' ' || c
        == '\u{85}' || c == '\u{a0}' || c == '\u{1680}' || ('\u{2000}' <= c && c <= '\u{200a}') || c
        == '\u{2028}' || c == '\u{2029}' || c == '\u{202f}' || c == '\u{205f}' || c == '\u{3000}'
}

fn digit_val(c: char) -> (r: Option<u64>)
    ensures
        match r {
            Some(d) => d < 10 && digit_value(c) == Some(d as int),
            None => digit_value(c) is None,
        },
{
    if c == '0' {
        Some(0)
    } else if c == '1' {
        Some(1)
    } else if c == '2' {
        Some(2)
    } else if c == '3' {
        Some(3)
    } else if c == '4' {
        Some(4)
    } else if c == '5' {
        Some(5)
    } else if c == '6' {
        Some(6)
    } else if c == '7' {
        Some(7)
    } else if c == '8' {
        Some(8)
    } else if c == '9' {
        Some(9)
    } else {
        None
    }
}

fn invalid_err() -> (r: InvocationError)
    ensures
        r matches InvocationError::Other { msg } && msg@ == "invalid integer in response"@,
{
    InvocationError::Other { msg: String::from_str("invalid integer in response") }
}

fn range_err() -> (r: InvocationError)
    ensures
        r matches InvocationError::Other { msg } && msg@ == "integer out of range in response"@,
{
    InvocationError::Other { msg: String::from_str("integer out of range in response") }
}

/// Parses a plain-text decimal integer: surrounding whitespace ignored,
/// an optional sign, then one or more digits. Returns the denoted value
/// exactly when there is one and it fits the numeric type; says which of
/// the two failures happened otherwise.
#[verifier::loop_isolation(false)]
pub fn parse_decimal(s: &str) -> (r: Result<i64, InvocationError>)
    ensures
        match int_value(trimmed(s@)) {
            Some(v) => if i64::MIN <= v <= i64::MAX {
                r == Ok::<i64, InvocationError>(v as i64)
            } else {
                r matches Err(InvocationError::Other { msg }) && msg@
                    == "integer out of range in response"@
            },
            None => r matches Err(InvocationError::Other { msg }) && msg@
                == "invalid integer in response"@,
        },
{
    let n: usize = s.unicode_len();
    let mut lo: usize = 0;
    while lo < n && is_space_char(s.get_char(lo))
        invariant
            lo <= n,
            forall|j: int| 0 <= j < lo ==> is_space(#[trigger] s@[j]),
        decreases n - lo,
    {
        lo = lo + 1;
    }
    let mut hi: usize = n;
    while hi > lo && is_space_char(s.get_char(hi - 1))
        invariant
            lo <= hi <= n,
            forall|j: int| hi <= j < n ==> is_space(#[trigger] s@[j]),
        decreases hi,
    {
        hi = hi - 1;
    }
    let ghost core = s@.subrange(lo as int, hi as int);
    proof {
        lemma_trim_front_skip(s@, lo as int);
        assert forall|j: int| hi - lo <= j < s@.skip(lo as int).len() implies is_space(
            #[trigger] s@.skip(lo as int)[j],
        ) by {
            assert(s@.skip(lo as int)[j] == s@[j + lo]);
        }
        lemma_trim_back_take(s@.skip(lo as int), hi - lo);
        assert(s@.skip(lo as int).take(hi - lo) =~= core);
    }
    // trimmed(s@) == core from here on
    let mut idx: usize = lo;
    let mut neg = false;
    if idx < hi {
        let c = s.get_char(idx);
        if c == '-' {
            neg = true;
            idx = idx + 1;
        } else if c == '+' {
            idx = idx + 1;
        }
    }
    if idx >= hi {
        // empty, all whitespace, or a bare sign: no digits at all
        proof {
            assert(core.len() <= 1);
            if core.len() == 1 && (core[0] == '-' || core[0] == '+') {
                assert(core.skip(1) =~= Seq::<char>::empty());
            }
        }
        return Err(invalid_err());
    }
    let ghost dsub = s@.subrange(idx as int, hi as int);
    proof {
        if idx > lo {
            assert(core.skip(1) =~= dsub);
        } else {
            assert(core =~= dsub);
        }
    }
    let mut acc: u128 = 0;
    let mut over = false;
    let ghost mut gval: int = 0;
    let mut j: usize = idx;
    while j < hi
        invariant
            idx <= j <= hi,
            !over ==> acc as int == gval && gval <= 9223372036854775808int,
            over ==> gval > 9223372036854775808int,
            gval >= 0,
            j > idx ==> digits_value(s@.subrange(idx as int, j as int)) == Some(gval),
            j == idx ==> gval == 0 && !over,
        decreases hi - j,
    {
        let c = s.get_char(j);
        match digit_val(c) {
            None => {
                proof {
                    assert(dsub[j - idx] == s@[j as int]);
                    lemma_digits_value_none(dsub, j - idx);
                }
                return Err(invalid_err());
            },
            Some(d) => {
                proof {
                    let pre = s@.subrange(idx as int, j as int);
                    let post = s@.subrange(idx as int, j as int + 1);
                    assert(post.drop_last() =~= pre);
                    assert(post.last() == s@[j as int]);
                    if j > idx {
                        assert(digits_value(post) == Some(gval * 10 + d as int));
                    } else {
                        assert(post.len() == 1);
                        assert(digits_value(post) == Some(d as int));
                    }
                    gval = gval * 10 + d as int;
                }
                if !over {
                    acc = acc * 10 + (d as u128);
                    if acc > 9223372036854775808u128 {
                        over = true;
                    }
                }
                j = j + 1;
            },
        }
    }
    proof {
        assert(s@.subrange(idx as int, hi as int) == dsub);
        assert(digits_value(dsub) == Some(gval));
        if idx > lo {
            if neg {
                assert(int_value(core) == Some(-gval));
            } else {
                assert(int_value(core) == Some(gval));
            }
        } else {
            assert(core.len() > 0 && core[0] != '-' && core[0] != '+');
            assert(int_value(core) == Some(gval));
        }
    }
    if over {
        return Err(range_err());
    }
    if neg {
        if acc == 9223372036854775808u128 {
            Ok(i64::MIN)
        } else {
            Ok(-(acc as i64))
        }
    } else {
        if acc == 9223372036854775808u128 {
            Err(range_err())
        } else {
            Ok(acc as i64)
        }
    }
}

} // verus!
