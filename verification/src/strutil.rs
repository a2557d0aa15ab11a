use vstd::prelude::*;

use vstd::string::StrSliceExecFns;
use vstd::string::StringExecFns;

verus! {

/// Relies on `str`'s `PartialEq`: two string slices compare equal exactly
/// when their character sequences are equal.
#[verifier::external_body]
pub fn str_eq(a: &str, b: &str) -> (r: bool)
    ensures
        r == (a@ == b@),
{
    a == b
}


/// The decimal digit character for `d`.
pub open spec fn digit_char(d: int) -> char {
    if d == 0 { '0' }
    else if d == 1 { '1' }
    else if d == 2 { '2' }
    else if d == 3 { '3' }
    else if d == 4 { '4' }
    else if d == 5 { '5' }
    else if d == 6 { '6' }
    else if d == 7 { '7' }
    else if d == 8 { '8' }
    else { '9' }
}

/// The decimal digits of `v`, most significant first.
pub open spec fn dec_digits(v: int) -> Seq<char>
    decreases v,
{
    if v < 10 {
        seq![digit_char(v)]
    } else {
        dec_digits(v / 10).push(digit_char(v % 10))
    }
}

fn digit_str(d: u64) -> (r: &'static str)
    requires
        d < 10,
    ensures
        r@ == seq![digit_char(d as int)],
{
    proof {
        reveal_strlit("0");
        reveal_strlit("1");
        reveal_strlit("2");
        reveal_strlit("3");
        reveal_strlit("4");
        reveal_strlit("5");
        reveal_strlit("6");
        reveal_strlit("7");
        reveal_strlit("8");
        reveal_strlit("9");
    }
    let r = match d {
        0 => "0",
        1 => "1",
        2 => "2",
        3 => "3",
        4 => "4",
        5 => "5",
        6 => "6",
        7 => "7",
        8 => "8",
        _ => "9",
    };
    proof {
        assert(r@ =~= seq![digit_char(d as int)]);
    }
    r
}

/// Writes `v` in decimal.
pub fn u64_to_dec(v: u64) -> (r: String)
    ensures
        r@ == dec_digits(v as int),
    decreases v,
{
    if v < 10 {
        String::from_str(digit_str(v))
    } else {
        let mut s = u64_to_dec(v / 10);
        s.append(digit_str(v % 10));
        proof {
            assert(s@ =~= dec_digits(v as int));
        }
        s
    }
}

/// The index of the first occurrence of `c` in `s`, or `s.len()`.
pub open spec fn first_idx(s: Seq<char>, c: char) -> int
    decreases s.len(),
{
    if s.len() == 0 {
        0
    } else if s[0] == c {
        0
    } else {
        1 + first_idx(s.drop_first(), c)
    }
}

pub proof fn lemma_first_idx(s: Seq<char>, c: char)
    ensures
        0 <= first_idx(s, c) <= s.len(),
        forall|i: int| 0 <= i < first_idx(s, c) ==> s[i] != c,
        first_idx(s, c) < s.len() ==> s[first_idx(s, c)] == c,
    decreases s.len(),
{
    if s.len() > 0 && s[0] != c {
        lemma_first_idx(s.drop_first(), c);
        assert forall|i: int| 0 <= i < first_idx(s, c) implies s[i] != c by {
            if i > 0 {
                assert(s.drop_first()[i - 1] != c);
            }
        }
        if first_idx(s, c) < s.len() {
            assert(s[first_idx(s, c)] == s.drop_first()[first_idx(s.drop_first(), c)]);
        }
    }
}

fn find_char(s: &str, c: char) -> (r: usize)
    ensures
        r == first_idx(s@, c),
{
    let n = s.unicode_len();
    let mut i: usize = 0;
    while i < n
        invariant
            n == s@.len(),
            i <= n,
            forall|j: int| 0 <= j < i ==> s@[j] != c,
        decreases n - i,
    {
        if s.get_char(i) == c {
            proof {
                lemma_first_idx(s@, c);
                if first_idx(s@, c) < i as int {
                    assert(s@[first_idx(s@, c)] != c);
                }
                if first_idx(s@, c) > i as int {
                    assert(s@[i as int] != c);
                }
            }
            return i;
        }
        i = i + 1;
    }
    proof {
        lemma_first_idx(s@, c);
        if first_idx(s@, c) < s@.len() {
            assert(s@[first_idx(s@, c)] != c);
        }
    }
    n
}

/// A service key (`"{service_id}_{service_token}"`) split at its first
/// `'_'`: the id before it, and the whole remainder — tokens may themselves
/// contain `'_'` — after it.  A key with no `'_'` has an empty token.
pub fn split_service_key(s: &str) -> (r: (String, String))
    ensures
        r.0@ == s@.subrange(0, first_idx(s@, '_')),
        ({
            let f = first_idx(s@, '_');
            if f < s@.len() {
                r.1@ == s@.subrange(f + 1, s@.len() as int)
            } else {
                r.1@ == Seq::<char>::empty()
            }
        }),
{
    let n = s.unicode_len();
    let f = find_char(s, '_');
    proof {
        lemma_first_idx(s@, '_');
    }
    let seg0 = s.substring_char(0, f).to_owned();
    if f < n {
        let seg1 = s.substring_char(f + 1, n).to_owned();
        (seg0, seg1)
    } else {
        proof {
            reveal_strlit("");
        }
        (seg0, String::from_str(""))
    }
}

/// The token a service key carries: everything after the first `'_'`.
pub open spec fn key_token(s: Seq<char>) -> Seq<char> {
    if first_idx(s, '_') < s.len() {
        s.subrange(first_idx(s, '_') + 1, s.len() as int)
    } else {
        Seq::empty()
    }
}

/// Saturating addition on `u64`.
pub open spec fn sat_add64(a: u64, b: u64) -> u64 {
    if a + b > u64::MAX {
        u64::MAX
    } else {
        (a + b) as u64
    }
}

pub fn sat_add(a: u64, b: u64) -> (r: u64)
    ensures
        r == sat_add64(a, b),
{
    if a > u64::MAX - b {
        u64::MAX
    } else {
        a + b
    }
}

} // verus!
