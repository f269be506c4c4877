//! File names: splitting into stem and extension, decimal counters, and the
//! sequence of candidate names probed when a name is taken.
use vstd::prelude::*;

verus! {

/// The position of the last `.` in `s`, or -1 when there is none.
pub open spec fn last_dot(s: Seq<char>) -> int
    decreases s.len(),
{
    if s.len() == 0 {
        -1
    } else if s.last() == '.' {
        s.len() - 1
    } else {
        last_dot(s.drop_last())
    }
}

pub open spec fn is_dot_dot(s: Seq<char>) -> bool {
    s.len() == 2 && s[0] == '.' && s[1] == '.'
}

/// Whether the name has an extension: a `.` that is neither the first
/// character nor absent, and the name is not `..`.
pub open spec fn has_ext(s: Seq<char>) -> bool {
    !is_dot_dot(s) && last_dot(s) > 0
}

/// The stem: everything before the last `.`, or the whole name when there
/// is no extension.
pub open spec fn stem_of(s: Seq<char>) -> Seq<char> {
    if has_ext(s) {
        s.take(last_dot(s))
    } else {
        s
    }
}

/// The extension, without its dot.
pub open spec fn ext_of(s: Seq<char>) -> Option<Seq<char>> {
    if has_ext(s) {
        Some(s.skip(last_dot(s) + 1))
    } else {
        None
    }
}

pub open spec fn digit_char(d: nat) -> char {
    if d == 0 {
        '0'
    } else if d == 1 {
        '1'
    } else if d == 2 {
        '2'
    } else if d == 3 {
        '3'
    } else if d == 4 {
        '4'
    } else if d == 5 {
        '5'
    } else if d == 6 {
        '6'
    } else if d == 7 {
        '7'
    } else if d == 8 {
        '8'
    } else {
        '9'
    }
}

/// The decimal digits of `n`, most significant first, without leading zeros.
pub open spec fn decimal(n: nat) -> Seq<char>
    decreases n,
{
    if n < 10 {
        seq![digit_char(n)]
    } else {
        decimal(n / 10) + seq![digit_char(n % 10)]
    }
}

/// The `i`-th name tried for `name`: the name itself, then
/// `stem_1.ext`, `stem_2.ext`, ... (no dot when there is no extension).
pub open spec fn candidate(name: Seq<char>, i: nat) -> Seq<char> {
    if i == 0 {
        name
    } else {
        stem_of(name) + seq!['_'] + decimal(i) + match ext_of(name) {
            Some(e) => seq!['.'] + e,
            None => Seq::<char>::empty(),
        }
    }
}

proof fn lemma_last_dot_bounds(s: Seq<char>)
    ensures
        -1 <= last_dot(s) < s.len(),
        last_dot(s) >= 0 ==> s[last_dot(s)] == '.',
    decreases s.len(),
{
    if s.len() > 0 && s.last() != '.' {
        lemma_last_dot_bounds(s.drop_last());
    }
}

proof fn lemma_take_step(s: Seq<char>, i: int)
    requires
        0 <= i < s.len(),
    ensures
        s.take(i + 1).drop_last() == s.take(i),
        s.take(i + 1).last() == s[i],
{
    assert(s.take(i + 1).drop_last() =~= s.take(i));
}

/// Index of the last `.` of `s`, or `None`.
fn find_last_dot(s: &str) -> (r: Option<usize>)
    ensures
        match r {
            Some(i) => i as int == last_dot(s@),
            None => last_dot(s@) == -1,
        },
{
    let n = s.unicode_len();
    let mut found: Option<usize> = None;
    let mut i: usize = 0;
    while i < n
        invariant
            n == s@.len(),
            i <= n,
            match found {
                Some(k) => k as int == last_dot(s@.take(i as int)),
                None => last_dot(s@.take(i as int)) == -1,
            },
        decreases n - i,
    {
        proof {
            lemma_take_step(s@, i as int);
        }
        if s.get_char(i) == '.' {
            found = Some(i);
        }
        i = i + 1;
    }
    assert(s@.take(n as int) =~= s@);
    found
}

/// Splits a file name into its stem and its extension (without the dot).
pub fn split_name(name: &str) -> (r: (String, Option<String>))
    ensures
        r.0@ == stem_of(name@),
        match r.1 {
            Some(e) => ext_of(name@) == Some(e@),
            None => ext_of(name@).is_none(),
        },
{
    let n = name.unicode_len();
    proof {
        lemma_last_dot_bounds(name@);
    }
    let dot_dot = n == 2 && name.get_char(0) == '.' && name.get_char(1) == '.';
    match find_last_dot(name) {
        Some(d) => {
            if !dot_dot && d > 0 {
                let stem = name.substring_char(0, d);
                let ext = name.substring_char(d + 1, n);
                assert(stem@ =~= name@.take(d as int));
                assert(ext@ =~= name@.skip(d + 1));
                (stem.to_string(), Some(ext.to_string()))
            } else {
                (name.to_string(), None)
            }
        },
        None => (name.to_string(), None),
    }
}

fn digit_str(d: u64) -> (r: &'static str)
    requires
        d < 10,
    ensures
        r@ == seq![digit_char(d as nat)],
{
    proof {
        reveal_strlit("0");
        reveal_strlit("1");
        reveal_strlit("2");
        reveal_strlit("3");
        reveal_strlit("4");
        reveal_strlit("5");
        reveal_strlit("6");
        reveal_strlit("7");
        reveal_strlit("8");
        reveal_strlit("9");
    }
    if d == 0 {
        "0"
    } else if d == 1 {
        "1"
    } else if d == 2 {
        "2"
    } else if d == 3 {
        "3"
    } else if d == 4 {
        "4"
    } else if d == 5 {
        "5"
    } else if d == 6 {
        "6"
    } else if d == 7 {
        "7"
    } else if d == 8 {
        "8"
    } else {
        "9"
    }
}

/// `n` written in decimal.
pub fn decimal_string(n: u64) -> (r: String)
    ensures
        r@ == decimal(n as nat),
    decreases n,
{
    if n < 10 {
        String::from_str(digit_str(n))
    } else {
        let mut s = decimal_string(n / 10);
        s.append(digit_str(n % 10));
        s
    }
}

/// The `i`-th candidate for `name`, as [`candidate`] describes it.
pub fn candidate_name(name: &str, i: u64) -> (r: String)
    ensures
        r@ == candidate(name@, i as nat),
{
    if i == 0 {
        return name.to_string();
    }
    let (stem, ext) = split_name(name);
    let mut r = stem;
    proof {
        reveal_strlit("_");
        reveal_strlit(".");
    }
    r.append("_");
    let digits = decimal_string(i);
    r.append(digits.as_str());
    match ext {
        Some(e) => {
            r.append(".");
            r.append(e.as_str());
            assert(r@ =~= candidate(name@, i as nat));
        },
        None => {
            assert(r@ =~= candidate(name@, i as nat));
        },
    }
    r
}

} // verus!
