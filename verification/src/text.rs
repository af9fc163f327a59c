use vstd::prelude::*;

verus! {

/// The decimal digit character for `d` (taken modulo ten).
pub open spec fn digit_char(d: nat) -> char {
    if d % 10 == 0 {
        '0'
    } else if d % 10 == 1 {
        '1'
    } else if d % 10 == 2 {
        '2'
    } else if d % 10 == 3 {
        '3'
    } else if d % 10 == 4 {
        '4'
    } else if d % 10 == 5 {
        '5'
    } else if d % 10 == 6 {
        '6'
    } else if d % 10 == 7 {
        '7'
    } else if d % 10 == 8 {
        '8'
    } else {
        '9'
    }
}

/// The shortest decimal rendering of `n` (no sign, no leading zeros).
pub open spec fn decimal(n: nat) -> Seq<char>
    decreases n,
{
    if n < 10 {
        seq![digit_char(n)]
    } else {
        decimal(n / 10).push(digit_char(n % 10))
    }
}

/// Appends one character to a `String` (std's `String::push`).
#[verifier::external_body]
pub(crate) fn string_push(s: &mut String, c: char)
    ensures
        final(s)@ == old(s)@.push(c),
{
    s.push(c)
}

/// Whether two string slices hold the same characters.
pub(crate) fn str_eq(a: &str, b: &str) -> (r: bool)
    ensures
        r == (a@ == b@),
{
    let x = chars_of(a);
    let y = chars_of(b);
    let n = x.len();
    if n != y.len() {
        return false;
    }
    let mut i: usize = 0;
    while i < n
        invariant
            n == x@.len(),
            n == y@.len(),
            x@ == a@,
            y@ == b@,
            0 <= i <= n,
            forall|j: int| 0 <= j < i ==> x@[j] == y@[j],
        decreases n - i,
    {
        if x[i] != y[i] {
            return false;
        }
        i = i + 1;
    }
    proof {
        assert(x@ =~= y@);
    }
    true
}

/// Appends every character of `t` to `s`.
pub(crate) fn push_str(s: &mut String, t: &str)
    ensures
        final(s)@ == old(s)@ + t@,
{
    s.append(t);
}

fn digit(d: u64) -> (c: char)
    requires
        d < 10,
    ensures
        c == digit_char(d as nat),
{
    match d {
        0 => '0',
        1 => '1',
        2 => '2',
        3 => '3',
        4 => '4',
        5 => '5',
        6 => '6',
        7 => '7',
        8 => '8',
        _ => '9',
    }
}

/// Appends the decimal rendering of `n` to `s`.
pub(crate) fn push_decimal(s: &mut String, n: u64)
    ensures
        final(s)@ == old(s)@ + decimal(n as nat),
    decreases n,
{
    if n < 10 {
        string_push(s, digit(n));
    } else {
        push_decimal(s, n / 10);
        string_push(s, digit(n % 10));
        assert(decimal(n as nat) == decimal((n / 10) as nat).push(digit_char((n % 10) as nat)));
    }
}

/// A fresh `String` holding `t`.
pub(crate) fn owned(t: &str) -> (s: String)
    ensures
        s@ == t@,
{
    t.to_owned()
}

/// The characters of `t`, one by one.
pub(crate) fn chars_of(t: &str) -> (v: Vec<char>)
    ensures
        v@ == t@,
{
    let mut v: Vec<char> = Vec::new();
    for c in it: t.chars()
        invariant
            v@ == it.seq().take(it.index() as int),
            it.seq() == t@,
    {
        v.push(c);
    }
    v
}

/// A `String` holding the characters `cs[lo..hi]`.
pub(crate) fn chars_string(cs: &Vec<char>, lo: usize, hi: usize) -> (s: String)
    requires
        lo <= hi <= cs@.len(),
    ensures
        s@ == cs@.subrange(lo as int, hi as int),
{
    let mut s = String::new();
    let mut i = lo;
    while i < hi
        invariant
            lo <= i <= hi <= cs@.len(),
            s@ == cs@.subrange(lo as int, i as int),
        decreases hi - i,
    {
        string_push(&mut s, cs[i]);
        proof {
            assert(cs@.subrange(lo as int, i + 1) =~= cs@.subrange(lo as int, i as int).push(cs@[i as int]));
        }
        i = i + 1;
    }
    s
}

} // verus!
