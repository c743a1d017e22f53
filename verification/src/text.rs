//! Small string utilities shared by the rest of the crate.
use vstd::prelude::*;
use vstd::std_specs::iter::IteratorSpec;

verus! {

broadcast use vstd::string::group_string_axioms;

/// The characters of `s`, in order.
pub fn chars_of(s: &str) -> (v: Vec<char>)
    ensures
        v@ == s@,
{
    let mut it = s.chars();
    let mut v: Vec<char> = Vec::new();
    loop
        invariant
            it.obeys_prophetic_iter_laws(),
            v@ + it.remaining() == s@,
            it.decrease() is Some,
        decreases it.decrease()->0,
    {
        match it.next() {
            Some(c) => {
                v.push(c);
                assert(v@ + it.remaining() =~= s@);
            },
            None => {
                assert(v@ =~= s@);
                return v;
            },
        }
    }
}

/// The texts of `v`, in order.
pub open spec fn names_of(v: Seq<String>) -> Seq<Seq<char>> {
    v.map_values(|x: String| x@)
}

/// A copy of `v` holding the same texts.
pub fn clone_strings(v: &Vec<String>) -> (r: Vec<String>)
    ensures
        names_of(r@) == names_of(v@),
{
    let mut r: Vec<String> = Vec::new();
    let mut i: usize = 0;
    while i < v.len()
        invariant
            i <= v@.len(),
            names_of(r@) =~= names_of(v@).take(i as int),
        decreases v@.len() - i,
    {
        let ghost before = r@;
        r.push(v[i].clone());
        proof {
            assert(r@ =~= before.push(v@[i as int]));
            assert(names_of(v@).take(i + 1) =~= names_of(v@).take(i as int).push(v@[i as int]@));
            assert(names_of(r@) =~= names_of(before).push(v@[i as int]@));
        }
        i = i + 1;
    }
    assert(names_of(v@).take(v@.len() as int) =~= names_of(v@));
    r
}

/// True when some element of `v` has the text of `s`.
pub fn contains_string(v: &Vec<String>, s: &String) -> (b: bool)
    ensures
        b == names_of(v@).contains(s@),
{
    let mut i: usize = 0;
    while i < v.len()
        invariant
            i <= v@.len(),
            forall|j: int| 0 <= j < i ==> v@[j]@ != s@,
        decreases v@.len() - i,
    {
        if v[i] == *s {
            assert(names_of(v@)[i as int] == s@);
            return true;
        }
        i = i + 1;
    }
    assert(!names_of(v@).contains(s@)) by {
        if names_of(v@).contains(s@) {
            let j = choose|j: int| 0 <= j < names_of(v@).len() && names_of(v@)[j] == s@;
            assert(v@[j]@ == s@);
        }
    }
    false
}

/// The decimal digit for `d` (below 10).
pub open spec fn digit_char(d: nat) -> char {
    (48 + d) as char
}

/// `n` written in decimal, as `{}` writes an unsigned integer.
pub open spec fn decimal(n: nat) -> Seq<char>
    decreases n,
{
    if n < 10 {
        seq![digit_char(n)]
    } else {
        decimal(n / 10).push(digit_char(n % 10))
    }
}

fn digit_str(d: u64) -> (s: &'static str)
    requires
        d < 10,
    ensures
        s@ == seq![digit_char(d as nat)],
{
    proof {
        reveal_strlit("0");
        reveal_strlit("1");
        reveal_strlit("2");
        reveal_strlit("3");
        reveal_strlit("4");
        reveal_strlit("5");
        reveal_strlit("6");
        reveal_strlit("7");
        reveal_strlit("8");
        reveal_strlit("9");
    }
    if d == 0 {
        "0"
    } else if d == 1 {
        "1"
    } else if d == 2 {
        "2"
    } else if d == 3 {
        "3"
    } else if d == 4 {
        "4"
    } else if d == 5 {
        "5"
    } else if d == 6 {
        "6"
    } else if d == 7 {
        "7"
    } else if d == 8 {
        "8"
    } else {
        "9"
    }
}

/// `n` in decimal.
pub fn decimal_text(n: u64) -> (s: String)
    ensures
        s@ == decimal(n as nat),
    decreases n,
{
    if n < 10 {
        String::from_str(digit_str(n))
    } else {
        let mut s = decimal_text(n / 10);
        s.append(digit_str(n % 10));
        s
    }
}

/// `s` with `n` in decimal appended.
pub fn push_decimal(s: &mut String, n: u64)
    ensures
        final(s)@ == old(s)@ + decimal(n as nat),
{
    let d = decimal_text(n);
    s.append(d.as_str());
}

/// The parts with `sep` between each two.
pub open spec fn join_with(parts: Seq<Seq<char>>, sep: Seq<char>) -> Seq<char>
    decreases parts.len(),
{
    if parts.len() == 0 {
        Seq::empty()
    } else if parts.len() == 1 {
        parts[0]
    } else {
        join_with(parts.drop_last(), sep) + sep + parts.last()
    }
}

/// The lines joined with newlines between them.
pub fn join_lines(lines: &Vec<String>) -> (s: String)
    ensures
        s@ == join_with(names_of(lines@), "\n"@),
{
    let ghost all = names_of(lines@);
    let mut out = String::new();
    let mut k: usize = 0;
    while k < lines.len()
        invariant
            k <= lines@.len(),
            all == names_of(lines@),
            out@ == join_with(all.take(k as int), "\n"@),
        decreases lines@.len() - k,
    {
        proof {
            assert(all.take(k + 1).drop_last() =~= all.take(k as int));
            assert(all.take(k + 1).last() == lines@[k as int]@);
        }
        if k > 0 {
            out.append("\n");
        }
        out.append(lines[k].as_str());
        proof {
            if k == 0 {
                assert(all.take(1) =~= seq![lines@[0]@]);
            }
        }
        k = k + 1;
    }
    proof {
        assert(all.take(lines@.len() as int) =~= all);
    }
    out
}

/// `needle` occurs in `haystack` starting at `i`.
pub open spec fn occurs_at(haystack: Seq<char>, needle: Seq<char>, i: int) -> bool {
    0 <= i && i + needle.len() <= haystack.len() && haystack.subrange(i, i + needle.len()) == needle
}

/// `needle` occurs somewhere in `haystack`.
pub open spec fn contains_text(haystack: Seq<char>, needle: Seq<char>) -> bool {
    exists|i: int| occurs_at(haystack, needle, i)
}

/// Whether `needle` occurs in `haystack`, as `str::contains` answers.
pub fn find_text(haystack: &str, needle: &str) -> (b: bool)
    ensures
        b == contains_text(haystack@, needle@),
{
    let h = chars_of(haystack);
    let n = chars_of(needle);
    if n.len() > h.len() {
        proof {
            assert forall|i: int| !occurs_at(h@, n@, i) by {}
        }
        return false;
    }
    let hl = h.len();
    let nl = n.len();
    let mut i: usize = 0;
    while i <= hl - nl
        invariant
            hl == h@.len(),
            nl == n@.len(),
            h@ == haystack@,
            n@ == needle@,
            n@.len() <= h@.len(),
            i <= h@.len() - n@.len() + 1,
            forall|k: int| 0 <= k < i ==> !occurs_at(h@, n@, k),
        decreases h@.len() - i,
    {
        let mut j: usize = 0;
        let mut same = true;
        while j < nl
            invariant
                hl == h@.len(),
                nl == n@.len(),
                i + n@.len() <= h@.len(),
                j <= n@.len(),
                same == (forall|m: int| 0 <= m < j ==> h@[i + m] == n@[m]),
            decreases n@.len() - j,
        {
            if h[i + j] != n[j] {
                same = false;
            }
            j = j + 1;
        }
        if same {
            proof {
                assert(h@.subrange(i as int, i + n@.len()) =~= n@);
                assert(occurs_at(h@, n@, i as int));
            }
            return true;
        }
        proof {
            if occurs_at(h@, n@, i as int) {
                let m = choose|m: int| 0 <= m < n@.len() && h@[i + m] != n@[m];
                assert(h@.subrange(i as int, i + n@.len())[m] == h@[i + m]);
            }
        }
        i = i + 1;
    }
    proof {
        assert forall|k: int| !occurs_at(h@, n@, k) by {
            if 0 <= k && k + n@.len() <= h@.len() {
                assert(k < i);
            }
        }
    }
    false
}

/// `n` in decimal, with a leading `-` when negative.
pub open spec fn signed_decimal(n: int) -> Seq<char> {
    if n < 0 {
        "-"@ + decimal((-n) as nat)
    } else {
        decimal(n as nat)
    }
}

pub fn signed_decimal_text(n: i32) -> (s: String)
    ensures
        s@ == signed_decimal(n as int),
{
    if n < 0 {
        let mut s = String::from_str("-");
        let magnitude = (0i64 - (n as i64)) as u64;
        push_decimal(&mut s, magnitude);
        s
    } else {
        decimal_text(n as u64)
    }
}

} // verus!
