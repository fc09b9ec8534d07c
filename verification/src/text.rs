//! String helpers whose results are stated on sequences of characters.

use vstd::prelude::*;

verus! {

/// Whether two strings hold the same characters.
pub fn str_eq(a: &str, b: &str) -> (r: bool)
    ensures
        r == (a@ == b@),
{
    let x: String = a.to_owned();
    let y: String = b.to_owned();
    x == y
}

/// A fresh string with the characters of `s`.
pub fn owned(s: &str) -> (r: String)
    ensures
        r@ == s@,
{
    s.to_owned()
}

pub fn cat2(a: &str, b: &str) -> (r: String)
    ensures
        r@ == a@ + b@,
{
    let mut r: String = a.to_owned();
    r.append(b);
    r
}

pub fn cat3(a: &str, b: &str, c: &str) -> (r: String)
    ensures
        r@ == a@ + b@ + c@,
{
    let mut r: String = cat2(a, b);
    r.append(c);
    r
}

pub fn cat4(a: &str, b: &str, c: &str, d: &str) -> (r: String)
    ensures
        r@ == a@ + b@ + c@ + d@,
{
    let mut r: String = cat3(a, b, c);
    r.append(d);
    r
}

pub fn cat5(a: &str, b: &str, c: &str, d: &str, e: &str) -> (r: String)
    ensures
        r@ == a@ + b@ + c@ + d@ + e@,
{
    let mut r: String = cat4(a, b, c, d);
    r.append(e);
    r
}

pub fn cat6(a: &str, b: &str, c: &str, d: &str, e: &str, f: &str) -> (r: String)
    ensures
        r@ == a@ + b@ + c@ + d@ + e@ + f@,
{
    let mut r: String = cat5(a, b, c, d, e);
    r.append(f);
    r
}

pub fn cat7(a: &str, b: &str, c: &str, d: &str, e: &str, f: &str, g: &str) -> (r: String)
    ensures
        r@ == a@ + b@ + c@ + d@ + e@ + f@ + g@,
{
    let mut r: String = cat6(a, b, c, d, e, f);
    r.append(g);
    r
}

/// The hexadecimal digit of value `d`, for `d < 16`.
pub open spec fn digit(d: int) -> Seq<char> {
    if d == 0 {
        "0"@
    } else if d == 1 {
        "1"@
    } else if d == 2 {
        "2"@
    } else if d == 3 {
        "3"@
    } else if d == 4 {
        "4"@
    } else if d == 5 {
        "5"@
    } else if d == 6 {
        "6"@
    } else if d == 7 {
        "7"@
    } else if d == 8 {
        "8"@
    } else if d == 9 {
        "9"@
    } else if d == 10 {
        "a"@
    } else if d == 11 {
        "b"@
    } else if d == 12 {
        "c"@
    } else if d == 13 {
        "d"@
    } else if d == 14 {
        "e"@
    } else {
        "f"@
    }
}

fn digit_str(d: u64) -> (r: &'static str)
    requires
        d < 16,
    ensures
        r@ == digit(d as int),
{
    if d == 0 {
        "0"
    } else if d == 1 {
        "1"
    } else if d == 2 {
        "2"
    } else if d == 3 {
        "3"
    } else if d == 4 {
        "4"
    } else if d == 5 {
        "5"
    } else if d == 6 {
        "6"
    } else if d == 7 {
        "7"
    } else if d == 8 {
        "8"
    } else if d == 9 {
        "9"
    } else if d == 10 {
        "a"
    } else if d == 11 {
        "b"
    } else if d == 12 {
        "c"
    } else if d == 13 {
        "d"
    } else if d == 14 {
        "e"
    } else {
        "f"
    }
}

/// The shortest decimal numeral of `n`.
pub open spec fn decimal_text(n: nat) -> Seq<char>
    decreases n,
{
    if n < 10 {
        digit(n as int)
    } else {
        decimal_text(n / 10) + digit((n % 10) as int)
    }
}

pub fn decimal(n: u64) -> (r: String)
    ensures
        r@ == decimal_text(n as nat),
    decreases n,
{
    if n < 10 {
        owned(digit_str(n))
    } else {
        let mut r: String = decimal(n / 10);
        r.append(digit_str(n % 10));
        r
    }
}

/// `n` in exactly `width` lower-case hexadecimal digits, high digits cut off.
pub open spec fn hex_text(n: nat, width: nat) -> Seq<char>
    decreases width,
{
    if width == 0 {
        Seq::empty()
    } else {
        hex_text(n / 16, (width - 1) as nat) + digit((n % 16) as int)
    }
}

pub fn hex(n: u64, width: u64) -> (r: String)
    ensures
        r@ == hex_text(n as nat, width as nat),
    decreases width,
{
    if width == 0 {
        String::new()
    } else {
        let mut r: String = hex(n / 16, width - 1);
        r.append(digit_str(n % 16));
        r
    }
}

/// The Rust source form of a string: in double quotes, with escapes.
pub uninterp spec fn quoted_text(s: Seq<char>) -> Seq<char>;

/// std's `Debug` formatting of `str`: the result is determined by the
/// characters of the string alone. How a character is escaped is left unsaid.
#[verifier::external_body]
pub(crate) fn quoted(s: &str) -> (r: String)
    ensures
        r@ == quoted_text(s@),
{
    format!("{:?}", s)
}

/// `parts` joined by `sep`.
pub open spec fn join_text(parts: Seq<Seq<char>>, sep: Seq<char>) -> Seq<char>
    decreases parts.len(),
{
    if parts.len() == 0 {
        Seq::empty()
    } else if parts.len() == 1 {
        parts[0]
    } else {
        join_text(parts.drop_last(), sep) + sep + parts.last()
    }
}

/// The characters of each string of a list.
pub open spec fn texts(v: Seq<String>) -> Seq<Seq<char>> {
    v.map_values(|s: String| s@)
}

pub fn join(parts: &Vec<String>, sep: &str) -> (r: String)
    ensures
        r@ == join_text(texts(parts@), sep@),
{
    let mut r: String = String::new();
    let mut i: usize = 0;
    while i < parts.len()
        invariant
            i <= parts@.len(),
            r@ == join_text(texts(parts@).take(i as int), sep@),
        decreases parts@.len() - i,
    {
        let ghost done = texts(parts@).take(i as int + 1);
        assert(done.drop_last() =~= texts(parts@).take(i as int));
        if i > 0 {
            r.append(sep);
        }
        r.append(parts[i].as_str());
        proof {
            if i == 0 {
                assert(Seq::<char>::empty() + parts@[0]@ =~= parts@[0]@);
            }
        }
        i = i + 1;
    }
    assert(texts(parts@).take(i as int) =~= texts(parts@));
    r
}

/// The strings of a list, copied.
pub fn clone_strings(v: &Vec<String>) -> (r: Vec<String>)
    ensures
        texts(r@) == texts(v@),
{
    let mut out: Vec<String> = Vec::new();
    let mut i: usize = 0;
    while i < v.len()
        invariant
            i <= v@.len(),
            out@.len() == i,
            forall|j: int| 0 <= j < i ==> (#[trigger] out@[j])@ == v@[j]@,
        decreases v@.len() - i,
    {
        out.push(v[i].clone());
        i = i + 1;
    }
    assert(texts(out@) =~= texts(v@));
    out
}

/// The first position from `i` on at which `s` holds `c`, or its length.
pub open spec fn char_pos(s: Seq<char>, c: char, i: int) -> int
    decreases s.len() - i,
{
    if i >= s.len() {
        s.len() as int
    } else if s[i] == c {
        i
    } else {
        char_pos(s, c, i + 1)
    }
}

pub proof fn char_pos_bounds(s: Seq<char>, c: char, i: int)
    requires
        0 <= i <= s.len(),
    ensures
        i <= char_pos(s, c, i) <= s.len(),
    decreases s.len() - i,
{
    if i < s.len() && s[i] != c {
        char_pos_bounds(s, c, i + 1);
    }
}

fn find_char(s: &str, c: char) -> (r: usize)
    ensures
        r == char_pos(s@, c, 0),
        r <= s@.len(),
{
    let n: usize = s.unicode_len();
    let mut i: usize = 0;
    while i < n
        invariant
            n == s@.len(),
            i <= n,
            char_pos(s@, c, 0) == char_pos(s@, c, i as int),
        decreases n - i,
    {
        if s.get_char(i) == c {
            return i;
        }
        i = i + 1;
    }
    n
}

/// What stands before the first `c`, or all of `s`.
pub open spec fn head_text(s: Seq<char>, c: char) -> Seq<char> {
    s.take(char_pos(s, c, 0))
}

pub fn head(s: &str, c: char) -> (r: String)
    ensures
        r@ == head_text(s@, c),
{
    owned(s.substring_char(0, find_char(s, c)))
}

pub fn contains_char(s: &str, c: char) -> (r: bool)
    ensures
        r == (char_pos(s@, c, 0) < s@.len()),
{
    find_char(s, c) < s.unicode_len()
}

/// The position after the last `c` among the first `n` characters, or 0.
pub open spec fn tail_start(s: Seq<char>, c: char, n: int) -> int
    decreases n,
{
    if n <= 0 {
        0
    } else if s[n - 1] == c {
        n
    } else {
        tail_start(s, c, n - 1)
    }
}

/// What stands after the last `c`, or all of `s`.
pub open spec fn tail_text(s: Seq<char>, c: char) -> Seq<char> {
    s.skip(tail_start(s, c, s.len() as int))
}

pub fn tail(s: &str, c: char) -> (r: String)
    ensures
        r@ == tail_text(s@, c),
{
    let n: usize = s.unicode_len();
    let mut i: usize = n;
    while i > 0 && s.get_char(i - 1) != c
        invariant
            n == s@.len(),
            i <= n,
            tail_start(s@, c, n as int) == tail_start(s@, c, i as int),
        decreases i,
    {
        i = i - 1;
    }
    assert(s@.subrange(i as int, n as int) =~= s@.skip(i as int));
    owned(s.substring_char(i, n))
}

/// Whether `s` begins with `p`.
pub open spec fn begins_with(s: Seq<char>, p: Seq<char>) -> bool {
    p.len() <= s.len() && s.take(p.len() as int) == p
}

pub fn starts_with(s: &str, p: &str) -> (r: bool)
    ensures
        r == begins_with(s@, p@),
{
    let n: usize = p.unicode_len();
    if n > s.unicode_len() {
        return false;
    }
    assert(s@.subrange(0, n as int) =~= s@.take(n as int));
    str_eq(s.substring_char(0, n), p)
}

/// Whether the list holds `name`.
pub fn holds(v: &Vec<String>, name: &str) -> (r: bool)
    ensures
        r == texts(v@).contains(name@),
{
    let mut i: usize = 0;
    while i < v.len()
        invariant
            i <= v@.len(),
            forall|j: int| 0 <= j < i ==> texts(v@)[j] != name@,
        decreases v@.len() - i,
    {
        if str_eq(v[i].as_str(), name) {
            assert(texts(v@)[i as int] == name@);
            return true;
        }
        i = i + 1;
    }
    false
}

/// Copies the strings of `src` to the end of `dst`.
pub fn append_strings(dst: &mut Vec<String>, src: &Vec<String>)
    ensures
        texts(final(dst)@) == texts(old(dst)@) + texts(src@),
{
    let ghost base = texts(dst@);
    let ghost s = texts(src@);
    let mut i: usize = 0;
    assert(texts(dst@) =~= base + s.take(0));
    while i < src.len()
        invariant
            i <= src@.len(),
            s == texts(src@),
            texts(dst@) == base + s.take(i as int),
        decreases src@.len() - i,
    {
        let ghost before = texts(dst@);
        let x: String = src[i].clone();
        dst.push(x);
        assert(texts(dst@) =~= before.push(s[i as int]));
        assert(s.take(i as int + 1) =~= s.take(i as int).push(s[i as int]));
        assert(texts(dst@) =~= base + s.take(i as int + 1));
        i = i + 1;
    }
    assert(s.take(i as int) =~= s);
}

} // verus!
