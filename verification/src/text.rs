use vstd::prelude::*;

verus! {

// Byte classes of the line grammar.
/// Whitespace inside a line: space, tab, carriage return, vertical tab and
/// form feed.  A line feed never stands inside a line.
pub open spec fn sp(b: u8) -> bool {
    b == 32 || b == 9 || b == 13 || b == 11 || b == 12
}

pub open spec fn is_digit(b: u8) -> bool {
    48 <= b <= 57
}

/// Numeric value of an ASCII decimal digit.
pub open spec fn digit_val(b: u8) -> int {
    b - 48
}

/// A word byte: letter, digit or underscore (the log-level token).
pub open spec fn word_byte(b: u8) -> bool {
    is_digit(b) || (65 <= b <= 90) || (97 <= b <= 122) || b == 95
}

/// A byte of a user identifier after its `usr_` prefix: hex digit or dash.
pub open spec fn hexdash(b: u8) -> bool {
    is_digit(b) || (65 <= b <= 70) || (97 <= b <= 102) || b == 45
}

pub fn is_sp_b(b: u8) -> (r: bool)
    ensures
        r == sp(b),
{
    b == 32 || b == 9 || b == 13 || b == 11 || b == 12
}

pub fn is_digit_b(b: u8) -> (r: bool)
    ensures
        r == is_digit(b),
{
    48 <= b && b <= 57
}

pub fn is_word_b(b: u8) -> (r: bool)
    ensures
        r == word_byte(b),
{
    (48 <= b && b <= 57) || (65 <= b && b <= 90) || (97 <= b && b <= 122) || b == 95
}

pub fn is_hexdash_b(b: u8) -> (r: bool)
    ensures
        r == hexdash(b),
{
    (48 <= b && b <= 57) || (65 <= b && b <= 70) || (97 <= b && b <= 102) || b == 45
}

// Scanner positions: each yields the first index at or after `i` whose byte
// leaves the class, or the end of the sequence.
pub open spec fn ws_end(s: Seq<u8>, i: int) -> int
    decreases s.len() - i,
{
    if i < 0 || i >= s.len() {
        i
    } else if sp(s[i]) {
        ws_end(s, i + 1)
    } else {
        i
    }
}

pub open spec fn word_end(s: Seq<u8>, i: int) -> int
    decreases s.len() - i,
{
    if i < 0 || i >= s.len() {
        i
    } else if word_byte(s[i]) {
        word_end(s, i + 1)
    } else {
        i
    }
}

pub open spec fn hexdash_end(s: Seq<u8>, i: int) -> int
    decreases s.len() - i,
{
    if i < 0 || i >= s.len() {
        i
    } else if hexdash(s[i]) {
        hexdash_end(s, i + 1)
    } else {
        i
    }
}

pub open spec fn nonws_end(s: Seq<u8>, i: int) -> int
    decreases s.len() - i,
{
    if i < 0 || i >= s.len() {
        i
    } else if !sp(s[i]) {
        nonws_end(s, i + 1)
    } else {
        i
    }
}

/// First index at or after `i` holding an opening parenthesis, or the end.
pub open spec fn nonparen_end(s: Seq<u8>, i: int) -> int
    decreases s.len() - i,
{
    if i < 0 || i >= s.len() {
        i
    } else if s[i] != 40 {
        nonparen_end(s, i + 1)
    } else {
        i
    }
}

/// First index at or after `i` holding the byte `t`, or the end.
pub open spec fn byte_end(s: Seq<u8>, i: int, t: u8) -> int
    decreases s.len() - i,
{
    if i < 0 || i >= s.len() {
        i
    } else if s[i] != t {
        byte_end(s, i + 1, t)
    } else {
        i
    }
}

pub fn scan_to_byte(s: &Vec<u8>, from: usize, t: u8) -> (r: usize)
    requires
        from <= s.len(),
    ensures
        r == byte_end(s@, from as int, t),
        from <= r <= s.len(),
{
    let mut j: usize = from;
    while j < s.len() && s[j] != t
        invariant
            from <= j <= s.len(),
            byte_end(s@, from as int, t) == byte_end(s@, j as int, t),
        decreases s.len() - j,
    {
        assert(byte_end(s@, j as int, t) == byte_end(s@, j + 1 as int, t));
        j = j + 1;
    }
    assert(byte_end(s@, j as int, t) == j);
    j
}

pub fn scan_ws(s: &Vec<u8>, from: usize) -> (r: usize)
    requires
        from <= s.len(),
    ensures
        r == ws_end(s@, from as int),
        from <= r <= s.len(),
{
    let mut j: usize = from;
    while j < s.len() && is_sp_b(s[j])
        invariant
            from <= j <= s.len(),
            ws_end(s@, from as int) == ws_end(s@, j as int),
        decreases s.len() - j,
    {
        assert(ws_end(s@, j as int) == ws_end(s@, j + 1 as int));
        j = j + 1;
    }
    assert(ws_end(s@, j as int) == j);
    j
}

pub fn scan_word(s: &Vec<u8>, from: usize) -> (r: usize)
    requires
        from <= s.len(),
    ensures
        r == word_end(s@, from as int),
        from <= r <= s.len(),
{
    let mut j: usize = from;
    while j < s.len() && is_word_b(s[j])
        invariant
            from <= j <= s.len(),
            word_end(s@, from as int) == word_end(s@, j as int),
        decreases s.len() - j,
    {
        assert(word_end(s@, j as int) == word_end(s@, j + 1 as int));
        j = j + 1;
    }
    assert(word_end(s@, j as int) == j);
    j
}

pub fn scan_hexdash(s: &Vec<u8>, from: usize) -> (r: usize)
    requires
        from <= s.len(),
    ensures
        r == hexdash_end(s@, from as int),
        from <= r <= s.len(),
{
    let mut j: usize = from;
    while j < s.len() && is_hexdash_b(s[j])
        invariant
            from <= j <= s.len(),
            hexdash_end(s@, from as int) == hexdash_end(s@, j as int),
        decreases s.len() - j,
    {
        assert(hexdash_end(s@, j as int) == hexdash_end(s@, j + 1 as int));
        j = j + 1;
    }
    assert(hexdash_end(s@, j as int) == j);
    j
}

pub fn scan_nonws(s: &Vec<u8>, from: usize) -> (r: usize)
    requires
        from <= s.len(),
    ensures
        r == nonws_end(s@, from as int),
        from <= r <= s.len(),
{
    let mut j: usize = from;
    while j < s.len() && !is_sp_b(s[j])
        invariant
            from <= j <= s.len(),
            nonws_end(s@, from as int) == nonws_end(s@, j as int),
        decreases s.len() - j,
    {
        assert(nonws_end(s@, j as int) == nonws_end(s@, j + 1 as int));
        j = j + 1;
    }
    assert(nonws_end(s@, j as int) == j);
    j
}

pub fn scan_to_paren(s: &Vec<u8>, from: usize) -> (r: usize)
    requires
        from <= s.len(),
    ensures
        r == nonparen_end(s@, from as int),
        from <= r <= s.len(),
{
    let mut j: usize = from;
    while j < s.len() && s[j] != 40
        invariant
            from <= j <= s.len(),
            nonparen_end(s@, from as int) == nonparen_end(s@, j as int),
        decreases s.len() - j,
    {
        assert(nonparen_end(s@, j as int) == nonparen_end(s@, j + 1 as int));
        j = j + 1;
    }
    assert(nonparen_end(s@, j as int) == j);
    j
}

/// The bytes at `i` spell out `pat`.
pub open spec fn lit_at(s: Seq<u8>, i: int, pat: Seq<u8>) -> bool {
    &&& 0 <= i
    &&& i + pat.len() <= s.len()
    &&& forall|k: int| 0 <= k < pat.len() ==> s[i + k] == pat[k]
}

pub fn match_at(s: &Vec<u8>, i: usize, pat: &Vec<u8>) -> (r: bool)
    ensures
        r == lit_at(s@, i as int, pat@),
{
    if i > s.len() || s.len() - i < pat.len() {
        return false;
    }
    let mut k: usize = 0;
    while k < pat.len()
        invariant
            0 <= k <= pat.len(),
            i + pat.len() <= s.len(),
            forall|m: int| 0 <= m < k ==> s@[i + m] == pat@[m],
        decreases pat.len() - k,
    {
        if s[i + k] != pat[k] {
            return false;
        }
        k = k + 1;
    }
    true
}

pub fn bytes_eq(a: &Vec<u8>, b: &Vec<u8>) -> (r: bool)
    ensures
        r == (a@ == b@),
{
    if a.len() != b.len() {
        return false;
    }
    let mut i: usize = 0;
    while i < a.len()
        invariant
            0 <= i <= a.len(),
            a.len() == b.len(),
            forall|k: int| 0 <= k < i ==> a@[k] == b@[k],
        decreases a.len() - i,
    {
        if a[i] != b[i] {
            return false;
        }
        i = i + 1;
    }
    proof {
        assert(a@ =~= b@);
    }
    true
}

pub fn copy_range(s: &Vec<u8>, from: usize, to: usize) -> (r: Vec<u8>)
    requires
        from <= to <= s.len(),
    ensures
        r@ == s@.subrange(from as int, to as int),
{
    let mut r: Vec<u8> = Vec::new();
    let mut j: usize = from;
    while j < to
        invariant
            from <= j <= to <= s.len(),
            r@ == s@.subrange(from as int, j as int),
        decreases to - j,
    {
        r.push(s[j]);
        j = j + 1;
        assert(r@ =~= s@.subrange(from as int, j as int));
    }
    r
}

pub fn clone_bytes(s: &Vec<u8>) -> (r: Vec<u8>)
    ensures
        r@ == s@,
{
    let r = copy_range(s, 0, s.len());
    assert(s@.subrange(0, s@.len() as int) =~= s@);
    r
}

/// Keeps only the last `max` lines of a text file's contents: what the
/// process's own log writer does to its file on startup so it does not
/// grow without bound.
pub fn keep_last(lines: Vec<String>, max: usize) -> (r: Vec<String>)
    ensures
        lines@.len() <= max ==> r@ == lines@,
        lines@.len() > max ==> r@ == lines@.skip(lines@.len() - (max as int)),
{
    if lines.len() <= max {
        return lines;
    }
    let ghost orig = lines@;
    let mut rest = lines;
    let mut tmp: Vec<String> = Vec::new();
    while tmp.len() < max
        invariant
            max < orig.len(),
            tmp@.len() <= max,
            rest@.len() + tmp@.len() == orig.len(),
            rest@ == orig.subrange(0, rest@.len() as int),
            forall|k: int| 0 <= k < tmp@.len() ==> tmp@[k] == orig[orig.len() - 1 - k],
        decreases max - tmp@.len(),
    {
        let s = rest.pop().unwrap();
        tmp.push(s);
        proof {
            assert(rest@ =~= orig.subrange(0, rest@.len() as int));
        }
    }
    let mut r: Vec<String> = Vec::new();
    while tmp.len() > 0
        invariant
            max < orig.len(),
            r@.len() + tmp@.len() == max,
            forall|k: int| 0 <= k < tmp@.len() ==> tmp@[k] == orig[orig.len() - 1 - k],
            forall|m: int| 0 <= m < r@.len() ==> r@[m] == orig[orig.len() - (max as int) + m],
        decreases tmp@.len(),
    {
        let s = tmp.pop().unwrap();
        r.push(s);
    }
    proof {
        assert(r@ =~= orig.skip(orig.len() - (max as int)));
    }
    r
}

/// `s` with trailing whitespace removed.
pub open spec fn rtrim(s: Seq<u8>) -> Seq<u8>
    decreases s.len(),
{
    if s.len() > 0 && sp(s[s.len() - 1]) {
        rtrim(s.drop_last())
    } else {
        s
    }
}

/// `s` with leading and trailing whitespace removed.
pub open spec fn trim(s: Seq<u8>) -> Seq<u8> {
    rtrim(s).subrange(ws_end(rtrim(s), 0), rtrim(s).len() as int)
}

/// Copies `s[from..to]` with surrounding whitespace removed.
pub fn trim_range(s: &Vec<u8>, from: usize, to: usize) -> (r: Vec<u8>)
    requires
        from <= to <= s.len(),
    ensures
        r@ == trim(s@.subrange(from as int, to as int)),
{
    let ghost orig = s@.subrange(from as int, to as int);
    let mut v = copy_range(s, from, to);
    while v.len() > 0 && is_sp_b(v[v.len() - 1])
        invariant
            rtrim(v@) == rtrim(orig),
        decreases v.len(),
    {
        let ghost before = v@;
        v.pop();
        assert(v@ == before.drop_last());
        assert(rtrim(before) == rtrim(v@));
    }
    assert(rtrim(v@) == v@);
    let ghost kept = v@;
    let mut j: usize = 0;
    while j < v.len() && is_sp_b(v[j])
        invariant
            0 <= j <= v.len(),
            v@ == kept,
            ws_end(v@, 0) == ws_end(v@, j as int),
        decreases v.len() - j,
    {
        assert(ws_end(v@, j as int) == ws_end(v@, j + 1 as int));
        j = j + 1;
    }
    assert(ws_end(v@, j as int) == j);
    copy_range(&v, j, v.len())
}

} // verus!
