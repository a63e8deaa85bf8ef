//! Character-level text operations with their specifications: whitespace
//! trimming, line splitting and joining, prefix and substring tests, and
//! decimal rendering of integers.

use vstd::prelude::*;

verus! {

// ---------------------------------------------------------------------------
// Specifications
// ---------------------------------------------------------------------------

/// Unicode `White_Space`, the property that `char::is_whitespace` and the
/// `trim` family of `str` go by.
pub open spec fn is_ws(c: char) -> bool {
    let n = c as u32;
    ||| 0x9 <= n <= 0xd
    ||| n == 0x20
    ||| n == 0x85
    ||| n == 0xa0
    ||| n == 0x1680
    ||| 0x2000 <= n <= 0x200a
    ||| n == 0x2028
    ||| n == 0x2029
    ||| n == 0x202f
    ||| n == 0x205f
    ||| n == 0x3000
}

/// `s` without its leading whitespace.
pub open spec fn trim_start_seq(s: Seq<char>) -> Seq<char>
    decreases s.len(),
{
    if s.len() > 0 && is_ws(s[0]) {
        trim_start_seq(s.drop_first())
    } else {
        s
    }
}

/// `s` without its trailing whitespace.
pub open spec fn trim_end_seq(s: Seq<char>) -> Seq<char>
    decreases s.len(),
{
    if s.len() > 0 && is_ws(s.last()) {
        trim_end_seq(s.drop_last())
    } else {
        s
    }
}

/// `s` without leading and trailing whitespace.
pub open spec fn trim_seq(s: Seq<char>) -> Seq<char> {
    trim_end_seq(trim_start_seq(s))
}

/// Whether `s` begins with `p`.
pub open spec fn has_prefix(s: Seq<char>, p: Seq<char>) -> bool {
    p.len() <= s.len() && s.take(p.len() as int) == p
}

/// Whether `p` occurs in `s` as a contiguous piece.
pub open spec fn has_infix(s: Seq<char>, p: Seq<char>) -> bool {
    exists|i: int| 0 <= i && i + p.len() <= s.len() && #[trigger] s.subrange(i, i + p.len()) == p
}

/// Index of the first `'\n'` in `s`, or `s.len()` when there is none.
pub open spec fn first_newline(s: Seq<char>) -> nat
    decreases s.len(),
{
    if s.len() == 0 {
        0
    } else if s[0] == '\n' {
        0
    } else {
        1 + first_newline(s.drop_first())
    }
}

/// `s` without one final `'\r'`.
pub open spec fn strip_cr(s: Seq<char>) -> Seq<char> {
    if s.len() > 0 && s.last() == '\r' {
        s.drop_last()
    } else {
        s
    }
}

/// The lines of `s` as `str::lines` yields them: split at `"\n"` or
/// `"\r\n"`, terminators removed, no line after a final terminator, none at
/// all for an empty text.
pub open spec fn lines_seq(s: Seq<char>) -> Seq<Seq<char>>
    decreases s.len(),
{
    if s.len() == 0 {
        seq![]
    } else {
        let k = first_newline(s);
        if k >= s.len() {
            seq![s]
        } else {
            seq![strip_cr(s.take(k as int))] + lines_seq(s.skip(k as int + 1))
        }
    }
}

/// The pieces of `ls` with `sep` between each two neighbours.
pub open spec fn join_seq(ls: Seq<Seq<char>>, sep: Seq<char>) -> Seq<char>
    decreases ls.len(),
{
    if ls.len() == 0 {
        seq![]
    } else if ls.len() == 1 {
        ls[0]
    } else {
        join_seq(ls.drop_last(), sep) + sep + ls.last()
    }
}

/// The views of a sequence of character vectors.
pub open spec fn views(ls: Seq<Vec<char>>) -> Seq<Seq<char>> {
    ls.map_values(|l: Vec<char>| l@)
}

/// The decimal digit for `d < 10`.
pub open spec fn digit(d: nat) -> char {
    if d == 0 {
        '0'
    } else if d == 1 {
        '1'
    } else if d == 2 {
        '2'
    } else if d == 3 {
        '3'
    } else if d == 4 {
        '4'
    } else if d == 5 {
        '5'
    } else if d == 6 {
        '6'
    } else if d == 7 {
        '7'
    } else if d == 8 {
        '8'
    } else {
        '9'
    }
}

/// The decimal numeral of `n`, as `Display` writes an unsigned integer:
/// no sign, no leading zeros, `"0"` for zero.
pub open spec fn decimal(n: nat) -> Seq<char>
    decreases n,
{
    if n < 10 {
        seq![digit(n)]
    } else {
        decimal(n / 10).push(digit(n % 10))
    }
}

/// Names what `str::to_lowercase` returns for a text: its lowercase
/// equivalent under Unicode's `Lowercase` property.
pub uninterp spec fn lowercase(s: Seq<char>) -> Seq<char>;

// ---------------------------------------------------------------------------
// Lemmas
// ---------------------------------------------------------------------------

/// The first line feed of `s` is at `k` when none comes before `k` and `k`
/// holds one or is the end.
pub proof fn lemma_first_newline(s: Seq<char>, k: int)
    requires
        0 <= k <= s.len(),
        forall|m: int| 0 <= m < k ==> s[m] != '\n',
        k == s.len() || s[k] == '\n',
    ensures
        first_newline(s) == k,
    decreases k,
{
    if k > 0 {
        lemma_first_newline(s.drop_first(), k - 1);
    }
}

proof fn lemma_views_push(ls: Seq<Vec<char>>, l: Vec<char>)
    ensures
        views(ls.push(l)) == views(ls).push(l@),
{
    assert(views(ls.push(l)) =~= views(ls).push(l@));
}

/// Joining one more piece adds the separator and the piece (or is the piece
/// alone).
pub proof fn lemma_join_push(ls: Seq<Seq<char>>, l: Seq<char>, sep: Seq<char>)
    ensures
        join_seq(ls.push(l), sep) == if ls.len() == 0 {
            l
        } else {
            join_seq(ls, sep) + sep + l
        },
{
    assert(ls.push(l).drop_last() =~= ls);
}

// ---------------------------------------------------------------------------
// Trusted std calls
// ---------------------------------------------------------------------------

/// Calls `str::to_lowercase`; the contract says only that the result is the
/// named lowercase form of the argument.
#[verifier::external_body]
pub fn to_lowercase(s: &str) -> (r: String)
    ensures
        r@ == lowercase(s@),
{
    s.to_lowercase()
}

/// Collects characters into a `String` (`FromIterator<&char>`), keeping
/// them in order.
#[verifier::external_body]
pub fn string_from_chars(v: &[char]) -> (r: String)
    ensures
        r@ == v@,
{
    v.iter().collect()
}

// ---------------------------------------------------------------------------
// Executable operations
// ---------------------------------------------------------------------------

/// The characters of `s`, in order.
pub fn chars_of(s: &str) -> (v: Vec<char>)
    ensures
        v@ == s@,
{
    let mut v: Vec<char> = Vec::new();
    for c in it: s.chars()
        invariant
            v@ == it.seq().take(it.index()),
    {
        v.push(c);
    }
    v
}

/// Whether `c` is whitespace (`char::is_whitespace`).
pub fn is_whitespace(c: char) -> (b: bool)
    ensures
        b == is_ws(c),
{
    let n = c as u32;
    (0x9 <= n && n <= 0xd) || n == 0x20 || n == 0x85 || n == 0xa0 || n == 0x1680 || (0x2000 <= n
        && n <= 0x200a) || n == 0x2028 || n == 0x2029 || n == 0x202f || n == 0x205f || n == 0x3000
}

/// The piece `s[lo..hi]` as a new vector.
pub fn copy_range(s: &[char], lo: usize, hi: usize) -> (r: Vec<char>)
    requires
        lo <= hi <= s@.len(),
    ensures
        r@ == s@.subrange(lo as int, hi as int),
{
    let mut r: Vec<char> = Vec::new();
    let mut i = lo;
    while i < hi
        invariant
            lo <= i <= hi <= s@.len(),
            r@ == s@.subrange(lo as int, i as int),
        decreases hi - i,
    {
        r.push(s[i]);
        i = i + 1;
        assert(r@ =~= s@.subrange(lo as int, i as int));
    }
    r
}

/// Index of the first non-whitespace character of `s[lo..hi]`, or `hi`.
fn skip_ws_forward(s: &[char], lo: usize, hi: usize) -> (k: usize)
    requires
        lo <= hi <= s@.len(),
    ensures
        lo <= k <= hi,
        trim_start_seq(s@.subrange(lo as int, hi as int)) == s@.subrange(k as int, hi as int),
{
    let mut k = lo;
    while k < hi && is_whitespace(s[k])
        invariant
            lo <= k <= hi <= s@.len(),
            trim_start_seq(s@.subrange(lo as int, hi as int)) == trim_start_seq(
                s@.subrange(k as int, hi as int),
            ),
        decreases hi - k,
    {
        assert(s@.subrange(k as int, hi as int).drop_first() =~= s@.subrange(
            k + 1,
            hi as int,
        ));
        k = k + 1;
    }
    k
}

/// Index just past the last non-whitespace character of `s[lo..hi]`, or `lo`.
fn skip_ws_backward(s: &[char], lo: usize, hi: usize) -> (k: usize)
    requires
        lo <= hi <= s@.len(),
    ensures
        lo <= k <= hi,
        trim_end_seq(s@.subrange(lo as int, hi as int)) == s@.subrange(lo as int, k as int),
{
    let mut k = hi;
    while k > lo && is_whitespace(s[k - 1])
        invariant
            lo <= k <= hi <= s@.len(),
            trim_end_seq(s@.subrange(lo as int, hi as int)) == trim_end_seq(
                s@.subrange(lo as int, k as int),
            ),
        decreases k - lo,
    {
        assert(s@.subrange(lo as int, k as int).drop_last() =~= s@.subrange(
            lo as int,
            k - 1,
        ));
        k = k - 1;
    }
    k
}

/// `s` without leading whitespace (`str::trim_start`).
pub fn trim_start(s: &[char]) -> (r: Vec<char>)
    ensures
        r@ == trim_start_seq(s@),
{
    assert(s@.subrange(0, s@.len() as int) =~= s@);
    let k = skip_ws_forward(s, 0, s.len());
    copy_range(s, k, s.len())
}

/// `s` without trailing whitespace (`str::trim_end`).
pub fn trim_end(s: &[char]) -> (r: Vec<char>)
    ensures
        r@ == trim_end_seq(s@),
{
    assert(s@.subrange(0, s@.len() as int) =~= s@);
    let k = skip_ws_backward(s, 0, s.len());
    copy_range(s, 0, k)
}

/// `s` without leading and trailing whitespace (`str::trim`).
pub fn trim(s: &[char]) -> (r: Vec<char>)
    ensures
        r@ == trim_seq(s@),
{
    let t = trim_start(s);
    trim_end(t.as_slice())
}

/// Whether `s` begins with `p`.
pub fn starts_with(s: &[char], p: &[char]) -> (b: bool)
    ensures
        b == has_prefix(s@, p@),
{
    if p.len() > s.len() {
        return false;
    }
    let mut i: usize = 0;
    while i < p.len()
        invariant
            p@.len() <= s@.len(),
            i <= p@.len(),
            forall|j: int| 0 <= j < i ==> s@[j] == p@[j],
        decreases p.len() - i,
    {
        if s[i] != p[i] {
            assert(s@.take(p@.len() as int)[i as int] != p@[i as int]);
            return false;
        }
        i = i + 1;
    }
    assert(s@.take(p@.len() as int) =~= p@);
    true
}

/// Whether `p` occurs in `s` (`str::contains` with a text pattern).
pub fn contains(s: &[char], p: &[char]) -> (b: bool)
    ensures
        b == has_infix(s@, p@),
{
    if p.len() > s.len() {
        return false;
    }
    if p.len() == 0 {
        assert(s@.subrange(0int, 0int + p@.len()) =~= p@);
        return true;
    }
    let n = s.len();
    let last = s.len() - p.len();
    let mut i: usize = 0;
    while i <= last
        invariant
            p@.len() <= s@.len(),
            0 < p@.len(),
            n == s@.len(),
            last == s@.len() - p@.len(),
            i <= last + 1,
            forall|j: int| 0 <= j < i ==> #[trigger] s@.subrange(j, j + p@.len()) != p@,
        decreases last + 1 - i,
    {
        let mut k: usize = 0;
        let mut same = true;
        while k < p.len()
            invariant
                p@.len() <= s@.len(),
                n == s@.len(),
                last == s@.len() - p@.len(),
                i <= last,
                k <= p@.len(),
                same ==> forall|m: int| 0 <= m < k ==> s@[i + m] == p@[m],
                !same ==> s@.subrange(i as int, i + p@.len()) != p@,
            decreases p.len() - k,
        {
            if s[i + k] != p[k] {
                assert(s@.subrange(i as int, i + p@.len())[k as int] != p@[k as int]);
                same = false;
            }
            k = k + 1;
        }
        if same {
            assert(s@.subrange(i as int, i + p@.len()) =~= p@);
            return true;
        }
        i = i + 1;
    }
    assert forall|j: int| 0 <= j && j + p@.len() <= s@.len() implies #[trigger] s@.subrange(
        j,
        j + p@.len(),
    ) != p@ by {
        assert(j < i);
    }
    false
}

/// The lines of `s` (`str::lines`).
pub fn split_lines(s: &[char]) -> (ls: Vec<Vec<char>>)
    ensures
        views(ls@) == lines_seq(s@),
{
    let mut ls: Vec<Vec<char>> = Vec::new();
    let n = s.len();
    let mut i: usize = 0;
    assert(s@.skip(0) =~= s@);
    assert(views(ls@) =~= seq![]);
    while i < n
        invariant
            n == s@.len(),
            i <= n,
            lines_seq(s@) == views(ls@) + lines_seq(s@.skip(i as int)),
        decreases n - i,
    {
        let mut j = i;
        while j < n && s[j] != '\n'
            invariant
                n == s@.len(),
                i <= j <= n,
                forall|m: int| i <= m < j ==> s@[m] != '\n',
            decreases n - j,
        {
            j = j + 1;
        }
        let ghost rest = s@.skip(i as int);
        proof {
            lemma_first_newline(rest, j - i);
        }
        let ghost old_ls = ls@;
        if j < n {
            let end = if j > i && s[j - 1] == '\r' {
                j - 1
            } else {
                j
            };
            let line = copy_range(s, i, end);
            assert(line@ =~= strip_cr(rest.take(j - i)));
            ls.push(line);
            proof {
                lemma_views_push(old_ls, line);
                assert(rest.skip(j - i + 1) =~= s@.skip(j + 1));
                assert(lines_seq(rest) == seq![line@] + lines_seq(s@.skip(j + 1)));
                assert(views(ls@) + lines_seq(s@.skip(j + 1)) =~= views(old_ls) + (seq![line@]
                    + lines_seq(s@.skip(j + 1))));
            }
            i = j + 1;
        } else {
            let line = copy_range(s, i, n);
            assert(line@ =~= rest);
            ls.push(line);
            proof {
                lemma_views_push(old_ls, line);
                assert(lines_seq(rest) == seq![line@]);
                assert(s@.skip(n as int) =~= Seq::<char>::empty());
                assert(views(ls@) + lines_seq(s@.skip(n as int)) =~= views(old_ls) + seq![line@]);
            }
            i = n;
        }
    }
    assert(s@.skip(n as int) =~= Seq::<char>::empty());
    assert(views(ls@) + lines_seq(s@.skip(n as int)) =~= views(ls@));
    ls
}

/// The lines joined by `'\n'` (`[String]::join("\n")`).
pub fn join_lines(ls: &Vec<Vec<char>>) -> (r: String)
    ensures
        r@ == join_seq(views(ls@), seq!['\n']),
{
    let mut out: Vec<char> = Vec::new();
    let mut i: usize = 0;
    while i < ls.len()
        invariant
            i <= ls@.len(),
            out@ == join_seq(views(ls@.take(i as int)), seq!['\n']),
        decreases ls.len() - i,
    {
        let ghost before = ls@.take(i as int);
        if i > 0 {
            out.push('\n');
        }
        let line = &ls[i];
        let mut k: usize = 0;
        let ghost start = out@;
        while k < line.len()
            invariant
                k <= line@.len(),
                out@ == start + line@.take(k as int),
            decreases line.len() - k,
        {
            out.push(line[k]);
            k = k + 1;
            assert(out@ =~= start + line@.take(k as int));
        }
        proof {
            assert(line@.take(line@.len() as int) =~= line@);
            assert(ls@.take(i + 1) =~= before.push(ls@[i as int]));
            lemma_views_push(before, ls@[i as int]);
            lemma_join_push(views(before), ls@[i as int]@, seq!['\n']);
        }
        i = i + 1;
    }
    assert(ls@.take(ls@.len() as int) =~= ls@);
    string_from_chars(out.as_slice())
}

/// The decimal numeral of `n` (`u128::to_string`).
pub fn decimal_string(n: u128) -> (r: String)
    ensures
        r@ == decimal(n as nat),
{
    let mut digits: Vec<char> = Vec::new();
    let mut m = n;
    // digits are collected least significant first, then reversed
    loop
        invariant_except_break
            decimal(n as nat) == decimal(m as nat) + digits@.reverse(),
        ensures
            decimal(n as nat) == digits@.reverse(),
        decreases m,
    {
        let d = (m % 10) as u8;
        let c = digit_char(d);
        if m < 10 {
            proof {
                assert(digits@.push(c).reverse() =~= seq![c] + digits@.reverse());
                assert(decimal(m as nat) == seq![c]);
            }
            digits.push(c);
            break;
        }
        proof {
            assert(decimal(m as nat) == decimal((m / 10) as nat).push(digit((m % 10) as nat)));
            assert(digits@.push(c).reverse() =~= seq![c] + digits@.reverse());
            assert(decimal((m / 10) as nat).push(c) + digits@.reverse() =~= decimal(
                (m / 10) as nat,
            ) + (seq![c] + digits@.reverse()));
        }
        digits.push(c);
        m = m / 10;
    }
    let mut out: Vec<char> = Vec::new();
    let mut k = digits.len();
    while k > 0
        invariant
            k <= digits@.len(),
            out@ == digits@.reverse().take(digits@.len() - k),
        decreases k,
    {
        k = k - 1;
        out.push(digits[k]);
        assert(out@ =~= digits@.reverse().take(digits@.len() - k));
    }
    assert(digits@.reverse().take(digits@.len() as int) =~= digits@.reverse());
    string_from_chars(out.as_slice())
}

fn digit_char(d: u8) -> (c: char)
    requires
        d < 10,
    ensures
        c == digit(d as nat),
{
    if d == 0 {
        '0'
    } else if d == 1 {
        '1'
    } else if d == 2 {
        '2'
    } else if d == 3 {
        '3'
    } else if d == 4 {
        '4'
    } else if d == 5 {
        '5'
    } else if d == 6 {
        '6'
    } else if d == 7 {
        '7'
    } else if d == 8 {
        '8'
    } else {
        '9'
    }
}

} // verus!
