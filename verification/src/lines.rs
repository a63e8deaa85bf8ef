//! Facts about trimming text, splitting it into lines and joining lines back
//! together, as the specifications in [`crate::text`] define them.

use vstd::prelude::*;
use crate::text::{first_newline, is_ws, join_seq, lemma_first_newline, lines_seq, strip_cr,
    trim_end_seq, trim_seq, trim_start_seq,
};

verus! {

// ---------------------------------------------------------------------------
// Trimming
// ---------------------------------------------------------------------------

/// Trimming the end twice is trimming it once.
pub proof fn lemma_trim_end_idem(s: Seq<char>)
    ensures
        trim_end_seq(trim_end_seq(s)) == trim_end_seq(s),
    decreases s.len(),
{
    if s.len() > 0 && is_ws(s.last()) {
        lemma_trim_end_idem(s.drop_last());
    }
}

/// Dropping a final whitespace character and then trimming the start is
/// trimming the start and then dropping that character (when anything is
/// left).
pub proof fn lemma_trim_start_drop_last(s: Seq<char>)
    requires
        s.len() > 0,
        is_ws(s.last()),
    ensures
        trim_start_seq(s.drop_last()) == if trim_start_seq(s).len() == 0 {
            Seq::<char>::empty()
        } else {
            trim_start_seq(s).drop_last()
        },
        trim_start_seq(s).len() > 0 ==> trim_start_seq(s).last() == s.last(),
    decreases s.len(),
{
    if is_ws(s[0]) {
        assert(trim_start_seq(s) == trim_start_seq(s.drop_first()));
        if s.len() == 1 {
            assert(s.drop_first() =~= Seq::<char>::empty());
            assert(s.drop_last() =~= Seq::<char>::empty());
        } else {
            let t = s.drop_first();
            assert(t.last() == s.last());
            lemma_trim_start_drop_last(t);
            assert(s.drop_last().drop_first() =~= t.drop_last());
            assert(s.drop_last()[0] == s[0]);
            assert(trim_start_seq(s.drop_last()) == trim_start_seq(s.drop_last().drop_first()));
        }
    } else {
        assert(s.len() >= 2);
        assert(s.drop_last()[0] == s[0]);
        assert(trim_start_seq(s) == s);
        assert(trim_start_seq(s.drop_last()) == s.drop_last());
    }
}

/// Trimming the start and trimming the end commute.
pub proof fn lemma_trim_commute(s: Seq<char>)
    ensures
        trim_start_seq(trim_end_seq(s)) == trim_end_seq(trim_start_seq(s)),
    decreases s.len(),
{
    if s.len() > 0 && is_ws(s.last()) {
        lemma_trim_commute(s.drop_last());
        lemma_trim_start_drop_last(s);
        let u = trim_start_seq(s);
        if u.len() > 0 {
            assert(trim_end_seq(u) == trim_end_seq(u.drop_last()));
        }
    } else if s.len() > 0 {
        lemma_trim_start_ends(s);
    }
}

/// Trimming the start keeps a final character that is not whitespace.
proof fn lemma_trim_start_ends(s: Seq<char>)
    requires
        s.len() > 0,
        !is_ws(s.last()),
    ensures
        trim_start_seq(s).len() > 0,
        trim_start_seq(s).last() == s.last(),
    decreases s.len(),
{
    if is_ws(s[0]) {
        assert(s.len() > 1);
        assert(s.drop_first().last() == s.last());
        lemma_trim_start_ends(s.drop_first());
    }
}

/// The trimmed form of a line depends only on the line without its trailing
/// whitespace.
pub proof fn lemma_trim_by_end(a: Seq<char>, b: Seq<char>)
    requires
        trim_end_seq(a) == trim_end_seq(b),
    ensures
        trim_seq(a) == trim_seq(b),
{
    lemma_trim_commute(a);
    lemma_trim_commute(b);
}

/// Dropping a final carriage return does not change the trimmed line.
pub proof fn lemma_trim_strip_cr(l: Seq<char>)
    ensures
        trim_seq(strip_cr(l)) == trim_seq(l),
{
    if l.len() > 0 && l.last() == '\r' {
        assert(is_ws('\r'));
        assert(trim_end_seq(l) == trim_end_seq(l.drop_last()));
    }
    lemma_trim_by_end(strip_cr(l), l);
}

// ---------------------------------------------------------------------------
// Lines
// ---------------------------------------------------------------------------

/// `s` holds no line feed.
pub open spec fn no_newline(s: Seq<char>) -> bool {
    forall|i: int| 0 <= i < s.len() ==> s[i] != '\n'
}

/// `s` holds no carriage return directly followed by a line feed.
pub open spec fn no_crlf(s: Seq<char>) -> bool {
    forall|i: int| 0 <= i && i + 1 < s.len() ==> !(s[i] == '\r' && #[trigger] s[i + 1] == '\n')
}

/// A line as `str::lines` can yield it and give it back unchanged: no line
/// feed, and no carriage return at its end.
pub open spec fn clean_line(l: Seq<char>) -> bool {
    no_newline(l) && !(l.len() > 0 && l.last() == '\r')
}

/// `first_newline` is the index of the first line feed, or the length.
pub proof fn lemma_first_newline_props(s: Seq<char>)
    ensures
        first_newline(s) <= s.len(),
        forall|i: int| 0 <= i < first_newline(s) ==> s[i] != '\n',
        first_newline(s) < s.len() ==> s[first_newline(s) as int] == '\n',
    decreases s.len(),
{
    if s.len() > 0 && s[0] != '\n' {
        lemma_first_newline_props(s.drop_first());
        assert forall|i: int| 0 <= i < first_newline(s) implies s[i] != '\n' by {
            if i > 0 {
                assert(s[i] == s.drop_first()[i - 1]);
            }
        }
    }
}

/// Splitting at a line feed that ends the first line.
pub proof fn lemma_lines_split(a: Seq<char>, b: Seq<char>)
    requires
        no_newline(a),
    ensures
        lines_seq(a + seq!['\n'] + b) == seq![strip_cr(a)] + lines_seq(b),
{
    let s = a + seq!['\n'] + b;
    assert forall|m: int| 0 <= m < a.len() implies s[m] != '\n' by {
        assert(s[m] == a[m]);
    }
    lemma_first_newline(s, a.len() as int);
    assert(s.take(a.len() as int) =~= a);
    assert(s.skip(a.len() as int + 1) =~= b);
}

/// A text without line feeds is one line (none when it is empty).
pub proof fn lemma_lines_single(a: Seq<char>)
    requires
        no_newline(a),
    ensures
        lines_seq(a) == if a.len() == 0 {
            Seq::<Seq<char>>::empty()
        } else {
            seq![a]
        },
{
    if a.len() > 0 {
        lemma_first_newline(a, a.len() as int);
    }
}

/// A text with a line feed is its first line and the lines after it.
pub proof fn lemma_lines_at_first(s: Seq<char>)
    requires
        first_newline(s) < s.len(),
    ensures
        no_newline(s.take(first_newline(s) as int)),
        s == s.take(first_newline(s) as int) + seq!['\n'] + s.skip(first_newline(s) as int + 1),
        lines_seq(s) == seq![strip_cr(s.take(first_newline(s) as int))] + lines_seq(
            s.skip(first_newline(s) as int + 1),
        ),
{
    lemma_first_newline_props(s);
    let k = first_newline(s) as int;
    assert(s =~= s.take(k) + seq!['\n'] + s.skip(k + 1));
}

/// No line of a text holds a line feed.
pub proof fn lemma_lines_no_newline(s: Seq<char>)
    ensures
        forall|j: int| 0 <= j < lines_seq(s).len() ==> no_newline(#[trigger] lines_seq(s)[j]),
    decreases s.len(),
{
    lemma_first_newline_props(s);
    if s.len() > 0 {
        let k = first_newline(s);
        if k < s.len() {
            lemma_lines_at_first(s);
            let rest = s.skip(k as int + 1);
            lemma_lines_no_newline(rest);
            let a = s.take(k as int);
            assert(no_newline(strip_cr(a)));
            assert forall|j: int| 0 <= j < lines_seq(s).len() implies no_newline(
                #[trigger] lines_seq(s)[j],
            ) by {
                if j > 0 {
                    assert(lines_seq(s)[j] == lines_seq(rest)[j - 1]);
                }
            }
        } else {
            assert(no_newline(s));
        }
    }
}

/// Joining a first line to a non-empty rest.
pub proof fn lemma_join_front(a: Seq<char>, rest: Seq<Seq<char>>, sep: Seq<char>)
    requires
        rest.len() > 0,
    ensures
        join_seq(seq![a] + rest, sep) == a + sep + join_seq(rest, sep),
    decreases rest.len(),
{
    let ls = seq![a] + rest;
    assert(ls.last() == rest.last());
    if rest.len() == 1 {
        assert(ls.drop_last() =~= seq![a]);
        assert(join_seq(seq![a], sep) == a);
        assert(join_seq(rest, sep) == rest[0]);
        assert(join_seq(ls, sep) == join_seq(ls.drop_last(), sep) + sep + ls.last());
    } else {
        lemma_join_front(a, rest.drop_last(), sep);
        assert(ls.drop_last() =~= seq![a] + rest.drop_last());
        assert(join_seq(ls, sep) == join_seq(ls.drop_last(), sep) + sep + ls.last());
        assert(join_seq(rest, sep) == join_seq(rest.drop_last(), sep) + sep + rest.last());
        assert(a + sep + join_seq(rest.drop_last(), sep) + sep + rest.last() =~= a + sep + (
        join_seq(rest.drop_last(), sep) + sep + rest.last()));
    }
}

/// Splitting joined clean lines gives them back, but for a final empty line.
pub proof fn lemma_lines_of_join(ls: Seq<Seq<char>>)
    requires
        forall|i: int| 0 <= i < ls.len() ==> clean_line(#[trigger] ls[i]),
    ensures
        lines_seq(join_seq(ls, seq!['\n'])) == if ls.len() > 0 && ls.last().len() == 0 {
            ls.drop_last()
        } else {
            ls
        },
    decreases ls.len(),
{
    if ls.len() == 1 {
        assert(clean_line(ls[0]));
        lemma_lines_single(ls[0]);
        if ls[0].len() == 0 {
            assert(ls.drop_last() =~= Seq::<Seq<char>>::empty());
        } else {
            assert(seq![ls[0]] =~= ls);
        }
    } else if ls.len() > 1 {
        let a = ls[0];
        let rest = ls.drop_first();
        assert(seq![a] + rest =~= ls);
        lemma_join_front(a, rest, seq!['\n']);
        assert(clean_line(a));
        lemma_lines_split(a, join_seq(rest, seq!['\n']));
        assert forall|i: int| 0 <= i < rest.len() implies clean_line(#[trigger] rest[i]) by {
            assert(rest[i] == ls[i + 1]);
        }
        lemma_lines_of_join(rest);
        assert(strip_cr(a) == a);
        if ls.last().len() == 0 {
            assert(seq![a] + rest.drop_last() =~= ls.drop_last());
        }
    }
}

/// Each line of joined lines (without line feeds) is one of them, or one
/// of them without its final carriage return.
pub proof fn lemma_lines_of_join_from(ls: Seq<Seq<char>>)
    requires
        forall|i: int| 0 <= i < ls.len() ==> no_newline(#[trigger] ls[i]),
    ensures
        forall|j: int|
            0 <= j < lines_seq(join_seq(ls, seq!['\n'])).len() ==> exists|i: int|
                0 <= i < ls.len() && (#[trigger] lines_seq(join_seq(ls, seq!['\n']))[j] == ls[i]
                    || lines_seq(join_seq(ls, seq!['\n']))[j] == strip_cr(ls[i])),
    decreases ls.len(),
{
    let out = lines_seq(join_seq(ls, seq!['\n']));
    if ls.len() == 1 {
        assert(no_newline(ls[0]));
        lemma_lines_single(ls[0]);
        assert forall|j: int| 0 <= j < out.len() implies exists|i: int|
            0 <= i < ls.len() && (#[trigger] out[j] == ls[i] || out[j] == strip_cr(ls[i])) by {
            assert(out[j] == ls[0]);
        }
    } else if ls.len() > 1 {
        let a = ls[0];
        let rest = ls.drop_first();
        assert(seq![a] + rest =~= ls);
        lemma_join_front(a, rest, seq!['\n']);
        assert(no_newline(a));
        lemma_lines_split(a, join_seq(rest, seq!['\n']));
        assert forall|i: int| 0 <= i < rest.len() implies no_newline(#[trigger] rest[i]) by {
            assert(rest[i] == ls[i + 1]);
        }
        lemma_lines_of_join_from(rest);
        let rout = lines_seq(join_seq(rest, seq!['\n']));
        assert forall|j: int| 0 <= j < out.len() implies exists|i: int|
            0 <= i < ls.len() && (#[trigger] out[j] == ls[i] || out[j] == strip_cr(ls[i])) by {
            if j == 0 {
                assert(out[0] == strip_cr(ls[0]));
            } else {
                assert(out[j] == rout[j - 1]);
                let i0 = choose|i: int|
                    0 <= i < rest.len() && (#[trigger] rout[j - 1] == rest[i] || rout[j - 1]
                        == strip_cr(rest[i]));
                assert(rest[i0] == ls[i0 + 1]);
            }
        }
    }
}

/// Splitting `t`, a line feed and `x`, where `t` does not end in a line
/// feed or carriage return: the lines of `t`, then those of `x`.
pub proof fn lemma_lines_concat(t: Seq<char>, x: Seq<char>)
    requires
        t.len() > 0,
        t.last() != '\n',
        t.last() != '\r',
    ensures
        lines_seq(t + seq!['\n'] + x) == lines_seq(t) + lines_seq(x),
    decreases t.len(),
{
    lemma_first_newline_props(t);
    let k = first_newline(t);
    if k < t.len() {
        lemma_lines_at_first(t);
        let t0 = t.take(k as int);
        let t1 = t.skip(k as int + 1);
        assert(t1.len() > 0);
        assert(t1.last() == t.last());
        lemma_lines_concat(t1, x);
        assert(t + seq!['\n'] + x =~= t0 + seq!['\n'] + (t1 + seq!['\n'] + x));
        lemma_lines_split(t0, t1 + seq!['\n'] + x);
    } else {
        assert(no_newline(t));
        lemma_lines_single(t);
        lemma_lines_split(t, x);
        assert(strip_cr(t) == t);
    }
}

/// Joining the lines of a text with line feeds gives it back when it holds
/// no `"\r\n"` and does not end in a line feed.
pub proof fn lemma_join_of_lines(s: Seq<char>)
    requires
        no_crlf(s),
        s.len() == 0 || s.last() != '\n',
    ensures
        join_seq(lines_seq(s), seq!['\n']) == s,
    decreases s.len(),
{
    if s.len() > 0 {
        lemma_first_newline_props(s);
        let k = first_newline(s);
        if k < s.len() {
            lemma_lines_at_first(s);
            let t0 = s.take(k as int);
            let t1 = s.skip(k as int + 1);
            assert(t1.len() > 0);
            assert(t1.last() == s.last());
            assert forall|i: int| 0 <= i && i + 1 < t1.len() implies !(t1[i] == '\r' && #[trigger] t1[
                i + 1] == '\n') by {
                assert(t1[i] == s[k + 1 + i]);
                assert(t1[i + 1] == s[k + 1 + i + 1]);
            }
            lemma_join_of_lines(t1);
            if t0.len() > 0 {
                assert(t0.last() == s[k - 1]);
                assert(s[k - 1 + 1] == '\n');
            }
            assert(strip_cr(t0) == t0);
            assert(lines_seq(t1).len() > 0);
            lemma_join_front(t0, lines_seq(t1), seq!['\n']);
        } else {
            assert(no_newline(s));
            lemma_lines_single(s);
        }
    }
}

/// The lines of a text that holds no `"\r\n"` and does not end in a
/// carriage return are clean.
pub proof fn lemma_lines_clean(s: Seq<char>)
    requires
        no_crlf(s),
        s.len() == 0 || s.last() != '\r',
    ensures
        forall|j: int| 0 <= j < lines_seq(s).len() ==> clean_line(#[trigger] lines_seq(s)[j]),
    decreases s.len(),
{
    lemma_lines_no_newline(s);
    if s.len() > 0 {
        lemma_first_newline_props(s);
        let k = first_newline(s);
        if k < s.len() {
            lemma_lines_at_first(s);
            let t0 = s.take(k as int);
            let t1 = s.skip(k as int + 1);
            assert forall|i: int| 0 <= i && i + 1 < t1.len() implies !(t1[i] == '\r' && #[trigger] t1[
                i + 1] == '\n') by {
                assert(t1[i] == s[k + 1 + i]);
                assert(t1[i + 1] == s[k + 1 + i + 1]);
            }
            if t1.len() > 0 {
                assert(t1.last() == s.last());
            }
            lemma_lines_clean(t1);
            if t0.len() > 0 {
                assert(t0.last() == s[k - 1]);
                assert(s[k - 1 + 1] == '\n');
            }
            assert(strip_cr(t0) == t0);
            assert forall|j: int| 0 <= j < lines_seq(s).len() implies clean_line(
                #[trigger] lines_seq(s)[j],
            ) by {
                if j > 0 {
                    assert(lines_seq(s)[j] == lines_seq(t1)[j - 1]);
                }
            }
        } else {
            assert(no_newline(s));
            lemma_lines_single(s);
        }
    }
}

/// `b` holds a character that is not whitespace.
pub open spec fn has_content(b: Seq<char>) -> bool {
    exists|i: int| 0 <= i < b.len() && !is_ws(#[trigger] b[i])
}

/// Trimming the end of `a`, a line feed and `b`.
pub proof fn lemma_trim_end_split(a: Seq<char>, b: Seq<char>)
    ensures
        trim_end_seq(a + seq!['\n'] + b) == if has_content(b) {
            a + seq!['\n'] + trim_end_seq(b)
        } else {
            trim_end_seq(a)
        },
    decreases b.len(),
{
    let s = a + seq!['\n'] + b;
    assert(is_ws('\n'));
    if b.len() == 0 {
        assert(s.drop_last() =~= a);
        assert(s.last() == '\n');
    } else if is_ws(b.last()) {
        assert(s.drop_last() =~= a + seq!['\n'] + b.drop_last());
        assert(s.last() == b.last());
        lemma_trim_end_split(a, b.drop_last());
        if has_content(b) {
            let i = choose|i: int| 0 <= i < b.len() && !is_ws(#[trigger] b[i]);
            assert(i < b.len() - 1);
            assert(b.drop_last()[i] == b[i]);
        }
        if has_content(b.drop_last()) {
            let i = choose|i: int| 0 <= i < b.drop_last().len() && !is_ws(#[trigger] b.drop_last()[i]);
            assert(b[i] == b.drop_last()[i]);
        }
    } else {
        assert(s.last() == b.last());
        assert(!is_ws(b[b.len() - 1]));
    }
}

/// Some line of `ls` has, trimmed at its end, the same form as `l`.
pub open spec fn has_trimmed_match(l: Seq<char>, ls: Seq<Seq<char>>) -> bool {
    exists|i: int| 0 <= i < ls.len() && trim_end_seq(l) == trim_end_seq(#[trigger] ls[i])
}

/// Every line of a text with its end trimmed has, trimmed at its end, the
/// same form as some line of the text.
pub proof fn lemma_lines_trim_end(s: Seq<char>)
    ensures
        forall|j: int|
            0 <= j < lines_seq(trim_end_seq(s)).len() ==> has_trimmed_match(
                #[trigger] lines_seq(trim_end_seq(s))[j],
                lines_seq(s),
            ),
    decreases s.len(),
{
    let ts = trim_end_seq(s);
    let ls = lines_seq(s);
    if s.len() > 0 {
        lemma_first_newline_props(s);
        let k = first_newline(s);
        if k < s.len() {
            lemma_lines_at_first(s);
            let a = s.take(k as int);
            let b = s.skip(k as int + 1);
            lemma_trim_end_split(a, b);
            assert(trim_end_seq(strip_cr(a)) == trim_end_seq(a)) by {
                if a.len() > 0 && a.last() == '\r' {
                    assert(is_ws('\r'));
                }
            }
            assert(ls[0] == strip_cr(a));
            if has_content(b) {
                lemma_lines_split(a, trim_end_seq(b));
                lemma_lines_trim_end(b);
                let tl = lines_seq(trim_end_seq(b));
                let bl = lines_seq(b);
                assert forall|j: int| 0 <= j < lines_seq(ts).len() implies has_trimmed_match(
                    #[trigger] lines_seq(ts)[j],
                    ls,
                ) by {
                    if j == 0 {
                        assert(lines_seq(ts)[0] == ls[0]);
                    } else {
                        assert(lines_seq(ts)[j] == tl[j - 1]);
                        assert(has_trimmed_match(tl[j - 1], bl));
                        let i0 = choose|i: int|
                            0 <= i < bl.len() && trim_end_seq(tl[j - 1]) == trim_end_seq(
                                #[trigger] bl[i],
                            );
                        assert(ls[i0 + 1] == bl[i0]);
                    }
                }
            } else {
                lemma_trim_end_no_newline(a);
                lemma_lines_single(trim_end_seq(a));
                lemma_trim_end_idem(a);
                assert forall|j: int| 0 <= j < lines_seq(ts).len() implies has_trimmed_match(
                    #[trigger] lines_seq(ts)[j],
                    ls,
                ) by {
                    assert(lines_seq(ts)[j] == trim_end_seq(a));
                    assert(trim_end_seq(lines_seq(ts)[j]) == trim_end_seq(ls[0]));
                }
            }
        } else {
            assert(no_newline(s));
            lemma_trim_end_no_newline(s);
            lemma_lines_single(ts);
            lemma_lines_single(s);
            lemma_trim_end_idem(s);
            assert forall|j: int| 0 <= j < lines_seq(ts).len() implies has_trimmed_match(
                #[trigger] lines_seq(ts)[j],
                ls,
            ) by {
                assert(lines_seq(ts)[j] == ts);
                assert(ls[0] == s);
                assert(trim_end_seq(lines_seq(ts)[j]) == trim_end_seq(ls[0]));
            }
        }
    } else {
        assert(ts == s);
        assert(lines_seq(ts).len() == 0);
    }
}

/// Trimming the end keeps a text free of line feeds; it is a prefix.
pub proof fn lemma_trim_end_no_newline(s: Seq<char>)
    ensures
        trim_end_seq(s).len() <= s.len(),
        trim_end_seq(s) == s.take(trim_end_seq(s).len() as int),
        no_newline(s) ==> no_newline(trim_end_seq(s)),
    decreases s.len(),
{
    if s.len() > 0 && is_ws(s.last()) {
        lemma_trim_end_no_newline(s.drop_last());
        assert(s.drop_last().take(trim_end_seq(s).len() as int) =~= s.take(
            trim_end_seq(s).len() as int,
        ));
    } else {
        assert(s.take(s.len() as int) =~= s);
    }
}

/// Joining two non-empty runs of lines.
pub proof fn lemma_join_concat(p: Seq<Seq<char>>, z: Seq<Seq<char>>, sep: Seq<char>)
    requires
        p.len() > 0,
        z.len() > 0,
    ensures
        join_seq(p + z, sep) == join_seq(p, sep) + sep + join_seq(z, sep),
    decreases z.len(),
{
    let pz = p + z;
    assert(pz.last() == z.last());
    if z.len() == 1 {
        assert(pz.drop_last() =~= p);
        assert(join_seq(z, sep) == z[0]);
    } else {
        lemma_join_concat(p, z.drop_last(), sep);
        assert(pz.drop_last() =~= p + z.drop_last());
        assert(join_seq(z, sep) == join_seq(z.drop_last(), sep) + sep + z.last());
        assert(join_seq(p, sep) + sep + join_seq(z.drop_last(), sep) + sep + z.last() =~= join_seq(
            p,
            sep,
        ) + sep + (join_seq(z.drop_last(), sep) + sep + z.last()));
    }
}

/// A text with its end trimmed ends, when anything is left, in a character
/// that is not whitespace.
pub proof fn lemma_trim_end_last(s: Seq<char>)
    ensures
        trim_end_seq(s).len() > 0 ==> !is_ws(trim_end_seq(s).last()),
    decreases s.len(),
{
    if s.len() > 0 && is_ws(s.last()) {
        lemma_trim_end_last(s.drop_last());
    }
}

/// A non-empty text has at least one line.
pub proof fn lemma_lines_nonempty(s: Seq<char>)
    requires
        s.len() > 0,
    ensures
        lines_seq(s).len() > 0,
{
}

/// What splitting lines joined by line feeds gives: each line but the last
/// without a final carriage return, then the last, which is dropped when it
/// is empty.
pub open spec fn resplit(ls: Seq<Seq<char>>) -> Seq<Seq<char>>
    decreases ls.len(),
{
    if ls.len() == 0 {
        Seq::<Seq<char>>::empty()
    } else if ls.len() == 1 {
        if ls[0].len() == 0 {
            Seq::<Seq<char>>::empty()
        } else {
            ls
        }
    } else {
        seq![strip_cr(ls[0])] + resplit(ls.drop_first())
    }
}

/// Splitting joined lines without line feeds gives [`resplit`] of them.
pub proof fn lemma_lines_of_join_exact(ls: Seq<Seq<char>>)
    requires
        forall|i: int| 0 <= i < ls.len() ==> no_newline(#[trigger] ls[i]),
    ensures
        lines_seq(join_seq(ls, seq!['\n'])) == resplit(ls),
    decreases ls.len(),
{
    if ls.len() == 1 {
        assert(no_newline(ls[0]));
        lemma_lines_single(ls[0]);
    } else if ls.len() > 1 {
        let a = ls[0];
        let rest = ls.drop_first();
        assert(seq![a] + rest =~= ls);
        lemma_join_front(a, rest, seq!['\n']);
        assert(no_newline(a));
        lemma_lines_split(a, join_seq(rest, seq!['\n']));
        assert forall|i: int| 0 <= i < rest.len() implies no_newline(#[trigger] rest[i]) by {
            assert(rest[i] == ls[i + 1]);
        }
        lemma_lines_of_join_exact(rest);
    }
}

/// Each line of [`resplit`] is the line at the same place, or that line
/// without its final carriage return; it has no more lines.
pub proof fn lemma_resplit_aligned(ls: Seq<Seq<char>>)
    ensures
        resplit(ls).len() <= ls.len(),
        forall|i: int|
            0 <= i < resplit(ls).len() ==> #[trigger] resplit(ls)[i] == ls[i] || resplit(ls)[i]
                == strip_cr(ls[i]),
    decreases ls.len(),
{
    if ls.len() > 1 {
        let rest = ls.drop_first();
        lemma_resplit_aligned(rest);
        let r = resplit(ls);
        assert forall|i: int| 0 <= i < r.len() implies #[trigger] r[i] == ls[i] || r[i] == strip_cr(
            ls[i],
        ) by {
            if i > 0 {
                assert(r[i] == resplit(rest)[i - 1]);
                assert(rest[i - 1] == ls[i]);
            }
        }
    }
}

} // verus!
