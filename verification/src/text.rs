//! Plain text utilities: whitespace trimming, splitting on a separator
//! character, dropping empty pieces, and joining with a separator. These
//! carry the tokenizer, the search-path splitting and the `echo` output.

use vstd::prelude::*;

verus! {

/// Whitespace characters stripped from the ends of an input line.
pub open spec fn is_line_ws(c: char) -> bool {
    c == ' ' || c == '\t' || c == '\r' || c == '\n'
}

pub open spec fn spec_trim_start(s: Seq<char>) -> Seq<char>
    decreases s.len(),
{
    if s.len() > 0 && is_line_ws(s[0]) {
        spec_trim_start(s.drop_first())
    } else {
        s
    }
}

pub open spec fn spec_trim_end(s: Seq<char>) -> Seq<char>
    decreases s.len(),
{
    if s.len() > 0 && is_line_ws(s[s.len() - 1]) {
        spec_trim_end(s.drop_last())
    } else {
        s
    }
}

/// The line with leading and trailing whitespace removed.
pub open spec fn spec_trim(s: Seq<char>) -> Seq<char> {
    spec_trim_end(spec_trim_start(s))
}

proof fn lemma_trim_start_scan(s: Seq<char>, a: int)
    requires
        0 <= a <= s.len(),
        forall|k: int| 0 <= k < a ==> is_line_ws(s[k]),
        a == s.len() || !is_line_ws(s[a]),
    ensures
        spec_trim_start(s) == s.subrange(a, s.len() as int),
    decreases a,
{
    if a == 0 {
        assert(s =~= s.subrange(0, s.len() as int));
    } else {
        assert(is_line_ws(s[0]));
        let t = s.drop_first();
        assert(forall|k: int| 0 <= k < a - 1 ==> is_line_ws(#[trigger] t[k]));
        lemma_trim_start_scan(t, a - 1);
        assert(t.subrange(a - 1, t.len() as int) =~= s.subrange(a, s.len() as int));
    }
}

proof fn lemma_trim_end_scan(s: Seq<char>, b: int)
    requires
        0 <= b <= s.len(),
        forall|k: int| b <= k < s.len() ==> is_line_ws(s[k]),
        b == 0 || !is_line_ws(s[b - 1]),
    ensures
        spec_trim_end(s) == s.subrange(0, b),
    decreases s.len(),
{
    if b == s.len() {
        assert(s =~= s.subrange(0, b));
    } else {
        assert(is_line_ws(s[s.len() - 1]));
        let t = s.drop_last();
        assert(forall|k: int| b <= k < t.len() ==> is_line_ws(#[trigger] t[k]));
        lemma_trim_end_scan(t, b);
        assert(t.subrange(0, b) =~= s.subrange(0, b));
    }
}

fn is_ws_char(c: char) -> (r: bool)
    ensures
        r == is_line_ws(c),
{
    c == ' ' || c == '\t' || c == '\r' || c == '\n'
}

/// The line with leading and trailing whitespace removed.
pub fn trim_ws(line: &str) -> (r: &str)
    ensures
        r@ == spec_trim(line@),
{
    let n = line.unicode_len();
    let mut a: usize = 0;
    while a < n && is_ws_char(line.get_char(a))
        invariant
            0 <= a <= n,
            n == line@.len(),
            forall|k: int| 0 <= k < a ==> is_line_ws(line@[k]),
        decreases n - a,
    {
        a = a + 1;
    }
    let mut b: usize = n;
    while b > a && is_ws_char(line.get_char(b - 1))
        invariant
            a <= b <= n,
            n == line@.len(),
            forall|k: int| b <= k < n ==> is_line_ws(line@[k]),
        decreases b,
    {
        b = b - 1;
    }
    proof {
        lemma_trim_start_scan(line@, a as int);
        let t = line@.subrange(a as int, n as int);
        assert(forall|k: int| b - a <= k < t.len() ==> is_line_ws(#[trigger] t[k]));
        lemma_trim_end_scan(t, b - a);
        assert(t.subrange(0, b - a) =~= line@.subrange(a as int, b as int));
    }
    line.substring_char(a, b)
}

/// Character-for-character string comparison.
pub fn str_eq(a: &str, b: &str) -> (r: bool)
    ensures
        r == (a@ == b@),
{
    let n = a.unicode_len();
    let m = b.unicode_len();
    if n != m {
        return false;
    }
    let mut i: usize = 0;
    while i < n
        invariant
            0 <= i <= n,
            n == a@.len(),
            n == b@.len(),
            forall|k: int| 0 <= k < i ==> a@[k] == b@[k],
        decreases n - i,
    {
        if a.get_char(i) != b.get_char(i) {
            return false;
        }
        i = i + 1;
    }
    proof {
        assert(a@ =~= b@);
    }
    true
}

/// The pieces of `s` between occurrences of `sep`, in order. Empty pieces
/// are kept, so the result always holds at least one piece: splitting an
/// empty sequence gives one empty piece, and a trailing separator gives a
/// trailing empty piece.
pub open spec fn spec_split(s: Seq<char>, sep: char) -> Seq<Seq<char>>
    decreases s.len(),
{
    if s.len() == 0 {
        seq![Seq::<char>::empty()]
    } else if s[0] == sep {
        seq![Seq::<char>::empty()] + spec_split(s.drop_first(), sep)
    } else {
        let rest = spec_split(s.drop_first(), sep);
        seq![seq![s[0]] + rest[0]] + rest.drop_first()
    }
}

pub proof fn lemma_split_nonempty(s: Seq<char>, sep: char)
    ensures
        spec_split(s, sep).len() >= 1,
    decreases s.len(),
{
    if s.len() == 0 {
    } else if s[0] == sep {
    } else {
        lemma_split_nonempty(s.drop_first(), sep);
    }
}

/// Peeling one piece off the front of a split: when `s` holds no separator
/// before position `j`, and `j` is either the end or a separator, the split
/// of `s` starts with `s[..j]` and continues with the split of `s[j+1..]`.
proof fn lemma_split_at_piece(s: Seq<char>, sep: char, j: int)
    requires
        0 <= j <= s.len(),
        forall|k: int| 0 <= k < j ==> s[k] != sep,
        j == s.len() || s[j] == sep,
    ensures
        j == s.len() ==> spec_split(s, sep) == seq![s],
        j < s.len() ==> spec_split(s, sep) == seq![s.subrange(0, j)] + spec_split(
            s.skip(j + 1),
            sep,
        ),
    decreases j,
{
    if j == 0 {
        if s.len() == 0 {
            assert(s =~= Seq::<char>::empty());
        } else {
            assert(s.subrange(0, 0) =~= Seq::<char>::empty());
            assert(s.skip(1) =~= s.drop_first());
        }
    } else {
        let t = s.drop_first();
        assert(forall|k: int| 0 <= k < j - 1 ==> #[trigger] t[k] != sep);
        lemma_split_at_piece(t, sep, j - 1);
        lemma_split_nonempty(t, sep);
        let rest = spec_split(t, sep);
        if j == s.len() {
            assert(seq![s[0]] + rest[0] =~= s);
            assert(seq![seq![s[0]] + rest[0]] + rest.drop_first() =~= seq![s]);
        } else {
            assert(rest == seq![t.subrange(0, j - 1)] + spec_split(t.skip(j), sep));
            assert(rest[0] == t.subrange(0, j - 1));
            assert(seq![s[0]] + t.subrange(0, j - 1) =~= s.subrange(0, j));
            assert(rest.drop_first() =~= spec_split(t.skip(j), sep));
            assert(t.skip(j) =~= s.skip(j + 1));
            assert(seq![seq![s[0]] + rest[0]] + rest.drop_first() =~= seq![s.subrange(0, j)]
                + spec_split(s.skip(j + 1), sep));
        }
    }
}

/// The pieces of `s` between occurrences of `sep`, empty pieces kept.
pub fn split_on(s: &str, sep: char) -> (r: Vec<String>)
    ensures
        r.deep_view() == spec_split(s@, sep),
{
    let n = s.unicode_len();
    let mut out: Vec<String> = Vec::new();
    let mut i: usize = 0;
    proof {
        assert(s@.skip(0) =~= s@);
    }
    loop
        invariant_except_break
            spec_split(s@, sep) =~= out.deep_view() + spec_split(s@.skip(i as int), sep),
        invariant
            0 <= i <= n,
            n == s@.len(),
        ensures
            out.deep_view() =~= spec_split(s@, sep),
        decreases n - i,
    {
        let ghost prev = out.deep_view();
        let mut j: usize = i;
        while j < n && s.get_char(j) != sep
            invariant
                i <= j <= n,
                n == s@.len(),
                forall|k: int| i <= k < j ==> s@[k] != sep,
            decreases n - j,
        {
            j = j + 1;
        }
        let piece = s.substring_char(i, j).to_owned();
        out.push(piece);
        proof {
            let tail = s@.skip(i as int);
            assert(forall|k: int| 0 <= k < j - i ==> #[trigger] tail[k] != sep);
            lemma_split_at_piece(tail, sep, j - i);
            assert(tail.subrange(0, j - i) =~= s@.subrange(i as int, j as int));
            assert(out.deep_view() =~= prev + seq![s@.subrange(i as int, j as int)]);
        }
        if j == n {
            proof {
                assert(spec_split(s@.skip(i as int), sep) == seq![s@.subrange(i as int, n as int)]);
                assert(s@.skip(i as int) =~= s@.subrange(i as int, n as int));
                assert(out.deep_view() =~= spec_split(s@, sep));
            }
            break;
        }
        proof {
            assert(s@.skip(i as int).skip(j - i + 1) =~= s@.skip(j + 1));
            assert(spec_split(s@, sep) =~= out.deep_view() + spec_split(s@.skip(j + 1), sep));
        }
        i = j + 1;
    }
    out
}

/// The pieces that are not empty, in order.
pub open spec fn nonblank_pieces(pieces: Seq<Seq<char>>) -> Seq<Seq<char>>
    decreases pieces.len(),
{
    if pieces.len() == 0 {
        Seq::<Seq<char>>::empty()
    } else if pieces[0].len() == 0 {
        nonblank_pieces(pieces.drop_first())
    } else {
        seq![pieces[0]] + nonblank_pieces(pieces.drop_first())
    }
}

/// Keeps the non-empty strings, in order.
pub fn keep_nonblank(pieces: &Vec<String>) -> (r: Vec<String>)
    ensures
        r.deep_view() == nonblank_pieces(pieces.deep_view()),
{
    let mut out: Vec<String> = Vec::new();
    let mut i: usize = 0;
    proof {
        assert(pieces.deep_view().skip(0) =~= pieces.deep_view());
    }
    while i < pieces.len()
        invariant
            0 <= i <= pieces.len(),
            nonblank_pieces(pieces.deep_view()) =~= out.deep_view() + nonblank_pieces(
                pieces.deep_view().skip(i as int),
            ),
        decreases pieces.len() - i,
    {
        let ghost prev = out.deep_view();
        let ghost dv = pieces.deep_view();
        proof {
            assert(dv.skip(i as int).drop_first() =~= dv.skip(i as int + 1));
            assert(dv.skip(i as int)[0] == dv[i as int]);
        }
        let p = &pieces[i];
        if !p.as_str().is_empty() {
            out.push(p.clone());
            proof {
                assert(out.deep_view() =~= prev + seq![dv[i as int]]);
            }
        }
        i = i + 1;
    }
    proof {
        assert(pieces.deep_view().skip(pieces@.len() as int) =~= Seq::<Seq<char>>::empty());
        assert(out.deep_view() =~= nonblank_pieces(pieces.deep_view()));
    }
    out
}

/// The parts joined by `sep`: nothing for no parts, and no separator
/// before the first part or after the last.
pub open spec fn spec_join(parts: Seq<Seq<char>>, sep: Seq<char>) -> Seq<char>
    decreases parts.len(),
{
    if parts.len() == 0 {
        Seq::<char>::empty()
    } else if parts.len() == 1 {
        parts[0]
    } else {
        parts[0] + sep + spec_join(parts.drop_first(), sep)
    }
}

proof fn lemma_join_push(parts: Seq<Seq<char>>, sep: Seq<char>, x: Seq<char>)
    ensures
        parts.len() == 0 ==> spec_join(parts.push(x), sep) == x,
        parts.len() > 0 ==> spec_join(parts.push(x), sep) == spec_join(parts, sep) + sep + x,
    decreases parts.len(),
{
    let grown = parts.push(x);
    if parts.len() == 0 {
        assert(grown[0] == x);
    } else if parts.len() == 1 {
        assert(grown.drop_first() =~= seq![x]);
        assert(spec_join(grown.drop_first(), sep) == x);
    } else {
        assert(grown.drop_first() =~= parts.drop_first().push(x));
        lemma_join_push(parts.drop_first(), sep, x);
        assert(parts[0] + sep + (spec_join(parts.drop_first(), sep) + sep + x) =~= (parts[0] + sep
            + spec_join(parts.drop_first(), sep)) + sep + x);
    }
}

/// The parts joined by `sep`.
pub fn join_with(parts: &Vec<String>, sep: &str) -> (r: String)
    ensures
        r@ == spec_join(parts.deep_view(), sep@),
{
    let ghost dv = parts.deep_view();
    if parts.len() == 0 {
        return String::new();
    }
    let mut r = parts[0].clone();
    proof {
        assert(dv.take(1)[0] == dv[0]);
        assert(r@ == spec_join(dv.take(1), sep@));
    }
    let mut i: usize = 1;
    while i < parts.len()
        invariant
            1 <= i <= parts.len(),
            dv == parts.deep_view(),
            dv.len() == parts@.len(),
            r@ == spec_join(dv.take(i as int), sep@),
        decreases parts.len() - i,
    {
        r.append(sep);
        r.append(parts[i].as_str());
        proof {
            lemma_join_push(dv.take(i as int), sep@, dv[i as int]);
            assert(dv.take(i as int + 1) =~= dv.take(i as int).push(dv[i as int]));
        }
        i = i + 1;
    }
    proof {
        assert(dv.take(parts@.len() as int) =~= dv);
    }
    r
}

/// A fresh copy of the strings.
pub fn clone_strings(v: &Vec<String>) -> (r: Vec<String>)
    ensures
        r.deep_view() == v.deep_view(),
{
    let ghost dv = v.deep_view();
    let mut r: Vec<String> = Vec::new();
    let mut i: usize = 0;
    while i < v.len()
        invariant
            0 <= i <= v.len(),
            dv == v.deep_view(),
            dv.len() == v@.len(),
            r.deep_view() =~= dv.take(i as int),
        decreases v.len() - i,
    {
        let ghost prev = r.deep_view();
        r.push(v[i].clone());
        proof {
            assert(r.deep_view() =~= prev.push(dv[i as int]));
            assert(prev.push(dv[i as int]) =~= dv.take(i as int + 1));
        }
        i = i + 1;
    }
    proof {
        assert(dv.take(dv.len() as int) =~= dv);
    }
    r
}

/// `a` followed by `b` as one freshly allocated string.
pub fn concat2(a: &str, b: &str) -> (r: String)
    ensures
        r@ == a@ + b@,
{
    let mut r = a.to_owned();
    r.append(b);
    r
}

/// `a`, `b` and `c` as one freshly allocated string.
pub fn concat3(a: &str, b: &str, c: &str) -> (r: String)
    ensures
        r@ == a@ + b@ + c@,
{
    let mut r = a.to_owned();
    r.append(b);
    r.append(c);
    r
}

} // verus!
