//! Text as sequences of characters: the splitting, trimming, number parsing and
//! decimal formatting that the control protocol and the configuration formats use.
use vstd::prelude::*;

verus! {

// ---------------------------------------------------------------------------
// Specification
// ---------------------------------------------------------------------------
/// Unicode `White_Space`, the property that `char::is_whitespace` tests.
pub open spec fn is_ws(c: char) -> bool {
    let u = c as u32;
    ||| 0x09 <= u <= 0x0d
    ||| u == 0x20
    ||| u == 0x85
    ||| u == 0xa0
    ||| u == 0x1680
    ||| 0x2000 <= u <= 0x200a
    ||| u == 0x2028
    ||| u == 0x2029
    ||| u == 0x202f
    ||| u == 0x205f
    ||| u == 0x3000
}

/// The text without its leading white space.
pub open spec fn trim_start(s: Seq<char>) -> Seq<char>
    decreases s.len(),
{
    if s.len() > 0 && is_ws(s[0]) {
        trim_start(s.drop_first())
    } else {
        s
    }
}

/// The text without its trailing white space.
pub open spec fn trim_end(s: Seq<char>) -> Seq<char>
    decreases s.len(),
{
    if s.len() > 0 && is_ws(s.last()) {
        trim_end(s.drop_last())
    } else {
        s
    }
}

/// The text without leading and trailing white space (`str::trim`).
pub open spec fn spec_trim(s: Seq<char>) -> Seq<char> {
    trim_end(trim_start(s))
}

/// The pieces between the occurrences of `sep` (`str::split` with a `char`):
/// always one piece more than there are separators.
pub open spec fn spec_split(s: Seq<char>, sep: char) -> Seq<Seq<char>>
    decreases s.len(),
{
    if s.len() == 0 {
        seq![Seq::empty()]
    } else {
        let init = spec_split(s.drop_last(), sep);
        if s.last() == sep {
            init.push(Seq::empty())
        } else {
            init.update(init.len() - 1, init.last().push(s.last()))
        }
    }
}

/// Splitting at a separator splits the pieces there.
pub proof fn lemma_split_sep(s: Seq<char>, sep: char, t: Seq<char>)
    ensures
        spec_split(s.push(sep) + t, sep) == spec_split(s, sep) + spec_split(t, sep),
    decreases t.len(),
{
    if t.len() == 0 {
        assert(s.push(sep) + t =~= s.push(sep));
        assert(s.push(sep).drop_last() =~= s);
    } else {
        let u = s.push(sep) + t;
        assert(u.drop_last() =~= s.push(sep) + t.drop_last());
        assert(u.last() == t.last());
        lemma_split_sep(s, sep, t.drop_last());
        lemma_split_nonempty(t.drop_last(), sep);
        let p = spec_split(s, sep);
        let q = spec_split(t.drop_last(), sep);
        if t.last() == sep {
            assert((p + q).push(Seq::empty()) =~= p + q.push(Seq::empty()));
        } else {
            assert((p + q).update((p + q).len() - 1, (p + q).last().push(t.last())) =~= p + q.update(
                q.len() - 1,
                q.last().push(t.last()),
            ));
        }
    }
}

/// Text without the separator is one piece.
pub proof fn lemma_split_none(t: Seq<char>, sep: char)
    requires
        !t.contains(sep),
    ensures
        spec_split(t, sep) == seq![t],
    decreases t.len(),
{
    if t.len() > 0 {
        assert(!t.drop_last().contains(sep)) by {
            if t.drop_last().contains(sep) {
                let i = choose|i: int| 0 <= i < t.drop_last().len() && t.drop_last()[i] == sep;
                assert(t[i] == sep);
            }
        }
        lemma_split_none(t.drop_last(), sep);
        assert(t.last() != sep) by {
            assert(t[t.len() - 1] == t.last());
        }
        assert(t.drop_last().push(t.last()) =~= t);
        assert(seq![t.drop_last()].update(0, t.drop_last().push(t.last())) =~= seq![t]);
    } else {
        assert(t =~= Seq::<char>::empty());
    }
}

/// The decimal text of a number holds no character other than digits and `-`.
pub proof fn lemma_dec_int_has_no(i: int, c: char)
    requires
        !is_digit(c),
        c != '-',
    ensures
        !dec_int(i).contains(c),
{
    let n: nat = if i < 0 {
        (-i) as nat
    } else {
        i as nat
    };
    lemma_dec(n);
    let t = dec_int(i);
    if t.contains(c) {
        let k = choose|k: int| 0 <= k < t.len() && t[k] == c;
        if i < 0 {
            if k > 0 {
                assert(t[k] == dec(n)[k - 1]);
                assert(is_digit(dec(n)[k - 1]));
            }
        } else {
            assert(is_digit(dec(n)[k]));
        }
    }
}

/// Appending a line and its line feed to text that ends in a line feed adds the
/// line as a piece before the last, empty one.
pub proof fn lemma_split_line_step(c: Seq<char>, p: Seq<Seq<char>>, r: Seq<char>)
    requires
        c.len() > 0,
        c.last() == '\n',
        spec_split(c, '\n') == p.push(Seq::<char>::empty()),
        !r.contains('\n'),
    ensures
        spec_split(c + r.push('\n'), '\n') == p.push(r).push(Seq::<char>::empty()),
{
    let c1 = c.drop_last();
    assert(c1.push('\n') =~= c);
    lemma_split_sep(c1, '\n', r.push('\n'));
    assert(spec_split(c, '\n') == spec_split(c1, '\n').push(Seq::<char>::empty()));
    assert(spec_split(c1, '\n') == spec_split(c, '\n').drop_last());
    assert(p.push(Seq::<char>::empty()).drop_last() =~= p);
    lemma_split_none(r, '\n');
    assert(r.push('\n').drop_last() =~= r);
    assert(spec_split(r.push('\n'), '\n') =~= seq![r, Seq::<char>::empty()]);
    assert(p + seq![r, Seq::<char>::empty()] =~= p.push(r).push(Seq::<char>::empty()));
}

/// The pieces joined with a separator between each two.
pub open spec fn join_with(ps: Seq<Seq<char>>, sep: char) -> Seq<char>
    decreases ps.len(),
{
    if ps.len() <= 1 {
        if ps.len() == 0 {
            Seq::empty()
        } else {
            ps[0]
        }
    } else {
        join_with(ps.drop_last(), sep).push(sep) + ps.last()
    }
}

/// Joining one piece more puts a separator and the piece at the end.
pub proof fn lemma_join_push(ps: Seq<Seq<char>>, p: Seq<char>, sep: char)
    requires
        ps.len() >= 1,
    ensures
        join_with(ps.push(p), sep) == join_with(ps, sep).push(sep) + p,
{
    assert(ps.push(p).drop_last() =~= ps);
}

/// Splitting pieces joined with a separator that none holds gives the pieces back.
pub proof fn lemma_split_join(ps: Seq<Seq<char>>, sep: char)
    requires
        ps.len() > 0,
        forall|i: int| 0 <= i < ps.len() ==> !(#[trigger] ps[i]).contains(sep),
    ensures
        spec_split(join_with(ps, sep), sep) == ps,
    decreases ps.len(),
{
    if ps.len() == 1 {
        lemma_split_none(ps[0], sep);
        assert(seq![ps[0]] =~= ps);
    } else {
        let init = ps.drop_last();
        assert forall|i: int| 0 <= i < init.len() implies !(#[trigger] init[i]).contains(sep) by {
            assert(init[i] == ps[i]);
        }
        lemma_split_join(init, sep);
        assert(!ps.last().contains(sep)) by {
            assert(ps[ps.len() - 1] == ps.last());
        }
        lemma_split_none(ps.last(), sep);
        lemma_split_sep(join_with(init, sep), sep, ps.last());
        assert(init + seq![ps.last()] =~= ps);
    }
}

/// A line without the carriage return that ended it.
pub open spec fn strip_cr(line: Seq<char>) -> Seq<char> {
    if line.len() > 0 && line.last() == '\r' {
        line.drop_last()
    } else {
        line
    }
}

/// Every line without the carriage return that ended it.
pub open spec fn strip_cr_all(ps: Seq<Seq<char>>) -> Seq<Seq<char>> {
    ps.map_values(|p: Seq<char>| strip_cr(p))
}

/// The lines of a text (`str::lines`): split at `\n`, a `\r` before the `\n`
/// dropped, and no empty last line when the text ends with a line ending.
pub open spec fn spec_lines(s: Seq<char>) -> Seq<Seq<char>> {
    let parts = spec_split(s, '\n');
    let terminated = strip_cr_all(parts.drop_last());
    if parts.last().len() == 0 {
        terminated
    } else {
        terminated.push(parts.last())
    }
}

/// The text before and after the first `sep` (`str::split_once`).
pub open spec fn spec_split_once(s: Seq<char>, sep: char) -> Option<(Seq<char>, Seq<char>)>
    decreases s.len(),
{
    if s.len() == 0 {
        None
    } else if s[0] == sep {
        Some((Seq::empty(), s.drop_first()))
    } else {
        match spec_split_once(s.drop_first(), sep) {
            None => None,
            Some((a, b)) => Some((seq![s[0]] + a, b)),
        }
    }
}

/// The text before and after the last `sep` (`str::rsplit_once`).
pub open spec fn spec_rsplit_once(s: Seq<char>, sep: char) -> Option<(Seq<char>, Seq<char>)>
    decreases s.len(),
{
    if s.len() == 0 {
        None
    } else if s.last() == sep {
        Some((s.drop_last(), Seq::empty()))
    } else {
        match spec_rsplit_once(s.drop_last(), sep) {
            None => None,
            Some((a, b)) => Some((a, b.push(s.last()))),
        }
    }
}

/// The views of a sequence of character vectors.
pub open spec fn views(v: Seq<Vec<char>>) -> Seq<Seq<char>> {
    v.map_values(|x: Vec<char>| x@)
}

pub open spec fn starts_with(s: Seq<char>, prefix: Seq<char>) -> bool {
    prefix.len() <= s.len() && s.take(prefix.len() as int) == prefix
}

pub open spec fn ends_with(s: Seq<char>, suffix: Seq<char>) -> bool {
    suffix.len() <= s.len() && s.skip(s.len() - suffix.len()) == suffix
}

/// `needle` occurs somewhere in `s`.
pub open spec fn contains_seq(s: Seq<char>, needle: Seq<char>) -> bool {
    exists|i: int| 0 <= i <= s.len() - needle.len() && #[trigger] s.subrange(i, i + needle.len()) == needle
}

// ---------------------------------------------------------------------------
// Conversions between `str`/`String` and characters
// ---------------------------------------------------------------------------
/// Appends one character to a `String` (`String::push`).
#[verifier::external_body]
fn string_push(s: &mut String, c: char)
    ensures
        final(s)@ == old(s)@.push(c),
{
    s.push(c);
}

/// The characters of a string slice, in order.
pub fn chars_of(s: &str) -> (out: Vec<char>)
    ensures
        out@ == s@,
{
    let mut out: Vec<char> = Vec::new();
    for c in it: s.chars()
        invariant
            out@ == it.seq().take(it.index() as int),
    {
        out.push(c);
    }
    out
}

/// A string made of the given characters.
pub fn string_of(cs: &[char]) -> (s: String)
    ensures
        s@ == cs@,
{
    let mut s = String::new();
    for i in 0..cs.len()
        invariant
            s@ == cs@.take(i as int),
    {
        string_push(&mut s, cs[i]);
        assert(cs@.take(i + 1) == cs@.take(i as int).push(cs@[i as int]));
    }
    assert(cs@.take(cs@.len() as int) == cs@);
    s
}

/// Appends the characters of a string slice.
pub fn push_str(out: &mut Vec<char>, s: &str)
    ensures
        final(out)@ == old(out)@ + s@,
{
    let cs = chars_of(s);
    push_chars(out, &cs);
}

/// Appends the characters of a slice.
pub fn push_chars(out: &mut Vec<char>, cs: &[char])
    ensures
        final(out)@ == old(out)@ + cs@,
{
    let ghost start = out@;
    for i in 0..cs.len()
        invariant
            out@ == start + cs@.take(i as int),
    {
        out.push(cs[i]);
        assert(cs@.take(i + 1) == cs@.take(i as int).push(cs@[i as int]));
    }
    assert(cs@.take(cs@.len() as int) == cs@);
}

// ---------------------------------------------------------------------------
// Comparisons
// ---------------------------------------------------------------------------
/// Whether two character sequences are equal.
pub fn chars_eq(a: &[char], b: &[char]) -> (r: bool)
    ensures
        r == (a@ == b@),
{
    if a.len() != b.len() {
        return false;
    }
    for i in 0..a.len()
        invariant
            a@.len() == b@.len(),
            forall|k: int| 0 <= k < i ==> a@[k] == b@[k],
    {
        if a[i] != b[i] {
            return false;
        }
    }
    assert(a@ =~= b@);
    true
}

/// Whether a character sequence equals a string slice.
/// Whether two string slices hold the same text.
pub fn str_eq(a: &str, b: &str) -> (r: bool)
    ensures
        r == (a@ == b@),
{
    chars_eq(&chars_of(a), &chars_of(b))
}

pub fn chars_eq_str(a: &[char], b: &str) -> (r: bool)
    ensures
        r == (a@ == b@),
{
    let bs = chars_of(b);
    chars_eq(a, &bs)
}

pub fn starts_with_chars(s: &[char], prefix: &[char]) -> (r: bool)
    ensures
        r == starts_with(s@, prefix@),
{
    if prefix.len() > s.len() {
        return false;
    }
    for i in 0..prefix.len()
        invariant
            prefix@.len() <= s@.len(),
            forall|k: int| 0 <= k < i ==> s@[k] == prefix@[k],
    {
        if s[i] != prefix[i] {
            assert(s@.take(prefix@.len() as int)[i as int] != prefix@[i as int]);
            return false;
        }
    }
    assert(s@.take(prefix@.len() as int) =~= prefix@);
    true
}

pub fn ends_with_chars(s: &[char], suffix: &[char]) -> (r: bool)
    ensures
        r == ends_with(s@, suffix@),
{
    if suffix.len() > s.len() {
        return false;
    }
    let off = s.len() - suffix.len();
    let mut i: usize = 0;
    while i < suffix.len()
        invariant
            suffix@.len() <= s@.len() <= usize::MAX,
            off + suffix@.len() == s@.len(),
            i <= suffix@.len(),
            forall|k: int| 0 <= k < i ==> s@[off + k] == suffix@[k],
        decreases suffix@.len() - i,
    {
        if s[off + i] != suffix[i] {
            assert(s@.skip(off as int)[i as int] != suffix@[i as int]);
            return false;
        }
        i = i + 1;
    }
    assert(s@.skip(off as int) =~= suffix@);
    true
}

/// Whether `needle` occurs in `s` at position `i`.
fn occurs_at(s: &[char], needle: &[char], i: usize) -> (r: bool)
    requires
        i + needle@.len() <= s@.len(),
    ensures
        r == (s@.subrange(i as int, i + needle@.len()) == needle@),
{
    let n = s.len();
    let mut j: usize = 0;
    while j < needle.len()
        invariant
            i + needle@.len() <= s@.len(),
            n == s@.len(),
            j <= needle@.len(),
            forall|k: int| 0 <= k < j ==> s@[i + k] == needle@[k],
        decreases needle@.len() - j,
    {
        if s[i + j] != needle[j] {
            assert(s@.subrange(i as int, i + needle@.len())[j as int] != needle@[j as int]);
            return false;
        }
        j = j + 1;
    }
    assert(s@.subrange(i as int, i + needle@.len()) =~= needle@);
    true
}

/// Whether `needle` occurs in `s`.
pub fn contains_chars(s: &[char], needle: &[char]) -> (r: bool)
    ensures
        r == contains_seq(s@, needle@),
{
    if needle.len() > s.len() {
        return false;
    }
    let last = s.len() - needle.len();
    let mut i: usize = 0;
    while i <= last
        invariant
            needle@.len() <= s@.len(),
            last + needle@.len() == s@.len(),
            i <= last + 1,
            forall|p: int| 0 <= p < i ==> #[trigger] s@.subrange(p, p + needle@.len()) != needle@,
        decreases last - i,
    {
        if occurs_at(s, needle, i) {
            return true;
        }
        if i == last {
            assert forall|p: int| 0 <= p <= last implies #[trigger] s@.subrange(
                p,
                p + needle@.len(),
            ) != needle@ by {}
            return false;
        }
        i = i + 1;
    }
    false
}

// ---------------------------------------------------------------------------
// Trimming
// ---------------------------------------------------------------------------
pub fn is_whitespace(c: char) -> (r: bool)
    ensures
        r == is_ws(c),
{
    let u = c as u32;
    (0x09 <= u && u <= 0x0d) || u == 0x20 || u == 0x85 || u == 0xa0 || u == 0x1680 || (0x2000 <= u
        && u <= 0x200a) || u == 0x2028 || u == 0x2029 || u == 0x202f || u == 0x205f || u == 0x3000
}

proof fn lemma_trim_start_at(s: Seq<char>, i: int)
    requires
        0 <= i <= s.len(),
        forall|k: int| 0 <= k < i ==> is_ws(s[k]),
        i == s.len() || !is_ws(s[i]),
    ensures
        trim_start(s) == s.skip(i),
    decreases i,
{
    if i > 0 {
        lemma_trim_start_at(s.drop_first(), i - 1);
        assert(s.drop_first().skip(i - 1) =~= s.skip(i));
    } else {
        assert(s.skip(0) =~= s);
    }
}

proof fn lemma_trim_end_at(s: Seq<char>, j: int)
    requires
        0 <= j <= s.len(),
        forall|k: int| j <= k < s.len() ==> is_ws(s[k]),
        j == 0 || !is_ws(s[j - 1]),
    ensures
        trim_end(s) == s.take(j),
    decreases s.len() - j,
{
    if j < s.len() {
        lemma_trim_end_at(s.drop_last(), j);
        assert(s.drop_last().take(j) =~= s.take(j));
    } else {
        assert(s.take(j) =~= s);
    }
}

/// `str::trim`.
pub fn trim(s: &[char]) -> (out: Vec<char>)
    ensures
        out@ == spec_trim(s@),
{
    let mut i: usize = 0;
    while i < s.len() && is_whitespace(s[i])
        invariant
            i <= s@.len(),
            forall|k: int| 0 <= k < i ==> is_ws(s@[k]),
        decreases s@.len() - i,
    {
        i = i + 1;
    }
    proof {
        lemma_trim_start_at(s@, i as int);
    }
    let mut j: usize = s.len();
    while j > i && is_whitespace(s[j - 1])
        invariant
            i <= j <= s@.len(),
            forall|k: int| j <= k < s@.len() ==> is_ws(s@[k]),
        decreases j,
    {
        j = j - 1;
    }
    let ghost t = s@.skip(i as int);
    proof {
        if j == i {
            assert forall|k: int| 0 <= k < t.len() implies is_ws(t[k]) by {
                assert(t[k] == s@[i + k]);
            }
            lemma_trim_end_at(t, 0);
        } else {
            lemma_trim_end_at(t, j - i);
        }
    }
    let mut out: Vec<char> = Vec::new();
    let mut k: usize = i;
    while k < j
        invariant
            i <= k <= j <= s@.len(),
            out@ == s@.subrange(i as int, k as int),
        decreases j - k,
    {
        out.push(s[k]);
        assert(s@.subrange(i as int, k + 1) == s@.subrange(i as int, k as int).push(s@[k as int]));
        k = k + 1;
    }
    assert(t.take(j - i) =~= s@.subrange(i as int, j as int));
    out
}

// ---------------------------------------------------------------------------
// Splitting
// ---------------------------------------------------------------------------
/// `str::split` with a character separator.
pub fn split(s: &[char], sep: char) -> (out: Vec<Vec<char>>)
    ensures
        views(out@) == spec_split(s@, sep),
{
    let mut done: Vec<Vec<char>> = Vec::new();
    let mut cur: Vec<char> = Vec::new();
    for i in 0..s.len()
        invariant
            views(done@).push(cur@) == spec_split(s@.take(i as int), sep),
    {
        let ghost prev = s@.take(i as int);
        assert(s@.take(i + 1).drop_last() =~= prev);
        if s[i] == sep {
            let piece = cur;
            done.push(piece);
            cur = Vec::new();
            assert(views(done@).push(cur@) =~= spec_split(s@.take(i + 1), sep));
        } else {
            cur.push(s[i]);
            assert(views(done@).push(cur@) =~= spec_split(s@.take(i + 1), sep));
        }
    }
    assert(s@.take(s@.len() as int) =~= s@);
    done.push(cur);
    done
}

/// `str::lines`.
pub fn lines(s: &[char]) -> (out: Vec<Vec<char>>)
    ensures
        views(out@) == spec_lines(s@),
{
    let parts = split(s, '\n');
    let ghost ps = views(parts@);
    proof {
        lemma_split_nonempty(s@, '\n');
    }
    let n = parts.len();
    let mut out: Vec<Vec<char>> = Vec::new();
    for i in 0..n - 1
        invariant
            n == ps.len(),
            n >= 1,
            ps == views(parts@),
            views(out@) == strip_cr_all(ps.drop_last().take(i as int)),
    {
        let p = &parts[i];
        let mut line: Vec<char> = Vec::new();
        let plen = p.len();
        let keep = if plen > 0 && p[plen - 1] == '\r' {
            plen - 1
        } else {
            plen
        };
        for k in 0..keep
            invariant
                keep <= p@.len(),
                line@ == p@.take(k as int),
        {
            line.push(p[k]);
            assert(p@.take(k + 1) == p@.take(k as int).push(p@[k as int]));
        }
        assert(ps[i as int] == p@);
        assert(line@ =~= strip_cr(p@));
        out.push(line);
        assert(strip_cr_all(ps.drop_last().take(i + 1)) =~= strip_cr_all(
            ps.drop_last().take(i as int),
        ).push(strip_cr(ps[i as int])));
        assert(views(out@) =~= strip_cr_all(ps.drop_last().take(i + 1)));
    }
    assert(ps.drop_last().take((n - 1) as int) =~= ps.drop_last());
    if parts[n - 1].len() != 0 {
        let last = copy_chars(&parts[n - 1]);
        out.push(last);
    }
    proof {
        assert(ps.last() == parts@[n - 1]@);
    }
    assert(views(out@) =~= spec_lines(s@));
    out
}

pub proof fn lemma_split_nonempty(s: Seq<char>, sep: char)
    ensures
        spec_split(s, sep).len() >= 1,
    decreases s.len(),
{
    if s.len() > 0 {
        lemma_split_nonempty(s.drop_last(), sep);
    }
}

/// A copy of a character sequence.
pub fn copy_chars(s: &[char]) -> (out: Vec<char>)
    ensures
        out@ == s@,
{
    let mut out: Vec<char> = Vec::new();
    push_chars(&mut out, s);
    assert(out@ =~= s@);
    out
}

/// The characters of `s` from `lo` to `hi`.
pub fn slice_chars(s: &[char], lo: usize, hi: usize) -> (out: Vec<char>)
    requires
        lo <= hi <= s@.len(),
    ensures
        out@ == s@.subrange(lo as int, hi as int),
{
    let mut out: Vec<char> = Vec::new();
    let mut k: usize = lo;
    while k < hi
        invariant
            lo <= k <= hi <= s@.len(),
            out@ == s@.subrange(lo as int, k as int),
        decreases hi - k,
    {
        out.push(s[k]);
        assert(s@.subrange(lo as int, k + 1) == s@.subrange(lo as int, k as int).push(s@[k as int]));
        k = k + 1;
    }
    out
}

pub proof fn lemma_split_once_at(s: Seq<char>, sep: char, i: int)
    requires
        0 <= i < s.len(),
        s[i] == sep,
        forall|k: int| 0 <= k < i ==> s[k] != sep,
    ensures
        spec_split_once(s, sep) == Some((s.take(i), s.skip(i + 1))),
    decreases i,
{
    if i > 0 {
        lemma_split_once_at(s.drop_first(), sep, i - 1);
        assert(seq![s[0]] + s.drop_first().take(i - 1) =~= s.take(i));
        assert(s.drop_first().skip(i) =~= s.skip(i + 1));
    } else {
        assert(s.take(0) =~= Seq::<char>::empty());
        assert(s.skip(1) =~= s.drop_first());
    }
}

proof fn lemma_split_once_none(s: Seq<char>, sep: char)
    requires
        forall|k: int| 0 <= k < s.len() ==> s[k] != sep,
    ensures
        spec_split_once(s, sep) is None,
    decreases s.len(),
{
    if s.len() > 0 {
        lemma_split_once_none(s.drop_first(), sep);
    }
}

/// `str::split_once` with a character separator.
pub fn split_once(s: &[char], sep: char) -> (r: Option<(Vec<char>, Vec<char>)>)
    ensures
        match r {
            None => spec_split_once(s@, sep) is None,
            Some((a, b)) => spec_split_once(s@, sep) == Some((a@, b@)),
        },
{
    let mut i: usize = 0;
    while i < s.len()
        invariant
            i <= s@.len(),
            forall|k: int| 0 <= k < i ==> s@[k] != sep,
        decreases s@.len() - i,
    {
        if s[i] == sep {
            proof {
                lemma_split_once_at(s@, sep, i as int);
            }
            let a = slice_chars(s, 0, i);
            let b = slice_chars(s, i + 1, s.len());
            assert(a@ =~= s@.take(i as int));
            assert(b@ =~= s@.skip(i + 1));
            return Some((a, b));
        }
        i = i + 1;
    }
    proof {
        lemma_split_once_none(s@, sep);
    }
    None
}

pub proof fn lemma_rsplit_once_at(s: Seq<char>, sep: char, i: int)
    requires
        0 <= i < s.len(),
        s[i] == sep,
        forall|k: int| i < k < s.len() ==> s[k] != sep,
    ensures
        spec_rsplit_once(s, sep) == Some((s.take(i), s.skip(i + 1))),
    decreases s.len() - i,
{
    if i < s.len() - 1 {
        lemma_rsplit_once_at(s.drop_last(), sep, i);
        assert(s.drop_last().take(i) =~= s.take(i));
        assert(s.drop_last().skip(i + 1).push(s.last()) =~= s.skip(i + 1));
    } else {
        assert(s.take(i) =~= s.drop_last());
        assert(s.skip(i + 1) =~= Seq::<char>::empty());
    }
}

proof fn lemma_rsplit_once_none(s: Seq<char>, sep: char)
    requires
        forall|k: int| 0 <= k < s.len() ==> s[k] != sep,
    ensures
        spec_rsplit_once(s, sep) is None,
    decreases s.len(),
{
    if s.len() > 0 {
        lemma_rsplit_once_none(s.drop_last(), sep);
    }
}

/// `str::rsplit_once` with a character separator.
pub fn rsplit_once(s: &[char], sep: char) -> (r: Option<(Vec<char>, Vec<char>)>)
    ensures
        match r {
            None => spec_rsplit_once(s@, sep) is None,
            Some((a, b)) => spec_rsplit_once(s@, sep) == Some((a@, b@)),
        },
{
    let mut j: usize = s.len();
    while j > 0
        invariant
            j <= s@.len(),
            forall|k: int| j <= k < s@.len() ==> s@[k] != sep,
        decreases j,
    {
        if s[j - 1] == sep {
            let i = j - 1;
            proof {
                lemma_rsplit_once_at(s@, sep, i as int);
            }
            let a = slice_chars(s, 0, i);
            let b = slice_chars(s, i + 1, s.len());
            assert(a@ =~= s@.take(i as int));
            assert(b@ =~= s@.skip(i + 1));
            return Some((a, b));
        }
        j = j - 1;
    }
    proof {
        lemma_rsplit_once_none(s@, sep);
    }
    None
}


// ---------------------------------------------------------------------------
// Words
// ---------------------------------------------------------------------------
/// The pieces between white space characters.
pub open spec fn ws_pieces(s: Seq<char>) -> Seq<Seq<char>>
    decreases s.len(),
{
    if s.len() == 0 {
        seq![Seq::empty()]
    } else {
        let init = ws_pieces(s.drop_last());
        if is_ws(s.last()) {
            init.push(Seq::empty())
        } else {
            init.update(init.len() - 1, init.last().push(s.last()))
        }
    }
}

/// The non-empty pieces, in order.
pub open spec fn nonempty(ps: Seq<Seq<char>>) -> Seq<Seq<char>>
    decreases ps.len(),
{
    if ps.len() == 0 {
        Seq::empty()
    } else if ps.last().len() > 0 {
        nonempty(ps.drop_last()).push(ps.last())
    } else {
        nonempty(ps.drop_last())
    }
}

/// The words of a text (`str::split_whitespace`).
pub open spec fn words(s: Seq<char>) -> Seq<Seq<char>> {
    nonempty(ws_pieces(s))
}

proof fn lemma_ws_pieces_nonempty(s: Seq<char>)
    ensures
        ws_pieces(s).len() >= 1,
    decreases s.len(),
{
    if s.len() > 0 {
        lemma_ws_pieces_nonempty(s.drop_last());
    }
}

/// `str::split_whitespace`.
pub fn split_whitespace(s: &[char]) -> (out: Vec<Vec<char>>)
    ensures
        views(out@) == words(s@),
{
    let mut done: Vec<Vec<char>> = Vec::new();
    let mut cur: Vec<char> = Vec::new();
    for i in 0..s.len()
        invariant
            ws_pieces(s@.take(i as int)).len() >= 1,
            nonempty(ws_pieces(s@.take(i as int)).drop_last()) == views(done@),
            ws_pieces(s@.take(i as int)).last() == cur@,
    {
        let ghost t = s@.take(i as int);
        let ghost p = ws_pieces(t);
        assert(s@.take(i + 1).drop_last() =~= t);
        assert(s@.take(i + 1).last() == s@[i as int]);
        if is_whitespace(s[i]) {
            let ghost np = p.push(Seq::empty());
            assert(ws_pieces(s@.take(i + 1)) == np);
            assert(np.drop_last() =~= p);
            if cur.len() > 0 {
                let piece = cur;
                done.push(piece);
                assert(views(done@) =~= nonempty(p.drop_last()).push(p.last()));
            }
            cur = Vec::new();
        } else {
            let ghost np = p.update(p.len() - 1, p.last().push(s@[i as int]));
            assert(ws_pieces(s@.take(i + 1)) == np);
            assert(np.drop_last() =~= p.drop_last());
            cur.push(s[i]);
        }
        proof {
            lemma_ws_pieces_nonempty(s@.take(i + 1));
        }
    }
    assert(s@.take(s@.len() as int) =~= s@);
    proof {
        lemma_ws_pieces_nonempty(s@);
    }
    if cur.len() > 0 {
        done.push(cur);
        assert(views(done@) =~= words(s@));
    }
    done
}

/// Splitting at a white space character splits the pieces there.
pub proof fn lemma_ws_pieces_sep(s: Seq<char>, c: char, t: Seq<char>)
    requires
        is_ws(c),
    ensures
        ws_pieces(s.push(c) + t) == ws_pieces(s) + ws_pieces(t),
    decreases t.len(),
{
    if t.len() == 0 {
        assert(s.push(c) + t =~= s.push(c));
        assert(s.push(c).drop_last() =~= s);
    } else {
        let u = s.push(c) + t;
        assert(u.drop_last() =~= s.push(c) + t.drop_last());
        assert(u.last() == t.last());
        lemma_ws_pieces_sep(s, c, t.drop_last());
        lemma_ws_pieces_nonempty(t.drop_last());
        let p = ws_pieces(s);
        let q = ws_pieces(t.drop_last());
        if is_ws(t.last()) {
            assert((p + q).push(Seq::empty()) =~= p + q.push(Seq::empty()));
        } else {
            assert((p + q).update((p + q).len() - 1, (p + q).last().push(t.last())) =~= p + q.update(
                q.len() - 1,
                q.last().push(t.last()),
            ));
        }
    }
}

/// Text without white space is one piece.
pub proof fn lemma_ws_pieces_word(t: Seq<char>)
    requires
        forall|i: int| 0 <= i < t.len() ==> !is_ws(#[trigger] t[i]),
    ensures
        ws_pieces(t) == seq![t],
    decreases t.len(),
{
    if t.len() > 0 {
        lemma_ws_pieces_word(t.drop_last());
        assert(t.drop_last().push(t.last()) =~= t);
        assert(!is_ws(t[t.len() - 1]));
        assert(seq![t.drop_last()].update(0, t.drop_last().push(t.last())) =~= seq![t]);
    } else {
        assert(t =~= Seq::<char>::empty());
    }
}

/// Keeping the non-empty pieces of two lists keeps those of each.
pub proof fn lemma_nonempty_concat(p: Seq<Seq<char>>, q: Seq<Seq<char>>)
    ensures
        nonempty(p + q) == nonempty(p) + nonempty(q),
    decreases q.len(),
{
    if q.len() == 0 {
        assert(p + q =~= p);
        assert(nonempty(p) + nonempty(q) =~= nonempty(p));
    } else {
        assert((p + q).drop_last() =~= p + q.drop_last());
        assert((p + q).last() == q.last());
        lemma_nonempty_concat(p, q.drop_last());
        if q.last().len() > 0 {
            assert((nonempty(p) + nonempty(q.drop_last())).push(q.last()) =~= nonempty(p) + nonempty(
                q.drop_last(),
            ).push(q.last()));
        }
    }
}

/// The words of text with a white space character in it are the words on each side.
pub proof fn lemma_words_sep(s: Seq<char>, c: char, t: Seq<char>)
    requires
        is_ws(c),
    ensures
        words(s.push(c) + t) == words(s) + words(t),
{
    lemma_ws_pieces_sep(s, c, t);
    lemma_nonempty_concat(ws_pieces(s), ws_pieces(t));
}

/// A non-empty text without white space is one word.
pub proof fn lemma_words_word(t: Seq<char>)
    requires
        t.len() > 0,
        forall|i: int| 0 <= i < t.len() ==> !is_ws(#[trigger] t[i]),
    ensures
        words(t) == seq![t],
{
    lemma_ws_pieces_word(t);
    assert(seq![t].drop_last() =~= Seq::<Seq<char>>::empty());
    assert(nonempty(seq![t]) == nonempty(Seq::<Seq<char>>::empty()).push(t));
    assert(nonempty(Seq::<Seq<char>>::empty()).push(t) =~= seq![t]);
}

// ---------------------------------------------------------------------------
// Decimal numbers
// ---------------------------------------------------------------------------
pub open spec fn is_digit(c: char) -> bool {
    48 <= (c as u32) <= 57
}

pub open spec fn digit_value(c: char) -> nat {
    ((c as u32) - 48) as nat
}

pub open spec fn digit_char(d: nat) -> char {
    (48 + d) as char
}

pub open spec fn all_digits(s: Seq<char>) -> bool {
    forall|i: int| 0 <= i < s.len() ==> #[trigger] is_digit(s[i])
}

/// The number that a string of decimal digits writes.
pub open spec fn digits_value(s: Seq<char>) -> nat
    decreases s.len(),
{
    if s.len() == 0 {
        0
    } else {
        digits_value(s.drop_last()) * 10 + digit_value(s.last())
    }
}

/// The digits of an unsigned number's text, after an optional `+`.
pub open spec fn unsigned_digits(s: Seq<char>) -> Seq<char> {
    if s.len() > 0 && s[0] == '+' {
        s.drop_first()
    } else {
        s
    }
}

/// What `str::parse` gives for an unsigned integer type whose largest value is `max`.
pub open spec fn parse_nat(s: Seq<char>, max: nat) -> Option<nat> {
    let d = unsigned_digits(s);
    if d.len() > 0 && all_digits(d) && digits_value(d) <= max {
        Some(digits_value(d))
    } else {
        None
    }
}

/// What `str::parse` gives for a signed integer type whose values are `min..=max`.
pub open spec fn parse_int(s: Seq<char>, min: int, max: nat) -> Option<int> {
    if s.len() > 0 && s[0] == '-' {
        let d = s.drop_first();
        if d.len() > 0 && all_digits(d) && -(digits_value(d) as int) >= min {
            Some(-(digits_value(d) as int))
        } else {
            None
        }
    } else {
        match parse_nat(s, max) {
            Some(v) => Some(v as int),
            None => None,
        }
    }
}

pub open spec fn spec_parse_u16(s: Seq<char>) -> Option<nat> {
    parse_nat(s, 0xffff)
}

pub open spec fn spec_parse_u32(s: Seq<char>) -> Option<nat> {
    parse_nat(s, 0xffff_ffff)
}

pub open spec fn spec_parse_i32(s: Seq<char>) -> Option<int> {
    parse_int(s, -0x8000_0000, 0x7fff_ffff)
}

/// The decimal digits of a number.
pub open spec fn dec(n: nat) -> Seq<char>
    decreases n,
{
    if n < 10 {
        seq![digit_char(n)]
    } else {
        dec(n / 10).push(digit_char(n % 10))
    }
}

/// The decimal text of an integer, with `-` before a negative one.
pub open spec fn dec_int(i: int) -> Seq<char> {
    if i < 0 {
        seq!['-'] + dec((-i) as nat)
    } else {
        dec(i as nat)
    }
}

proof fn lemma_digit_char(d: nat)
    requires
        d < 10,
    ensures
        is_digit(digit_char(d)),
        digit_value(digit_char(d)) == d,
{
}

/// The digits of `n` and their value: decimal text reads back as the number it was made from.
pub proof fn lemma_dec(n: nat)
    ensures
        dec(n).len() > 0,
        all_digits(dec(n)),
        digits_value(dec(n)) == n,
    decreases n,
{
    lemma_digit_char(n % 10);
    if n < 10 {
        assert(dec(n).drop_last() =~= Seq::<char>::empty());
        assert(digits_value(dec(n)) == digits_value(Seq::<char>::empty()) * 10 + digit_value(
            digit_char(n),
        ));
    } else {
        lemma_dec(n / 10);
        let d = dec(n / 10);
        assert(dec(n).drop_last() =~= d);
        assert(dec(n).last() == digit_char(n % 10));
        assert(digits_value(dec(n)) == digits_value(d) * 10 + digit_value(digit_char(n % 10)));
        assert(n == (n / 10) * 10 + n % 10);
        assert forall|i: int| 0 <= i < dec(n).len() implies #[trigger] is_digit(dec(n)[i]) by {
            if i < d.len() {
                assert(dec(n)[i] == d[i]);
            }
        }
    }
}

/// Parsing the decimal text of a number gives the number back, if it is in range.
pub proof fn lemma_parse_dec(n: nat, max: nat)
    ensures
        parse_nat(dec(n), max) == (if n <= max { Some(n) } else { None::<nat> }),
{
    lemma_dec(n);
    assert(is_digit(dec(n)[0]));
    assert(unsigned_digits(dec(n)) == dec(n));
}

/// Parsing the decimal text of an integer gives the integer back, if it is in range.
pub proof fn lemma_parse_dec_int(i: int, min: int, max: nat)
    requires
        min <= 0,
    ensures
        parse_int(dec_int(i), min, max) == (if min <= i <= max { Some(i) } else { None::<int> }),
{
    if i < 0 {
        lemma_dec((-i) as nat);
        assert((seq!['-'] + dec((-i) as nat)).drop_first() =~= dec((-i) as nat));
    } else {
        lemma_dec(i as nat);
        assert(is_digit(dec(i as nat)[0]));
        lemma_parse_dec(i as nat, max);
    }
}

/// The value of a string of decimal digits, or `None` where it is not one or is larger than `max`.
fn parse_digits(d: &[char], max: u64) -> (r: Option<u64>)
    requires
        max <= 0xffff_ffff,
    ensures
        r == (if d@.len() > 0 && all_digits(d@) && digits_value(d@) <= max {
            Some(digits_value(d@) as u64)
        } else {
            None::<u64>
        }),
{
    if d.len() == 0 {
        return None;
    }
    let mut acc: u64 = 0;
    let mut over = false;
    for i in 0..d.len()
        invariant
            max <= 0xffff_ffff,
            all_digits(d@.take(i as int)),
            !over ==> acc == digits_value(d@.take(i as int)) && acc <= max,
            over ==> digits_value(d@.take(i as int)) > max,
    {
        let c = d[i];
        let u = c as u32;
        assert(d@.take(i + 1).drop_last() =~= d@.take(i as int));
        assert(d@.take(i + 1).last() == c);
        if u < 48 || u > 57 {
            assert(!is_digit(d@[i as int]));
            return None;
        }
        assert forall|k: int| 0 <= k < i + 1 implies #[trigger] is_digit(d@.take(i + 1)[k]) by {
            if k < i {
                assert(d@.take(i + 1)[k] == d@.take(i as int)[k]);
            }
        }
        if !over {
            let next = acc * 10 + (u - 48) as u64;
            if next > max {
                over = true;
            } else {
                acc = next;
            }
        }
    }
    assert(d@.take(d@.len() as int) =~= d@);
    if over {
        None
    } else {
        Some(acc)
    }
}

fn parse_unsigned(s: &[char], max: u64) -> (r: Option<u64>)
    requires
        max <= 0xffff_ffff,
    ensures
        match r {
            Some(v) => parse_nat(s@, max as nat) == Some(v as nat),
            None => parse_nat(s@, max as nat) is None,
        },
{
    if s.len() > 0 && s[0] == '+' {
        let d = slice_chars(s, 1, s.len());
        assert(d@ =~= s@.drop_first());
        parse_digits(&d, max)
    } else {
        parse_digits(s, max)
    }
}

/// `str::parse::<u16>`.
pub fn parse_u16(s: &[char]) -> (r: Option<u16>)
    ensures
        match r {
            Some(v) => spec_parse_u16(s@) == Some(v as nat),
            None => spec_parse_u16(s@) is None,
        },
{
    match parse_unsigned(s, 0xffff) {
        Some(v) => Some(v as u16),
        None => None,
    }
}

/// `str::parse::<u32>`.
pub fn parse_u32(s: &[char]) -> (r: Option<u32>)
    ensures
        match r {
            Some(v) => spec_parse_u32(s@) == Some(v as nat),
            None => spec_parse_u32(s@) is None,
        },
{
    match parse_unsigned(s, 0xffff_ffff) {
        Some(v) => Some(v as u32),
        None => None,
    }
}

/// `str::parse::<i32>`.
pub fn parse_i32(s: &[char]) -> (r: Option<i32>)
    ensures
        match r {
            Some(v) => spec_parse_i32(s@) == Some(v as int),
            None => spec_parse_i32(s@) is None,
        },
{
    if s.len() > 0 && s[0] == '-' {
        let d = slice_chars(s, 1, s.len());
        assert(d@ =~= s@.drop_first());
        match parse_digits(&d, 0x8000_0000) {
            Some(v) => Some((0 - (v as i64)) as i32),
            None => None,
        }
    } else {
        match parse_unsigned(s, 0x7fff_ffff) {
            Some(v) => Some(v as i32),
            None => None,
        }
    }
}

/// Appends the decimal digits of `n`.
pub fn push_dec(out: &mut Vec<char>, n: u64)
    ensures
        final(out)@ == old(out)@ + dec(n as nat),
    decreases n,
{
    if n >= 10 {
        push_dec(out, n / 10);
    }
    let d = (n % 10) as u8;
    let c = (48u8 + d) as char;
    assert(c == digit_char((n % 10) as nat));
    out.push(c);
}

/// Appends the decimal text of `i`, with `-` before a negative number.
pub fn push_dec_int(out: &mut Vec<char>, i: i64)
    ensures
        final(out)@ == old(out)@ + dec_int(i as int),
{
    if i < 0 {
        out.push('-');
        let n: u64 = ((-(i + 1)) as u64) + 1;
        push_dec(out, n);
        assert(final(out)@ =~= old(out)@ + dec_int(i as int));
    } else {
        push_dec(out, i as u64);
    }
}

/// The decimal text of `n` as a `String`.
pub fn dec_string(n: u64) -> (s: String)
    ensures
        s@ == dec(n as nat),
{
    let mut cs: Vec<char> = Vec::new();
    push_dec(&mut cs, n);
    assert(cs@ =~= dec(n as nat));
    string_of(&cs)
}


/// `true` or `false`, as `Display` writes a `bool`.
pub open spec fn bool_text(b: bool) -> Seq<char> {
    if b {
        "true"@
    } else {
        "false"@
    }
}

/// Appends `true` or `false`.
pub fn push_bool(out: &mut Vec<char>, b: bool)
    ensures
        final(out)@ == old(out)@ + bool_text(b),
{
    if b {
        push_str(out, "true");
    } else {
        push_str(out, "false");
    }
}

/// The UTF-8 bytes of a text.
pub open spec fn utf8(s: Seq<char>) -> Seq<u8> {
    vstd::utf8::encode_utf8(s)
}

/// The UTF-8 bytes of a `String` (`String::into_bytes`).
pub fn string_bytes(s: &String) -> (out: Vec<u8>)
    ensures
        out@ == utf8(s@),
{
    let b = s.as_str().as_bytes();
    let mut out: Vec<u8> = Vec::new();
    let mut i: usize = 0;
    while i < b.len()
        invariant
            i <= b@.len(),
            out@ == b@.take(i as int),
        decreases b@.len() - i,
    {
        out.push(b[i]);
        assert(b@.take(i + 1) == b@.take(i as int).push(b@[i as int]));
        i = i + 1;
    }
    assert(b@.take(b@.len() as int) =~= b@);
    out
}

/// The UTF-8 bytes of a string slice.
pub fn str_utf8(s: &str) -> (out: Vec<u8>)
    ensures
        out@ == utf8(s@),
{
    let b = s.as_bytes();
    let mut out: Vec<u8> = Vec::new();
    let mut i: usize = 0;
    while i < b.len()
        invariant
            i <= b@.len(),
            out@ == b@.take(i as int),
        decreases b@.len() - i,
    {
        out.push(b[i]);
        assert(b@.take(i + 1) == b@.take(i as int).push(b@[i as int]));
        i = i + 1;
    }
    assert(b@.take(b@.len() as int) =~= b@);
    out
}

/// The UTF-8 bytes of a character sequence.
pub fn chars_utf8(cs: &[char]) -> (out: Vec<u8>)
    ensures
        out@ == utf8(cs@),
{
    let s = string_of(cs);
    string_bytes(&s)
}

/// `std::str::from_utf8`: the text the bytes encode, or `None` where they are not
/// valid UTF-8. Stated: success exactly on valid UTF-8, and then the decoded
/// characters.
#[verifier::external_body]
fn from_utf8(bytes: &[u8]) -> (r: Option<&str>)
    ensures
        r is Some <==> vstd::utf8::valid_utf8(bytes@),
        r matches Some(s) ==> s@ == vstd::utf8::decode_utf8(bytes@),
{
    std::str::from_utf8(bytes).ok()
}

/// The text that UTF-8 bytes encode, if they are valid UTF-8.
pub open spec fn decode(bytes: Seq<u8>) -> Option<Seq<char>> {
    if vstd::utf8::valid_utf8(bytes) {
        Some(vstd::utf8::decode_utf8(bytes))
    } else {
        None
    }
}

/// The characters that UTF-8 bytes encode (`String::from_utf8`), or `None`.
pub fn decode_utf8(bytes: &[u8]) -> (r: Option<Vec<char>>)
    ensures
        match r {
            Some(cs) => decode(bytes@) == Some(cs@),
            None => decode(bytes@) is None,
        },
{
    match from_utf8(bytes) {
        Some(s) => Some(chars_of(s)),
        None => None,
    }
}

/// Decoding the UTF-8 encoding of a text gives the text.
pub proof fn lemma_decode_utf8(s: Seq<char>)
    ensures
        decode(utf8(s)) == Some(s),
{
    vstd::utf8::encode_utf8_valid_utf8(s);
    vstd::utf8::encode_utf8_decode_utf8(s);
}

/// No piece of a split holds the separator, nor a character the text lacks.
pub proof fn lemma_split_pieces_lack(s: Seq<char>, sep: char, c: char)
    requires
        c == sep || !s.contains(c),
    ensures
        forall|i: int|
            0 <= i < spec_split(s, sep).len() ==> !(#[trigger] spec_split(s, sep)[i]).contains(c),
    decreases s.len(),
{
    if s.len() > 0 {
        let init = spec_split(s.drop_last(), sep);
        assert(c == sep || !s.drop_last().contains(c)) by {
            if c != sep && s.drop_last().contains(c) {
                let k = choose|k: int| 0 <= k < s.drop_last().len() && s.drop_last()[k] == c;
                assert(s[k] == c);
            }
        }
        lemma_split_pieces_lack(s.drop_last(), sep, c);
        lemma_split_nonempty(s.drop_last(), sep);
        assert(c != sep ==> s.last() != c) by {
            assert(s[s.len() - 1] == s.last());
        }
        let out = spec_split(s, sep);
        assert forall|i: int| 0 <= i < out.len() implies !(#[trigger] out[i]).contains(c) by {
            if s.last() == sep {
                if i < init.len() {
                    assert(out[i] == init[i]);
                } else {
                    assert(out[i] =~= Seq::<char>::empty());
                }
            } else if i < init.len() - 1 {
                assert(out[i] == init[i]);
            } else {
                let q = init.last().push(s.last());
                assert(out[i] == q);
                if q.contains(c) {
                    let k = choose|k: int| 0 <= k < q.len() && q[k] == c;
                    if k < init.last().len() {
                        assert(init[init.len() - 1][k] == c);
                    }
                }
            }
        }
    }
}

/// The first piece of a split starts the text, and is the whole text when
/// there is no other piece.
pub proof fn lemma_split_first(s: Seq<char>, sep: char)
    ensures
        spec_split(s, sep).len() == 1 ==> spec_split(s, sep)[0] == s,
        spec_split(s, sep)[0].len() > 0 ==> s.len() > 0 && spec_split(s, sep)[0][0] == s[0],
    decreases s.len(),
{
    if s.len() == 0 {
        assert(spec_split(s, sep) =~= seq![Seq::<char>::empty()]);
    } else {
        let d = s.drop_last();
        lemma_split_first(d, sep);
        lemma_split_nonempty(d, sep);
        let init = spec_split(d, sep);
        if s.last() != sep && init.len() == 1 {
            assert(init[0].push(s.last()) =~= s);
        }
    }
}

/// Trimming the start leaves no character the text lacks, and leaves a text
/// that is empty or starts with a character other than white space.
pub proof fn lemma_trim_start_shape(s: Seq<char>, c: char)
    ensures
        !s.contains(c) ==> !trim_start(s).contains(c),
        trim_start(s).len() > 0 ==> !is_ws(trim_start(s)[0]),
    decreases s.len(),
{
    if s.len() > 0 && is_ws(s[0]) {
        lemma_trim_start_shape(s.drop_first(), c);
        if !s.contains(c) && s.drop_first().contains(c) {
            let k = choose|k: int| 0 <= k < s.drop_first().len() && s.drop_first()[k] == c;
            assert(s[k + 1] == c);
        }
    }
}

/// Trimming the end keeps a start of the text.
pub proof fn lemma_trim_end_prefix(s: Seq<char>)
    ensures
        trim_end(s) == s.take(trim_end(s).len() as int),
        trim_end(s).len() <= s.len(),
    decreases s.len(),
{
    if s.len() > 0 && is_ws(s.last()) {
        lemma_trim_end_prefix(s.drop_last());
        assert(s.drop_last().take(trim_end(s).len() as int) =~= s.take(trim_end(s).len() as int));
    } else {
        assert(s.take(s.len() as int) =~= s);
    }
}

/// A trimmed text holds no character the text lacks, and is empty or starts
/// with a character other than white space.
pub proof fn lemma_trim_shape(s: Seq<char>, c: char)
    ensures
        !s.contains(c) ==> !spec_trim(s).contains(c),
        spec_trim(s).len() > 0 ==> !is_ws(spec_trim(s)[0]),
{
    let u = trim_start(s);
    lemma_trim_start_shape(s, c);
    lemma_trim_end_prefix(u);
    let t = spec_trim(s);
    if !s.contains(c) && t.contains(c) {
        let k = choose|k: int| 0 <= k < t.len() && t[k] == c;
        assert(u[k] == c);
    }
    if t.len() > 0 {
        assert(t[0] == u[0]);
    }
}

/// No line of a text holds a line feed.
pub proof fn lemma_lines_lack_newline(s: Seq<char>)
    ensures
        forall|i: int| 0 <= i < spec_lines(s).len() ==> !(#[trigger] spec_lines(s)[i]).contains('\n'),
{
    let parts = spec_split(s, '\n');
    lemma_split_pieces_lack(s, '\n', '\n');
    lemma_split_nonempty(s, '\n');
    let ls = spec_lines(s);
    let terminated = strip_cr_all(parts.drop_last());
    assert forall|i: int| 0 <= i < ls.len() implies !(#[trigger] ls[i]).contains('\n') by {
        if i < terminated.len() {
            let p = parts[i];
            assert(ls[i] == strip_cr(p));
            if strip_cr(p).contains('\n') {
                let k = choose|k: int| 0 <= k < strip_cr(p).len() && strip_cr(p)[k] == '\n';
                assert(p[k] == '\n');
            }
        } else {
            assert(ls[i] == parts[parts.len() - 1]);
        }
    }
}

} // verus!
