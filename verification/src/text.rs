//! Character-level string primitives with specifications over `Seq<char>`.
//!
//! Each executable function here mirrors one `str` operation that the rest of
//! the library relies on (`split`, `lines`, `trim`, `find`, `contains`, ...)
//! and states its result through a spec function on the character sequence.

use vstd::prelude::*;

verus! {

// ───────────────────────────── specifications ─────────────────────────────

/// Views of a sequence of strings.
pub open spec fn views(v: Seq<String>) -> Seq<Seq<char>> {
    v.map_values(|s: String| s@)
}

/// Unicode `White_Space`, the property that `char::is_whitespace` tests.
pub open spec fn is_ws(c: char) -> bool {
    let u = c as u32;
    ||| (9 <= u && u <= 13)
    ||| u == 32
    ||| u == 0x85
    ||| u == 0xa0
    ||| u == 0x1680
    ||| (0x2000 <= u && u <= 0x200a)
    ||| u == 0x2028
    ||| u == 0x2029
    ||| u == 0x202f
    ||| u == 0x205f
    ||| u == 0x3000
}

/// `str::trim_start`: leading white space removed.
pub open spec fn trim_start(s: Seq<char>) -> Seq<char>
    decreases s.len(),
{
    if s.len() > 0 && is_ws(s[0]) {
        trim_start(s.drop_first())
    } else {
        s
    }
}

/// `str::trim_end`: trailing white space removed.
pub open spec fn trim_end(s: Seq<char>) -> Seq<char>
    decreases s.len(),
{
    if s.len() > 0 && is_ws(s.last()) {
        trim_end(s.drop_last())
    } else {
        s
    }
}

/// `str::trim`.
pub open spec fn trim(s: Seq<char>) -> Seq<char> {
    trim_end(trim_start(s))
}

/// `t` occurs in `s` at position `i`.
pub open spec fn occurs_at(s: Seq<char>, t: Seq<char>, i: int) -> bool {
    0 <= i && i + t.len() <= s.len() && s.subrange(i, i + t.len()) =~= t
}

/// First position at or after `i` where `t` occurs in `s`.
pub open spec fn find_from(s: Seq<char>, t: Seq<char>, i: int) -> Option<int>
    decreases s.len() - i,
{
    if i < 0 || i + t.len() > s.len() {
        None
    } else if occurs_at(s, t, i) {
        Some(i)
    } else {
        find_from(s, t, i + 1)
    }
}

/// `str::find` with a string pattern: the first position of `t` in `s`.
pub open spec fn find(s: Seq<char>, t: Seq<char>) -> Option<int> {
    find_from(s, t, 0)
}

/// `str::contains` with a string pattern.
pub open spec fn contains(s: Seq<char>, t: Seq<char>) -> bool {
    find(s, t) is Some
}

/// `str::starts_with`.
pub open spec fn starts_with(s: Seq<char>, p: Seq<char>) -> bool {
    p.len() <= s.len() && s.subrange(0, p.len() as int) =~= p
}

/// `str::ends_with`.
pub open spec fn ends_with(s: Seq<char>, p: Seq<char>) -> bool {
    p.len() <= s.len() && s.subrange(s.len() - p.len(), s.len() as int) =~= p
}

/// Last position of the character `c` in `s` (`str::rfind` with a char).
pub open spec fn rfind_char(s: Seq<char>, c: char) -> Option<int>
    decreases s.len(),
{
    if s.len() == 0 {
        None
    } else if s.last() == c {
        Some(s.len() - 1)
    } else {
        rfind_char(s.drop_last(), c)
    }
}

/// `a < b` on strings: lexicographic by character (for UTF-8 text the
/// same as std's byte-wise order on `str`).
pub open spec fn lex_less(a: Seq<char>, b: Seq<char>) -> bool
    decreases a.len(),
{
    if b.len() == 0 {
        false
    } else if a.len() == 0 {
        true
    } else if a[0] != b[0] {
        a[0] < b[0]
    } else {
        lex_less(a.drop_first(), b.drop_first())
    }
}

/// Pieces of `s` separated by `sep`, with `cur` the piece read so far.
pub open spec fn split_acc(s: Seq<char>, sep: char, cur: Seq<char>) -> Seq<Seq<char>>
    decreases s.len(),
{
    if s.len() == 0 {
        seq![cur]
    } else if s[0] == sep {
        seq![cur] + split_acc(s.drop_first(), sep, Seq::empty())
    } else {
        split_acc(s.drop_first(), sep, cur.push(s[0]))
    }
}

/// `str::split` with a char separator: every piece, empty ones included.
pub open spec fn split(s: Seq<char>, sep: char) -> Seq<Seq<char>> {
    split_acc(s, sep, Seq::empty())
}

/// A line without its terminator: a trailing `'\r'` is dropped.
pub open spec fn strip_cr(l: Seq<char>) -> Seq<char> {
    if l.len() > 0 && l.last() == '\r' {
        l.drop_last()
    } else {
        l
    }
}

/// Lines of `s` with `cur` the line read so far (see `lines`).
pub open spec fn lines_acc(s: Seq<char>, cur: Seq<char>) -> Seq<Seq<char>>
    decreases s.len(),
{
    if s.len() == 0 {
        if cur.len() == 0 {
            Seq::empty()
        } else {
            seq![cur]
        }
    } else if s[0] == '\n' {
        seq![strip_cr(cur)] + lines_acc(s.drop_first(), Seq::empty())
    } else {
        lines_acc(s.drop_first(), cur.push(s[0]))
    }
}

/// `str::lines`: split at `'\n'`, a `'\r'` before it dropped, and no empty
/// last line after a final terminator.
pub open spec fn lines(s: Seq<char>) -> Seq<Seq<char>> {
    lines_acc(s, Seq::empty())
}

/// The pieces of `parts` joined with `sep` between them.
pub open spec fn join(parts: Seq<Seq<char>>, sep: Seq<char>) -> Seq<char>
    decreases parts.len(),
{
    if parts.len() == 0 {
        Seq::empty()
    } else if parts.len() == 1 {
        parts[0]
    } else {
        join(parts.drop_last(), sep) + sep + parts.last()
    }
}

/// Every occurrence of the character `c` in `s` replaced by `r`.
pub open spec fn replace_char(s: Seq<char>, c: char, r: Seq<char>) -> Seq<char>
    decreases s.len(),
{
    if s.len() == 0 {
        Seq::empty()
    } else {
        replace_char(s.drop_last(), c, r) + (if s.last() == c {
            r
        } else {
            seq![s.last()]
        })
    }
}


/// Number of leading ASCII digits of `s`.
pub open spec fn digit_run(s: Seq<char>) -> int
    decreases s.len(),
{
    if s.len() > 0 && '0' <= s[0] && s[0] <= '9' {
        1 + digit_run(s.drop_first())
    } else {
        0
    }
}

/// `n` spaces.
pub open spec fn spaces(n: nat) -> Seq<char> {
    Seq::new(n, |i: int| ' ')
}

/// `s` right-aligned in a field of `w` characters (`{:>w}`).
pub open spec fn pad_left(s: Seq<char>, w: nat) -> Seq<char> {
    if s.len() < w {
        spaces((w - s.len()) as nat) + s
    } else {
        s
    }
}

/// `s` left-aligned in a field of `w` characters (`{:<w}`).
pub open spec fn pad_right(s: Seq<char>, w: nat) -> Seq<char> {
    if s.len() < w {
        s + spaces((w - s.len()) as nat)
    } else {
        s
    }
}

// ───────────────────────────── lemmas ─────────────────────────────────────

/// Reading a stretch without separators only extends the current piece.
pub proof fn lemma_split_acc_no_sep(x: Seq<char>, y: Seq<char>, sep: char, cur: Seq<char>)
    requires
        !x.contains(sep),
    ensures
        split_acc(x + y, sep, cur) == split_acc(y, sep, cur + x),
    decreases x.len(),
{
    if x.len() == 0 {
        assert(x + y =~= y);
        assert(cur + x =~= cur);
    } else {
        assert(x[0] != sep);
        assert((x + y).drop_first() =~= x.drop_first() + y);
        assert(!x.drop_first().contains(sep)) by {
            if x.drop_first().contains(sep) {
                let k = choose|k: int| 0 <= k < x.drop_first().len() && x.drop_first()[k] == sep;
                assert(x[k + 1] == sep);
            }
        }
        lemma_split_acc_no_sep(x.drop_first(), y, sep, cur.push(x[0]));
        assert(cur.push(x[0]) + x.drop_first() =~= cur + x);
    }
}

/// Position of the first `c` in `s`, or the length of `s` when absent.
pub open spec fn char_pos(s: Seq<char>, c: char) -> int
    decreases s.len(),
{
    if s.len() == 0 {
        0
    } else if s[0] == c {
        0
    } else {
        1 + char_pos(s.drop_first(), c)
    }
}

/// There are at least two pieces exactly when the separator occurs, and the
/// first piece is what precedes the first separator.
pub proof fn lemma_split_acc_len(s: Seq<char>, sep: char, cur: Seq<char>)
    ensures
        split_acc(s, sep, cur).len() >= 1,
        split_acc(s, sep, cur).len() >= 2 <==> s.contains(sep),
        0 <= char_pos(s, sep) <= s.len(),
        split_acc(s, sep, cur)[0] == cur + s.subrange(0, char_pos(s, sep)),
    decreases s.len(),
{
    if s.len() == 0 {
        assert(cur + s.subrange(0, 0) =~= cur);
    } else if s[0] == sep {
        lemma_split_acc_len(s.drop_first(), sep, Seq::empty());
        assert(s.contains(sep));
        assert(cur + s.subrange(0, 0) =~= cur);
    } else {
        lemma_split_acc_len(s.drop_first(), sep, cur.push(s[0]));
        let t = s.drop_first();
        assert(s.contains(sep) <==> t.contains(sep)) by {
            if s.contains(sep) {
                let k = choose|k: int| 0 <= k < s.len() && s[k] == sep;
                assert(k > 0);
                assert(t[k - 1] == sep);
            }
            if t.contains(sep) {
                let k = choose|k: int| 0 <= k < t.len() && t[k] == sep;
                assert(s[k + 1] == sep);
            }
        }
        assert(cur.push(s[0]) + t.subrange(0, char_pos(t, sep)) =~= cur + s.subrange(
            0,
            char_pos(s, sep),
        ));
    }
}

/// No piece holds the separator, when the piece read so far holds none.
pub proof fn lemma_split_acc_pieces(s: Seq<char>, sep: char, cur: Seq<char>)
    requires
        !cur.contains(sep),
    ensures
        forall|i: int|
            0 <= i < split_acc(s, sep, cur).len() ==> !(#[trigger] split_acc(s, sep, cur)[i]).contains(sep),
    decreases s.len(),
{
    if s.len() == 0 {
        assert(split_acc(s, sep, cur) == seq![cur]);
        assert forall|i: int| 0 <= i < split_acc(s, sep, cur).len() implies !(#[trigger] split_acc(
            s,
            sep,
            cur,
        )[i]).contains(sep) by {
            assert(split_acc(s, sep, cur)[i] == cur);
        }
    } else if s[0] == sep {
        let rest = split_acc(s.drop_first(), sep, Seq::empty());
        assert(!Seq::<char>::empty().contains(sep));
        lemma_split_acc_pieces(s.drop_first(), sep, Seq::empty());
        assert(split_acc(s, sep, cur) == seq![cur] + rest);
        assert forall|i: int| 0 <= i < split_acc(s, sep, cur).len() implies !(#[trigger] split_acc(
            s,
            sep,
            cur,
        )[i]).contains(sep) by {
            if i > 0 {
                assert(split_acc(s, sep, cur)[i] == rest[i - 1]);
            } else {
                assert(split_acc(s, sep, cur)[i] == cur);
            }
        }
    } else {
        assert(!cur.push(s[0]).contains(sep)) by {
            if cur.push(s[0]).contains(sep) {
                let k = choose|k: int| 0 <= k < cur.push(s[0]).len() && cur.push(s[0])[k] == sep;
                assert(k < cur.len());
                assert(cur[k] == sep);
            }
        }
        lemma_split_acc_pieces(s.drop_first(), sep, cur.push(s[0]));
        assert(split_acc(s, sep, cur) == split_acc(s.drop_first(), sep, cur.push(s[0])));
    }
}

/// No piece of a split holds the separator.
pub proof fn lemma_split_pieces(s: Seq<char>, sep: char)
    ensures
        forall|i: int| 0 <= i < split(s, sep).len() ==> !(#[trigger] split(s, sep)[i]).contains(sep),
{
    lemma_split_acc_pieces(s, sep, Seq::empty());
}

/// `g:a` splits back into `g` and `a` when neither holds the separator.
pub proof fn lemma_split_pair(g: Seq<char>, a: Seq<char>, sep: char)
    requires
        !g.contains(sep),
        !a.contains(sep),
    ensures
        split(g.push(sep) + a, sep) == seq![g, a],
{
    let s = g.push(sep) + a;
    assert(s =~= g + (seq![sep] + a));
    lemma_split_acc_no_sep(g, seq![sep] + a, sep, Seq::empty());
    assert(Seq::<char>::empty() + g =~= g);
    let r = seq![sep] + a;
    assert(r[0] == sep);
    assert(r.drop_first() =~= a);
    assert(a =~= a + Seq::<char>::empty());
    lemma_split_acc_no_sep(a, Seq::empty(), sep, Seq::empty());
    assert(Seq::<char>::empty() + a =~= a);
    assert(split_acc(a, sep, Seq::empty()) == seq![a]);
    assert(split_acc(r, sep, g) == seq![g] + seq![a]);
    assert(seq![g] + seq![a] =~= seq![g, a]);
}

/// A position found by `find_from` is an occurrence at or after `i`.
pub proof fn lemma_find_from_some(s: Seq<char>, t: Seq<char>, i: int)
    ensures
        match find_from(s, t, i) {
            Some(j) => occurs_at(s, t, j) && i <= j,
            None => true,
        },
    decreases s.len() - i,
{
    if i < 0 || i + t.len() > s.len() {
    } else if occurs_at(s, t, i) {
    } else {
        lemma_find_from_some(s, t, i + 1);
    }
}

/// A position found by `rfind_char` holds the character.
pub proof fn lemma_rfind_char_some(s: Seq<char>, c: char)
    ensures
        match rfind_char(s, c) {
            Some(j) => 0 <= j < s.len() && s[j] == c,
            None => !s.contains(c),
        },
    decreases s.len(),
{
    if s.len() == 0 {
    } else if s.last() == c {
    } else {
        lemma_rfind_char_some(s.drop_last(), c);
        if s.contains(c) {
            let k = choose|k: int| 0 <= k < s.len() && s[k] == c;
            assert(s.drop_last()[k] == c);
        }
    }
}

// ───────────────────────────── executable code ────────────────────────────

/// Appends one character to a `String` (std's `String::push`).
#[verifier::external_body]
pub(crate) fn push_char(s: &mut String, c: char)
    ensures
        final(s)@ == old(s)@.push(c),
{
    s.push(c);
}

/// Appends a string slice.
pub(crate) fn push_str(s: &mut String, t: &str)
    ensures
        final(s)@ == old(s)@ + t@,
{
    s.append(t);
}

/// A copy of a string slice as an owned `String` (std's `str::to_string`).
pub fn owned(s: &str) -> (r: String)
    ensures
        r@ == s@,
{
    s.to_owned()
}

/// The characters of `s`, in order.
pub fn chars_of(s: &str) -> (r: Vec<char>)
    ensures
        r@ == s@,
{
    let mut v: Vec<char> = Vec::new();
    for c in it: s.chars()
        invariant
            v@ == it.seq().take(it.index() as int),
    {
        v.push(c);
    }
    v
}

/// The characters `v[lo..hi]` as a `String`.
pub fn string_of(v: &Vec<char>, lo: usize, hi: usize) -> (r: String)
    requires
        lo <= hi <= v@.len(),
    ensures
        r@ == v@.subrange(lo as int, hi as int),
{
    let mut s = String::new();
    let mut i = lo;
    while i < hi
        invariant
            lo <= i <= hi <= v@.len(),
            s@ == v@.subrange(lo as int, i as int),
        decreases hi - i,
    {
        push_char(&mut s, v[i]);
        assert(v@.subrange(lo as int, i + 1) =~= v@.subrange(lo as int, i as int).push(v@[i as int]));
        i += 1;
    }
    s
}

/// `char::is_whitespace`.
pub fn is_ws_char(c: char) -> (r: bool)
    ensures
        r == is_ws(c),
{
    let u = c as u32;
    (9 <= u && u <= 13) || u == 32 || u == 0x85 || u == 0xa0 || u == 0x1680 || (0x2000 <= u && u
        <= 0x200a) || u == 0x2028 || u == 0x2029 || u == 0x202f || u == 0x205f || u == 0x3000
}

/// Character sequences are equal: `a == b` on `str`.
pub fn seq_eq(a: &Vec<char>, b: &Vec<char>) -> (r: bool)
    ensures
        r == (a@ == b@),
{
    if a.len() != b.len() {
        return false;
    }
    let mut i: usize = 0;
    while i < a.len()
        invariant
            a@.len() == b@.len(),
            i <= a@.len(),
            forall|k: int| 0 <= k < i ==> a@[k] == b@[k],
        decreases a@.len() - i,
    {
        if a[i] != b[i] {
            return false;
        }
        i += 1;
    }
    assert(a@ =~= b@);
    true
}

/// `a == b` on string slices.
pub fn str_eq(a: &str, b: &str) -> (r: bool)
    ensures
        r == (a@ == b@),
{
    let va = chars_of(a);
    let vb = chars_of(b);
    seq_eq(&va, &vb)
}

/// `t` occurs in `s` at position `i` (executable check).
pub fn occurs_at_exec(s: &Vec<char>, t: &Vec<char>, i: usize) -> (r: bool)
    ensures
        r == occurs_at(s@, t@, i as int),
{
    if i > s.len() || t.len() > s.len() - i {
        return false;
    }
    let mut k: usize = 0;
    while k < t.len()
        invariant
            i + t@.len() <= s@.len(),
            s@.len() == s.len(),
            k <= t@.len(),
            forall|j: int| 0 <= j < k ==> s@[i + j] == t@[j],
        decreases t@.len() - k,
    {
        if s[i + k] != t[k] {
            assert(s@.subrange(i as int, i + t@.len())[k as int] != t@[k as int]);
            return false;
        }
        k += 1;
    }
    assert(s@.subrange(i as int, i + t@.len()) =~= t@);
    true
}

/// `str::find` on character sequences, searching from position `from`.
pub fn find_seq_from(s: &Vec<char>, t: &Vec<char>, from: usize) -> (r: Option<usize>)
    ensures
        match r {
            Some(i) => find_from(s@, t@, from as int) == Some(i as int) && occurs_at(
                s@,
                t@,
                i as int,
            ) && from <= i,
            None => find_from(s@, t@, from as int) is None,
        },
{
    proof {
        lemma_find_from_some(s@, t@, from as int);
    }
    if t.len() > s.len() || from > s.len() - t.len() {
        return None;
    }
    let mut i = from;
    while i <= s.len() - t.len()
        invariant
            t@.len() <= s@.len(),
            from <= i <= s@.len() - t@.len() + 1,
            find_from(s@, t@, from as int) == find_from(s@, t@, i as int),
        decreases s@.len() - t@.len() + 1 - i,
    {
        if occurs_at_exec(s, t, i) {
            return Some(i);
        }
        i += 1;
    }
    None
}

/// `str::find` on character sequences.
pub fn find_seq(s: &Vec<char>, t: &Vec<char>) -> (r: Option<usize>)
    ensures
        match r {
            Some(i) => find(s@, t@) == Some(i as int) && occurs_at(s@, t@, i as int),
            None => find(s@, t@) is None,
        },
{
    find_seq_from(s, t, 0)
}

/// `s.find(t)` on string slices.
pub fn str_find(s: &str, t: &str) -> (r: Option<usize>)
    ensures
        match r {
            Some(i) => find(s@, t@) == Some(i as int) && occurs_at(s@, t@, i as int),
            None => find(s@, t@) is None,
        },
{
    let vs = chars_of(s);
    let vt = chars_of(t);
    find_seq(&vs, &vt)
}

/// `s.contains(t)` on string slices.
pub fn str_contains(s: &str, t: &str) -> (r: bool)
    ensures
        r == contains(s@, t@),
{
    str_find(s, t).is_some()
}

/// `s.contains(t)` on character sequences.
pub fn seq_contains(s: &Vec<char>, t: &Vec<char>) -> (r: bool)
    ensures
        r == contains(s@, t@),
{
    find_seq(s, t).is_some()
}

/// `s.starts_with(p)` on character sequences.
pub fn seq_starts_with(s: &Vec<char>, p: &Vec<char>) -> (r: bool)
    ensures
        r == starts_with(s@, p@),
{
    occurs_at_exec(s, p, 0)
}

/// `s.starts_with(p)` on string slices.
pub fn str_starts_with(s: &str, p: &str) -> (r: bool)
    ensures
        r == starts_with(s@, p@),
{
    let vs = chars_of(s);
    let vp = chars_of(p);
    seq_starts_with(&vs, &vp)
}

/// `s.ends_with(p)` on character sequences.
pub fn seq_ends_with(s: &Vec<char>, p: &Vec<char>) -> (r: bool)
    ensures
        r == ends_with(s@, p@),
{
    if p.len() > s.len() {
        return false;
    }
    occurs_at_exec(s, p, s.len() - p.len())
}

/// `s.ends_with(p)` on string slices.
pub fn str_ends_with(s: &str, p: &str) -> (r: bool)
    ensures
        r == ends_with(s@, p@),
{
    let vs = chars_of(s);
    let vp = chars_of(p);
    seq_ends_with(&vs, &vp)
}

/// Whether the character `c` occurs in `s`.
pub fn seq_has_char(s: &Vec<char>, c: char) -> (r: bool)
    ensures
        r == s@.contains(c),
{
    let mut i: usize = 0;
    while i < s.len()
        invariant
            i <= s@.len(),
            forall|k: int| 0 <= k < i ==> s@[k] != c,
        decreases s@.len() - i,
    {
        if s[i] == c {
            assert(s@[i as int] == c);
            return true;
        }
        i += 1;
    }
    false
}

/// `str::rfind` with a char pattern.
pub fn seq_rfind_char(s: &Vec<char>, c: char) -> (r: Option<usize>)
    ensures
        match r {
            Some(i) => rfind_char(s@, c) == Some(i as int) && i < s@.len() && s@[i as int] == c,
            None => rfind_char(s@, c) is None,
        },
{
    proof {
        lemma_rfind_char_some(s@, c);
    }
    let mut i = s.len();
    assert(s@.subrange(0, i as int) =~= s@);
    while i > 0
        invariant
            i <= s@.len(),
            rfind_char(s@, c) == rfind_char(s@.subrange(0, i as int), c),
        decreases i,
    {
        assert(s@.subrange(0, i as int).drop_last() =~= s@.subrange(0, i - 1));
        if s[i - 1] == c {
            return Some(i - 1);
        }
        i -= 1;
    }
    None
}

/// Index of the first non-white-space character of `v[lo..hi]`, or `hi`.
pub fn skip_ws(v: &Vec<char>, lo: usize, hi: usize) -> (r: usize)
    requires
        lo <= hi <= v@.len(),
    ensures
        lo <= r <= hi,
        trim_start(v@.subrange(lo as int, hi as int)) == v@.subrange(r as int, hi as int),
{
    let mut i = lo;
    while i < hi && is_ws_char(v[i])
        invariant
            lo <= i <= hi <= v@.len(),
            trim_start(v@.subrange(lo as int, hi as int)) == trim_start(
                v@.subrange(i as int, hi as int),
            ),
        decreases hi - i,
    {
        assert(v@.subrange(i as int, hi as int).drop_first() =~= v@.subrange(i + 1, hi as int));
        i += 1;
    }
    i
}

/// End index of `v[lo..hi]` once trailing white space is removed.
pub fn skip_ws_back(v: &Vec<char>, lo: usize, hi: usize) -> (r: usize)
    requires
        lo <= hi <= v@.len(),
    ensures
        lo <= r <= hi,
        trim_end(v@.subrange(lo as int, hi as int)) == v@.subrange(lo as int, r as int),
{
    let mut j = hi;
    while j > lo && is_ws_char(v[j - 1])
        invariant
            lo <= j <= hi <= v@.len(),
            trim_end(v@.subrange(lo as int, hi as int)) == trim_end(
                v@.subrange(lo as int, j as int),
            ),
        decreases j,
    {
        assert(v@.subrange(lo as int, j as int).drop_last() =~= v@.subrange(lo as int, j - 1));
        j -= 1;
    }
    j
}

/// The bounds of `trim(v[lo..hi])` inside `v`.
pub fn trim_bounds(v: &Vec<char>, lo: usize, hi: usize) -> (r: (usize, usize))
    requires
        lo <= hi <= v@.len(),
    ensures
        lo <= r.0 <= r.1 <= hi,
        trim(v@.subrange(lo as int, hi as int)) == v@.subrange(r.0 as int, r.1 as int),
{
    let a = skip_ws(v, lo, hi);
    let b = skip_ws_back(v, a, hi);
    (a, b)
}

/// `str::trim` on a string slice.
pub fn str_trim(s: &str) -> (r: String)
    ensures
        r@ == trim(s@),
{
    let v = chars_of(s);
    let (a, b) = trim_bounds(&v, 0, v.len());
    assert(v@.subrange(0, v@.len() as int) =~= v@);
    string_of(&v, a, b)
}

/// `str::split` with a char separator, each piece as a `String`.
pub fn split_seq(v: &Vec<char>, sep: char) -> (r: Vec<String>)
    ensures
        views(r@) == split(v@, sep),
{
    let mut out: Vec<String> = Vec::new();
    let mut start: usize = 0;
    let mut i: usize = 0;
    assert(v@.skip(0) =~= v@);
    assert(v@.subrange(0, 0) =~= Seq::<char>::empty());
    assert(views(out@) =~= Seq::<Seq<char>>::empty());
    assert(views(out@) + split(v@, sep) =~= split(v@, sep));
    while i < v.len()
        invariant
            start <= i <= v@.len(),
            views(out@) + split_acc(v@.skip(i as int), sep, v@.subrange(start as int, i as int))
                == split(v@, sep),
        decreases v@.len() - i,
    {
        let ghost cur = v@.subrange(start as int, i as int);
        assert(v@.skip(i as int).drop_first() =~= v@.skip(i + 1));
        if v[i] == sep {
            let piece = string_of(v, start, i);
            let ghost old_out = views(out@);
            out.push(piece);
            assert(views(out@) =~= old_out + seq![cur]);
            assert(v@.subrange(i + 1, i + 1) =~= Seq::<char>::empty());
            i += 1;
            start = i;
        } else {
            assert(v@.subrange(start as int, i + 1) =~= cur.push(v@[i as int]));
            i += 1;
        }
    }
    let piece = string_of(v, start, i);
    let ghost old_out = views(out@);
    out.push(piece);
    assert(views(out@) =~= old_out + seq![v@.subrange(start as int, i as int)]);
    out
}

/// `s.split(sep)` collected into owned pieces.
pub fn str_split(s: &str, sep: char) -> (r: Vec<String>)
    ensures
        views(r@) == split(s@, sep),
{
    let v = chars_of(s);
    split_seq(&v, sep)
}

/// `str::lines` on a character sequence, each line as a `String`.
pub fn lines_seq(v: &Vec<char>) -> (r: Vec<String>)
    ensures
        views(r@) == lines(v@),
{
    let mut out: Vec<String> = Vec::new();
    let mut start: usize = 0;
    let mut i: usize = 0;
    assert(v@.skip(0) =~= v@);
    assert(v@.subrange(0, 0) =~= Seq::<char>::empty());
    assert(views(out@) =~= Seq::<Seq<char>>::empty());
    assert(views(out@) + lines(v@) =~= lines(v@));
    while i < v.len()
        invariant
            start <= i <= v@.len(),
            views(out@) + lines_acc(v@.skip(i as int), v@.subrange(start as int, i as int))
                == lines(v@),
        decreases v@.len() - i,
    {
        let ghost cur = v@.subrange(start as int, i as int);
        assert(v@.skip(i as int).drop_first() =~= v@.skip(i + 1));
        if v[i] == '\n' {
            let end = if i > start && v[i - 1] == '\r' {
                i - 1
            } else {
                i
            };
            assert(v@.subrange(start as int, end as int) =~= strip_cr(cur));
            let piece = string_of(v, start, end);
            let ghost old_out = views(out@);
            out.push(piece);
            assert(views(out@) =~= old_out + seq![strip_cr(cur)]);
            assert(v@.subrange(i + 1, i + 1) =~= Seq::<char>::empty());
            i += 1;
            start = i;
        } else {
            assert(v@.subrange(start as int, i + 1) =~= cur.push(v@[i as int]));
            i += 1;
        }
    }
    assert(v@.skip(i as int) =~= Seq::<char>::empty());
    if start < i {
        let piece = string_of(v, start, i);
        let ghost old_out = views(out@);
        out.push(piece);
        assert(views(out@) =~= old_out + seq![v@.subrange(start as int, i as int)]);
    } else {
        assert(views(out@) + Seq::<Seq<char>>::empty() =~= views(out@));
    }
    out
}

/// `s.lines()` collected into owned lines.
pub fn str_lines(s: &str) -> (r: Vec<String>)
    ensures
        views(r@) == lines(s@),
{
    let v = chars_of(s);
    lines_seq(&v)
}

/// Concatenation of two string slices.
pub fn concat2(a: &str, b: &str) -> (r: String)
    ensures
        r@ == a@ + b@,
{
    let mut s = owned(a);
    push_str(&mut s, b);
    s
}

/// Concatenation of three string slices.
pub fn concat3(a: &str, b: &str, c: &str) -> (r: String)
    ensures
        r@ == a@ + b@ + c@,
{
    let mut s = owned(a);
    push_str(&mut s, b);
    push_str(&mut s, c);
    s
}

/// `a:b` coordinates and similar pairs joined by one separator character.
pub fn join_pair(a: &str, sep: char, b: &str) -> (r: String)
    ensures
        r@ == a@.push(sep) + b@,
{
    let mut s = owned(a);
    push_char(&mut s, sep);
    push_str(&mut s, b);
    s
}

/// Every occurrence of `c` in `s` replaced by `r` (`str::replace` with a
/// char pattern).
pub fn str_replace_char(s: &str, c: char, r: &str) -> (out: String)
    ensures
        out@ == replace_char(s@, c, r@),
{
    let v = chars_of(s);
    let mut out = String::new();
    let mut i: usize = 0;
    assert(v@.subrange(0, 0) =~= Seq::<char>::empty());
    while i < v.len()
        invariant
            i <= v@.len(),
            out@ == replace_char(v@.subrange(0, i as int), c, r@),
        decreases v@.len() - i,
    {
        assert(v@.subrange(0, i + 1).drop_last() =~= v@.subrange(0, i as int));
        if v[i] == c {
            push_str(&mut out, r);
        } else {
            push_char(&mut out, v[i]);
        }
        i += 1;
    }
    assert(v@.subrange(0, v@.len() as int) =~= v@);
    out
}

/// End of the run of ASCII digits that starts at `from`.
pub fn digit_run_end(v: &Vec<char>, from: usize) -> (r: usize)
    requires
        from <= v@.len(),
    ensures
        from <= r <= v@.len(),
        r - from == digit_run(v@.skip(from as int)),
{
    let mut i = from;
    while i < v.len() && '0' <= v[i] && v[i] <= '9'
        invariant
            from <= i <= v@.len(),
            digit_run(v@.skip(from as int)) == (i - from) + digit_run(v@.skip(i as int)),
        decreases v@.len() - i,
    {
        assert(v@.skip(i as int).drop_first() =~= v@.skip(i + 1));
        i += 1;
    }
    i
}

/// `s` right-aligned in a field of `w` characters (`format!("{:>w$}", s)`).
pub fn pad_left_exec(s: &str, w: usize) -> (r: String)
    ensures
        r@ == pad_left(s@, w as nat),
{
    let v = chars_of(s);
    let mut out = String::new();
    assert(spaces(0) =~= Seq::<char>::empty());
    if v.len() < w {
        let n = w - v.len();
        let mut k: usize = 0;
        while k < n
            invariant
                k <= n,
                out@ == spaces(k as nat),
            decreases n - k,
        {
            push_char(&mut out, ' ');
            assert(spaces((k + 1) as nat) =~= spaces(k as nat).push(' '));
            k += 1;
        }
    }
    push_str(&mut out, s);
    proof {
        if v@.len() >= w {
            assert(spaces(0) =~= Seq::<char>::empty());
        }
    }
    out
}

/// `s` left-aligned in a field of `w` characters (`format!("{:<w$}", s)`).
pub fn pad_right_exec(s: &str, w: usize) -> (r: String)
    ensures
        r@ == pad_right(s@, w as nat),
{
    let v = chars_of(s);
    let mut out = owned(s);
    assert(s@ + spaces(0) =~= s@);
    if v.len() < w {
        let n = w - v.len();
        let mut k: usize = 0;
        while k < n
            invariant
                k <= n,
                out@ == s@ + spaces(k as nat),
            decreases n - k,
        {
            push_char(&mut out, ' ');
            assert(spaces((k + 1) as nat) =~= spaces(k as nat).push(' '));
            assert(s@ + spaces((k + 1) as nat) =~= (s@ + spaces(k as nat)).push(' '));
            k += 1;
        }
    }
    proof {
        if v@.len() >= w {
            assert(s@ + spaces(0) =~= s@);
        }
    }
    out
}

/// The first `n` strings of `parts` joined with `sep` (`parts[..n].join(sep)`).
pub fn join_prefix(parts: &Vec<String>, n: usize, sep: &str) -> (r: String)
    requires
        n <= parts@.len(),
    ensures
        r@ == join(views(parts@).take(n as int), sep@),
{
    let ghost ps = views(parts@);
    let mut out = String::new();
    let mut i: usize = 0;
    assert(ps.take(0) =~= Seq::<Seq<char>>::empty());
    while i < n
        invariant
            i <= n <= parts@.len(),
            ps == views(parts@),
            ps.len() == parts@.len(),
            out@ == join(ps.take(i as int), sep@),
        decreases n - i,
    {
        assert(ps.take(i + 1).drop_last() =~= ps.take(i as int));
        assert(ps.take(i + 1).last() == parts@[i as int]@);
        if i > 0 {
            push_str(&mut out, sep);
        } else {
            assert(out@ =~= Seq::<char>::empty());
        }
        push_str(&mut out, parts[i].as_str());
        i += 1;
    }
    out
}

/// Whether a string slice is empty.
pub fn str_is_empty(s: &str) -> (r: bool)
    ensures
        r == (s@.len() == 0),
{
    chars_of(s).len() == 0
}

/// `a < b` on string slices.
pub fn str_lt(a: &str, b: &str) -> (r: bool)
    ensures
        r == lex_less(a@, b@),
{
    let va = chars_of(a);
    let vb = chars_of(b);
    let mut i: usize = 0;
    assert(va@.skip(0) =~= va@);
    assert(vb@.skip(0) =~= vb@);
    while i < va.len() && i < vb.len()
        invariant
            i <= va@.len(),
            i <= vb@.len(),
            lex_less(a@, b@) == lex_less(va@.skip(i as int), vb@.skip(i as int)),
            va@ == a@,
            vb@ == b@,
        decreases va@.len() - i,
    {
        if va[i] != vb[i] {
            return va[i] < vb[i];
        }
        assert(va@.skip(i as int).drop_first() =~= va@.skip(i + 1));
        assert(vb@.skip(i as int).drop_first() =~= vb@.skip(i + 1));
        i += 1;
    }
    i < vb.len()
}

/// Lower-case form of a string as std's `str::to_lowercase` computes it
/// (Unicode `Lowercase_Mapping`).
pub uninterp spec fn unicode_lowercase(s: Seq<char>) -> Seq<char>;

/// Upper-case form of a string as std's `str::to_uppercase` computes it
/// (Unicode `Uppercase_Mapping`).
pub uninterp spec fn unicode_uppercase(s: Seq<char>) -> Seq<char>;

/// Every character is ASCII.
pub open spec fn all_ascii(s: Seq<char>) -> bool {
    forall|i: int| 0 <= i < s.len() ==> (#[trigger] s[i] as u32) < 128
}

/// `A`-`Z` to `a`-`z`; any other character as it is.
pub open spec fn ascii_lower_char(c: char) -> char {
    if 65 <= (c as u32) <= 90 {
        ((c as u32) + 32) as char
    } else {
        c
    }
}

/// `a`-`z` to `A`-`Z`; any other character as it is.
pub open spec fn ascii_upper_char(c: char) -> char {
    if 97 <= (c as u32) <= 122 {
        ((c as u32) - 32) as char
    } else {
        c
    }
}

/// Lower-case form of a string: ASCII letters by their case when every
/// character is ASCII, else the Unicode mapping.
pub open spec fn lowercase(s: Seq<char>) -> Seq<char> {
    if all_ascii(s) {
        s.map_values(|c: char| ascii_lower_char(c))
    } else {
        unicode_lowercase(s)
    }
}

/// Upper-case form of a string: ASCII letters by their case when every
/// character is ASCII, else the Unicode mapping.
pub open spec fn uppercase(s: Seq<char>) -> Seq<char> {
    if all_ascii(s) {
        s.map_values(|c: char| ascii_upper_char(c))
    } else {
        unicode_uppercase(s)
    }
}

/// std's `str::to_lowercase`; its result is named `unicode_lowercase`.  On
/// ASCII text it maps `A`-`Z` to `a`-`z` and keeps every other character
/// (the Unicode lowercase mapping of those characters).
#[verifier::external_body]
pub(crate) fn to_lowercase(s: &str) -> (r: String)
    ensures
        r@ == unicode_lowercase(s@),
        all_ascii(s@) ==> r@ == s@.map_values(|c: char| ascii_lower_char(c)),
{
    s.to_lowercase()
}

/// std's `str::to_uppercase`; its result is named `unicode_uppercase`.
/// On ASCII text it maps `a`-`z` to `A`-`Z` and keeps every other
/// character (the Unicode uppercase mapping of those characters).
#[verifier::external_body]
pub(crate) fn to_uppercase(s: &str) -> (r: String)
    ensures
        r@ == unicode_uppercase(s@),
        all_ascii(s@) ==> r@ == s@.map_values(|c: char| ascii_upper_char(c)),
{
    s.to_uppercase()
}

} // verus!
