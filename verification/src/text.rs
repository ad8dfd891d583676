//! Character-level text primitives shared by the parsers.
//!
//! Text is handled as sequences of Unicode scalar values. The spec functions below state, over
//! `Seq<char>`, what `str::lines`, `str::split_whitespace`, `str::trim` and `str::split_once`
//! return; the executable functions compute the same on `Vec<char>` and prove it.
use vstd::prelude::*;

verus! {

/// `char::is_whitespace`: the characters with the Unicode `White_Space` property.
/// This is also the set that `\s` matches in a Unicode regular expression.
pub open spec fn is_ws(c: char) -> bool {
    ||| ('\u{9}' <= c && c <= '\u{d}')
    ||| c == ' '
    ||| c == '\u{85}'
    ||| c == '\u{a0}'
    ||| c == '\u{1680}'
    ||| ('\u{2000}' <= c && c <= '\u{200a}')
    ||| c == '\u{2028}'
    ||| c == '\u{2029}'
    ||| c == '\u{202f}'
    ||| c == '\u{205f}'
    ||| c == '\u{3000}'
}

/// Executable form of [`is_ws`].
pub fn is_whitespace(c: char) -> (r: bool)
    ensures
        r == is_ws(c),
{
    ('\u{9}' <= c && c <= '\u{d}') || c == ' ' || c == '\u{85}' || c == '\u{a0}' || c == '\u{1680}'
        || ('\u{2000}' <= c && c <= '\u{200a}') || c == '\u{2028}' || c == '\u{2029}' || c
        == '\u{202f}' || c == '\u{205f}' || c == '\u{3000}'
}

// ---------------------------------------------------------------------------------------------
// str::lines
// ---------------------------------------------------------------------------------------------
/// Number of characters before the first `'\n'` (the whole length when there is none).
pub open spec fn line_len(s: Seq<char>) -> nat
    decreases s.len(),
{
    if s.len() == 0 || s[0] == '\n' {
        0
    } else {
        1 + line_len(s.drop_first())
    }
}

pub proof fn lemma_line_len(s: Seq<char>)
    ensures
        line_len(s) <= s.len(),
        forall|k: int| 0 <= k < line_len(s) ==> s[k] != '\n',
        line_len(s) < s.len() ==> s[line_len(s) as int] == '\n',
    decreases s.len(),
{
    if s.len() == 0 || s[0] == '\n' {
    } else {
        lemma_line_len(s.drop_first());
        assert forall|k: int| 0 <= k < line_len(s) implies s[k] != '\n' by {
            if k > 0 {
                assert(s[k] == s.drop_first()[k - 1]);
            }
        }
    }
}

/// `line_len` is the index of the first newline.
pub proof fn lemma_line_len_at(s: Seq<char>, m: int)
    requires
        0 <= m <= s.len(),
        forall|k: int| 0 <= k < m ==> s[k] != '\n',
        m == s.len() || s[m] == '\n',
    ensures
        line_len(s) == m,
    decreases m,
{
    if m > 0 {
        lemma_line_len_at(s.drop_first(), m - 1);
    }
}

/// Drops one trailing carriage return.
pub open spec fn strip_cr(t: Seq<char>) -> Seq<char> {
    if t.len() > 0 && t.last() == '\r' {
        t.drop_last()
    } else {
        t
    }
}

/// What `str::lines` yields: the text split at `'\n'`; a `'\r'` just before a `'\n'` is dropped
/// with it, and a final newline does not start an empty line.
pub open spec fn lines_of(s: Seq<char>) -> Seq<Seq<char>>
    decreases s.len(),
{
    if s.len() == 0 {
        seq![]
    } else {
        let n = line_len(s);
        if n >= s.len() {
            seq![s]
        } else {
            seq![strip_cr(s.take(n as int))] + lines_of(s.skip(n + 1 as int))
        }
    }
}

/// The character sequences held by a vector of character vectors.
pub open spec fn views(r: Seq<Vec<char>>) -> Seq<Seq<char>> {
    Seq::new(r.len(), |i: int| r[i]@)
}

/// Copies `v[from..to]`.
pub fn copy_range(v: &[char], from: usize, to: usize) -> (r: Vec<char>)
    requires
        from <= to <= v@.len(),
    ensures
        r@ == v@.subrange(from as int, to as int),
{
    let mut r: Vec<char> = Vec::new();
    let mut i = from;
    while i < to
        invariant
            from <= i <= to <= v@.len(),
            r@ == v@.subrange(from as int, i as int),
        decreases to - i,
    {
        r.push(v[i]);
        i += 1;
    }
    r
}

/// Executable form of [`lines_of`].
pub fn lines(v: &[char]) -> (r: Vec<Vec<char>>)
    ensures
        views(r@) == lines_of(v@),
{
    let mut r: Vec<Vec<char>> = Vec::new();
    let mut pos: usize = 0;
    let len = v.len();
    assert(v@.skip(0) =~= v@);
    while pos < len
        invariant
            len == v@.len(),
            pos <= len,
            lines_of(v@) == views(r@) + lines_of(v@.skip(pos as int)),
        decreases len - pos,
    {
        let ghost rest = v@.skip(pos as int);
        let mut j = pos;
        while j < len && v[j] != '\n'
            invariant
                pos <= j <= len == v@.len(),
                forall|k: int| pos <= k < j ==> v@[k] != '\n',
            decreases len - j,
        {
            j += 1;
        }
        proof {
            lemma_line_len_at(rest, (j - pos) as int);
        }
        let ghost old_r = views(r@);
        if j == len {
            let line = copy_range(v, pos, len);
            assert(line@ =~= rest);
            r.push(line);
            pos = len;
            assert(views(r@) =~= old_r.push(rest));
            assert(v@.skip(len as int) =~= Seq::<char>::empty());
            assert(lines_of(rest) == seq![rest]);
        } else {
            let mut end = j;
            if end > pos && v[end - 1] == '\r' {
                end = end - 1;
            }
            let line = copy_range(v, pos, end);
            assert(line@ =~= strip_cr(rest.take((j - pos) as int)));
            r.push(line);
            assert(rest.skip((j - pos) + 1) =~= v@.skip(j + 1));
            assert(views(r@) =~= old_r.push(line@));
            pos = j + 1;
            assert(lines_of(rest) == seq![line@] + lines_of(v@.skip(pos as int)));
            assert(old_r + lines_of(rest) =~= views(r@) + lines_of(v@.skip(pos as int)));
        }
    }
    assert(v@.skip(pos as int) =~= Seq::<char>::empty());
    assert(views(r@) + Seq::<Seq<char>>::empty() =~= views(r@));
    r
}

// ---------------------------------------------------------------------------------------------
// str::split_whitespace
// ---------------------------------------------------------------------------------------------
/// Number of leading characters that are not whitespace.
pub open spec fn word_len(s: Seq<char>) -> nat
    decreases s.len(),
{
    if s.len() == 0 || is_ws(s[0]) {
        0
    } else {
        1 + word_len(s.drop_first())
    }
}

pub proof fn lemma_word_len_at(s: Seq<char>, m: int)
    requires
        0 <= m <= s.len(),
        forall|k: int| 0 <= k < m ==> !is_ws(s[k]),
        m == s.len() || is_ws(s[m]),
    ensures
        word_len(s) == m,
    decreases m,
{
    if m > 0 {
        lemma_word_len_at(s.drop_first(), m - 1);
    }
}

pub proof fn lemma_word_len(s: Seq<char>)
    ensures
        word_len(s) <= s.len(),
        forall|k: int| 0 <= k < word_len(s) ==> !is_ws(s[k]),
    decreases s.len(),
{
    if s.len() > 0 && !is_ws(s[0]) {
        lemma_word_len(s.drop_first());
        assert forall|k: int| 0 <= k < word_len(s) implies !is_ws(s[k]) by {
            if k > 0 {
                assert(s[k] == s.drop_first()[k - 1]);
            }
        }
    }
}

/// What `str::split_whitespace` yields: the maximal runs of non-whitespace characters.
pub open spec fn words_of(s: Seq<char>) -> Seq<Seq<char>>
    decreases s.len(),
{
    if s.len() == 0 {
        seq![]
    } else if is_ws(s[0]) {
        words_of(s.drop_first())
    } else {
        let n = word_len(s);
        if n >= s.len() {
            seq![s]
        } else {
            seq![s.take(n as int)] + words_of(s.skip(n as int))
        }
    }
}

/// Executable form of [`words_of`].
pub fn words(v: &[char]) -> (r: Vec<Vec<char>>)
    ensures
        views(r@) == words_of(v@),
{
    let mut r: Vec<Vec<char>> = Vec::new();
    let mut pos: usize = 0;
    let len = v.len();
    assert(v@.skip(0) =~= v@);
    while pos < len
        invariant
            len == v@.len(),
            pos <= len,
            words_of(v@) == views(r@) + words_of(v@.skip(pos as int)),
        decreases len - pos,
    {
        let ghost rest = v@.skip(pos as int);
        let ghost old_r = views(r@);
        if is_whitespace(v[pos]) {
            assert(rest.drop_first() =~= v@.skip(pos + 1));
            pos += 1;
        } else {
            let mut j = pos;
            while j < len && !is_whitespace(v[j])
                invariant
                    pos <= j <= len == v@.len(),
                    forall|k: int| pos <= k < j ==> !is_ws(v@[k]),
                decreases len - j,
            {
                j += 1;
            }
            proof {
                lemma_word_len_at(rest, (j - pos) as int);
            }
            let word = copy_range(v, pos, j);
            r.push(word);
            assert(views(r@) =~= old_r.push(word@));
            if j == len {
                assert(word@ =~= rest);
                assert(v@.skip(len as int) =~= Seq::<char>::empty());
            } else {
                assert(word@ =~= rest.take((j - pos) as int));
                assert(rest.skip((j - pos) as int) =~= v@.skip(j as int));
            }
            assert(old_r + words_of(rest) =~= views(r@) + words_of(v@.skip(j as int)));
            pos = j;
        }
    }
    assert(v@.skip(pos as int) =~= Seq::<char>::empty());
    assert(views(r@) + Seq::<Seq<char>>::empty() =~= views(r@));
    r
}

// ---------------------------------------------------------------------------------------------
// str::trim
// ---------------------------------------------------------------------------------------------
pub open spec fn trim_start_of(s: Seq<char>) -> Seq<char>
    decreases s.len(),
{
    if s.len() > 0 && is_ws(s[0]) {
        trim_start_of(s.drop_first())
    } else {
        s
    }
}

pub open spec fn trim_end_of(s: Seq<char>) -> Seq<char>
    decreases s.len(),
{
    if s.len() > 0 && is_ws(s.last()) {
        trim_end_of(s.drop_last())
    } else {
        s
    }
}

/// What `str::trim` returns: the text without leading and trailing whitespace.
pub open spec fn trim_of(s: Seq<char>) -> Seq<char> {
    trim_end_of(trim_start_of(s))
}

proof fn lemma_trim_start_at(s: Seq<char>, a: int)
    requires
        0 <= a <= s.len(),
        forall|k: int| 0 <= k < a ==> is_ws(s[k]),
        a == s.len() || !is_ws(s[a]),
    ensures
        trim_start_of(s) == s.skip(a),
    decreases a,
{
    if a == 0 {
        assert(s.skip(0) =~= s);
    } else {
        lemma_trim_start_at(s.drop_first(), a - 1);
        assert(s.drop_first().skip(a - 1) =~= s.skip(a));
    }
}

proof fn lemma_trim_end_at(s: Seq<char>, b: int)
    requires
        0 <= b <= s.len(),
        forall|k: int| b <= k < s.len() ==> is_ws(s[k]),
        b == 0 || !is_ws(s[b - 1]),
    ensures
        trim_end_of(s) == s.take(b),
    decreases s.len() - b,
{
    if b == s.len() {
        assert(s.take(b) =~= s);
    } else {
        lemma_trim_end_at(s.drop_last(), b);
        assert(s.drop_last().take(b) =~= s.take(b));
    }
}

/// Number of whitespace characters at the start.
pub open spec fn leading_ws(s: Seq<char>) -> nat
    decreases s.len(),
{
    if s.len() > 0 && is_ws(s[0]) {
        1 + leading_ws(s.drop_first())
    } else {
        0
    }
}

/// Number of characters before the whitespace at the end.
pub open spec fn kept_len(s: Seq<char>) -> nat
    decreases s.len(),
{
    if s.len() > 0 && is_ws(s.last()) {
        kept_len(s.drop_last())
    } else {
        s.len()
    }
}

proof fn lemma_leading_ws(s: Seq<char>)
    ensures
        leading_ws(s) <= s.len(),
        forall|k: int| 0 <= k < leading_ws(s) ==> is_ws(s[k]),
        leading_ws(s) < s.len() ==> !is_ws(s[leading_ws(s) as int]),
    decreases s.len(),
{
    if s.len() > 0 && is_ws(s[0]) {
        lemma_leading_ws(s.drop_first());
        assert forall|k: int| 0 <= k < leading_ws(s) implies is_ws(s[k]) by {
            if k > 0 {
                assert(s[k] == s.drop_first()[k - 1]);
            }
        }
    }
}

proof fn lemma_kept_len(s: Seq<char>)
    ensures
        kept_len(s) <= s.len(),
        forall|k: int| kept_len(s) <= k < s.len() ==> is_ws(s[k]),
        kept_len(s) > 0 ==> !is_ws(s[kept_len(s) - 1]),
    decreases s.len(),
{
    if s.len() > 0 && is_ws(s.last()) {
        lemma_kept_len(s.drop_last());
        assert forall|k: int| kept_len(s) <= k < s.len() implies is_ws(s[k]) by {
            if k < s.len() - 1 {
                assert(s[k] == s.drop_last()[k]);
            }
        }
    }
}

/// `str::trim` keeps a part of the text: the characters from the first one that is not
/// whitespace on, up to the last one that is not. When all are whitespace it keeps nothing.
pub proof fn lemma_trim_range(s: Seq<char>) -> (ab: (int, int))
    ensures
        0 <= ab.0 <= ab.1 <= s.len(),
        trim_of(s) == s.subrange(ab.0, ab.1),
        forall|k: int| 0 <= k < ab.0 ==> is_ws(s[k]),
        ab.0 < s.len() ==> ab.0 < ab.1 && !is_ws(s[ab.0]),
{
    lemma_leading_ws(s);
    let a = leading_ws(s) as int;
    lemma_trim_start_at(s, a);
    let t = s.skip(a);
    lemma_kept_len(t);
    let b = kept_len(t) as int;
    assert forall|k: int| b <= k < t.len() implies is_ws(t[k]) by {}
    lemma_trim_end_at(t, b);
    assert(t.take(b) =~= s.subrange(a, a + b));
    if a < s.len() {
        assert(t[0] == s[a]);
        if b == 0 {
            assert(is_ws(t[0]));
        }
    }
    (a, a + b)
}

/// Executable form of [`trim_of`].
pub fn trim(v: &[char]) -> (r: Vec<char>)
    ensures
        r@ == trim_of(v@),
{
    let len = v.len();
    let mut a: usize = 0;
    while a < len && is_whitespace(v[a])
        invariant
            a <= len == v@.len(),
            forall|k: int| 0 <= k < a ==> is_ws(v@[k]),
        decreases len - a,
    {
        a += 1;
    }
    let mut b: usize = len;
    while b > a && is_whitespace(v[b - 1])
        invariant
            a <= b <= len == v@.len(),
            forall|k: int| b <= k < len ==> is_ws(v@[k]),
        decreases b,
    {
        b -= 1;
    }
    proof {
        lemma_trim_start_at(v@, a as int);
        let t = v@.skip(a as int);
        lemma_trim_end_at(t, (b - a) as int);
        assert(t.take((b - a) as int) =~= v@.subrange(a as int, b as int));
    }
    copy_range(v, a, b)
}

// ---------------------------------------------------------------------------------------------
// Searching and comparing
// ---------------------------------------------------------------------------------------------
/// Index of the first occurrence of `c`, if any.
pub open spec fn first_index_of(s: Seq<char>, c: char) -> Option<int>
    decreases s.len(),
{
    if s.len() == 0 {
        None
    } else if s[0] == c {
        Some(0)
    } else {
        match first_index_of(s.drop_first(), c) {
            Some(i) => Some(i + 1),
            None => None,
        }
    }
}

proof fn lemma_first_index_of_at(s: Seq<char>, c: char, m: int)
    requires
        0 <= m <= s.len(),
        forall|k: int| 0 <= k < m ==> s[k] != c,
    ensures
        m == s.len() ==> first_index_of(s, c) == None::<int>,
        m < s.len() && s[m] == c ==> first_index_of(s, c) == Some(m),
    decreases m,
{
    if m > 0 {
        lemma_first_index_of_at(s.drop_first(), c, m - 1);
    }
}

/// Where `first_index_of` points: the first `c`, when there is one.
pub proof fn lemma_first_index_of(s: Seq<char>, c: char)
    ensures
        match first_index_of(s, c) {
            Some(i) => 0 <= i < s.len() && s[i] == c && forall|k: int| 0 <= k < i ==> s[k] != c,
            None => !s.contains(c),
        },
    decreases s.len(),
{
    if s.len() > 0 && s[0] != c {
        lemma_first_index_of(s.drop_first(), c);
        match first_index_of(s.drop_first(), c) {
            Some(i) => {
                assert forall|k: int| 0 <= k < i + 1 implies s[k] != c by {
                    if k > 0 {
                        assert(s[k] == s.drop_first()[k - 1]);
                    }
                }
            },
            None => {
                assert forall|k: int| 0 <= k < s.len() implies s[k] != c by {
                    if k > 0 {
                        assert(s[k] == s.drop_first()[k - 1]);
                    }
                }
            },
        }
    }
}

/// The part before the first `c` starts the text and holds no `c`.
pub proof fn lemma_before_first(s: Seq<char>, c: char)
    ensures
        before_first(s, c).len() <= s.len(),
        before_first(s, c) == s.take(before_first(s, c).len() as int),
        !before_first(s, c).contains(c),
        before_first(s, c).len() < s.len() ==> s[before_first(s, c).len() as int] == c,
    decreases s.len(),
{
    if s.len() == 0 {
        assert(s.take(0) =~= s);
    } else if s[0] == c {
        assert(s.take(0) =~= Seq::<char>::empty());
    } else {
        lemma_before_first(s.drop_first(), c);
        lemma_first_index_of(s.drop_first(), c);
        let rest = before_first(s.drop_first(), c);
        match first_index_of(s.drop_first(), c) {
            Some(i) => {
                assert(rest == s.drop_first().take(i));
                assert(before_first(s, c) == s.take(i + 1));
                assert(s.take(i + 1) =~= seq![s[0]] + s.drop_first().take(i));
            },
            None => {
                assert(before_first(s, c) == s);
                assert(rest == s.drop_first());
                assert(s =~= seq![s[0]] + rest);
            },
        }
        assert(!before_first(s, c).contains(c)) by {
            if before_first(s, c).contains(c) {
                let k = choose|k: int| 0 <= k < before_first(s, c).len() && before_first(s, c)[k] == c;
                if k > 0 {
                    assert(rest[k - 1] == c);
                }
            }
        }
    }
}

/// Index of the first occurrence of `c` in `v`.
pub fn find_char(v: &[char], c: char) -> (r: Option<usize>)
    ensures
        match r {
            Some(i) => first_index_of(v@, c) == Some(i as int),
            None => first_index_of(v@, c) == None::<int>,
        },
        r is Some ==> r->0 < v@.len() && v@[r->0 as int] == c,
        r is None <==> !v@.contains(c),
{
    let mut i: usize = 0;
    while i < v.len()
        invariant
            i <= v@.len(),
            forall|k: int| 0 <= k < i ==> v@[k] != c,
        decreases v@.len() - i,
    {
        if v[i] == c {
            proof {
                lemma_first_index_of_at(v@, c, i as int);
            }
            return Some(i);
        }
        i += 1;
    }
    proof {
        lemma_first_index_of_at(v@, c, i as int);
    }
    None
}

/// The part before the first `c`, or the whole text when `c` does not occur: the first half of
/// `str::split_once(c)`, with `None` mapped to the whole text.
pub open spec fn before_first(s: Seq<char>, c: char) -> Seq<char> {
    match first_index_of(s, c) {
        Some(i) => s.take(i),
        None => s,
    }
}

/// Whether two character sequences are equal.
pub fn chars_equal(a: &[char], b: &[char]) -> (r: bool)
    ensures
        r == (a@ == b@),
{
    if a.len() != b.len() {
        return false;
    }
    let mut i: usize = 0;
    while i < a.len()
        invariant
            a@.len() == b@.len(),
            i <= a@.len(),
            forall|k: int| 0 <= k < i ==> a@[k] == b@[k],
        decreases a@.len() - i,
    {
        if a[i] != b[i] {
            return false;
        }
        i += 1;
    }
    assert(a@ =~= b@);
    true
}

/// Whether `v` starts with `prefix`.
pub fn starts_with(v: &[char], prefix: &[char]) -> (r: bool)
    ensures
        r == (prefix@.len() <= v@.len() && v@.take(prefix@.len() as int) == prefix@),
{
    if prefix.len() > v.len() {
        return false;
    }
    let mut i: usize = 0;
    while i < prefix.len()
        invariant
            prefix@.len() <= v@.len(),
            i <= prefix@.len(),
            forall|k: int| 0 <= k < i ==> v@[k] == prefix@[k],
        decreases prefix@.len() - i,
    {
        if v[i] != prefix[i] {
            assert(v@.take(prefix@.len() as int)[i as int] != prefix@[i as int]);
            return false;
        }
        i += 1;
    }
    assert(v@.take(prefix@.len() as int) =~= prefix@);
    true
}

/// Whether `v` holds `c`.
pub fn contains_char(v: &[char], c: char) -> (r: bool)
    ensures
        r == v@.contains(c),
{
    find_char(v, c).is_some()
}

// ---------------------------------------------------------------------------------------------
// Conversions between `str`/`String` and character vectors
// ---------------------------------------------------------------------------------------------
/// The characters of `s`.
pub fn to_chars(s: &str) -> (v: Vec<char>)
    ensures
        v@ == s@,
{
    let mut v: Vec<char> = Vec::new();
    for c in it: s.chars()
        invariant
            it.seq() == s@,
            v@ == it.seq().take(it.index() as int),
    {
        v.push(c);
    }
    v
}

/// `String::from_iter` over `chars`: the string made of the given characters.
#[verifier::external_body]
pub(crate) fn string_of(chars: &[char]) -> (s: String)
    ensures
        s@ == chars@,
{
    chars.iter().collect()
}

/// A string from a string slice.
pub fn str_to_string(s: &str) -> (r: String)
    ensures
        r@ == s@,
{
    s.to_owned()
}


// ---------------------------------------------------------------------------------------------
// Paths
// ---------------------------------------------------------------------------------------------
/// `Path::join` on `/`-separated paths: an absolute `name` replaces `dir`; otherwise `name` is
/// appended with a separator unless `dir` is empty or already ends with one.
pub open spec fn join_path(dir: Seq<char>, name: Seq<char>) -> Seq<char> {
    if name.len() > 0 && name[0] == '/' {
        name
    } else if dir.len() == 0 || dir.last() == '/' {
        dir + name
    } else {
        dir + seq!['/'] + name
    }
}

/// Executable form of [`join_path`].
pub fn join(dir: &str, name: &str) -> (r: String)
    ensures
        r@ == join_path(dir@, name@),
{
    let d = to_chars(dir);
    let n = to_chars(name);
    let mut r: Vec<char> = Vec::new();
    if n.len() > 0 && n[0] == '/' {
        return str_to_string(name);
    }
    let mut i: usize = 0;
    while i < d.len()
        invariant
            i <= d@.len(),
            r@ == d@.take(i as int),
        decreases d@.len() - i,
    {
        r.push(d[i]);
        i += 1;
    }
    if d.len() > 0 && d[d.len() - 1] != '/' {
        r.push('/');
    }
    let mut j: usize = 0;
    let ghost base = r@;
    while j < n.len()
        invariant
            j <= n@.len(),
            r@ == base + n@.take(j as int),
        decreases n@.len() - j,
    {
        r.push(n[j]);
        j += 1;
    }
    assert(d@.take(d@.len() as int) =~= d@);
    assert(n@.take(n@.len() as int) =~= n@);
    assert(r@ =~= join_path(dir@, name@));
    string_of(r.as_slice())
}

/// Whether `s` contains `sub` as a contiguous part: `str::contains` with a string pattern.
pub open spec fn contains_seq(s: Seq<char>, sub: Seq<char>) -> bool {
    exists|k: int| 0 <= k <= s.len() - sub.len() && #[trigger] s.subrange(k, k + sub.len()) == sub
}

/// Executable form of [`contains_seq`].
pub fn contains_chars(s: &[char], sub: &[char]) -> (r: bool)
    ensures
        r == contains_seq(s@, sub@),
{
    if sub.len() > s.len() {
        return false;
    }
    if sub.len() == 0 {
        assert(s@.subrange(0int, 0int + sub@.len()) =~= sub@);
        return true;
    }
    let slen = s.len();
    let last = slen - sub.len();
    let mut k: usize = 0;
    while k <= last
        invariant
            last == s@.len() - sub@.len(),
            slen == s@.len(),
            sub@.len() >= 1,
            k <= last + 1,
            forall|m: int| 0 <= m < k ==> #[trigger] s@.subrange(m, m + sub@.len()) != sub@,
        decreases last + 1 - k,
    {
        let mut j: usize = 0;
        let mut same = true;
        while j < sub.len()
            invariant
                j <= sub@.len(),
                k <= last,
                last == s@.len() - sub@.len(),
                k + sub@.len() <= s@.len(),
                slen == s@.len(),
                same == forall|t: int| 0 <= t < j ==> s@[k + t] == sub@[t],
            decreases sub@.len() - j,
        {
            if s[k + j] != sub[j] {
                same = false;
            }
            j += 1;
        }
        if same {
            assert(s@.subrange(k as int, k + sub@.len()) =~= sub@);
            return true;
        }
        assert(s@.subrange(k as int, k + sub@.len()) != sub@) by {
            let t = choose|t: int| 0 <= t < sub@.len() && s@[k + t] != sub@[t];
            assert(s@.subrange(k as int, k + sub@.len())[t] != sub@[t]);
        }
        k += 1;
    }
    false
}

// ---------------------------------------------------------------------------------------------
// str::split with a character
// ---------------------------------------------------------------------------------------------
/// What `str::split(c)` yields: the parts between the occurrences of `c`, empty ones included.
pub open spec fn split_on(s: Seq<char>, c: char) -> Seq<Seq<char>>
    decreases s.len(),
{
    match first_index_of(s, c) {
        None => seq![s],
        Some(i) => if 0 <= i < s.len() {
            seq![s.take(i)] + split_on(s.skip(i + 1), c)
        } else {
            seq![s]
        },
    }
}

/// Executable form of [`split_on`].
pub fn split(v: &[char], c: char) -> (r: Vec<Vec<char>>)
    ensures
        views(r@) == split_on(v@, c),
        r@.len() >= 1,
{
    let mut r: Vec<Vec<char>> = Vec::new();
    let mut pos: usize = 0;
    let len = v.len();
    assert(v@.skip(0) =~= v@);
    loop
        invariant
            len == v@.len(),
            pos <= len,
            split_on(v@, c) == views(r@) + split_on(v@.skip(pos as int), c),
        decreases len - pos,
    {
        let rest = copy_range(v, pos, len);
        assert(rest@ =~= v@.skip(pos as int));
        match find_char(rest.as_slice(), c) {
            None => {
                let ghost prev = views(r@);
                r.push(rest);
                assert(views(r@) =~= prev.push(v@.skip(pos as int)));
                assert(views(r@) =~= prev + seq![v@.skip(pos as int)]);
                return r;
            },
            Some(i) => {
                let part = copy_range(rest.as_slice(), 0, i);
                assert(part@ =~= rest@.take(i as int));
                let ghost prev = views(r@);
                r.push(part);
                assert(views(r@) =~= prev.push(part@));
                assert(rest@.skip(i + 1) =~= v@.skip(pos + i + 1));
                assert(views(r@) + split_on(v@.skip(pos + i + 1), c) =~= prev + split_on(
                    v@.skip(pos as int),
                    c,
                ));
                pos = pos + i + 1;
            },
        }
    }
}

/// The last index at which `c` occurs, if any.
pub open spec fn last_index_of(s: Seq<char>, c: char) -> Option<int> {
    if exists|k: int| 0 <= k < s.len() && s[k] == c {
        Some(choose|k: int| 0 <= k < s.len() && s[k] == c && forall|m: int| k < m < s.len() ==> s[m] != c)
    } else {
        None
    }
}

/// The last index at which `c` occurs in `v`.
pub fn find_last(v: &[char], c: char) -> (r: Option<usize>)
    ensures
        match r {
            Some(k) => k < v@.len() && v@[k as int] == c && forall|m: int| k < m < v@.len() ==> v@[m]
                != c,
            None => forall|m: int| 0 <= m < v@.len() ==> v@[m] != c,
        },
        r matches Some(k) ==> last_index_of(v@, c) == Some(k as int),
        r is None ==> last_index_of(v@, c) == None::<int>,
{
    let mut i: usize = v.len();
    while i > 0
        invariant
            i <= v@.len(),
            forall|m: int| i <= m < v@.len() ==> v@[m] != c,
        decreases i,
    {
        if v[i - 1] == c {
            let k = i - 1;
            proof {
                let w = choose|j: int| 0 <= j < v@.len() && v@[j] == c && forall|m: int| j < m < v@.len() ==> v@[m] != c;
                assert(0 <= k < v@.len() && v@[k as int] == c && forall|m: int| k < m < v@.len() ==> v@[m] != c);
                assert(w == k) by {
                    if w < k {
                        assert(v@[k as int] != c);
                    }
                    if w > k {
                        assert(v@[w] != c);
                    }
                }
            }
            return Some(k);
        }
        i -= 1;
    }
    None
}

} // verus!
