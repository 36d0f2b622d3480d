//! Character-level helpers on strings: whitespace trimming, splitting,
//! searching.

use vstd::prelude::*;

verus! {

broadcast use vstd::string::group_string_axioms;

/// The characters of a string.
pub fn str_to_chars(s: &str) -> (r: Vec<char>)
    ensures
        r@ == s@,
{
    let mut out: Vec<char> = Vec::new();
    for c in it: s.chars()
        invariant
            out@ == it.seq().take(it.index()),
    {
        out.push(c);
        assert(out@ =~= it.seq().take(it.index() + 1));
    }
    assert(out@ =~= s@);
    out
}

/// The view of an optional string.
pub open spec fn opt_str_view(o: Option<String>) -> Option<Seq<char>> {
    match o {
        Some(s) => Some(s@),
        None => None,
    }
}

/// The views of a sequence of strings.
pub open spec fn strs_view(v: Seq<String>) -> Seq<Seq<char>> {
    v.map_values(|s: String| s@)
}

/// Unicode `White_Space`, the whitespace of `char::is_whitespace`.
pub open spec fn char_is_whitespace(c: char) -> bool {
    let u = c as u32;
    (0x09 <= u && u <= 0x0d) || u == 0x20 || u == 0x85 || u == 0xa0 || u == 0x1680 || (0x2000
        <= u && u <= 0x200a) || u == 0x2028 || u == 0x2029 || u == 0x202f || u == 0x205f || u
        == 0x3000
}

/// Whether `c` is whitespace (Unicode `White_Space`).
pub fn is_whitespace(c: char) -> (r: bool)
    ensures
        r == char_is_whitespace(c),
{
    let u = c as u32;
    (0x09 <= u && u <= 0x0d) || u == 0x20 || u == 0x85 || u == 0xa0 || u == 0x1680 || (0x2000
        <= u && u <= 0x200a) || u == 0x2028 || u == 0x2029 || u == 0x202f || u == 0x205f || u
        == 0x3000
}

/// `s` without leading whitespace.
pub open spec fn trim_start_seq(s: Seq<char>) -> Seq<char>
    decreases s.len(),
{
    if s.len() > 0 && char_is_whitespace(s[0]) {
        trim_start_seq(s.drop_first())
    } else {
        s
    }
}

/// `s` without trailing whitespace.
pub open spec fn trim_end_seq(s: Seq<char>) -> Seq<char>
    decreases s.len(),
{
    if s.len() > 0 && char_is_whitespace(s.last()) {
        trim_end_seq(s.drop_last())
    } else {
        s
    }
}

/// `s` without leading and trailing whitespace, as `str::trim` gives it.
pub open spec fn trim_seq(s: Seq<char>) -> Seq<char> {
    trim_end_seq(trim_start_seq(s))
}

/// Bounds `(lo, hi)` of the trimmed part of `chars[from..to]`.
pub fn trim_bounds(chars: &Vec<char>, from: usize, to: usize) -> (r: (usize, usize))
    requires
        from <= to <= chars@.len(),
    ensures
        from <= r.0 <= r.1 <= to,
        chars@.subrange(r.0 as int, r.1 as int) == trim_seq(chars@.subrange(from as int, to as int)),
{
    let ghost s = chars@;
    let mut lo = from;
    while lo < to && is_whitespace(chars[lo])
        invariant
            from <= lo <= to,
            to <= s.len(),
            s == chars@,
            trim_start_seq(s.subrange(from as int, to as int)) == trim_start_seq(
                s.subrange(lo as int, to as int),
            ),
        decreases to - lo,
    {
        assert(s.subrange(lo as int, to as int).drop_first() =~= s.subrange(lo + 1, to as int));
        lo = lo + 1;
    }
    let mut hi = to;
    while hi > lo && is_whitespace(chars[hi - 1])
        invariant
            lo <= hi <= to,
            to <= s.len(),
            s == chars@,
            trim_end_seq(s.subrange(lo as int, to as int)) == trim_end_seq(
                s.subrange(lo as int, hi as int),
            ),
        decreases hi - lo,
    {
        assert(s.subrange(lo as int, hi as int).drop_last() =~= s.subrange(lo as int, hi - 1));
        hi = hi - 1;
    }
    (lo, hi)
}

/// `s` trimmed of whitespace at both ends.
pub fn trim_str(s: &str) -> (r: String)
    ensures
        r@ == trim_seq(s@),
{
    let chars = str_to_chars(s);
    let (lo, hi) = trim_bounds(&chars, 0, chars.len());
    proof {
        assert(chars@.subrange(0, chars@.len() as int) =~= chars@);
    }
    s.substring_char(lo, hi).to_owned()
}

/// The pieces of `s` between occurrences of `sep`, as `str::split` yields them.
pub open spec fn split_seq(s: Seq<char>, sep: char) -> Seq<Seq<char>>
    decreases s.len(),
{
    if s.len() == 0 {
        seq![Seq::<char>::empty()]
    } else {
        let init = split_seq(s.drop_last(), sep);
        if s.last() == sep {
            init.push(Seq::<char>::empty())
        } else {
            init.update(init.len() - 1, init.last().push(s.last()))
        }
    }
}

proof fn lemma_split_nonempty(s: Seq<char>, sep: char)
    ensures
        split_seq(s, sep).len() >= 1,
    decreases s.len(),
{
    if s.len() > 0 {
        lemma_split_nonempty(s.drop_last(), sep);
    }
}

/// Bounds of the pieces of `chars[from..to]` between occurrences of `sep`.
pub fn split_ranges(chars: &Vec<char>, from: usize, to: usize, sep: char) -> (r: Vec<
    (usize, usize),
>)
    requires
        from <= to <= chars@.len(),
    ensures
        r@.len() == split_seq(chars@.subrange(from as int, to as int), sep).len(),
        forall|i: int|
            0 <= i < r@.len() ==> from <= (#[trigger] r@[i]).0 <= r@[i].1 <= to
                && chars@.subrange(r@[i].0 as int, r@[i].1 as int) == split_seq(
                chars@.subrange(from as int, to as int),
                sep,
            )[i],
{
    let ghost s = chars@;
    let mut done: Vec<(usize, usize)> = Vec::new();
    let mut start = from;
    let mut i = from;
    while i < to
        invariant
            from <= start <= i <= to,
            to <= s.len(),
            s == chars@,
            done@.len() + 1 == split_seq(s.subrange(from as int, i as int), sep).len(),
            forall|j: int|
                0 <= j < done@.len() ==> from <= (#[trigger] done@[j]).0 <= done@[j].1 <= i
                    && s.subrange(done@[j].0 as int, done@[j].1 as int) == split_seq(
                    s.subrange(from as int, i as int),
                    sep,
                )[j],
            s.subrange(start as int, i as int) == split_seq(
                s.subrange(from as int, i as int),
                sep,
            ).last(),
        decreases to - i,
    {
        let ghost pre = s.subrange(from as int, i as int);
        let ghost next = s.subrange(from as int, i + 1);
        proof {
            assert(next.drop_last() =~= pre);
            assert(next.last() == s[i as int]);
            lemma_split_nonempty(pre, sep);
        }
        if chars[i] == sep {
            done.push((start, i));
            start = i + 1;
            proof {
                assert(s.subrange(start as int, i + 1) =~= Seq::<char>::empty());
                assert forall|j: int| 0 <= j < done@.len() implies from <= (
                #[trigger] done@[j]).0 <= done@[j].1 <= i + 1 && s.subrange(
                    done@[j].0 as int,
                    done@[j].1 as int,
                ) == split_seq(next, sep)[j] by {
                    if j < done@.len() - 1 {
                        assert(split_seq(next, sep)[j] == split_seq(pre, sep)[j]);
                    } else {
                        assert(split_seq(next, sep)[j] == split_seq(pre, sep).last());
                    }
                }
            }
        } else {
            proof {
                assert(s.subrange(start as int, i + 1) =~= s.subrange(start as int, i as int).push(
                    s[i as int],
                ));
                assert forall|j: int| 0 <= j < done@.len() implies from <= (
                #[trigger] done@[j]).0 <= done@[j].1 <= i + 1 && s.subrange(
                    done@[j].0 as int,
                    done@[j].1 as int,
                ) == split_seq(next, sep)[j] by {
                    assert(split_seq(next, sep)[j] == split_seq(pre, sep)[j]);
                }
            }
        }
        i = i + 1;
    }
    done.push((start, to));
    proof {
        let whole = s.subrange(from as int, to as int);
        assert forall|j: int| 0 <= j < done@.len() implies from <= (#[trigger] done@[j]).0
            <= done@[j].1 <= to && s.subrange(done@[j].0 as int, done@[j].1 as int) == split_seq(
            whole,
            sep,
        )[j] by {
            if j == done@.len() - 1 {
                assert(split_seq(whole, sep)[j] == split_seq(whole, sep).last());
            }
        }
    }
    done
}

/// Whether `needle` occurs in `hay` at position `i`.
pub open spec fn occurs_at(hay: Seq<char>, needle: Seq<char>, i: int) -> bool {
    0 <= i && i + needle.len() <= hay.len() && hay.subrange(i, i + needle.len()) == needle
}

/// Whether `needle` occurs anywhere in `hay`.
pub open spec fn seq_contains(hay: Seq<char>, needle: Seq<char>) -> bool {
    exists|i: int| occurs_at(hay, needle, i)
}

/// Whether `needle` occurs in `hay`, as `str::contains` decides it.
pub fn str_contains(hay: &str, needle: &str) -> (r: bool)
    ensures
        r == seq_contains(hay@, needle@),
{
    let h = str_to_chars(hay);
    let n = str_to_chars(needle);
    if n.len() > h.len() {
        proof {
            assert forall|i: int| !occurs_at(hay@, needle@, i) by {}
        }
        return false;
    }
    let last = h.len() - n.len();
    let mut i: usize = 0;
    while i <= last
        invariant
            h@ == hay@,
            n@ == needle@,
            n@.len() <= h@.len(),
            last == h@.len() - n@.len(),
            forall|k: int| 0 <= k < i ==> !occurs_at(hay@, needle@, k),
        decreases last + 1 - i,
    {
        let mut j: usize = 0;
        let mut same = true;
        while j < n.len()
            invariant
                h@ == hay@,
                n@ == needle@,
                i <= last,
                n@.len() <= h@.len(),
                last == h@.len() - n@.len(),
                j <= n@.len(),
                same == (forall|m: int| 0 <= m < j ==> h@[i + m] == n@[m]),
            decreases n@.len() - j,
        {
            assert(i + j < h@.len());
            assert(h@.len() == h.len());
            let k: usize = i + j;
            if h[k] != n[j] {
                same = false;
            }
            j = j + 1;
        }
        if same {
            proof {
                assert(h@.subrange(i as int, i + n@.len()) =~= n@);
                assert(occurs_at(hay@, needle@, i as int));
            }
            return true;
        }
        proof {
            assert(!occurs_at(hay@, needle@, i as int)) by {
                if occurs_at(hay@, needle@, i as int) {
                    let m = choose|m: int| 0 <= m < n@.len() && h@[i + m] != n@[m];
                    assert(h@.subrange(i as int, i + n@.len())[m] == h@[i + m]);
                }
            }
        }
        if i == last {
            proof {
                assert forall|k: int| !occurs_at(hay@, needle@, k) by {
                    if occurs_at(hay@, needle@, k) {
                        assert(0 <= k <= last);
                    }
                }
            }
            return false;
        }
        i = i + 1;
    }
    proof {
        assert forall|k: int| !occurs_at(hay@, needle@, k) by {}
    }
    false
}

/// Whether two character sequences are equal when ASCII letters are compared
/// without case.
pub open spec fn ascii_lower(c: char) -> char {
    if 'A' <= c && c <= 'Z' {
        ((c as u8) + 32u8) as char
    } else {
        c
    }
}

/// `s` with ASCII letters in lower case, as `str::to_ascii_lowercase` gives it.
pub open spec fn ascii_lowercase_seq(s: Seq<char>) -> Seq<char> {
    s.map_values(|c: char| ascii_lower(c))
}

/// Whether `s`, lower-cased in ASCII, equals `word`.
pub fn eq_ascii_lowercase(s: &Vec<char>, word: &str) -> (r: bool)
    ensures
        r == (ascii_lowercase_seq(s@) == word@),
{
    let w = str_to_chars(word);
    if s.len() != w.len() {
        proof {
            if ascii_lowercase_seq(s@) == word@ {
                assert(ascii_lowercase_seq(s@).len() == s@.len());
            }
        }
        return false;
    }
    let mut i: usize = 0;
    while i < s.len()
        invariant
            w@ == word@,
            s@.len() == w@.len(),
            i <= s@.len(),
            forall|k: int| 0 <= k < i ==> ascii_lower(s@[k]) == w@[k],
        decreases s@.len() - i,
    {
        let c = s[i];
        let lower = if 'A' <= c && c <= 'Z' {
            ((c as u8) + 32u8) as char
        } else {
            c
        };
        if lower != w[i] {
            proof {
                assert(ascii_lowercase_seq(s@)[i as int] != word@[i as int]);
            }
            return false;
        }
        i = i + 1;
    }
    assert(ascii_lowercase_seq(s@) =~= word@);
    true
}

/// The whitespace-trimmed pieces that are not empty.
pub open spec fn nonempty_trimmed(pieces: Seq<Seq<char>>) -> Seq<Seq<char>>
    decreases pieces.len(),
{
    if pieces.len() == 0 {
        Seq::empty()
    } else {
        let init = nonempty_trimmed(pieces.drop_last());
        let t = trim_seq(pieces.last());
        if t.len() > 0 {
            init.push(t)
        } else {
            init
        }
    }
}

/// `s.split(sep).map(str::trim).filter(|p| !p.is_empty())`, owned.
pub fn split_trim_nonempty(s: &str, sep: char) -> (r: Vec<String>)
    ensures
        strs_view(r@) == nonempty_trimmed(split_seq(s@, sep)),
{
    let chars = str_to_chars(s);
    let ranges = split_ranges(&chars, 0, chars.len(), sep);
    let ghost pieces = split_seq(s@, sep);
    proof {
        assert(chars@.subrange(0, chars@.len() as int) =~= s@);
    }
    let mut out: Vec<String> = Vec::new();
    let mut i: usize = 0;
    while i < ranges.len()
        invariant
            chars@ == s@,
            pieces == split_seq(s@, sep),
            ranges@.len() == pieces.len(),
            forall|j: int|
                0 <= j < ranges@.len() ==> 0 <= (#[trigger] ranges@[j]).0 <= ranges@[j].1
                    <= chars@.len() && chars@.subrange(ranges@[j].0 as int, ranges@[j].1 as int)
                    == pieces[j],
            i <= ranges@.len(),
            strs_view(out@) == nonempty_trimmed(pieces.take(i as int)),
        decreases ranges@.len() - i,
    {
        let (a, b) = ranges[i];
        let (la, lb) = trim_bounds(&chars, a, b);
        proof {
            assert(pieces.take(i + 1).drop_last() =~= pieces.take(i as int));
            assert(pieces.take(i + 1).last() == pieces[i as int]);
        }
        if la < lb {
            let piece = s.substring_char(la, lb).to_owned();
            let ghost before = out@;
            out.push(piece);
            assert(strs_view(out@) =~= strs_view(before).push(piece@));
        }
        i = i + 1;
    }
    assert(pieces.take(ranges@.len() as int) =~= pieces);
    out
}

/// Whether `chars[lo..hi]` spells `word`.
pub fn chars_eq_str(chars: &Vec<char>, lo: usize, hi: usize, word: &str) -> (r: bool)
    requires
        lo <= hi <= chars@.len(),
    ensures
        r == (chars@.subrange(lo as int, hi as int) == word@),
{
    let w = str_to_chars(word);
    if hi - lo != w.len() {
        return false;
    }
    let mut i: usize = 0;
    while i < w.len()
        invariant
            w@ == word@,
            lo <= hi <= chars@.len(),
            hi - lo == w@.len(),
            i <= w@.len(),
            forall|k: int| 0 <= k < i ==> chars@[lo + k] == w@[k],
        decreases w@.len() - i,
    {
        if chars[lo + i] != w[i] {
            proof {
                assert(chars@.subrange(lo as int, hi as int)[i as int] != word@[i as int]);
            }
            return false;
        }
        i = i + 1;
    }
    assert(chars@.subrange(lo as int, hi as int) =~= word@);
    true
}

/// Index of the first `c` in `s`, or `s.len()` when there is none.
pub open spec fn find_char(s: Seq<char>, c: char) -> nat
    decreases s.len(),
{
    if s.len() == 0 {
        0
    } else if s[0] == c {
        0
    } else {
        1 + find_char(s.drop_first(), c)
    }
}

pub proof fn lemma_find_char_bounds(s: Seq<char>, c: char)
    ensures
        find_char(s, c) <= s.len(),
        find_char(s, c) < s.len() ==> s[find_char(s, c) as int] == c,
        forall|k: int| 0 <= k < find_char(s, c) ==> s[k] != c,
    decreases s.len(),
{
    if s.len() > 0 && s[0] != c {
        lemma_find_char_bounds(s.drop_first(), c);
        assert forall|k: int| 0 <= k < find_char(s, c) implies s[k] != c by {
            if k > 0 {
                assert(s[k] == s.drop_first()[k - 1]);
            }
        }
    }
}

/// Position of the first `c` in `chars[from..to]`, or `to`.
pub fn find_char_in(chars: &Vec<char>, from: usize, to: usize, c: char) -> (r: usize)
    requires
        from <= to <= chars@.len(),
    ensures
        r == from + find_char(chars@.subrange(from as int, to as int), c),
        from <= r <= to,
{
    let ghost s = chars@.subrange(from as int, to as int);
    proof {
        lemma_find_char_bounds(s, c);
    }
    let mut i = from;
    while i < to && chars[i] != c
        invariant
            from <= i <= to,
            to <= chars@.len(),
            s == chars@.subrange(from as int, to as int),
            forall|k: int| from <= k < i ==> chars@[k] != c,
        decreases to - i,
    {
        i = i + 1;
    }
    proof {
        let f = find_char(s, c);
        lemma_find_char_bounds(s, c);
        if i < to {
            assert(s[i - from] == c);
            if f < i - from {
                assert(s[f as int] == chars@[from + f]);
            }
            assert(f == i - from);
        } else {
            if f < s.len() {
                assert(s[f as int] == chars@[from + f]);
            }
        }
    }
    i
}

/// What `trim_start_seq` leaves is a suffix, empty or starting with a
/// non-whitespace character.
proof fn lemma_trim_start_shape(s: Seq<char>) -> (k: int)
    ensures
        0 <= k <= s.len(),
        trim_start_seq(s) == s.subrange(k, s.len() as int),
        trim_start_seq(s).len() > 0 ==> !char_is_whitespace(trim_start_seq(s)[0]),
    decreases s.len(),
{
    let n = s.len() as int;
    if s.len() > 0 && char_is_whitespace(s[0]) {
        let k0 = lemma_trim_start_shape(s.drop_first());
        assert(s.drop_first().subrange(k0, n - 1) =~= s.subrange(k0 + 1, n));
        k0 + 1
    } else {
        assert(s.subrange(0, n) =~= s);
        0
    }
}

/// What `trim_end_seq` leaves is a prefix, empty or ending with a
/// non-whitespace character.
proof fn lemma_trim_end_shape(s: Seq<char>) -> (m: int)
    ensures
        0 <= m <= s.len(),
        trim_end_seq(s) == s.subrange(0, m),
        trim_end_seq(s).len() > 0 ==> !char_is_whitespace(trim_end_seq(s).last()),
    decreases s.len(),
{
    let n = s.len() as int;
    if s.len() > 0 && char_is_whitespace(s.last()) {
        let m0 = lemma_trim_end_shape(s.drop_last());
        assert(s.drop_last().subrange(0, m0) =~= s.subrange(0, m0));
        m0
    } else {
        assert(s.subrange(0, n) =~= s);
        n
    }
}

/// Trimming twice is trimming once.
pub proof fn lemma_trim_idempotent(s: Seq<char>)
    ensures
        trim_seq(trim_seq(s)) == trim_seq(s),
{
    let u = trim_start_seq(s);
    lemma_trim_start_shape(s);
    lemma_trim_end_shape(u);
    let v = trim_end_seq(u);
    if v.len() > 0 {
        assert(v[0] == u[0]);
        assert(v.last() == v[v.len() - 1]);
    }
    assert(trim_start_seq(v) == v);
    assert(trim_end_seq(v) == v);
}

/// Trimming brings in no character the text did not hold.
pub proof fn lemma_trim_lacks(s: Seq<char>, c: char)
    requires
        forall|i: int| 0 <= i < s.len() ==> #[trigger] s[i] != c,
    ensures
        forall|i: int| 0 <= i < trim_seq(s).len() ==> #[trigger] trim_seq(s)[i] != c,
{
    let k = lemma_trim_start_shape(s);
    let u = trim_start_seq(s);
    let m = lemma_trim_end_shape(u);
    assert forall|i: int| 0 <= i < trim_seq(s).len() implies #[trigger] trim_seq(s)[i] != c by {
        assert(trim_seq(s)[i] == u[i]);
        assert(u[i] == s[k + i]);
    }
}

/// No piece of a split holds the separator.
pub proof fn lemma_split_lacks_sep(s: Seq<char>, sep: char)
    ensures
        forall|i: int, j: int|
            0 <= i < split_seq(s, sep).len() && 0 <= j < split_seq(s, sep)[i].len()
                ==> #[trigger] split_seq(s, sep)[i][j] != sep,
    decreases s.len(),
{
    if s.len() > 0 {
        let init = split_seq(s.drop_last(), sep);
        lemma_split_lacks_sep(s.drop_last(), sep);
        lemma_split_nonempty(s.drop_last(), sep);
        let r = split_seq(s, sep);
        assert forall|i: int, j: int| 0 <= i < r.len() && 0 <= j < r[i].len() implies #[trigger] r[i][j]
            != sep by {
            if s.last() == sep {
                if i < init.len() {
                    assert(r[i] == init[i]);
                }
            } else {
                if i < init.len() - 1 {
                    assert(r[i] == init[i]);
                } else {
                    assert(r[i] == init.last().push(s.last()));
                    if j < init.last().len() {
                        assert(init.last() == init[init.len() - 1]);
                    }
                }
            }
        }
    }
}

/// The pieces joined with `sep` in between.
pub open spec fn join_seq(pieces: Seq<Seq<char>>, sep: char) -> Seq<char>
    decreases pieces.len(),
{
    if pieces.len() == 0 {
        Seq::empty()
    } else if pieces.len() == 1 {
        pieces[0]
    } else {
        join_seq(pieces.drop_last(), sep).push(sep) + pieces.last()
    }
}

/// Appending text without the separator extends the last piece.
pub proof fn lemma_split_append_plain(x: Seq<char>, b: Seq<char>, sep: char)
    requires
        forall|i: int| 0 <= i < b.len() ==> #[trigger] b[i] != sep,
    ensures
        split_seq(x + b, sep) == split_seq(x, sep).update(
            split_seq(x, sep).len() - 1,
            split_seq(x, sep).last() + b,
        ),
    decreases b.len(),
{
    lemma_split_nonempty(x, sep);
    let sx = split_seq(x, sep);
    if b.len() == 0 {
        assert(x + b =~= x);
        assert(sx.last() + b =~= sx.last());
        assert(sx.update(sx.len() - 1, sx.last()) =~= sx);
    } else {
        let b0 = b.drop_last();
        assert forall|i: int| 0 <= i < b0.len() implies #[trigger] b0[i] != sep by {
            assert(b0[i] == b[i]);
        }
        lemma_split_append_plain(x, b0, sep);
        let c = b.last();
        assert(c == b[b.len() - 1]);
        assert((x + b).drop_last() =~= x + b0);
        assert((x + b).last() == c);
        let init = split_seq(x + b0, sep);
        assert(init.last() == sx.last() + b0);
        assert((sx.last() + b0).push(c) =~= sx.last() + b);
        assert(init.update(init.len() - 1, init.last().push(c)) =~= sx.update(
            sx.len() - 1,
            sx.last() + b,
        ));
    }
}

/// Splitting pieces joined with a separator none of them holds gives the
/// pieces back.
pub proof fn lemma_split_join(pieces: Seq<Seq<char>>, sep: char)
    requires
        pieces.len() >= 1,
        forall|i: int, j: int|
            0 <= i < pieces.len() && 0 <= j < pieces[i].len() ==> #[trigger] pieces[i][j] != sep,
    ensures
        split_seq(join_seq(pieces, sep), sep) == pieces,
    decreases pieces.len(),
{
    let n = pieces.len() as int;
    let last = pieces.last();
    assert(last == pieces[n - 1]);
    assert forall|j: int| 0 <= j < last.len() implies #[trigger] last[j] != sep by {
        assert(pieces[n - 1][j] != sep);
    }
    if n == 1 {
        let e = Seq::<char>::empty();
        lemma_split_append_plain(e, last, sep);
        assert(e + last =~= last);
        assert(split_seq(e, sep) == seq![e]);
        assert(seq![e].update(0, e + last) =~= pieces);
    } else {
        let init = pieces.drop_last();
        assert forall|i: int, j: int| 0 <= i < init.len() && 0 <= j < init[i].len() implies #[trigger] init[i][j]
            != sep by {
            assert(init[i] == pieces[i]);
        }
        lemma_split_join(init, sep);
        let j0 = join_seq(init, sep);
        let x = j0.push(sep);
        assert(x.drop_last() =~= j0);
        assert(split_seq(x, sep) == split_seq(j0, sep).push(Seq::<char>::empty()));
        lemma_split_append_plain(x, last, sep);
        assert(Seq::<char>::empty() + last =~= last);
        assert(init.push(Seq::<char>::empty()).update(n - 1, last) =~= pieces);
    }
}

/// Pieces that are all non-empty and trimmed pass `nonempty_trimmed`
/// unchanged.
pub proof fn lemma_nonempty_trimmed_fixed(pieces: Seq<Seq<char>>)
    requires
        forall|i: int|
            0 <= i < pieces.len() ==> (#[trigger] pieces[i]).len() > 0 && trim_seq(pieces[i])
                == pieces[i],
    ensures
        nonempty_trimmed(pieces) == pieces,
    decreases pieces.len(),
{
    if pieces.len() > 0 {
        let init = pieces.drop_last();
        assert forall|i: int| 0 <= i < init.len() implies (#[trigger] init[i]).len() > 0 && trim_seq(
            init[i],
        ) == init[i] by {
            assert(init[i] == pieces[i]);
        }
        lemma_nonempty_trimmed_fixed(init);
        assert(pieces.last() == pieces[pieces.len() - 1]);
        assert(init.push(pieces.last()) =~= pieces);
    }
}

/// Every piece `nonempty_trimmed` keeps is non-empty, trimmed, and free of
/// any character none of the pieces held.
pub proof fn lemma_nonempty_trimmed_pieces(pieces: Seq<Seq<char>>, c: char)
    requires
        forall|i: int, j: int|
            0 <= i < pieces.len() && 0 <= j < pieces[i].len() ==> #[trigger] pieces[i][j] != c,
    ensures
        forall|i: int|
            0 <= i < nonempty_trimmed(pieces).len() ==> (#[trigger] nonempty_trimmed(pieces)[i]).len()
                > 0 && trim_seq(nonempty_trimmed(pieces)[i]) == nonempty_trimmed(pieces)[i]
                && forall|j: int|
                0 <= j < nonempty_trimmed(pieces)[i].len() ==> nonempty_trimmed(pieces)[i][j] != c,
    decreases pieces.len(),
{
    if pieces.len() > 0 {
        let init = pieces.drop_last();
        assert forall|i: int, j: int| 0 <= i < init.len() && 0 <= j < init[i].len() implies #[trigger] init[i][j]
            != c by {
            assert(init[i] == pieces[i]);
        }
        lemma_nonempty_trimmed_pieces(init, c);
        let p = pieces.last();
        assert(p == pieces[pieces.len() - 1]);
        assert forall|j: int| 0 <= j < p.len() implies #[trigger] p[j] != c by {
            assert(pieces[pieces.len() - 1][j] != c);
        }
        lemma_trim_lacks(p, c);
        lemma_trim_idempotent(p);
        let r = nonempty_trimmed(pieces);
        let ri = nonempty_trimmed(init);
        assert forall|i: int| 0 <= i < r.len() implies (#[trigger] r[i]).len() > 0 && trim_seq(r[i])
            == r[i] && forall|j: int| 0 <= j < r[i].len() ==> r[i][j] != c by {
            if i < ri.len() {
                assert(r[i] == ri[i]);
            } else {
                assert(r[i] == trim_seq(p));
            }
        }
    }
}

} // verus!
