//! String machinery shared by the parser, the URL classifiers and the
//! reconciler: prefix/suffix tests, substring search, splitting on a
//! separator character, ASCII case mapping and decimal rendering, each
//! specified over `Seq<char>` views.

use vstd::prelude::*;

verus! {

/// `p` is a prefix of `s`.
pub open spec fn starts_with(s: Seq<char>, p: Seq<char>) -> bool {
    p.len() <= s.len() && s.subrange(0, p.len() as int) == p
}

/// `p` is a suffix of `s`.
pub open spec fn ends_with(s: Seq<char>, p: Seq<char>) -> bool {
    p.len() <= s.len() && s.subrange(s.len() - p.len(), s.len() as int) == p
}

/// `pat` occurs in `s` starting at index `i`.
pub open spec fn occurs_at(s: Seq<char>, pat: Seq<char>, i: int) -> bool {
    0 <= i && i + pat.len() <= s.len() && s.subrange(i, i + pat.len()) == pat
}

/// `pat` occurs somewhere in `s`.
pub open spec fn contains_seq(s: Seq<char>, pat: Seq<char>) -> bool {
    exists|i: int| occurs_at(s, pat, i)
}

/// Index of the first occurrence of `c` in `s` at or after `from`;
/// `s.len()` when there is none.
pub open spec fn find_char_from(s: Seq<char>, c: char, from: int) -> int
    decreases s.len() - from,
{
    if from < 0 || from >= s.len() {
        s.len() as int
    } else if s[from] == c {
        from
    } else {
        find_char_from(s, c, from + 1)
    }
}

pub proof fn lemma_find_char_from(s: Seq<char>, c: char, from: int)
    requires
        0 <= from <= s.len(),
    ensures
        from <= find_char_from(s, c, from) <= s.len(),
        find_char_from(s, c, from) < s.len() ==> s[find_char_from(s, c, from)] == c,
        forall|j: int| from <= j < find_char_from(s, c, from) ==> s[j] != c,
    decreases s.len() - from,
{
    if from < s.len() && s[from] != c {
        lemma_find_char_from(s, c, from + 1);
    }
}

/// Relies on `alloc::string::String::push`: appends one character.
pub assume_specification[ String::push ](s: &mut String, c: char)
    ensures
        final(s)@ == old(s)@.push(c),
;

pub fn str_starts_with(s: &str, p: &str) -> (r: bool)
    ensures
        r == starts_with(s@, p@),
{
    let n: usize = s.unicode_len();
    let m: usize = p.unicode_len();
    if m > n {
        return false;
    }
    let mut i: usize = 0;
    while i < m
        invariant
            i <= m <= n,
            n == s@.len(),
            m == p@.len(),
            forall|j: int| 0 <= j < i ==> s@[j] == p@[j],
        decreases m - i,
    {
        if s.get_char(i) != p.get_char(i) {
            assert(s@.subrange(0, m as int)[i as int] != p@[i as int]);
            return false;
        }
        i += 1;
    }
    assert(s@.subrange(0, m as int) =~= p@);
    true
}

pub fn str_ends_with(s: &str, p: &str) -> (r: bool)
    ensures
        r == ends_with(s@, p@),
{
    let n: usize = s.unicode_len();
    let m: usize = p.unicode_len();
    if m > n {
        return false;
    }
    let off: usize = n - m;
    let mut i: usize = 0;
    while i < m
        invariant
            i <= m <= n,
            off == n - m,
            n == s@.len(),
            m == p@.len(),
            forall|j: int| 0 <= j < i ==> s@[off + j] == p@[j],
        decreases m - i,
    {
        if s.get_char(off + i) != p.get_char(i) {
            assert(s@.subrange(n - m, n as int)[i as int] != p@[i as int]);
            return false;
        }
        i += 1;
    }
    assert(s@.subrange(n - m, n as int) =~= p@);
    true
}

pub fn str_eq(s: &str, p: &str) -> (r: bool)
    ensures
        r == (s@ == p@),
{
    let n: usize = s.unicode_len();
    let m: usize = p.unicode_len();
    if m != n {
        return false;
    }
    let mut i: usize = 0;
    while i < m
        invariant
            i <= m == n,
            n == s@.len(),
            m == p@.len(),
            forall|j: int| 0 <= j < i ==> s@[j] == p@[j],
        decreases m - i,
    {
        if s.get_char(i) != p.get_char(i) {
            return false;
        }
        i += 1;
    }
    assert(s@ =~= p@);
    true
}

/// `pat` occurs in `s` at index `at`.
pub fn str_occurs_at(s: &str, pat: &str, at: usize) -> (r: bool)
    ensures
        r == occurs_at(s@, pat@, at as int),
{
    let n: usize = s.unicode_len();
    let m: usize = pat.unicode_len();
    if at > n || m > n - at {
        return false;
    }
    let mut i: usize = 0;
    while i < m
        invariant
            i <= m,
            at + m <= n,
            n == s@.len(),
            m == pat@.len(),
            forall|j: int| 0 <= j < i ==> s@[at + j] == pat@[j],
        decreases m - i,
    {
        if s.get_char(at + i) != pat.get_char(i) {
            assert(s@.subrange(at as int, at + m) =~= pat@ ==> s@[at + i] == pat@[i as int]);
            return false;
        }
        i += 1;
    }
    assert(s@.subrange(at as int, at + m) =~= pat@);
    true
}

pub fn str_contains(s: &str, pat: &str) -> (r: bool)
    ensures
        r == contains_seq(s@, pat@),
{
    let n: usize = s.unicode_len();
    let m: usize = pat.unicode_len();
    if m > n {
        assert(forall|i: int| !occurs_at(s@, pat@, i));
        return false;
    }
    if m == 0 {
        assert(s@.subrange(0, 0) =~= pat@);
        assert(occurs_at(s@, pat@, 0));
        return true;
    }
    let mut at: usize = 0;
    while at <= n - m
        invariant
            1 <= m <= n,
            n == s@.len(),
            m == pat@.len(),
            at <= n - m + 1,
            forall|i: int| 0 <= i < at ==> !occurs_at(s@, pat@, i),
        decreases n + 1 - at,
    {
        if str_occurs_at(s, pat, at) {
            return true;
        }
        at += 1;
    }
    assert(forall|i: int| occurs_at(s@, pat@, i) ==> 0 <= i <= n - m);
    false
}

/// First index of `c` in `s` at or after `from`; the character count of
/// `s` when `c` does not occur there.
pub fn str_find_char(s: &str, c: char, from: usize) -> (r: usize)
    requires
        from <= s@.len(),
    ensures
        r == find_char_from(s@, c, from as int),
        from <= r <= s@.len(),
    {
    let n: usize = s.unicode_len();
    let mut i: usize = from;
    while i < n
        invariant
            from <= i <= n,
            n == s@.len(),
            find_char_from(s@, c, from as int) == find_char_from(s@, c, i as int),
        decreases n - i,
    {
        if s.get_char(i) == c {
            return i;
        }
        i += 1;
    }
    i
}

/// End of the run of characters starting at `from` that contains neither
/// `/` nor `.`: the first index at or after `from` holding one of the two,
/// or `s.len()`.
pub open spec fn seg_end(s: Seq<char>, from: int) -> int {
    let a = find_char_from(s, '/', from);
    let b = find_char_from(s, '.', from);
    if a <= b {
        a
    } else {
        b
    }
}

pub fn str_seg_end(s: &str, from: usize) -> (r: usize)
    requires
        from <= s@.len(),
    ensures
        r == seg_end(s@, from as int),
        from <= r <= s@.len(),
{
    proof {
        lemma_find_char_from(s@, '/', from as int);
        lemma_find_char_from(s@, '.', from as int);
    }
    let a: usize = str_find_char(s, '/', from);
    let b: usize = str_find_char(s, '.', from);
    if a <= b {
        a
    } else {
        b
    }
}

/// The smallest index of `s` at or after `from` satisfying `p`; `s.len()`
/// when there is none.  The leftmost-match position of a pattern search.
pub open spec fn first_match(s: Seq<char>, from: int, p: spec_fn(int) -> bool) -> int
    decreases s.len() - from,
{
    if from < 0 || from >= s.len() {
        s.len() as int
    } else if p(from) {
        from
    } else {
        first_match(s, from + 1, p)
    }
}

pub proof fn lemma_first_match(s: Seq<char>, from: int, p: spec_fn(int) -> bool)
    requires
        0 <= from <= s.len(),
    ensures
        from <= first_match(s, from, p) <= s.len(),
        first_match(s, from, p) < s.len() ==> p(first_match(s, from, p)),
        forall|j: int| from <= j < first_match(s, from, p) ==> !(#[trigger] p(j)),
    decreases s.len() - from,
{
    if from < s.len() && !p(from) {
        lemma_first_match(s, from + 1, p);
    }
}

/// One unfolding step of `first_match`, convenient inside search loops.
pub proof fn lemma_first_match_step(s: Seq<char>, from: int, p: spec_fn(int) -> bool)
    requires
        0 <= from < s.len(),
        !p(from),
    ensures
        first_match(s, from, p) == first_match(s, from + 1, p),
{
}

/// The segments of `s` between occurrences of the separator `c`.
/// There is always at least one segment; a separator at the very end
/// contributes a final empty segment.
pub open spec fn split_on(s: Seq<char>, c: char) -> Seq<Seq<char>>
    decreases s.len(),
{
    if s.len() == 0 {
        seq![Seq::<char>::empty()]
    } else if s[0] == c {
        seq![Seq::<char>::empty()] + split_on(s.subrange(1, s.len() as int), c)
    } else {
        let r = split_on(s.subrange(1, s.len() as int), c);
        seq![seq![s[0]] + r[0]] + r.subrange(1, r.len() as int)
    }
}

pub proof fn lemma_split_on_len(s: Seq<char>, c: char)
    ensures
        split_on(s, c).len() >= 1,
    decreases s.len(),
{
    if s.len() > 0 {
        lemma_split_on_len(s.subrange(1, s.len() as int), c);
    }
}

/// A separator-free string splits into just itself.
pub proof fn lemma_split_on_no_sep(line: Seq<char>, c: char)
    requires
        forall|j: int| 0 <= j < line.len() ==> line[j] != c,
    ensures
        split_on(line, c) == seq![line],
    decreases line.len(),
{
    if line.len() == 0 {
        assert(line =~= Seq::<char>::empty());
        assert(split_on(line, c) =~= seq![line]);
    } else {
        let tail = line.subrange(1, line.len() as int);
        lemma_split_on_no_sep(tail, c);
        lemma_split_on_len(tail, c);
        let r = split_on(tail, c);
        assert(r[0] == tail);
        assert(r.subrange(1, r.len() as int) =~= Seq::<Seq<char>>::empty());
        assert(seq![line[0]] + tail =~= line);
        assert(split_on(line, c) == seq![seq![line[0]] + r[0]] + r.subrange(1, r.len() as int));
        assert(split_on(line, c) =~= seq![line]);
    }
}

/// Splitting `line + c + rest` peels off `line` as the first segment when
/// `line` is separator-free.
pub proof fn lemma_split_on_prepend(line: Seq<char>, c: char, rest: Seq<char>)
    requires
        forall|j: int| 0 <= j < line.len() ==> line[j] != c,
    ensures
        split_on(line + seq![c] + rest, c) == seq![line] + split_on(rest, c),
    decreases line.len(),
{
    let s = line + seq![c] + rest;
    if line.len() == 0 {
        assert(line =~= Seq::<char>::empty());
        assert(s[0] == c);
        assert(s.subrange(1, s.len() as int) =~= rest);
        assert(split_on(s, c) =~= seq![line] + split_on(rest, c));
    } else {
        let ltail = line.subrange(1, line.len() as int);
        lemma_split_on_prepend(ltail, c, rest);
        lemma_split_on_len(rest, c);
        assert(s[0] == line[0]);
        assert(s.subrange(1, s.len() as int) =~= ltail + seq![c] + rest);
        let r = split_on(s.subrange(1, s.len() as int), c);
        assert(r == seq![ltail] + split_on(rest, c));
        assert(r[0] == ltail);
        assert(seq![line[0]] + ltail =~= line);
        assert(r.subrange(1, r.len() as int) =~= split_on(rest, c));
        assert(line[0] != c);
        assert(split_on(s, c) == seq![seq![s[0]] + r[0]] + r.subrange(1, r.len() as int));
        assert(seq![s[0]] + r[0] == line);
        assert(split_on(s, c) =~= seq![line] + split_on(rest, c));
    }
}

pub fn split_str(s: &str, c: char) -> (r: Vec<String>)
    ensures
        r.deep_view() == split_on(s@, c),
{
    let n: usize = s.unicode_len();
    let mut out: Vec<String> = Vec::new();
    let mut start: usize = 0;
    let mut i: usize = 0;
    proof {
        assert(s@.subrange(0, n as int) =~= s@);
        assert(out.deep_view() =~= Seq::<Seq<char>>::empty());
        assert(out.deep_view() + split_on(s@, c) =~= split_on(s@, c));
    }
    while i < n
        invariant
            start <= i <= n,
            n == s@.len(),
            forall|j: int| start <= j < i ==> s@[j] != c,
            split_on(s@, c) == out.deep_view() + split_on(
                s@.subrange(start as int, n as int),
                c,
            ),
        decreases n - i,
    {
        if s.get_char(i) == c {
            let ghost old_dv = out.deep_view();
            let line = s.substring_char(start, i).to_owned();
            proof {
                let pre = s@.subrange(start as int, i as int);
                let post = s@.subrange(i as int + 1, n as int);
                assert(s@.subrange(start as int, n as int) =~= pre + seq![c] + post);
                lemma_split_on_prepend(pre, c, post);
            }
            out.push(line);
            proof {
                assert(out.deep_view() =~= old_dv + seq![line@]);
                assert(old_dv + (seq![line@] + split_on(
                    s@.subrange(i as int + 1, n as int),
                    c,
                )) =~= out.deep_view() + split_on(s@.subrange(i as int + 1, n as int), c));
            }
            start = i + 1;
        }
        i += 1;
    }
    let ghost old_dv = out.deep_view();
    let line = s.substring_char(start, n).to_owned();
    proof {
        lemma_split_on_no_sep(s@.subrange(start as int, n as int), c);
    }
    out.push(line);
    proof {
        assert(out.deep_view() =~= old_dv + seq![line@]);
        assert(old_dv + seq![line@] =~= old_dv + split_on(s@.subrange(start as int, n as int), c));
    }
    out
}

/// The segments joined back with the separator `c` between them.
pub open spec fn join_with(parts: Seq<Seq<char>>, c: char) -> Seq<char>
    decreases parts.len(),
{
    if parts.len() == 0 {
        Seq::<char>::empty()
    } else if parts.len() == 1 {
        parts[0]
    } else {
        parts[0] + seq![c] + join_with(parts.subrange(1, parts.len() as int), c)
    }
}

/// Splitting undoes joining, as long as no segment holds the separator.
pub proof fn lemma_split_join(parts: Seq<Seq<char>>, c: char)
    requires
        parts.len() >= 1,
        forall|i: int, j: int|
            0 <= i < parts.len() && 0 <= j < parts[i].len() ==> parts[i][j] != c,
    ensures
        split_on(join_with(parts, c), c) == parts,
    decreases parts.len(),
{
    if parts.len() == 1 {
        lemma_split_on_no_sep(parts[0], c);
        assert(seq![parts[0]] =~= parts);
    } else {
        let rest = parts.subrange(1, parts.len() as int);
        lemma_split_join(rest, c);
        lemma_split_on_prepend(parts[0], c, join_with(rest, c));
        assert(seq![parts[0]] + rest =~= parts);
    }
}

/// `s` with every trailing copy of `suf` removed.
pub open spec fn strip_suffix_all(s: Seq<char>, suf: Seq<char>) -> Seq<char>
    decreases s.len(),
{
    if suf.len() > 0 && ends_with(s, suf) {
        strip_suffix_all(s.subrange(0, s.len() - suf.len()), suf)
    } else {
        s
    }
}

pub fn str_strip_suffix_all(s: &str, suf: &str) -> (r: String)
    ensures
        r@ == strip_suffix_all(s@, suf@),
{
    let m: usize = suf.unicode_len();
    let mut cur: &str = s;
    let mut n: usize = cur.unicode_len();
    loop
        invariant
            n == cur@.len(),
            m == suf@.len(),
            strip_suffix_all(s@, suf@) == strip_suffix_all(cur@, suf@),
        decreases n,
    {
        if m == 0 || m > n || !str_ends_with(cur, suf) {
            assert(strip_suffix_all(cur@, suf@) == cur@);
            return cur.to_owned();
        }
        cur = cur.substring_char(0, n - m);
        n = n - m;
    }
}

/// ASCII uppercase of one character; anything outside `a..=z` is unchanged.
pub open spec fn upper_char(c: char) -> char {
    if 97 <= c as int && c as int <= 122 {
        ((c as int - 32) as u8) as char
    } else {
        c
    }
}

/// ASCII lowercase of one character; anything outside `A..=Z` is unchanged.
pub open spec fn lower_char(c: char) -> char {
    if 65 <= c as int && c as int <= 90 {
        ((c as int + 32) as u8) as char
    } else {
        c
    }
}

pub open spec fn upper_seq(s: Seq<char>) -> Seq<char> {
    s.map_values(|c: char| upper_char(c))
}

pub open spec fn lower_seq(s: Seq<char>) -> Seq<char> {
    s.map_values(|c: char| lower_char(c))
}

pub fn ascii_uppercase(s: &str) -> (r: String)
    ensures
        r@ == upper_seq(s@),
{
    let n: usize = s.unicode_len();
    let mut out = String::new();
    let mut i: usize = 0;
    while i < n
        invariant
            i <= n,
            n == s@.len(),
            out@ =~= upper_seq(s@.subrange(0, i as int)),
        decreases n - i,
    {
        let c = s.get_char(i);
        let u: u32 = c as u32;
        if 97 <= u && u <= 122 {
            out.push(((u - 32) as u8) as char);
        } else {
            out.push(c);
        }
        proof {
            assert(upper_seq(s@.subrange(0, i + 1)) =~= upper_seq(
                s@.subrange(0, i as int),
            ).push(upper_char(s@[i as int])));
        }
        i += 1;
    }
    proof {
        assert(s@.subrange(0, n as int) =~= s@);
    }
    out
}

pub fn ascii_lowercase(s: &str) -> (r: String)
    ensures
        r@ == lower_seq(s@),
{
    let n: usize = s.unicode_len();
    let mut out = String::new();
    let mut i: usize = 0;
    while i < n
        invariant
            i <= n,
            n == s@.len(),
            out@ =~= lower_seq(s@.subrange(0, i as int)),
        decreases n - i,
    {
        let c = s.get_char(i);
        let u: u32 = c as u32;
        if 65 <= u && u <= 90 {
            out.push(((u + 32) as u8) as char);
        } else {
            out.push(c);
        }
        proof {
            assert(lower_seq(s@.subrange(0, i + 1)) =~= lower_seq(
                s@.subrange(0, i as int),
            ).push(lower_char(s@[i as int])));
        }
        i += 1;
    }
    proof {
        assert(s@.subrange(0, n as int) =~= s@);
    }
    out
}

/// An ASCII whitespace character.
pub open spec fn is_ws_char(c: char) -> bool {
    c == ' ' || c == '\t' || c == '\n' || c == '\r'
}

/// Nothing but ASCII whitespace.
pub open spec fn is_blank(s: Seq<char>) -> bool {
    forall|i: int| 0 <= i < s.len() ==> is_ws_char(#[trigger] s[i])
}

pub fn str_is_blank(s: &str) -> (r: bool)
    ensures
        r == is_blank(s@),
{
    let n: usize = s.unicode_len();
    let mut i: usize = 0;
    while i < n
        invariant
            i <= n,
            n == s@.len(),
            forall|j: int| 0 <= j < i ==> is_ws_char(#[trigger] s@[j]),
        decreases n - i,
    {
        let c = s.get_char(i);
        if !(c == ' ' || c == '\t' || c == '\n' || c == '\r') {
            return false;
        }
        i += 1;
    }
    true
}

/// First index at or after `from` holding a non-whitespace character;
/// `s.len()` when there is none.
pub open spec fn first_non_ws(s: Seq<char>, from: int) -> int
    decreases s.len() - from,
{
    if from < 0 || from >= s.len() {
        s.len() as int
    } else if !is_ws_char(s[from]) {
        from
    } else {
        first_non_ws(s, from + 1)
    }
}

/// Length of `s` once trailing whitespace is dropped.
pub open spec fn trim_end_len(s: Seq<char>) -> int
    decreases s.len(),
{
    if s.len() == 0 {
        0
    } else if is_ws_char(s.last()) {
        trim_end_len(s.drop_last())
    } else {
        s.len() as int
    }
}

/// `s` with leading and trailing ASCII whitespace removed.
pub open spec fn trim_ws(s: Seq<char>) -> Seq<char> {
    let b = first_non_ws(s, 0);
    let e = trim_end_len(s);
    if b <= e {
        s.subrange(b, e)
    } else {
        Seq::<char>::empty()
    }
}

proof fn lemma_trim_end_all_ws(s: Seq<char>)
    requires
        forall|j: int| 0 <= j < s.len() ==> is_ws_char(#[trigger] s[j]),
    ensures
        trim_end_len(s) == 0,
    decreases s.len(),
{
    if s.len() > 0 {
        lemma_trim_end_all_ws(s.drop_last());
    }
}

proof fn lemma_first_non_ws_step(s: Seq<char>, from: int)
    requires
        0 <= from < s.len(),
        is_ws_char(s[from]),
    ensures
        first_non_ws(s, from) == first_non_ws(s, from + 1),
{
}

fn scan_first_non_ws(s: &str) -> (r: usize)
    ensures
        r == first_non_ws(s@, 0),
        r <= s@.len(),
{
    let n: usize = s.unicode_len();
    let mut i: usize = 0;
    while i < n
        invariant
            i <= n,
            n == s@.len(),
            first_non_ws(s@, 0) == first_non_ws(s@, i as int),
        decreases n - i,
    {
        let c = s.get_char(i);
        if !(c == ' ' || c == '\t' || c == '\n' || c == '\r') {
            return i;
        }
        proof {
            lemma_first_non_ws_step(s@, i as int);
        }
        i += 1;
    }
    i
}

fn scan_trim_end(s: &str, b: usize) -> (r: usize)
    requires
        b < s@.len(),
        !is_ws_char(s@[b as int]),
    ensures
        r == trim_end_len(s@),
        b < r <= s@.len(),
{
    let n: usize = s.unicode_len();
    let mut e: usize = n;
    proof {
        assert(s@.subrange(0, n as int) =~= s@);
    }
    while e > b + 1
        invariant
            b < e <= n,
            n == s@.len(),
            !is_ws_char(s@[b as int]),
            trim_end_len(s@) == trim_end_len(s@.subrange(0, e as int)),
        decreases e,
    {
        let c = s.get_char(e - 1);
        proof {
            assert(s@.subrange(0, e as int).last() == s@[e - 1]);
        }
        if !(c == ' ' || c == '\t' || c == '\n' || c == '\r') {
            assert(trim_end_len(s@.subrange(0, e as int)) == e);
            return e;
        }
        proof {
            assert(s@.subrange(0, e as int).drop_last() =~= s@.subrange(0, e - 1));
        }
        e -= 1;
    }
    proof {
        assert(s@.subrange(0, e as int).last() == s@[b as int]);
        assert(trim_end_len(s@.subrange(0, e as int)) == e);
    }
    e
}

pub fn str_trim_ws(s: &str) -> (r: String)
    ensures
        r@ == trim_ws(s@),
{
    let n: usize = s.unicode_len();
    let b: usize = scan_first_non_ws(s);
    if b == n {
        proof {
            lemma_first_non_ws(s@, 0);
            lemma_trim_end_all_ws(s@);
        }
        return String::new();
    }
    proof {
        lemma_first_non_ws(s@, 0);
    }
    let e: usize = scan_trim_end(s, b);
    s.substring_char(b, e).to_owned()
}

proof fn lemma_first_non_ws(s: Seq<char>, from: int)
    requires
        0 <= from <= s.len(),
    ensures
        from <= first_non_ws(s, from) <= s.len(),
        first_non_ws(s, from) < s.len() ==> !is_ws_char(s[first_non_ws(s, from)]),
        forall|j: int| from <= j < first_non_ws(s, from) ==> is_ws_char(#[trigger] s[j]),
    decreases s.len() - from,
{
    if from < s.len() && is_ws_char(s[from]) {
        lemma_first_non_ws(s, from + 1);
    }
}

pub open spec fn dec_digit(d: int) -> char {
    ((48 + d) as u8) as char
}

/// Decimal rendering of a non-negative integer, most significant digit
/// first, with no leading zeros except for zero itself.
pub open spec fn dec_str(n: int) -> Seq<char>
    decreases n,
{
    if n < 10 {
        seq![dec_digit(n)]
    } else {
        dec_str(n / 10) + seq![dec_digit(n % 10)]
    }
}

fn push_decimal(n: u64, out: &mut String)
    ensures
        final(out)@ == old(out)@ + dec_str(n as int),
    decreases n,
{
    if n < 10 {
        out.push(((48 + n as u8)) as char);
        assert(final(out)@ =~= old(out)@ + dec_str(n as int));
    } else {
        push_decimal(n / 10, out);
        out.push((48 + (n % 10) as u8) as char);
        assert(final(out)@ =~= old(out)@ + dec_str(n as int));
    }
}

pub fn u64_to_string(n: u64) -> (r: String)
    ensures
        r@ == dec_str(n as int),
{
    let mut out = String::new();
    push_decimal(n, &mut out);
    proof {
        assert(Seq::<char>::empty() + dec_str(n as int) =~= dec_str(n as int));
    }
    out
}

} // verus!
