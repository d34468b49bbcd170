use vstd::prelude::*;
use vstd::string::*;

verus! {

// ---------------------------------------------------------------------------
// Trusted bridge to std
// ---------------------------------------------------------------------------

/// Relies on String::push: appends the given character at the end of the
/// string, changing nothing else.
pub assume_specification[ String::push ](s: &mut String, c: char)
    ensures
        final(s)@ == old(s)@.push(c),
;

// ---------------------------------------------------------------------------
// Character classes
// ---------------------------------------------------------------------------

/// The whitespace characters that trimming and token splitting recognise.
pub open spec fn is_space_char(c: char) -> bool {
    c == ' ' || c == '\t' || c == '\r' || c == '\n' || c == '\u{b}' || c == '\u{c}'
}

pub fn is_space(c: char) -> (r: bool)
    ensures
        r == is_space_char(c),
{
    c == ' ' || c == '\t' || c == '\r' || c == '\n' || c == '\u{b}' || c == '\u{c}'
}

/// ASCII upper-case letters map to lower case; all other characters stay.
pub open spec fn lower_char(c: char) -> char {
    if 65 <= c as u32 && c as u32 <= 90 {
        ((c as u32 + 32) as u8) as char
    } else {
        c
    }
}

pub open spec fn lower_seq(s: Seq<char>) -> Seq<char> {
    s.map_values(|c: char| lower_char(c))
}

// ---------------------------------------------------------------------------
// Comparisons and searching
// ---------------------------------------------------------------------------

/// True when the two string slices hold the same characters.
pub fn str_eq(a: &str, b: &str) -> (r: bool)
    ensures
        r == (a@ == b@),
{
    let n = a.unicode_len();
    if n != b.unicode_len() {
        return false;
    }
    let mut i: usize = 0;
    while i < n
        invariant
            n == a@.len(),
            n == b@.len(),
            i <= n,
            forall|j: int| 0 <= j < i ==> a@[j] == b@[j],
        decreases n - i,
    {
        if a.get_char(i) != b.get_char(i) {
            return false;
        }
        i += 1;
    }
    proof {
        assert(a@ =~= b@);
    }
    true
}

pub open spec fn starts_with_spec(s: Seq<char>, p: Seq<char>) -> bool {
    p.len() <= s.len() && s.subrange(0, p.len() as int) == p
}

pub fn starts_with(s: &str, p: &str) -> (r: bool)
    ensures
        r == starts_with_spec(s@, p@),
{
    let n = s.unicode_len();
    let m = p.unicode_len();
    if m > n {
        return false;
    }
    let mut i: usize = 0;
    while i < m
        invariant
            n == s@.len(),
            m == p@.len(),
            m <= n,
            i <= m,
            forall|j: int| 0 <= j < i ==> s@[j] == p@[j],
        decreases m - i,
    {
        if s.get_char(i) != p.get_char(i) {
            proof {
                assert(s@.subrange(0, p@.len() as int)[i as int] != p@[i as int]);
            }
            return false;
        }
        i += 1;
    }
    proof {
        assert(s@.subrange(0, p@.len() as int) =~= p@);
    }
    true
}

pub open spec fn ends_with_spec(s: Seq<char>, p: Seq<char>) -> bool {
    p.len() <= s.len() && s.subrange(s.len() - p.len(), s.len() as int) == p
}

pub fn ends_with(s: &str, p: &str) -> (r: bool)
    ensures
        r == ends_with_spec(s@, p@),
{
    let n = s.unicode_len();
    let m = p.unicode_len();
    if m > n {
        return false;
    }
    let mut i: usize = 0;
    while i < m
        invariant
            n == s@.len(),
            m == p@.len(),
            m <= n,
            i <= m,
            forall|j: int| 0 <= j < i ==> s@[n - m + j] == p@[j],
        decreases m - i,
    {
        if s.get_char(n - m + i) != p.get_char(i) {
            proof {
                assert(s@.subrange(s@.len() - p@.len(), s@.len() as int)[i as int] != p@[
                    i as int
                ]);
            }
            return false;
        }
        i += 1;
    }
    proof {
        assert(s@.subrange(s@.len() - p@.len(), s@.len() as int) =~= p@);
    }
    true
}

/// True when the characters of `pat` occur in `s` starting at position `at`.
pub open spec fn match_at_spec(s: Seq<char>, pat: Seq<char>, at: int) -> bool {
    0 <= at && at + pat.len() <= s.len() && s.subrange(at, at + pat.len()) == pat
}

pub fn match_at(s: &str, pat: &str, at: usize) -> (r: bool)
    requires
        at <= s@.len(),
    ensures
        r == match_at_spec(s@, pat@, at as int),
{
    let n = s.unicode_len();
    let m = pat.unicode_len();
    if m > n - at {
        return false;
    }
    let mut i: usize = 0;
    while i < m
        invariant
            n == s@.len(),
            m == pat@.len(),
            at + m <= n,
            i <= m,
            forall|j: int| 0 <= j < i ==> s@[at + j] == pat@[j],
        decreases m - i,
    {
        if s.get_char(at + i) != pat.get_char(i) {
            proof {
                assert(s@.subrange(at as int, at + pat@.len())[i as int] != pat@[i as int]);
            }
            return false;
        }
        i += 1;
    }
    proof {
        assert(s@.subrange(at as int, at + pat@.len()) =~= pat@);
    }
    true
}

/// Index of the first occurrence of `c` in `s`, or -1 when `c` does not occur.
pub open spec fn first_index_of(s: Seq<char>, c: char) -> int
    decreases s.len(),
{
    if s.len() == 0 {
        -1
    } else if s[0] == c {
        0
    } else {
        let r = first_index_of(s.drop_first(), c);
        if r < 0 {
            -1
        } else {
            r + 1
        }
    }
}

pub proof fn lemma_first_index_of_found(s: Seq<char>, c: char, i: int)
    requires
        0 <= i < s.len(),
        s[i] == c,
        forall|j: int| 0 <= j < i ==> s[j] != c,
    ensures
        first_index_of(s, c) == i,
    decreases s.len(),
{
    if i > 0 {
        assert(forall|j: int| 0 <= j < i - 1 ==> s.drop_first()[j] != c);
        lemma_first_index_of_found(s.drop_first(), c, i - 1);
    }
}

pub proof fn lemma_first_index_of_absent(s: Seq<char>, c: char)
    requires
        forall|j: int| 0 <= j < s.len() ==> s[j] != c,
    ensures
        first_index_of(s, c) == -1,
    decreases s.len(),
{
    if s.len() > 0 {
        assert(forall|j: int| 0 <= j < s.drop_first().len() ==> s.drop_first()[j] != c);
        lemma_first_index_of_absent(s.drop_first(), c);
    }
}

/// First position of `c` in `s` at or after `from`.
pub fn find_char(s: &str, c: char, from: usize) -> (r: Option<usize>)
    requires
        from <= s@.len(),
    ensures
        match r {
            Some(i) => from <= i < s@.len() && s@[i as int] == c && forall|j: int|
                from <= j < i ==> s@[j] != c,
            None => forall|j: int| from <= j < s@.len() ==> s@[j] != c,
        },
{
    let n = s.unicode_len();
    let mut i: usize = from;
    while i < n
        invariant
            n == s@.len(),
            from <= i <= n,
            forall|j: int| from <= j < i ==> s@[j] != c,
        decreases n - i,
    {
        if s.get_char(i) == c {
            return Some(i);
        }
        i += 1;
    }
    None
}

// ---------------------------------------------------------------------------
// Trimming
// ---------------------------------------------------------------------------

pub open spec fn trim_front_by(s: Seq<char>, p: spec_fn(char) -> bool) -> Seq<char>
    decreases s.len(),
{
    if s.len() > 0 && p(s[0]) {
        trim_front_by(s.drop_first(), p)
    } else {
        s
    }
}

pub open spec fn trim_back_by(s: Seq<char>, p: spec_fn(char) -> bool) -> Seq<char>
    decreases s.len(),
{
    if s.len() > 0 && p(s.last()) {
        trim_back_by(s.drop_last(), p)
    } else {
        s
    }
}

/// After dropping the first `k` characters, all of which satisfy `p`, the
/// front-trimmed sequence is exactly the remaining suffix.
pub proof fn lemma_trim_front_by(s: Seq<char>, p: spec_fn(char) -> bool, k: int)
    requires
        0 <= k <= s.len(),
        forall|j: int| 0 <= j < k ==> p(s[j]),
        k == s.len() || !p(s[k]),
    ensures
        trim_front_by(s, p) == s.subrange(k, s.len() as int),
    decreases k,
{
    if k == 0 {
        assert(s.subrange(0, s.len() as int) =~= s);
    } else {
        assert(forall|j: int| 0 <= j < k - 1 ==> p(s.drop_first()[j]));
        lemma_trim_front_by(s.drop_first(), p, k - 1);
        assert(s.drop_first().subrange(k - 1, s.drop_first().len() as int) =~= s.subrange(
            k,
            s.len() as int,
        ));
    }
}

/// Keeping the first `k` characters, when everything beyond them satisfies
/// `p`, the back-trimmed sequence is exactly that prefix.
pub proof fn lemma_trim_back_by(s: Seq<char>, p: spec_fn(char) -> bool, k: int)
    requires
        0 <= k <= s.len(),
        forall|j: int| k <= j < s.len() ==> p(s[j]),
        k == 0 || !p(s[k - 1]),
    ensures
        trim_back_by(s, p) == s.subrange(0, k),
    decreases s.len() - k,
{
    if k == s.len() {
        assert(s.subrange(0, k) =~= s);
    } else {
        assert(p(s.last()));
        assert(forall|j: int| k <= j < s.drop_last().len() ==> p(s.drop_last()[j]));
        lemma_trim_back_by(s.drop_last(), p, k);
        assert(s.drop_last().subrange(0, k) =~= s.subrange(0, k));
    }
}

pub open spec fn space_pred() -> spec_fn(char) -> bool {
    |c: char| is_space_char(c)
}

pub open spec fn quote_pred() -> spec_fn(char) -> bool {
    |c: char| c == '"'
}

/// Whitespace removed from both ends.
pub open spec fn trim_spec(s: Seq<char>) -> Seq<char> {
    trim_back_by(trim_front_by(s, space_pred()), space_pred())
}

/// Double-quote characters removed from both ends.
pub open spec fn trim_quotes_spec(s: Seq<char>) -> Seq<char> {
    trim_back_by(trim_front_by(s, quote_pred()), quote_pred())
}

pub fn trim<'a>(s: &'a str) -> (r: &'a str)
    ensures
        r@ == trim_spec(s@),
{
    let n = s.unicode_len();
    let mut i: usize = 0;
    while i < n && is_space(s.get_char(i))
        invariant
            n == s@.len(),
            i <= n,
            forall|j: int| 0 <= j < i ==> is_space_char(s@[j]),
        decreases n - i,
    {
        i += 1;
    }
    proof {
        lemma_trim_front_by(s@, space_pred(), i as int);
    }
    if i == n {
        proof {
            reveal_strlit("");
            assert(s@.subrange(n as int, n as int) =~= ""@);
            assert(trim_back_by(""@, space_pred()) == ""@);
        }
        return "";
    }
    let mut j: usize = n;
    while j > i && is_space(s.get_char(j - 1))
        invariant
            n == s@.len(),
            i <= j <= n,
            forall|t: int| j <= t < n ==> is_space_char(s@[t]),
        decreases j,
    {
        j -= 1;
    }
    proof {
        let t = s@.subrange(i as int, n as int);
        assert(!is_space_char(s@[i as int]));
        assert(j > i) by {
            if j == i {
                assert(is_space_char(s@[i as int]));
            }
        }
        assert(forall|u: int| j - i <= u < t.len() ==> is_space_char(t[u]));
        assert(!is_space_char(t[j - i - 1]));
        lemma_trim_back_by(t, space_pred(), j - i);
        assert(t.subrange(0, j - i) =~= s@.subrange(i as int, j as int));
    }
    s.substring_char(i, j)
}

pub fn trim_quotes<'a>(s: &'a str) -> (r: &'a str)
    ensures
        r@ == trim_quotes_spec(s@),
{
    let n = s.unicode_len();
    let mut i: usize = 0;
    while i < n && s.get_char(i) == '"'
        invariant
            n == s@.len(),
            i <= n,
            forall|j: int| 0 <= j < i ==> s@[j] == '"',
        decreases n - i,
    {
        i += 1;
    }
    proof {
        lemma_trim_front_by(s@, quote_pred(), i as int);
    }
    if i == n {
        proof {
            reveal_strlit("");
            assert(s@.subrange(n as int, n as int) =~= ""@);
            assert(trim_back_by(""@, quote_pred()) == ""@);
        }
        return "";
    }
    let mut j: usize = n;
    while j > i && s.get_char(j - 1) == '"'
        invariant
            n == s@.len(),
            i <= j <= n,
            forall|t: int| j <= t < n ==> s@[t] == '"',
        decreases j,
    {
        j -= 1;
    }
    proof {
        let t = s@.subrange(i as int, n as int);
        assert(j > i) by {
            if j == i {
                assert(s@[i as int] == '"');
            }
        }
        assert(forall|u: int| j - i <= u < t.len() ==> t[u] == '"');
        lemma_trim_back_by(t, quote_pred(), j - i);
        assert(t.subrange(0, j - i) =~= s@.subrange(i as int, j as int));
    }
    s.substring_char(i, j)
}

// ---------------------------------------------------------------------------
// Prefix stripping
// ---------------------------------------------------------------------------

/// Every leading copy of `p` removed, one after the other.
pub open spec fn strip_prefix_rep(s: Seq<char>, p: Seq<char>) -> Seq<char>
    decreases s.len(),
{
    if p.len() > 0 && starts_with_spec(s, p) {
        strip_prefix_rep(s.skip(p.len() as int), p)
    } else {
        s
    }
}

pub fn strip_prefix_all<'a>(s: &'a str, p: &str) -> (r: &'a str)
    requires
        p@.len() > 0,
    ensures
        r@ == strip_prefix_rep(s@, p@),
{
    let n = s.unicode_len();
    let plen = p.unicode_len();
    let mut i: usize = 0;
    proof {
        assert(s@.skip(0) =~= s@);
    }
    while match_at(s, p, i)
        invariant
            n == s@.len(),
            plen == p@.len(),
            plen > 0,
            i <= n,
            strip_prefix_rep(s@, p@) == strip_prefix_rep(s@.skip(i as int), p@),
        decreases n - i,
    {
        proof {
            assert(s@.skip(i as int).subrange(0, plen as int) =~= s@.subrange(
                i as int,
                i + plen,
            ));
            assert(s@.skip(i as int).skip(plen as int) =~= s@.skip(i + plen));
        }
        i += plen;
    }
    proof {
        assert(!starts_with_spec(s@.skip(i as int), p@)) by {
            if starts_with_spec(s@.skip(i as int), p@) {
                assert(s@.skip(i as int).subrange(0, plen as int) =~= s@.subrange(
                    i as int,
                    i + plen,
                ));
            }
        }
        assert(s@.skip(i as int) =~= s@.subrange(i as int, n as int));
    }
    s.substring_char(i, n)
}

// ---------------------------------------------------------------------------
// Splitting into lines
// ---------------------------------------------------------------------------

/// One trailing carriage return removed, as the `lines` iterator of std does.
pub open spec fn strip_cr(s: Seq<char>) -> Seq<char> {
    if s.len() > 0 && s.last() == '\r' {
        s.drop_last()
    } else {
        s
    }
}

/// The lines of `s`: pieces between newline characters, each with one
/// trailing carriage return removed; a trailing newline opens no empty line.
pub open spec fn lines_spec(s: Seq<char>) -> Seq<Seq<char>>
    decreases s.len(),
{
    if s.len() == 0 {
        Seq::empty()
    } else {
        let i = first_index_of(s, '\n');
        if 0 <= i && i < s.len() {
            seq![strip_cr(s.subrange(0, i))] + lines_spec(s.subrange(i + 1, s.len() as int))
        } else {
            seq![strip_cr(s)]
        }
    }
}

pub proof fn lemma_lines_spec_step(s: Seq<char>, k: int)
    requires
        0 <= k < s.len(),
        s[k] == '\n',
        forall|j: int| 0 <= j < k ==> s[j] != '\n',
    ensures
        lines_spec(s) == seq![strip_cr(s.subrange(0, k))] + lines_spec(
            s.subrange(k + 1, s.len() as int),
        ),
{
    lemma_first_index_of_found(s, '\n', k);
}

pub proof fn lemma_lines_spec_tail(s: Seq<char>)
    requires
        s.len() > 0,
        forall|j: int| 0 <= j < s.len() ==> s[j] != '\n',
    ensures
        lines_spec(s) == seq![strip_cr(s)],
{
    lemma_first_index_of_absent(s, '\n');
}

pub fn split_lines<'a>(s: &'a str) -> (r: Vec<&'a str>)
    ensures
        r.deep_view() == lines_spec(s@),
{
    let n = s.unicode_len();
    let mut r: Vec<&str> = Vec::new();
    let mut pos: usize = 0;
    proof {
        assert(s@.subrange(0, n as int) =~= s@);
        assert(r.deep_view() =~= Seq::<Seq<char>>::empty());
    }
    while pos < n
        invariant
            n == s@.len(),
            pos <= n,
            lines_spec(s@) =~= r.deep_view() + lines_spec(s@.subrange(pos as int, n as int)),
        decreases n - pos,
    {
        let ghost prev = r.deep_view();
        let fc = find_char(s, '\n', pos);
        let piece_end: usize;
        let next: usize;
        match fc {
            Some(k) => {
                piece_end = k;
                next = k + 1;
            },
            None => {
                piece_end = n;
                next = n;
            },
        }
        let line_end: usize = if piece_end > pos && s.get_char(piece_end - 1) == '\r' {
            piece_end - 1
        } else {
            piece_end
        };
        let piece = s.substring_char(pos, line_end);
        proof {
            let t = s@.subrange(pos as int, n as int);
            let tp = s@.subrange(pos as int, piece_end as int);
            assert(strip_cr(tp) =~= s@.subrange(pos as int, line_end as int)) by {
                if piece_end > pos && s@[piece_end - 1] == '\r' {
                    assert(tp.last() == '\r');
                    assert(tp.drop_last() =~= s@.subrange(pos as int, line_end as int));
                } else {
                    if tp.len() > 0 {
                        assert(tp.last() == s@[piece_end - 1]);
                    }
                }
            }
            if fc is Some {
                assert(t[piece_end - pos] == '\n');
                assert(forall|j: int| 0 <= j < piece_end - pos ==> t[j] != '\n');
                lemma_lines_spec_step(t, piece_end - pos);
                assert(t.subrange(0, piece_end - pos) =~= tp);
                assert(t.subrange(piece_end - pos + 1, t.len() as int) =~= s@.subrange(
                    next as int,
                    n as int,
                ));
            } else {
                assert(forall|j: int| 0 <= j < t.len() ==> t[j] != '\n');
                lemma_lines_spec_tail(t);
                assert(t =~= tp);
                assert(s@.subrange(next as int, n as int) =~= Seq::<char>::empty());
            }
        }
        r.push(piece);
        proof {
            assert(r.deep_view() =~= prev.push(piece@));
            assert(prev.push(piece@) =~= prev + seq![piece@]);
        }
        pos = next;
    }
    proof {
        assert(s@.subrange(pos as int, n as int) =~= Seq::<char>::empty());
        assert(r.deep_view() + Seq::<Seq<char>>::empty() =~= r.deep_view());
    }
    r
}

// ---------------------------------------------------------------------------
// Character mapping
// ---------------------------------------------------------------------------

pub fn lower_char_exec(c: char) -> (r: char)
    ensures
        r == lower_char(c),
{
    let u = c as u32;
    if u >= 65 && u <= 90 {
        ((u + 32) as u8) as char
    } else {
        c
    }
}

pub fn to_lowercase_ascii(s: &str) -> (r: String)
    ensures
        r@ == lower_seq(s@),
{
    let n = s.unicode_len();
    let mut r = String::new();
    let mut i: usize = 0;
    proof {
        assert(r@ =~= lower_seq(s@.take(0)));
    }
    while i < n
        invariant
            n == s@.len(),
            i <= n,
            r@ == lower_seq(s@.take(i as int)),
        decreases n - i,
    {
        let c = s.get_char(i);
        r.push(lower_char_exec(c));
        proof {
            assert(r@ =~= lower_seq(s@.take(i + 1)));
        }
        i += 1;
    }
    proof {
        assert(s@.take(n as int) =~= s@);
    }
    r
}

pub open spec fn replace_char_spec(s: Seq<char>, from: char, to: char) -> Seq<char> {
    s.map_values(|c: char| if c == from { to } else { c })
}

pub fn replace_char(s: &str, from: char, to: char) -> (r: String)
    ensures
        r@ == replace_char_spec(s@, from, to),
{
    let n = s.unicode_len();
    let mut r = String::new();
    let mut i: usize = 0;
    proof {
        assert(r@ =~= replace_char_spec(s@.take(0), from, to));
    }
    while i < n
        invariant
            n == s@.len(),
            i <= n,
            r@ == replace_char_spec(s@.take(i as int), from, to),
        decreases n - i,
    {
        let c = s.get_char(i);
        if c == from {
            r.push(to);
        } else {
            r.push(c);
        }
        proof {
            assert(r@ =~= replace_char_spec(s@.take(i + 1), from, to));
        }
        i += 1;
    }
    proof {
        assert(s@.take(n as int) =~= s@);
    }
    r
}

// ---------------------------------------------------------------------------
// Removing occurrences of a pattern
// ---------------------------------------------------------------------------

/// `s` with every leftmost, non-overlapping copy of `p` removed.
pub open spec fn remove_occurrences_spec(s: Seq<char>, p: Seq<char>) -> Seq<char>
    decreases s.len(),
    when p.len() > 0
{
    if s.len() == 0 {
        s
    } else if starts_with_spec(s, p) {
        remove_occurrences_spec(s.skip(p.len() as int), p)
    } else {
        seq![s[0]] + remove_occurrences_spec(s.drop_first(), p)
    }
}

pub fn remove_occurrences(s: &str, p: &str) -> (r: String)
    requires
        p@.len() > 0,
    ensures
        r@ == remove_occurrences_spec(s@, p@),
{
    let n = s.unicode_len();
    let plen = p.unicode_len();
    let mut r = String::new();
    let mut i: usize = 0;
    proof {
        assert(s@.skip(0) =~= s@);
        assert(r@ + remove_occurrences_spec(s@.skip(0), p@) =~= remove_occurrences_spec(
            s@,
            p@,
        ));
    }
    while i < n
        invariant
            n == s@.len(),
            plen == p@.len(),
            plen > 0,
            i <= n,
            remove_occurrences_spec(s@, p@) == r@ + remove_occurrences_spec(
                s@.skip(i as int),
                p@,
            ),
        decreases n - i,
    {
        let ghost prev = r@;
        if match_at(s, p, i) {
            proof {
                assert(s@.skip(i as int).subrange(0, plen as int) =~= s@.subrange(
                    i as int,
                    i + plen,
                ));
                assert(s@.skip(i as int).skip(plen as int) =~= s@.skip(i + plen));
            }
            i += plen;
        } else {
            let c = s.get_char(i);
            r.push(c);
            proof {
                let t = s@.skip(i as int);
                assert(!starts_with_spec(t, p@)) by {
                    if starts_with_spec(t, p@) {
                        assert(t.subrange(0, plen as int) =~= s@.subrange(i as int, i + plen));
                    }
                }
                assert(t[0] == s@[i as int]);
                assert(t.drop_first() =~= s@.skip(i + 1));
                assert(remove_occurrences_spec(t, p@) == seq![s@[i as int]]
                    + remove_occurrences_spec(s@.skip(i + 1), p@));
                assert(prev + (seq![s@[i as int]] + remove_occurrences_spec(
                    s@.skip(i + 1),
                    p@,
                )) =~= r@ + remove_occurrences_spec(s@.skip(i + 1), p@));
            }
            i += 1;
        }
    }
    proof {
        assert(s@.skip(n as int) =~= Seq::<char>::empty());
        assert(r@ + Seq::<char>::empty() =~= r@);
    }
    r
}

// ---------------------------------------------------------------------------
// Whitespace tokens
// ---------------------------------------------------------------------------

/// Number of leading non-whitespace characters.
pub open spec fn token_end(s: Seq<char>) -> int
    decreases s.len(),
{
    if s.len() == 0 {
        0
    } else if is_space_char(s[0]) {
        0
    } else {
        1 + token_end(s.drop_first())
    }
}

pub proof fn lemma_token_end_bounds(s: Seq<char>)
    ensures
        0 <= token_end(s) <= s.len(),
    decreases s.len(),
{
    if s.len() > 0 && !is_space_char(s[0]) {
        lemma_token_end_bounds(s.drop_first());
    }
}

pub proof fn lemma_token_end_at(s: Seq<char>, k: int)
    requires
        0 <= k <= s.len(),
        forall|j: int| 0 <= j < k ==> !is_space_char(s[j]),
        k == s.len() || is_space_char(s[k]),
    ensures
        token_end(s) == k,
    decreases k,
{
    if k > 0 {
        assert(forall|j: int| 0 <= j < k - 1 ==> !is_space_char(s.drop_first()[j]));
        lemma_token_end_at(s.drop_first(), k - 1);
    }
}

/// The maximal non-whitespace tokens of `s`, in order.
pub open spec fn split_ws_spec(s: Seq<char>) -> Seq<Seq<char>>
    decreases s.len(),
    via split_ws_spec_decreases
{
    if s.len() == 0 {
        Seq::empty()
    } else if is_space_char(s[0]) {
        split_ws_spec(s.drop_first())
    } else {
        seq![s.subrange(0, token_end(s))] + split_ws_spec(s.skip(token_end(s)))
    }
}

#[via_fn]
proof fn split_ws_spec_decreases(s: Seq<char>) {
    if s.len() > 0 && !is_space_char(s[0]) {
        lemma_token_end_bounds(s.drop_first());
        assert(1 <= token_end(s) <= s.len());
    }
}

pub fn split_whitespace_vec<'a>(s: &'a str) -> (r: Vec<&'a str>)
    ensures
        r.deep_view() == split_ws_spec(s@),
{
    let n = s.unicode_len();
    let mut r: Vec<&str> = Vec::new();
    let mut pos: usize = 0;
    proof {
        assert(s@.skip(0) =~= s@);
        assert(r.deep_view() + split_ws_spec(s@.skip(0)) =~= split_ws_spec(s@));
    }
    while pos < n
        invariant
            n == s@.len(),
            pos <= n,
            split_ws_spec(s@) == r.deep_view() + split_ws_spec(s@.skip(pos as int)),
        decreases n - pos,
    {
        if is_space(s.get_char(pos)) {
            proof {
                let t = s@.skip(pos as int);
                assert(t[0] == s@[pos as int]);
                assert(t.drop_first() =~= s@.skip(pos + 1));
            }
            pos += 1;
        } else {
            let mut j: usize = pos;
            while j < n && !is_space(s.get_char(j))
                invariant
                    n == s@.len(),
                    pos <= j <= n,
                    forall|t: int| pos <= t < j ==> !is_space_char(s@[t]),
                decreases n - j,
            {
                j += 1;
            }
            let ghost prev = r.deep_view();
            let piece = s.substring_char(pos, j);
            r.push(piece);
            proof {
                let t = s@.skip(pos as int);
                assert(forall|u: int| 0 <= u < j - pos ==> !is_space_char(t[u]));
                assert(j - pos == t.len() || is_space_char(t[j - pos]));
                lemma_token_end_at(t, j - pos);
                assert(t.subrange(0, j - pos) =~= s@.subrange(pos as int, j as int));
                assert(t.skip(j - pos) =~= s@.skip(j as int));
                assert(r.deep_view() =~= prev.push(piece@));
                assert(prev.push(piece@) =~= prev + seq![piece@]);
            }
            pos = j;
        }
    }
    proof {
        assert(s@.skip(n as int) =~= Seq::<char>::empty());
        assert(r.deep_view() + Seq::<Seq<char>>::empty() =~= r.deep_view());
    }
    r
}

// ---------------------------------------------------------------------------
// Substring search, split-once, quoted values
// ---------------------------------------------------------------------------

pub open spec fn contains_sub_spec(s: Seq<char>, p: Seq<char>) -> bool {
    exists|i: int|
        0 <= i && i + p.len() <= s.len() && #[trigger] s.subrange(i, i + p.len() as int) == p
}

pub fn contains_sub(s: &str, p: &str) -> (r: bool)
    ensures
        r == contains_sub_spec(s@, p@),
{
    let n = s.unicode_len();
    let m = p.unicode_len();
    if m == 0 {
        proof {
            assert(contains_sub_spec(s@, p@)) by {
                assert(s@.subrange(0, 0 + p@.len() as int) =~= p@);
            }
        }
        return true;
    }
    if m > n {
        proof {
            assert(!contains_sub_spec(s@, p@)) by {
                if contains_sub_spec(s@, p@) {
                    let w = choose|w: int|
                        0 <= w && w + p@.len() <= s@.len() && #[trigger] s@.subrange(
                            w,
                            w + p@.len() as int,
                        ) == p@;
                    assert(w + p@.len() <= s@.len());
                }
            }
        }
        return false;
    }
    let mut i: usize = 0;
    while i <= n - m
        invariant
            n == s@.len(),
            m == p@.len(),
            1 <= m <= n,
            i <= n - m + 1,
            forall|w: int| 0 <= w < i ==> #[trigger] s@.subrange(w, w + p@.len() as int) != p@,
        decreases n - m - i + 1,
    {
        if match_at(s, p, i) {
            return true;
        }
        i += 1;
    }
    proof {
        assert(!contains_sub_spec(s@, p@)) by {
            if contains_sub_spec(s@, p@) {
                let w = choose|w: int|
                    0 <= w && w + p@.len() <= s@.len() && #[trigger] s@.subrange(
                        w,
                        w + p@.len() as int,
                    ) == p@;
                assert(s@.subrange(w, w + p@.len() as int) != p@);
            }
        }
    }
    false
}

pub fn split_once_char<'a>(s: &'a str, c: char) -> (r: Option<(&'a str, &'a str)>)
    ensures
        match r {
            Some(pair) => {
                let i = first_index_of(s@, c);
                &&& 0 <= i < s@.len()
                &&& s@[i] == c
                &&& pair.0@ == s@.subrange(0, i)
                &&& pair.1@ == s@.subrange(i + 1, s@.len() as int)
            },
            None => forall|j: int| 0 <= j < s@.len() ==> s@[j] != c,
        },
{
    let n = s.unicode_len();
    match find_char(s, c, 0) {
        Some(i) => {
            proof {
                lemma_first_index_of_found(s@, c, i as int);
            }
            Some((s.substring_char(0, i), s.substring_char(i + 1, n)))
        },
        None => None,
    }
}

/// The text between the first and the second double quote of `s`, when both
/// exist.
pub open spec fn quoted_value_spec(s: Seq<char>) -> Option<Seq<char>> {
    let i = first_index_of(s, '"');
    if i < 0 {
        Option::None
    } else {
        let j = first_index_of(s.skip(i + 1), '"');
        if j < 0 {
            Option::None
        } else {
            Option::Some(s.subrange(i + 1, i + 1 + j))
        }
    }
}

pub fn quoted_value<'a>(s: &'a str) -> (r: Option<&'a str>)
    ensures
        match r {
            Some(v) => quoted_value_spec(s@) == Option::Some(v@),
            None => quoted_value_spec(s@) is None,
        },
{
    let n = s.unicode_len();
    match find_char(s, '"', 0) {
        None => {
            proof {
                lemma_first_index_of_absent(s@, '"');
            }
            None
        },
        Some(i) => {
            proof {
                lemma_first_index_of_found(s@, '"', i as int);
            }
            match find_char(s, '"', i + 1) {
                None => {
                    proof {
                        let t = s@.skip(i + 1);
                        assert(forall|j: int| 0 <= j < t.len() ==> t[j] != '"');
                        lemma_first_index_of_absent(t, '"');
                    }
                    None
                },
                Some(j) => {
                    proof {
                        let t = s@.skip(i + 1);
                        assert(t[j - i - 1] == s@[j as int]);
                        assert(forall|u: int| 0 <= u < j - i - 1 ==> t[u] != '"');
                        lemma_first_index_of_found(t, '"', j - i - 1);
                    }
                    Some(s.substring_char(i + 1, j))
                },
            }
        },
    }
}

} // verus!
