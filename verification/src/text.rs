//! Verified text utilities: character classes, trimming, splitting, joining,
//! substring search and lexicographic ordering over `Seq<char>` views.
//!
//! Every executable helper is specified against a small recursive spec
//! function, so the parsing and composition modules can state their contracts
//! purely over character sequences.

use vstd::prelude::*;

verus! {

/// Whitespace recognized by [`spec_trim`]: the ASCII blank characters.
pub open spec fn is_space(c: char) -> bool {
    c == ' ' || c == '\t' || c == '\n' || c == '\r' || c == '\u{b}' || c == '\u{c}'
}

/// `a`..`z`.
pub open spec fn is_ascii_lower(c: char) -> bool {
    'a' <= c && c <= 'z'
}

/// `A`..`Z`.
pub open spec fn is_ascii_upper(c: char) -> bool {
    'A' <= c && c <= 'Z'
}

/// `0`..`9`.
pub open spec fn is_ascii_digit(c: char) -> bool {
    '0' <= c && c <= '9'
}

/// Letters and digits.
pub open spec fn is_ascii_alnum(c: char) -> bool {
    is_ascii_lower(c) || is_ascii_upper(c) || is_ascii_digit(c)
}

/// The sequence without its leading blanks.
pub open spec fn spec_trim_start(s: Seq<char>) -> Seq<char>
    decreases s.len(),
{
    if s.len() > 0 && is_space(s[0]) {
        spec_trim_start(s.drop_first())
    } else {
        s
    }
}

/// The sequence without its trailing blanks.
pub open spec fn spec_trim_end(s: Seq<char>) -> Seq<char>
    decreases s.len(),
{
    if s.len() > 0 && is_space(s[s.len() - 1]) {
        spec_trim_end(s.drop_last())
    } else {
        s
    }
}

/// The sequence without leading and trailing blanks.
pub open spec fn spec_trim(s: Seq<char>) -> Seq<char> {
    spec_trim_end(spec_trim_start(s))
}

/// Trimming a blank-free prefix away: `spec_trim_start` reaches `s.skip(i)`
/// when everything before `i` is blank and position `i` is not.
proof fn lemma_trim_start_at(s: Seq<char>, i: int)
    requires
        0 <= i <= s.len(),
        forall|j: int| 0 <= j < i ==> is_space(s[j]),
        i == s.len() || !is_space(s[i]),
    ensures
        spec_trim_start(s) == s.skip(i),
    decreases i,
{
    if i == 0 {
        assert(s.skip(0) =~= s);
    } else {
        assert(is_space(s[0]));
        lemma_trim_start_at(s.drop_first(), i - 1);
        assert(s.drop_first().skip(i - 1) =~= s.skip(i));
    }
}

/// The mirror image for the end: `spec_trim_end` reaches `s.take(e)` when
/// everything from `e` on is blank and position `e - 1` is not.
proof fn lemma_trim_end_at(s: Seq<char>, e: int)
    requires
        0 <= e <= s.len(),
        forall|j: int| e <= j < s.len() ==> is_space(s[j]),
        e == 0 || !is_space(s[e - 1]),
    ensures
        spec_trim_end(s) == s.take(e),
    decreases s.len() - e,
{
    if e == s.len() {
        assert(s.take(e) =~= s);
    } else {
        assert(is_space(s[s.len() - 1]));
        lemma_trim_end_at(s.drop_last(), e);
        assert(s.drop_last().take(e) =~= s.take(e));
    }
}

/// Whether `c` is one of the blanks of [`is_space`].
pub fn is_space_char(c: char) -> (r: bool)
    ensures
        r == is_space(c),
{
    c == ' ' || c == '\t' || c == '\n' || c == '\r' || c == '\u{b}' || c == '\u{c}'
}

/// Returns `s` without leading and trailing blanks.
pub fn trim_str(s: &str) -> (r: &str)
    ensures
        r@ == spec_trim(s@),
{
    let n = s.unicode_len();
    let mut start: usize = 0;
    while start < n && is_space_char(s.get_char(start))
        invariant
            n == s@.len(),
            0 <= start <= n,
            forall|j: int| 0 <= j < start ==> is_space(s@[j]),
        decreases n - start,
    {
        start = start + 1;
    }
    proof {
        lemma_trim_start_at(s@, start as int);
    }
    let mut end: usize = n;
    while end > start && is_space_char(s.get_char(end - 1))
        invariant
            n == s@.len(),
            0 <= start <= end <= n,
            forall|j: int| end <= j < n ==> is_space(s@[j]),
        decreases end,
    {
        end = end - 1;
    }
    let r = s.substring_char(start, end);
    proof {
        let t = s@.skip(start as int);
        lemma_trim_end_at(t, end - start);
        assert(t.take(end - start) =~= s@.subrange(start as int, end as int));
    }
    r
}

/// Relies on `String::push`: appends the given character to the end of the
/// string.
#[verifier::external_body]
pub fn push_char(s: &mut String, c: char)
    ensures
        final(s)@ == old(s)@.push(c),
{
    s.push(c)
}

/// Whether two string slices hold the same characters.
pub fn str_eq(a: &str, b: &str) -> (r: bool)
    ensures
        r == (a@ == b@),
{
    let an = a.unicode_len();
    let bn = b.unicode_len();
    if an != bn {
        assert(a@ != b@);
        return false;
    }
    let mut i: usize = 0;
    while i < an
        invariant
            an == a@.len(),
            an == b@.len(),
            0 <= i <= an,
            forall|j: int| 0 <= j < i ==> a@[j] == b@[j],
        decreases an - i,
    {
        if a.get_char(i) != b.get_char(i) {
            assert(a@ != b@);
            return false;
        }
        i = i + 1;
    }
    assert(a@ =~= b@);
    true
}

/// Index of the first occurrence of `c`, if any.
pub open spec fn spec_find_char(s: Seq<char>, c: char) -> Option<int>
    decreases s.len(),
{
    if s.len() == 0 {
        None
    } else if s[0] == c {
        Some(0)
    } else {
        match spec_find_char(s.drop_first(), c) {
            Some(i) => Some(i + 1),
            None => None,
        }
    }
}

/// Characterization of [`spec_find_char`] when `c` first occurs at `i`.
pub proof fn lemma_find_char_at(s: Seq<char>, c: char, i: int)
    requires
        0 <= i < s.len(),
        s[i] == c,
        forall|j: int| 0 <= j < i ==> s[j] != c,
    ensures
        spec_find_char(s, c) == Some(i),
    decreases i,
{
    if i > 0 {
        lemma_find_char_at(s.drop_first(), c, i - 1);
    }
}

/// Characterization of [`spec_find_char`] when `c` never occurs.
pub proof fn lemma_find_char_none(s: Seq<char>, c: char)
    requires
        forall|j: int| 0 <= j < s.len() ==> s[j] != c,
    ensures
        spec_find_char(s, c) == None::<int>,
    decreases s.len(),
{
    if s.len() > 0 {
        lemma_find_char_none(s.drop_first(), c);
    }
}

/// Finds the first occurrence of `c` in `s`.
pub fn find_char(s: &str, c: char) -> (r: Option<usize>)
    ensures
        match r {
            Some(i) => spec_find_char(s@, c) == Some(i as int),
            None => spec_find_char(s@, c) == None::<int>,
        },
{
    let n = s.unicode_len();
    let mut i: usize = 0;
    while i < n
        invariant
            n == s@.len(),
            0 <= i <= n,
            forall|j: int| 0 <= j < i ==> s@[j] != c,
        decreases n - i,
    {
        if s.get_char(i) == c {
            proof {
                lemma_find_char_at(s@, c, i as int);
            }
            return Some(i);
        }
        i = i + 1;
    }
    proof {
        lemma_find_char_none(s@, c);
    }
    None
}

/// Index of the first occurrence of the two-character pattern `c1 c2`.
pub open spec fn spec_find_pair(s: Seq<char>, c1: char, c2: char) -> Option<int>
    decreases s.len(),
{
    if s.len() < 2 {
        None
    } else if s[0] == c1 && s[1] == c2 {
        Some(0)
    } else {
        match spec_find_pair(s.drop_first(), c1, c2) {
            Some(i) => Some(i + 1),
            None => None,
        }
    }
}

/// Characterization of [`spec_find_pair`] when the pattern first occurs at `i`.
pub proof fn lemma_find_pair_at(s: Seq<char>, c1: char, c2: char, i: int)
    requires
        0 <= i,
        i + 1 < s.len(),
        s[i] == c1,
        s[i + 1] == c2,
        forall|j: int| 0 <= j < i ==> !(#[trigger] s[j] == c1 && s[j + 1] == c2),
    ensures
        spec_find_pair(s, c1, c2) == Some(i),
    decreases i,
{
    if i > 0 {
        lemma_find_pair_at(s.drop_first(), c1, c2, i - 1);
    }
}

/// Characterization of [`spec_find_pair`] when the pattern never occurs.
pub proof fn lemma_find_pair_none(s: Seq<char>, c1: char, c2: char)
    requires
        forall|j: int| 0 <= j && j + 1 < s.len() ==> !(#[trigger] s[j] == c1 && s[j + 1] == c2),
    ensures
        spec_find_pair(s, c1, c2) == None::<int>,
    decreases s.len(),
{
    if s.len() >= 2 {
        lemma_find_pair_none(s.drop_first(), c1, c2);
    }
}

/// Finds the first occurrence of the two-character pattern `c1 c2` in `s`.
pub fn find_pair(s: &str, c1: char, c2: char) -> (r: Option<usize>)
    ensures
        match r {
            Some(i) => spec_find_pair(s@, c1, c2) == Some(i as int),
            None => spec_find_pair(s@, c1, c2) == None::<int>,
        },
{
    let n = s.unicode_len();
    if n < 2 {
        proof {
            lemma_find_pair_none(s@, c1, c2);
        }
        return None;
    }
    let mut i: usize = 0;
    while i < n - 1
        invariant
            n == s@.len(),
            2 <= n,
            0 <= i <= n - 1,
            forall|j: int| 0 <= j < i ==> !(#[trigger] s@[j] == c1 && s@[j + 1] == c2),
        decreases n - i,
    {
        if s.get_char(i) == c1 && s.get_char(i + 1) == c2 {
            proof {
                lemma_find_pair_at(s@, c1, c2, i as int);
            }
            return Some(i);
        }
        i = i + 1;
    }
    proof {
        lemma_find_pair_none(s@, c1, c2);
    }
    None
}


/// The pieces of `s` between occurrences of `sep`, in order; an empty
/// sequence yields one empty piece, as `str::split` does.
pub open spec fn spec_split(s: Seq<char>, sep: char) -> Seq<Seq<char>>
    decreases s.len(),
{
    if s.len() == 0 {
        seq![Seq::<char>::empty()]
    } else {
        let rest = spec_split(s.drop_first(), sep);
        if s[0] == sep {
            seq![Seq::<char>::empty()] + rest
        } else {
            seq![seq![s[0]] + rest[0]] + rest.drop_first()
        }
    }
}

/// A split always produces at least one piece.
pub proof fn lemma_split_len(s: Seq<char>, sep: char)
    ensures
        spec_split(s, sep).len() >= 1,
    decreases s.len(),
{
    if s.len() > 0 {
        lemma_split_len(s.drop_first(), sep);
    }
}

/// `q` with `p` prepended to its first piece.
pub open spec fn prepend_first(q: Seq<Seq<char>>, p: Seq<char>) -> Seq<Seq<char>> {
    seq![p + q[0]] + q.drop_first()
}

/// The views of a vector of strings.
pub open spec fn views(q: Seq<String>) -> Seq<Seq<char>> {
    q.map_values(|p: String| p@)
}

/// Splits `s` at every occurrence of `sep`.
pub fn split_char(s: &str, sep: char) -> (r: Vec<String>)
    ensures
        views(r@) == spec_split(s@, sep),
{
    let n = s.unicode_len();
    let mut parts: Vec<String> = Vec::new();
    let mut cur: String = String::new();
    let mut i: usize = 0;
    proof {
        assert(s@.skip(0) =~= s@);
        lemma_split_len(s@, sep);
        assert(views(parts@) =~= Seq::<Seq<char>>::empty());
        assert(prepend_first(spec_split(s@, sep), cur@) =~~= spec_split(s@, sep));
    }
    while i < n
        invariant
            n == s@.len(),
            0 <= i <= n,
            spec_split(s@, sep) =~= views(parts@) + prepend_first(
                spec_split(s@.skip(i as int), sep),
                cur@,
            ),
        decreases n - i,
    {
        let ghost t = s@.skip(i as int);
        proof {
            lemma_split_len(t.drop_first(), sep);
            assert(t.drop_first() =~= s@.skip(i + 1));
            assert(t[0] == s@[i as int]);
        }
        let c = s.get_char(i);
        if c == sep {
            let ghost rest = spec_split(s@.skip(i + 1), sep);
            proof {
                assert(prepend_first(spec_split(t, sep), cur@) =~~= seq![cur@] + prepend_first(
                    rest,
                    Seq::<char>::empty(),
                ));
                assert(views(parts@.push(cur)) =~~= views(parts@) + seq![cur@]);
            }
            parts.push(cur);
            cur = String::new();
        } else {
            let ghost rest = spec_split(s@.skip(i + 1), sep);
            proof {
                assert(prepend_first(spec_split(t, sep), cur@) =~~= prepend_first(
                    rest,
                    cur@.push(c),
                ));
            }
            push_char(&mut cur, c);
        }
        i = i + 1;
    }
    proof {
        assert(s@.skip(n as int) =~= Seq::<char>::empty());
        assert(prepend_first(spec_split(s@.skip(n as int), sep), cur@) =~~= seq![cur@]);
        assert(views(parts@.push(cur)) =~~= views(parts@) + seq![cur@]);
    }
    parts.push(cur);
    parts
}

/// Splits on commas that stand at parenthesis depth zero, tracking nesting
/// from the running `depth`; pieces inside parentheses are kept whole.
pub open spec fn spec_split_depth(s: Seq<char>, depth: int) -> Seq<Seq<char>>
    decreases s.len(),
{
    if s.len() == 0 {
        seq![Seq::<char>::empty()]
    } else {
        let d2 = if s[0] == '(' {
            depth + 1
        } else if s[0] == ')' {
            depth - 1
        } else {
            depth
        };
        let rest = spec_split_depth(s.drop_first(), d2);
        if s[0] == ',' && depth == 0 {
            seq![Seq::<char>::empty()] + rest
        } else {
            seq![seq![s[0]] + rest[0]] + rest.drop_first()
        }
    }
}

/// A depth-aware split always produces at least one piece.
pub proof fn lemma_split_depth_len(s: Seq<char>, depth: int)
    ensures
        spec_split_depth(s, depth).len() >= 1,
    decreases s.len(),
{
    if s.len() > 0 {
        let d2 = if s[0] == '(' {
            depth + 1
        } else if s[0] == ')' {
            depth - 1
        } else {
            depth
        };
        lemma_split_depth_len(s.drop_first(), d2);
    }
}

/// Splits `s` at the commas that stand outside parentheses.
pub fn split_commas_outside_parens(s: &str) -> (r: Vec<String>)
    ensures
        views(r@) == spec_split_depth(s@, 0),
{
    let n = s.unicode_len();
    let mut parts: Vec<String> = Vec::new();
    let mut cur: String = String::new();
    let mut depth: i128 = 0;
    let mut i: usize = 0;
    proof {
        assert(s@.skip(0) =~= s@);
        lemma_split_depth_len(s@, 0);
        assert(views(parts@) =~= Seq::<Seq<char>>::empty());
        assert(prepend_first(spec_split_depth(s@, 0), cur@) =~~= spec_split_depth(s@, 0));
    }
    while i < n
        invariant
            n == s@.len(),
            0 <= i <= n,
            -(i as int) <= depth <= i as int,
            spec_split_depth(s@, 0) =~= views(parts@) + prepend_first(
                spec_split_depth(s@.skip(i as int), depth as int),
                cur@,
            ),
        decreases n - i,
    {
        let ghost t = s@.skip(i as int);
        let ghost d2 = if t[0] == '(' {
            depth + 1
        } else if t[0] == ')' {
            depth - 1
        } else {
            depth as int
        };
        proof {
            lemma_split_depth_len(t.drop_first(), d2 as int);
            assert(t.drop_first() =~= s@.skip(i + 1));
            assert(t[0] == s@[i as int]);
        }
        let c = s.get_char(i);
        if c == ',' && depth == 0 {
            let ghost rest = spec_split_depth(s@.skip(i + 1), 0);
            proof {
                assert(prepend_first(spec_split_depth(t, depth as int), cur@) =~~= seq![cur@]
                    + prepend_first(rest, Seq::<char>::empty()));
                assert(views(parts@.push(cur)) =~~= views(parts@) + seq![cur@]);
            }
            parts.push(cur);
            cur = String::new();
        } else {
            let ghost rest = spec_split_depth(s@.skip(i + 1), d2 as int);
            proof {
                assert(prepend_first(spec_split_depth(t, depth as int), cur@) =~~= prepend_first(
                    rest,
                    cur@.push(c),
                ));
            }
            push_char(&mut cur, c);
            if c == '(' {
                depth = depth + 1;
            } else if c == ')' {
                depth = depth - 1;
            }
        }
        i = i + 1;
    }
    proof {
        assert(s@.skip(n as int) =~= Seq::<char>::empty());
        assert(prepend_first(spec_split_depth(s@.skip(n as int), depth as int), cur@)
            =~~= seq![cur@]);
        assert(views(parts@.push(cur)) =~~= views(parts@) + seq![cur@]);
    }
    parts.push(cur);
    parts
}


/// The pieces of `q` joined with `sep` between consecutive pieces.
pub open spec fn spec_join(q: Seq<Seq<char>>, sep: Seq<char>) -> Seq<char>
    decreases q.len(),
{
    if q.len() == 0 {
        Seq::<char>::empty()
    } else if q.len() == 1 {
        q[0]
    } else {
        q[0] + sep + spec_join(q.drop_first(), sep)
    }
}

/// Joining one more piece appends a separator and the piece.
pub proof fn lemma_join_push(q: Seq<Seq<char>>, sep: Seq<char>, x: Seq<char>)
    requires
        q.len() >= 1,
    ensures
        spec_join(q.push(x), sep) == spec_join(q, sep) + sep + x,
    decreases q.len(),
{
    if q.len() == 1 {
        assert(q.push(x).drop_first() =~~= seq![x]);
        assert(q.push(x)[0] == q[0]);
        assert(spec_join(seq![x], sep) == x);
        assert(spec_join(q.push(x), sep) =~= q[0] + sep + x);
    } else {
        lemma_join_push(q.drop_first(), sep, x);
        assert(q.push(x).drop_first() =~~= q.drop_first().push(x));
        assert(q.push(x)[0] == q[0]);
        assert(spec_join(q.push(x), sep) =~= spec_join(q, sep) + sep + x);
    }
}

/// Joins string pieces with `sep` between consecutive pieces.
pub fn join_strs(v: &Vec<String>, sep: &str) -> (r: String)
    ensures
        r@ == spec_join(views(v@), sep@),
{
    let mut out = String::new();
    if v.len() == 0 {
        return out;
    }
    out.append(v[0].as_str());
    let mut i: usize = 1;
    proof {
        assert(views(v@).take(1) =~~= seq![v@[0]@]);
        assert(spec_join(views(v@).take(1), sep@) =~= v@[0]@);
    }
    while i < v.len()
        invariant
            1 <= i <= v@.len(),
            out@ == spec_join(views(v@).take(i as int), sep@),
        decreases v@.len() - i,
    {
        proof {
            assert(views(v@).take(i as int).len() >= 1);
            lemma_join_push(views(v@).take(i as int), sep@, v@[i as int]@);
            assert(views(v@).take(i + 1) =~~= views(v@).take(i as int).push(v@[i as int]@));
        }
        out.append(sep);
        out.append(v[i].as_str());
        i = i + 1;
    }
    proof {
        assert(views(v@).take(v@.len() as int) =~~= views(v@));
    }
    out
}

/// Strict lexicographic order on character sequences, by code point, with a
/// proper prefix ordered before its extensions. On ASCII text this agrees
/// with the ordering of Rust's `str`.
pub open spec fn lex_lt(a: Seq<char>, b: Seq<char>) -> bool
    decreases a.len(),
{
    if b.len() == 0 {
        false
    } else if a.len() == 0 {
        true
    } else if a[0] != b[0] {
        (a[0] as int) < (b[0] as int)
    } else {
        lex_lt(a.drop_first(), b.drop_first())
    }
}

/// The order is total: two sequences compare one way, the other, or are equal.
pub proof fn lemma_lex_total(a: Seq<char>, b: Seq<char>)
    ensures
        lex_lt(a, b) || lex_lt(b, a) || a == b,
    decreases a.len(),
{
    if a.len() > 0 && b.len() > 0 && a[0] != b[0] {
        assert((a[0] as int) != (b[0] as int));
    }
    if a.len() > 0 && b.len() > 0 && a[0] == b[0] {
        lemma_lex_total(a.drop_first(), b.drop_first());
        if a.drop_first() == b.drop_first() {
            assert(a.drop_first().len() == b.drop_first().len());
            assert(a.len() == b.len());
            assert forall|k: int| 0 <= k < a.len() implies a[k] == b[k] by {
                if k > 0 {
                    assert(a[k] == a.drop_first()[k - 1]);
                    assert(b[k] == b.drop_first()[k - 1]);
                }
            }
            assert(a =~= b);
        }
    }
}

/// The order is asymmetric, hence also irreflexive.
pub proof fn lemma_lex_asym(a: Seq<char>, b: Seq<char>)
    requires
        lex_lt(a, b),
    ensures
        !lex_lt(b, a),
        a != b,
    decreases a.len(),
{
    if a.len() > 0 && b.len() > 0 && a[0] == b[0] {
        lemma_lex_asym(a.drop_first(), b.drop_first());
        assert(a != b) by {
            if a == b {
                assert(a.drop_first() =~= b.drop_first());
            }
        }
    } else if a.len() == 0 {
        assert(a != b);
    }
}

/// The order is transitive.
pub proof fn lemma_lex_trans(a: Seq<char>, b: Seq<char>, c: Seq<char>)
    requires
        lex_lt(a, b),
        lex_lt(b, c),
    ensures
        lex_lt(a, c),
    decreases a.len(),
{
    if a.len() > 0 && b.len() > 0 && c.len() > 0 {
        if a[0] == b[0] && b[0] == c[0] {
            lemma_lex_trans(a.drop_first(), b.drop_first(), c.drop_first());
        }
    }
}

/// Whether consecutive members of `q` strictly ascend in [`lex_lt`].
pub open spec fn strictly_sorted(q: Seq<Seq<char>>) -> bool {
    forall|i: int, j: int| 0 <= i < j < q.len() ==> lex_lt(q[i], q[j])
}

/// A strictly sorted enumeration of a set of sequences is unique.
pub proof fn lemma_sorted_unique(q1: Seq<Seq<char>>, q2: Seq<Seq<char>>)
    requires
        strictly_sorted(q1),
        strictly_sorted(q2),
        q1.to_set() == q2.to_set(),
    ensures
        q1 == q2,
    decreases q1.len(),
{
    if q1.len() == 0 {
        if q2.len() > 0 {
            assert(q2.to_set().contains(q2[0]));
            assert(q1.to_set().contains(q2[0]));
        }
        assert(q1 =~= q2);
    } else {
        assert(q1.to_set().contains(q1[0]));
        assert(q2.to_set().contains(q1[0]));
        let k = choose|k: int| 0 <= k < q2.len() && q2[k] == q1[0];
        assert(q2.to_set().contains(q2[0]));
        assert(q1.to_set().contains(q2[0]));
        let m = choose|m: int| 0 <= m < q1.len() && q1[m] == q2[0];
        if k > 0 {
            assert(lex_lt(q2[0], q2[k]));
            if m > 0 {
                assert(lex_lt(q1[0], q1[m]));
                lemma_lex_trans(q1[0], q2[0], q1[0]);
                lemma_lex_asym(q1[0], q1[0]);
            } else {
                lemma_lex_asym(q2[0], q2[k]);
            }
        }
        assert(q1[0] == q2[0]);
        let t1 = q1.drop_first();
        let t2 = q2.drop_first();
        assert(t1.to_set() =~= t2.to_set()) by {
            assert forall|x: Seq<char>| t1.to_set().contains(x) implies t2.to_set().contains(
                x,
            ) by {
                let i = choose|i: int| 0 <= i < t1.len() && t1[i] == x;
                assert(q1[i + 1] == x);
                assert(lex_lt(q1[0], x));
                assert(q1.to_set().contains(x));
                assert(q2.to_set().contains(x));
                let j = choose|j: int| 0 <= j < q2.len() && q2[j] == x;
                lemma_lex_asym(q1[0], x);
                assert(j != 0);
                assert(t2[j - 1] == x);
            }
            assert forall|x: Seq<char>| t2.to_set().contains(x) implies t1.to_set().contains(
                x,
            ) by {
                let i = choose|i: int| 0 <= i < t2.len() && t2[i] == x;
                assert(q2[i + 1] == x);
                assert(lex_lt(q2[0], x));
                assert(q2.to_set().contains(x));
                assert(q1.to_set().contains(x));
                let j = choose|j: int| 0 <= j < q1.len() && q1[j] == x;
                lemma_lex_asym(q2[0], x);
                assert(j != 0);
                assert(t1[j - 1] == x);
            }
        }
        lemma_sorted_unique(t1, t2);
        assert forall|k: int| 0 <= k < q1.len() implies q1[k] == q2[k] by {
            if k > 0 {
                assert(t1[k - 1] == t2[k - 1]);
            }
        }
        assert(q1 =~= q2);
    }
}

/// Whether `a` precedes `b` in [`lex_lt`].
pub fn str_lex_lt(a: &str, b: &str) -> (r: bool)
    ensures
        r == lex_lt(a@, b@),
{
    let an = a.unicode_len();
    let bn = b.unicode_len();
    let mut i: usize = 0;
    proof {
        assert(a@.skip(0) =~= a@);
        assert(b@.skip(0) =~= b@);
    }
    loop
        invariant
            an == a@.len(),
            bn == b@.len(),
            0 <= i <= an,
            0 <= i <= bn,
            lex_lt(a@, b@) == lex_lt(a@.skip(i as int), b@.skip(i as int)),
        decreases an - i,
    {
        if i >= bn {
            proof {
                assert(b@.skip(i as int) =~= Seq::<char>::empty());
            }
            return false;
        }
        if i >= an {
            proof {
                assert(a@.skip(i as int) =~= Seq::<char>::empty());
                assert(b@.skip(i as int).len() > 0);
            }
            return true;
        }
        let ca = a.get_char(i);
        let cb = b.get_char(i);
        proof {
            assert(a@.skip(i as int)[0] == a@[i as int]);
            assert(b@.skip(i as int)[0] == b@[i as int]);
            assert(a@.skip(i as int).drop_first() =~= a@.skip(i + 1));
            assert(b@.skip(i as int).drop_first() =~= b@.skip(i + 1));
        }
        if ca != cb {
            return (ca as u32) < (cb as u32);
        }
        i = i + 1;
    }
}

/// Inserts `x` into a strictly sorted vector, keeping it strictly sorted;
/// an `x` that is already present is dropped. The members afterwards are the
/// members before together with `x`.
pub fn insert_sorted(v: &mut Vec<String>, x: String)
    requires
        strictly_sorted(views(old(v)@)),
    ensures
        strictly_sorted(views(final(v)@)),
        views(final(v)@).to_set() == views(old(v)@).to_set().insert(x@),
{
    let n = v.len();
    let mut i: usize = 0;
    while i < n && str_lex_lt(&v[i], x.as_str())
        invariant
            n == v@.len(),
            0 <= i <= n,
            forall|j: int| 0 <= j < i ==> lex_lt(views(v@)[j], x@),
        decreases n - i,
    {
        i = i + 1;
    }
    if i < n && str_eq(&v[i], x.as_str()) {
        proof {
            assert(views(v@)[i as int] == x@);
            assert(views(v@).to_set().contains(views(v@)[i as int]));
            assert(views(v@).to_set() =~= views(v@).to_set().insert(x@));
        }
        return;
    }
    proof {
        if i < n {
            lemma_lex_total(views(v@)[i as int], x@);
        }
        assert(i == n || lex_lt(x@, views(v@)[i as int]));
    }
    let ghost oldv = v@;
    v.insert(i, x);
    proof {
        let w = views(v@);
        let wo = views(oldv);
        assert(w =~~= wo.take(i as int) + seq![x@] + wo.skip(i as int));
        assert forall|p: int, q: int| 0 <= p < q < w.len() implies lex_lt(w[p], w[q]) by {
            if q < i {
                assert(w[p] == wo[p] && w[q] == wo[q]);
            } else if q == i {
                assert(w[p] == wo[p] && w[q] == x@);
                assert(lex_lt(wo[p], x@));
            } else if p < i {
                assert(w[p] == wo[p] && w[q] == wo[q - 1]);
                assert(lex_lt(wo[p], x@));
                if q - 1 == i {
                    assert(w[q] == wo[i as int]);
                    assert(lex_lt(x@, wo[i as int]));
                } else if q - 1 < i {
                    assert(lex_lt(wo[p], wo[q - 1]));
                } else {
                    assert(lex_lt(x@, wo[i as int]));
                    assert(lex_lt(wo[i as int], wo[q - 1]));
                    lemma_lex_trans(x@, wo[i as int], wo[q - 1]);
                }
                if q - 1 >= i {
                    lemma_lex_trans(wo[p], x@, wo[q - 1]);
                }
            } else if p == i {
                assert(w[p] == x@ && w[q] == wo[q - 1]);
                assert(q - 1 >= i);
                assert(i < n);
                if q - 1 == i {
                    assert(lex_lt(x@, wo[i as int]));
                } else {
                    assert(lex_lt(wo[i as int], wo[q - 1]));
                    lemma_lex_trans(x@, wo[i as int], wo[q - 1]);
                }
            } else {
                assert(w[p] == wo[p - 1] && w[q] == wo[q - 1]);
            }
        }
        assert(w.to_set() =~= wo.to_set().insert(x@)) by {
            assert forall|y: Seq<char>| w.to_set().contains(y) implies wo.to_set().insert(
                x@,
            ).contains(y) by {
                let j = choose|j: int| 0 <= j < w.len() && w[j] == y;
                if j < i {
                    assert(wo[j] == y);
                } else if j == i {
                } else {
                    assert(wo[j - 1] == y);
                }
            }
            assert forall|y: Seq<char>| wo.to_set().insert(x@).contains(y) implies w.to_set()
                .contains(y) by {
                if y == x@ {
                    assert(w[i as int] == y);
                } else {
                    let j = choose|j: int| 0 <= j < wo.len() && wo[j] == y;
                    if j < i {
                        assert(w[j] == y);
                    } else {
                        assert(w[j + 1] == y);
                    }
                }
            }
        }
    }
}


/// What a successful or failed character search means, spelled out.
pub proof fn lemma_find_char_props(s: Seq<char>, c: char)
    ensures
        match spec_find_char(s, c) {
            Some(i) => 0 <= i < s.len() && s[i] == c && (forall|j: int|
                0 <= j < i ==> s[j] != c),
            None => forall|j: int| 0 <= j < s.len() ==> s[j] != c,
        },
    decreases s.len(),
{
    if s.len() > 0 && s[0] != c {
        lemma_find_char_props(s.drop_first(), c);
        match spec_find_char(s.drop_first(), c) {
            Some(i) => {
                assert(s.drop_first()[i] == s[i + 1]);
                assert forall|j: int| 0 <= j < i + 1 implies s[j] != c by {
                    if j > 0 {
                        assert(s.drop_first()[j - 1] == s[j]);
                    }
                }
            },
            None => {
                assert forall|j: int| 0 <= j < s.len() implies s[j] != c by {
                    if j > 0 {
                        assert(s.drop_first()[j - 1] == s[j]);
                    }
                }
            },
        }
    }
}

/// Parses the pieces left to right with `f`, stopping at the first error.
pub open spec fn spec_fold_parse<T>(
    parts: Seq<Seq<char>>,
    f: spec_fn(Seq<char>) -> Result<T, Seq<char>>,
) -> Result<Seq<T>, Seq<char>>
    decreases parts.len(),
{
    if parts.len() == 0 {
        Result::Ok(Seq::<T>::empty())
    } else {
        match spec_fold_parse(parts.drop_last(), f) {
            Result::Err(m) => Result::Err(m),
            Result::Ok(ts) => match f(parts.last()) {
                Result::Err(m) => Result::Err(m),
                Result::Ok(t) => Result::Ok(ts.push(t)),
            },
        }
    }
}

/// A failed prefix decides the whole fold.
pub proof fn lemma_fold_parse_err<T>(
    parts: Seq<Seq<char>>,
    f: spec_fn(Seq<char>) -> Result<T, Seq<char>>,
    j: int,
)
    requires
        0 <= j <= parts.len(),
        spec_fold_parse(parts.take(j), f) is Err,
    ensures
        spec_fold_parse(parts, f) == spec_fold_parse(parts.take(j), f),
    decreases parts.len() - j,
{
    if j < parts.len() {
        assert(parts.take(j + 1).drop_last() =~= parts.take(j));
        lemma_fold_parse_err(parts, f, j + 1);
    } else {
        assert(parts.take(j) =~= parts);
    }
}


/// The strictly sorted enumeration of a set of sequences. By
/// [`lemma_sorted_unique`] there is at most one; [`lemma_sorted_of_eq`]
/// identifies it.
pub open spec fn sorted_of(s: Set<Seq<char>>) -> Seq<Seq<char>> {
    choose|q: Seq<Seq<char>>| strictly_sorted(q) && q.to_set() == s
}

/// A strictly sorted sequence enumerating `s` is `sorted_of(s)`.
pub proof fn lemma_sorted_of_eq(q: Seq<Seq<char>>, s: Set<Seq<char>>)
    requires
        strictly_sorted(q),
        q.to_set() == s,
    ensures
        sorted_of(s) == q,
{
    assert(strictly_sorted(q) && q.to_set() == s);
    let w = sorted_of(s);
    assert(strictly_sorted(w) && w.to_set() == s) by {
        assert(exists|z: Seq<Seq<char>>| strictly_sorted(z) && z.to_set() == s);
    }
    lemma_sorted_unique(w, q);
}


/// The trimmed pieces between `.{` at `p` and the final character of `l`.
pub open spec fn spec_import_trimmed_items(l: Seq<char>, p: int) -> Seq<Seq<char>> {
    spec_split(l.subrange(p + 2, l.len() - 1), ',').map_values(|t: Seq<char>| spec_trim(t))
}


/// What a successful or failed pair search means, spelled out.
pub proof fn lemma_find_pair_props(s: Seq<char>, c1: char, c2: char)
    ensures
        match spec_find_pair(s, c1, c2) {
            Some(i) => 0 <= i && i + 1 < s.len() && s[i] == c1 && s[i + 1] == c2,
            None => true,
        },
    decreases s.len(),
{
    if s.len() >= 2 && !(s[0] == c1 && s[1] == c2) {
        lemma_find_pair_props(s.drop_first(), c1, c2);
        match spec_find_pair(s.drop_first(), c1, c2) {
            Some(i) => {
                assert(s.drop_first()[i] == s[i + 1]);
                assert(s.drop_first()[i + 1] == s[i + 2]);
            },
            None => {},
        }
    }
}


/// Whether `sub` occurs in `s` starting at `i`.
pub open spec fn contains_at(s: Seq<char>, sub: Seq<char>, i: int) -> bool {
    0 <= i && i + sub.len() <= s.len() && s.subrange(i, i + sub.len()) == sub
}

/// Whether `sub` occurs anywhere in `s`.
pub open spec fn spec_contains(s: Seq<char>, sub: Seq<char>) -> bool {
    exists|i: int| contains_at(s, sub, i)
}

/// Whether `sub` occurs anywhere in `s`.
pub fn contains_sub(s: &str, sub: &str) -> (r: bool)
    ensures
        r == spec_contains(s@, sub@),
{
    let n = s.unicode_len();
    let m = sub.unicode_len();
    if m > n {
        proof {
            assert forall|i: int| !contains_at(s@, sub@, i) by {}
        }
        return false;
    }
    if m == 0 {
        proof {
            assert(s@.subrange(0, 0) =~= sub@);
            assert(contains_at(s@, sub@, 0));
        }
        return true;
    }
    let mut i: usize = 0;
    while i <= n - m
        invariant
            n == s@.len(),
            m == sub@.len(),
            1 <= m <= n,
            0 <= i <= n - m + 1,
            forall|q: int| 0 <= q < i ==> !contains_at(s@, sub@, q),
        decreases n - m - i + 1,
    {
        let mut j: usize = 0;
        let mut hit = true;
        while j < m
            invariant
                n == s@.len(),
                m == sub@.len(),
                1 <= m,
                0 <= i <= n - m,
                0 <= j <= m,
                hit ==> (forall|e: int| 0 <= e < j ==> s@[i + e] == sub@[e]),
                !hit ==> !contains_at(s@, sub@, i as int),
            decreases m - j,
        {
            if s.get_char(i + j) != sub.get_char(j) {
                hit = false;
                proof {
                    assert(!contains_at(s@, sub@, i as int)) by {
                        if contains_at(s@, sub@, i as int) {
                            assert(s@.subrange(i as int, i + sub@.len())[j as int]
                                == sub@[j as int]);
                        }
                    }
                }
                j = m;
            } else {
                j = j + 1;
            }
        }
        if hit {
            proof {
                assert(s@.subrange(i as int, i + sub@.len()) =~= sub@);
                assert(contains_at(s@, sub@, i as int));
            }
            return true;
        }
        proof {
            assert(!contains_at(s@, sub@, i as int)) by {
                if contains_at(s@, sub@, i as int) {
                    assert forall|e: int| 0 <= e < m implies s@[i + e] == sub@[e] by {
                        assert(s@.subrange(i as int, i + sub@.len())[e] == sub@[e]);
                    }
                }
            }
        }
        i = i + 1;
    }
    proof {
        assert forall|q: int| !contains_at(s@, sub@, q) by {
            if 0 <= q <= n - m {
            }
        }
    }
    false
}

/// ASCII lowercase folding: `A`..`Z` lowered, all else unchanged.
pub open spec fn fold_lower_char(c: char) -> char {
    if is_ascii_upper(c) {
        ((c as int) + 32) as char
    } else {
        c
    }
}

/// The ASCII-lowercased form of `s`.
pub open spec fn spec_fold_lower(s: Seq<char>) -> Seq<char> {
    s.map_values(|c: char| fold_lower_char(c))
}

/// ASCII-lowercases a string.
pub fn fold_lower(s: &str) -> (r: String)
    ensures
        r@ == spec_fold_lower(s@),
{
    let n = s.unicode_len();
    let mut r = String::new();
    let mut i: usize = 0;
    proof {
        assert(r@ =~= spec_fold_lower(s@.take(0)));
    }
    while i < n
        invariant
            n == s@.len(),
            0 <= i <= n,
            r@ == spec_fold_lower(s@.take(i as int)),
        decreases n - i,
    {
        let c = s.get_char(i);
        let folded: char = if 'A' <= c && c <= 'Z' {
            (((c as u32) + 32) as u8) as char
        } else {
            c
        };
        proof {
            assert(folded == fold_lower_char(c));
            assert(spec_fold_lower(s@.take(i + 1)) =~= spec_fold_lower(s@.take(i as int)).push(
                fold_lower_char(c),
            ));
        }
        push_char(&mut r, folded);
        i = i + 1;
    }
    proof {
        assert(s@.take(n as int) =~= s@);
    }
    r
}


/// Splitting at the first separator: the head piece and the split of the
/// rest.
pub proof fn lemma_split_at_first(s: Seq<char>, sep: char, i: int)
    requires
        0 <= i < s.len(),
        s[i] == sep,
        forall|j: int| 0 <= j < i ==> s[j] != sep,
    ensures
        spec_split(s, sep) == seq![s.take(i)] + spec_split(s.skip(i + 1), sep),
    decreases i,
{
    if i == 0 {
        assert(s.take(0) =~= Seq::<char>::empty());
        assert(s.drop_first() =~= s.skip(1));
        assert(spec_split(s, sep) =~~= seq![s.take(0)] + spec_split(s.skip(1), sep));
    } else {
        let t = s.drop_first();
        assert forall|j: int| 0 <= j < i - 1 implies t[j] != sep by {
            assert(t[j] == s[j + 1]);
        }
        assert(t[i - 1] == s[i]);
        lemma_split_at_first(t, sep, i - 1);
        lemma_split_len(t.skip(i), sep);
        assert(t.skip(i) =~= s.skip(i + 1));
        assert(t.take(i - 1) =~= s.take(i).drop_first());
        let rest = spec_split(t, sep);
        assert(rest == seq![s.take(i).drop_first()] + spec_split(s.skip(i + 1), sep));
        assert(rest[0] == s.take(i).drop_first());
        assert(seq![s[0]] + rest[0] =~= s.take(i));
        assert(spec_split(s, sep) =~~= seq![s.take(i)] + spec_split(s.skip(i + 1), sep));
    }
}

/// Splitting a separator-free sequence yields that one piece.
pub proof fn lemma_split_no_sep(s: Seq<char>, sep: char)
    requires
        forall|j: int| 0 <= j < s.len() ==> s[j] != sep,
    ensures
        spec_split(s, sep) == seq![s],
    decreases s.len(),
{
    if s.len() > 0 {
        let t = s.drop_first();
        assert forall|j: int| 0 <= j < t.len() implies t[j] != sep by {
            assert(t[j] == s[j + 1]);
        }
        lemma_split_no_sep(t, sep);
        assert(seq![s[0]] + t =~= s);
        assert(spec_split(s, sep) =~~= seq![s]);
    } else {
        assert(s =~= Seq::<char>::empty());
    }
}

/// Trimming does nothing when neither end is blank.
pub proof fn lemma_trim_noop(s: Seq<char>)
    requires
        s.len() == 0 || (!is_space(s[0]) && !is_space(s[s.len() - 1])),
    ensures
        spec_trim(s) == s,
{
}

} // verus!
