//! Text algorithms used by matching and expression handling: edit
//! distance, SQL-style `LIKE` patterns and simple equality expressions.

use vstd::prelude::*;

verus! {

/// The characters of `text`.
#[verifier::external_body]
pub(crate) fn chars_of(text: &str) -> (result: Vec<char>)
    ensures
        result@ == text@,
{
    text.chars().collect()
}

/// The text made of `chars`.
#[verifier::external_body]
pub(crate) fn string_of(chars: &[char]) -> (result: String)
    ensures
        result@ == chars@,
{
    chars.iter().collect()
}

/// Smallest of three numbers.
pub open spec fn min3(a: nat, b: nat, c: nat) -> nat {
    if a <= b && a <= c {
        a
    } else if b <= c {
        b
    } else {
        c
    }
}

/// Levenshtein distance: the fewest single-character insertions,
/// deletions and substitutions that turn `a` into `b`.
pub open spec fn edit_distance(a: Seq<char>, b: Seq<char>) -> nat
    decreases a.len() + b.len(),
{
    if a.len() == 0 {
        b.len()
    } else if b.len() == 0 {
        a.len()
    } else {
        min3(
            edit_distance(a.drop_last(), b) + 1,
            edit_distance(a, b.drop_last()) + 1,
            edit_distance(a.drop_last(), b.drop_last()) + if a.last() == b.last() {
                0nat
            } else {
                1nat
            },
        )
    }
}

/// The edit distance never exceeds the longer length.
pub proof fn lemma_edit_distance_bound(a: Seq<char>, b: Seq<char>)
    ensures
        edit_distance(a, b) <= if a.len() >= b.len() {
            a.len()
        } else {
            b.len()
        },
    decreases a.len() + b.len(),
{
    if a.len() > 0 && b.len() > 0 {
        lemma_edit_distance_bound(a.drop_last(), b.drop_last());
    }
}

/// The edit distance does not depend on the direction of the edit.
pub proof fn lemma_edit_distance_symmetric(a: Seq<char>, b: Seq<char>)
    ensures
        edit_distance(a, b) == edit_distance(b, a),
    decreases a.len() + b.len(),
{
    if a.len() > 0 && b.len() > 0 {
        lemma_edit_distance_symmetric(a.drop_last(), b);
        lemma_edit_distance_symmetric(a, b.drop_last());
        lemma_edit_distance_symmetric(a.drop_last(), b.drop_last());
    }
}

/// A text is at distance zero from itself.
pub proof fn lemma_edit_distance_identity(a: Seq<char>)
    ensures
        edit_distance(a, a) == 0,
    decreases a.len(),
{
    if a.len() > 0 {
        lemma_edit_distance_identity(a.drop_last());
    }
}

/// Levenshtein distance between two strings, counted in characters.
pub fn levenshtein(a: &str, b: &str) -> (result: usize)
    requires
        a@.len() < usize::MAX,
        b@.len() < usize::MAX,
    ensures
        result == edit_distance(a@, b@),
{
    let a_chars = chars_of(a);
    let b_chars = chars_of(b);
    let m = a_chars.len();
    let n = b_chars.len();
    let ghost sa = a_chars@;
    let ghost sb = b_chars@;
    if m == 0 {
        return n;
    }
    if n == 0 {
        return m;
    }
    let mut prev: Vec<usize> = Vec::new();
    let mut j: usize = 0;
    while j <= n
        invariant
            j <= n + 1,
            n == sb.len(),
            n < usize::MAX,
            prev@.len() == j,
            forall|k: int| 0 <= k < j ==> prev@[k] == edit_distance(sa.take(0), #[trigger] sb.take(k)),
        decreases n + 1 - j,
    {
        proof {
            assert(sa.take(0).len() == 0);
        }
        prev.push(j);
        j = j + 1;
    }
    let mut i: usize = 1;
    while i <= m
        invariant
            1 <= i <= m + 1,
            m == sa.len(),
            n == sb.len(),
            m > 0,
            n > 0,
            n < usize::MAX,
            m < usize::MAX,
            a_chars@ == sa,
            b_chars@ == sb,
            prev@.len() == n + 1,
            forall|k: int| 0 <= k <= n ==> prev@[k] == edit_distance(sa.take(i - 1), #[trigger] sb.take(k)),
        decreases m + 1 - i,
    {
        let mut curr: Vec<usize> = Vec::new();
        curr.push(i);
        proof {
            assert(sb.take(0).len() == 0);
            assert(sa.take(i as int).len() == i);
        }
        let mut jj: usize = 1;
        while jj <= n
            invariant
                1 <= i <= m,
                1 <= jj <= n + 1,
                m == sa.len(),
                n == sb.len(),
                n < usize::MAX,
                m < usize::MAX,
                a_chars@ == sa,
                b_chars@ == sb,
                prev@.len() == n + 1,
                forall|k: int| 0 <= k <= n ==> prev@[k] == edit_distance(sa.take(i - 1), #[trigger] sb.take(k)),
                curr@.len() == jj,
                forall|k: int| 0 <= k < jj ==> curr@[k] == edit_distance(sa.take(i as int), #[trigger] sb.take(k)),
            decreases n + 1 - jj,
        {
            let ghost x = sa.take(i as int);
            let ghost y = sb.take(jj as int);
            proof {
                assert(x.drop_last() =~= sa.take(i - 1));
                assert(y.drop_last() =~= sb.take(jj - 1));
                assert(x.last() == sa[i - 1]);
                assert(y.last() == sb[jj - 1]);
                lemma_edit_distance_bound(x, sb.take(jj - 1));
                lemma_edit_distance_bound(sa.take(i - 1), y);
                lemma_edit_distance_bound(sa.take(i - 1), sb.take(jj - 1));
                assert(curr@[jj - 1] == edit_distance(x, sb.take(jj - 1)));
                assert(prev@[jj as int] == edit_distance(sa.take(i - 1), y));
                assert(prev@[jj - 1] == edit_distance(sa.take(i - 1), sb.take(jj - 1)));
            }
            let cost: usize = if a_chars[i - 1] == b_chars[jj - 1] { 0 } else { 1 };
            let insert = curr[jj - 1] + 1;
            let delete = prev[jj] + 1;
            let replace = prev[jj - 1] + cost;
            let mut best = insert;
            if delete < best {
                best = delete;
            }
            if replace < best {
                best = replace;
            }
            proof {
                assert(best == edit_distance(x, y));
            }
            curr.push(best);
            jj = jj + 1;
        }
        prev = curr;
        i = i + 1;
    }
    proof {
        assert(sa.take(m as int) =~= sa);
        assert(sb.take(n as int) =~= sb);
    }
    prev[n]
}

/// Pieces of a `LIKE` pattern so far, and the piece still being read.
pub open spec fn pieces_upto(pattern: Seq<char>) -> (Seq<Seq<char>>, Seq<char>)
    decreases pattern.len(),
{
    if pattern.len() == 0 {
        (Seq::empty(), Seq::empty())
    } else {
        let (done, current) = pieces_upto(pattern.drop_last());
        if pattern.last() == '%' {
            (if current.len() > 0 { done.push(current) } else { done }, Seq::empty())
        } else {
            (done, current.push(pattern.last()))
        }
    }
}

/// The non-empty pieces between the `%` wildcards of a pattern, in order.
pub open spec fn like_pieces(pattern: Seq<char>) -> Seq<Seq<char>> {
    let (done, current) = pieces_upto(pattern);
    if current.len() > 0 {
        done.push(current)
    } else {
        done
    }
}

/// Whether `piece` occurs in `text` at position `k`.
pub open spec fn occurs_at(text: Seq<char>, piece: Seq<char>, k: int) -> bool {
    0 <= k && k + piece.len() <= text.len() && text.subrange(k, k + piece.len()) == piece
}

/// Whether `pieces` occur in `text` one after another, without
/// overlapping, all at or after position `start`.
pub open spec fn occur_in_order(text: Seq<char>, pieces: Seq<Seq<char>>, start: int) -> bool
    decreases pieces.len(),
{
    if pieces.len() == 0 {
        true
    } else {
        exists|k: int| start <= k && #[trigger] occurs_at(text, pieces[0], k) && occur_in_order(
            text,
            pieces.drop_first(),
            k + pieces[0].len(),
        )
    }
}

/// Whether `text` matches a `LIKE` pattern where `%` stands for any run of
/// characters: without `%` the text must equal the pattern; with it, the
/// pattern's pieces must occur in the text in order (the match is not
/// anchored at either end).
pub open spec fn like_matches(text: Seq<char>, pattern: Seq<char>) -> bool {
    if !pattern.contains('%') {
        text == pattern
    } else {
        occur_in_order(text, like_pieces(pattern), 0)
    }
}

/// Starting later never helps pieces occur in order.
pub proof fn lemma_occur_in_order_monotone(text: Seq<char>, pieces: Seq<Seq<char>>, early: int, late: int)
    requires
        early <= late,
        occur_in_order(text, pieces, late),
    ensures
        occur_in_order(text, pieces, early),
{
    if pieces.len() > 0 {
        let k = choose|k: int| late <= k && #[trigger] occurs_at(text, pieces[0], k) && occur_in_order(
            text,
            pieces.drop_first(),
            k + pieces[0].len(),
        );
        assert(early <= k && occurs_at(text, pieces[0], k));
    }
}

/// Pieces of a pattern, computed.
fn split_pieces(pattern: &Vec<char>) -> (result: Vec<Vec<char>>)
    ensures
        result@.map_values(|p: Vec<char>| p@) == like_pieces(pattern@),
{
    let mut done: Vec<Vec<char>> = Vec::new();
    let mut current: Vec<char> = Vec::new();
    let mut i: usize = 0;
    while i < pattern.len()
        invariant
            i <= pattern@.len(),
            (done@.map_values(|p: Vec<char>| p@), current@) == pieces_upto(pattern@.take(i as int)),
        decreases pattern@.len() - i,
    {
        proof {
            assert(pattern@.take(i + 1).drop_last() =~= pattern@.take(i as int));
        }
        let c = pattern[i];
        if c == '%' {
            if current.len() > 0 {
                let ghost before = done@;
                let piece = current;
                done.push(piece);
                assert(done@.map_values(|p: Vec<char>| p@) =~= before.map_values(|p: Vec<char>| p@).push(piece@));
            }
            current = Vec::new();
        } else {
            current.push(c);
        }
        i = i + 1;
    }
    assert(pattern@.take(pattern@.len() as int) =~= pattern@);
    if current.len() > 0 {
        let ghost before = done@;
        let piece = current;
        done.push(piece);
        assert(done@.map_values(|p: Vec<char>| p@) =~= before.map_values(|p: Vec<char>| p@).push(piece@));
    }
    done
}

/// Whether `piece` occurs in `text` at `k`, computed.
fn occurs_at_exec(text: &Vec<char>, piece: &Vec<char>, k: usize) -> (result: bool)
    ensures
        result == occurs_at(text@, piece@, k as int),
{
    let tl = text.len();
    if k > tl || piece.len() > tl - k {
        return false;
    }
    let mut j: usize = 0;
    while j < piece.len()
        invariant
            tl == text@.len(),
            k + piece@.len() <= text@.len(),
            j <= piece@.len(),
            forall|q: int| 0 <= q < j ==> text@[k + q] == piece@[q],
        decreases piece@.len() - j,
    {
        if text[k + j] != piece[j] {
            assert(text@.subrange(k as int, k + piece@.len())[j as int] != piece@[j as int]);
            return false;
        }
        j = j + 1;
    }
    assert(text@.subrange(k as int, k + piece@.len()) =~= piece@);
    true
}

/// First position at or after `start` where `piece` occurs in `text`.
fn find_from(text: &Vec<char>, piece: &Vec<char>, start: usize) -> (result: Option<usize>)
    ensures
        match result {
            Some(k) => start <= k && occurs_at(text@, piece@, k as int) && forall|q: int|
                start <= q < k ==> !#[trigger] occurs_at(text@, piece@, q),
            None => forall|q: int| start <= q ==> !#[trigger] occurs_at(text@, piece@, q),
        },
{
    let tl = text.len();
    if start > tl {
        return None;
    }
    let mut k: usize = start;
    while k < tl
        invariant
            tl == text@.len(),
            start <= k <= tl,
            forall|q: int| start <= q < k ==> !#[trigger] occurs_at(text@, piece@, q),
        decreases tl - k,
    {
        if occurs_at_exec(text, piece, k) {
            return Some(k);
        }
        k = k + 1;
    }
    if occurs_at_exec(text, piece, k) {
        return Some(k);
    }
    None
}

/// Whether `text` matches the `LIKE` pattern `pattern`.
pub fn like_match(text: &str, pattern: &str) -> (result: bool)
    ensures
        result == like_matches(text@, pattern@),
{
    let text_chars = chars_of(text);
    let pattern_chars = chars_of(pattern);
    let mut has_wildcard = false;
    let mut i: usize = 0;
    while i < pattern_chars.len()
        invariant
            i <= pattern_chars@.len(),
            has_wildcard == pattern_chars@.take(i as int).contains('%'),
        decreases pattern_chars@.len() - i,
    {
        proof {
            let t = pattern_chars@.take(i + 1);
            assert(t =~= pattern_chars@.take(i as int).push(pattern_chars@[i as int]));
            if pattern_chars@[i as int] == '%' {
                assert(t[i as int] == '%');
            }
            if pattern_chars@.take(i as int).contains('%') {
                let w = choose|w: int| 0 <= w < i && pattern_chars@.take(i as int)[w] == '%';
                assert(t[w] == '%');
            }
            if t.contains('%') {
                let w = choose|w: int| 0 <= w < i + 1 && t[w] == '%';
                if w < i {
                    assert(pattern_chars@.take(i as int)[w] == '%');
                }
            }
        }
        if pattern_chars[i] == '%' {
            has_wildcard = true;
        }
        i = i + 1;
    }
    assert(pattern_chars@.take(pattern_chars@.len() as int) =~= pattern_chars@);
    if !has_wildcard {
        return crate::primitives::str_eq(text, pattern);
    }
    let pieces = split_pieces(&pattern_chars);
    let ghost ps = pieces@.map_values(|p: Vec<char>| p@);
    let mut cursor: usize = 0;
    let mut n: usize = 0;
    let tl = text_chars.len();
    assert(ps.skip(0) =~= ps);
    while n < pieces.len()
        invariant
            tl == text_chars@.len(),
            text_chars@ == text@,
            pattern_chars@ == pattern@,
            pattern@.contains('%'),
            n <= pieces@.len(),
            ps == pieces@.map_values(|p: Vec<char>| p@),
            ps == like_pieces(pattern@),
            cursor <= text_chars@.len(),
            occur_in_order(text_chars@, ps, 0) == occur_in_order(text_chars@, ps.skip(n as int), cursor as int),
        decreases pieces@.len() - n,
    {
        let piece = &pieces[n];
        let ghost rest = ps.skip(n as int);
        proof {
            assert(rest[0] == piece@);
            assert(rest.drop_first() =~= ps.skip(n + 1));
        }
        match find_from(&text_chars, piece, cursor) {
            None => {
                proof {
                    if occur_in_order(text_chars@, rest, cursor as int) {
                        let k = choose|k: int| cursor <= k && #[trigger] occurs_at(text_chars@, rest[0], k)
                            && occur_in_order(text_chars@, rest.drop_first(), k + rest[0].len());
                        assert(occurs_at(text_chars@, piece@, k));
                    }
                }
                return false;
            },
            Some(found) => {
                proof {
                    let next = found + piece@.len();
                    if occur_in_order(text_chars@, rest, cursor as int) {
                        let k = choose|k: int| cursor <= k && #[trigger] occurs_at(text_chars@, rest[0], k)
                            && occur_in_order(text_chars@, rest.drop_first(), k + rest[0].len());
                        assert(occurs_at(text_chars@, piece@, k));
                        assert(found <= k);
                        lemma_occur_in_order_monotone(text_chars@, rest.drop_first(), next, k + rest[0].len());
                    }
                    if occur_in_order(text_chars@, rest.drop_first(), next) {
                        assert(occurs_at(text_chars@, rest[0], found as int));
                    }
                }
                cursor = found + piece.len();
            },
        }
        n = n + 1;
    }
    proof {
        assert(ps.skip(n as int).len() == 0);
    }
    true
}

/// Whether `c` has the Unicode `White_Space` property.
pub open spec fn is_whitespace(c: char) -> bool {
    let u = c as u32;
    (0x9 <= u && u <= 0xD) || u == 0x20 || u == 0x85 || u == 0xA0 || u == 0x1680 || (0x2000 <= u
        && u <= 0x200A) || u == 0x2028 || u == 0x2029 || u == 0x202F || u == 0x205F || u == 0x3000
}

/// Whether `c` has the Unicode `White_Space` property, computed.
pub fn char_is_whitespace(c: char) -> (result: bool)
    ensures
        result == is_whitespace(c),
{
    let u = c as u32;
    (0x9 <= u && u <= 0xD) || u == 0x20 || u == 0x85 || u == 0xA0 || u == 0x1680 || (0x2000 <= u
        && u <= 0x200A) || u == 0x2028 || u == 0x2029 || u == 0x202F || u == 0x205F || u == 0x3000
}

/// `s` without its leading whitespace.
pub open spec fn trim_start_ws(s: Seq<char>) -> Seq<char>
    decreases s.len(),
{
    if s.len() > 0 && is_whitespace(s[0]) {
        trim_start_ws(s.drop_first())
    } else {
        s
    }
}

/// `s` without its trailing whitespace.
pub open spec fn trim_end_ws(s: Seq<char>) -> Seq<char>
    decreases s.len(),
{
    if s.len() > 0 && is_whitespace(s.last()) {
        trim_end_ws(s.drop_last())
    } else {
        s
    }
}

/// `s` without leading or trailing whitespace.
pub open spec fn trim_ws(s: Seq<char>) -> Seq<char> {
    trim_end_ws(trim_start_ws(s))
}

/// `s` without its leading copies of `c`.
pub open spec fn trim_start_char(s: Seq<char>, c: char) -> Seq<char>
    decreases s.len(),
{
    if s.len() > 0 && s[0] == c {
        trim_start_char(s.drop_first(), c)
    } else {
        s
    }
}

/// `s` without its trailing copies of `c`.
pub open spec fn trim_end_char(s: Seq<char>, c: char) -> Seq<char>
    decreases s.len(),
{
    if s.len() > 0 && s.last() == c {
        trim_end_char(s.drop_last(), c)
    } else {
        s
    }
}

/// The leftmost position at or after `k` where `pat` occurs in `s`.
pub open spec fn leftmost_from(s: Seq<char>, pat: Seq<char>, k: int) -> Option<int>
    decreases s.len() + 1 - k,
{
    if k < 0 || k > s.len() {
        None
    } else if occurs_at(s, pat, k) {
        Some(k)
    } else {
        leftmost_from(s, pat, k + 1)
    }
}

/// Value side of an equality with surrounding quotes removed: single
/// quotes first, then double quotes.
pub open spec fn unquote(v: Seq<char>) -> Seq<char> {
    trim_end_char(trim_start_char(trim_end_char(trim_start_char(v, '\''), '\''), '"'), '"')
}

/// Variable and value of an equality expression `var == value` or
/// `var != value` (the first `!=` wins; otherwise the first `==`), with
/// whitespace trimmed and the value unquoted.
pub open spec fn equality_parts(expr: Seq<char>) -> Option<(Seq<char>, Seq<char>)> {
    let pos = match leftmost_from(expr, "!="@, 0) {
        Some(p) => Some(p),
        None => leftmost_from(expr, "=="@, 0),
    };
    match pos {
        Some(p) => Some((trim_ws(expr.subrange(0, p)), unquote(trim_ws(expr.subrange(p + 2, expr.len() as int))))),
        None => None,
    }
}

/// Start of `chars[lo..hi]` once leading whitespace is skipped.
fn skip_ws_front(chars: &Vec<char>, lo: usize, hi: usize) -> (result: usize)
    requires
        lo <= hi <= chars@.len(),
    ensures
        lo <= result <= hi,
        chars@.subrange(result as int, hi as int) == trim_start_ws(chars@.subrange(lo as int, hi as int)),
{
    let mut k = lo;
    while k < hi && char_is_whitespace(chars[k])
        invariant
            lo <= k <= hi <= chars@.len(),
            trim_start_ws(chars@.subrange(lo as int, hi as int)) == trim_start_ws(chars@.subrange(k as int, hi as int)),
        decreases hi - k,
    {
        assert(chars@.subrange(k as int, hi as int).drop_first() =~= chars@.subrange(k + 1, hi as int));
        k = k + 1;
    }
    k
}

/// End of `chars[lo..hi]` once trailing whitespace is skipped.
fn skip_ws_back(chars: &Vec<char>, lo: usize, hi: usize) -> (result: usize)
    requires
        lo <= hi <= chars@.len(),
    ensures
        lo <= result <= hi,
        chars@.subrange(lo as int, result as int) == trim_end_ws(chars@.subrange(lo as int, hi as int)),
{
    let mut k = hi;
    while k > lo && char_is_whitespace(chars[k - 1])
        invariant
            lo <= k <= hi <= chars@.len(),
            trim_end_ws(chars@.subrange(lo as int, hi as int)) == trim_end_ws(chars@.subrange(lo as int, k as int)),
        decreases k - lo,
    {
        assert(chars@.subrange(lo as int, k as int).drop_last() =~= chars@.subrange(lo as int, k - 1));
        k = k - 1;
    }
    k
}

/// Start of `chars[lo..hi]` once leading copies of `c` are skipped.
fn skip_char_front(chars: &Vec<char>, lo: usize, hi: usize, c: char) -> (result: usize)
    requires
        lo <= hi <= chars@.len(),
    ensures
        lo <= result <= hi,
        chars@.subrange(result as int, hi as int) == trim_start_char(chars@.subrange(lo as int, hi as int), c),
{
    let mut k = lo;
    while k < hi && chars[k] == c
        invariant
            lo <= k <= hi <= chars@.len(),
            trim_start_char(chars@.subrange(lo as int, hi as int), c) == trim_start_char(chars@.subrange(k as int, hi as int), c),
        decreases hi - k,
    {
        assert(chars@.subrange(k as int, hi as int).drop_first() =~= chars@.subrange(k + 1, hi as int));
        k = k + 1;
    }
    k
}

/// End of `chars[lo..hi]` once trailing copies of `c` are skipped.
fn skip_char_back(chars: &Vec<char>, lo: usize, hi: usize, c: char) -> (result: usize)
    requires
        lo <= hi <= chars@.len(),
    ensures
        lo <= result <= hi,
        chars@.subrange(lo as int, result as int) == trim_end_char(chars@.subrange(lo as int, hi as int), c),
{
    let mut k = hi;
    while k > lo && chars[k - 1] == c
        invariant
            lo <= k <= hi <= chars@.len(),
            trim_end_char(chars@.subrange(lo as int, hi as int), c) == trim_end_char(chars@.subrange(lo as int, k as int), c),
        decreases k - lo,
    {
        assert(chars@.subrange(lo as int, k as int).drop_last() =~= chars@.subrange(lo as int, k - 1));
        k = k - 1;
    }
    k
}

/// Leftmost occurrence of `pat` in `s`, computed.
fn leftmost(s: &Vec<char>, pat: &Vec<char>) -> (result: Option<usize>)
    ensures
        match leftmost_from(s@, pat@, 0) {
            Some(k) => result == Some(k as usize),
            None => result is None,
        },
{
    let r = find_from(s, pat, 0);
    proof {
        lemma_leftmost_from(s@, pat@, 0);
    }
    r
}

/// What `leftmost_from` finds.
pub proof fn lemma_leftmost_from(s: Seq<char>, pat: Seq<char>, k: int)
    requires
        0 <= k,
    ensures
        match leftmost_from(s, pat, k) {
            Some(p) => k <= p <= s.len() && occurs_at(s, pat, p) && forall|q: int| k <= q < p ==> !#[trigger] occurs_at(s, pat, q),
            None => forall|q: int| k <= q ==> !#[trigger] occurs_at(s, pat, q),
        },
    decreases s.len() + 1 - k,
{
    if k <= s.len() && !occurs_at(s, pat, k) {
        lemma_leftmost_from(s, pat, k + 1);
    }
}

/// Split an equality expression into its variable and value.
pub fn parse_equality(expr: &str) -> (result: Option<(String, String)>)
    ensures
        match equality_parts(expr@) {
            Some((var, val)) => result matches Some((v, w)) && v@ == var && w@ == val,
            None => result is None,
        },
{
    let chars = chars_of(expr);
    let not_equal = chars_of("!=");
    let equal = chars_of("==");
    proof {
        reveal_strlit("!=");
        reveal_strlit("==");
    }
    let pos = match leftmost(&chars, &not_equal) {
        Some(p) => Some(p),
        None => leftmost(&chars, &equal),
    };
    match pos {
        None => None,
        Some(p) => {
            proof {
                lemma_leftmost_from(chars@, not_equal@, 0);
                lemma_leftmost_from(chars@, equal@, 0);
            }
            let n = chars.len();
            let var_lo = skip_ws_front(&chars, 0, p);
            let var_hi = skip_ws_back(&chars, var_lo, p);
            let mut lo = skip_ws_front(&chars, p + 2, n);
            let mut hi = skip_ws_back(&chars, lo, n);
            let ghost trimmed = chars@.subrange(lo as int, hi as int);
            lo = skip_char_front(&chars, lo, hi, '\'');
            hi = skip_char_back(&chars, lo, hi, '\'');
            lo = skip_char_front(&chars, lo, hi, '"');
            hi = skip_char_back(&chars, lo, hi, '"');
            let var = string_of(vstd::slice::slice_subrange(chars.as_slice(), var_lo, var_hi));
            let val = string_of(vstd::slice::slice_subrange(chars.as_slice(), lo, hi));
            Some((var, val))
        },
    }
}

/// `text` without leading or trailing whitespace.
pub fn trim(text: &str) -> (result: String)
    ensures
        result@ == trim_ws(text@),
{
    let chars = chars_of(text);
    let n = chars.len();
    let lo = skip_ws_front(&chars, 0, n);
    let hi = skip_ws_back(&chars, lo, n);
    proof {
        assert(chars@.subrange(0, n as int) =~= chars@);
    }
    string_of(vstd::slice::slice_subrange(chars.as_slice(), lo, hi))
}

/// `text` without leading or trailing copies of `c`.
pub fn trim_char(text: &str, c: char) -> (result: String)
    ensures
        result@ == trim_end_char(trim_start_char(text@, c), c),
{
    let chars = chars_of(text);
    let n = chars.len();
    let lo = skip_char_front(&chars, 0, n, c);
    let hi = skip_char_back(&chars, lo, n, c);
    proof {
        assert(chars@.subrange(0, n as int) =~= chars@);
    }
    string_of(vstd::slice::slice_subrange(chars.as_slice(), lo, hi))
}

/// `pat` occurs somewhere in `text`.
pub open spec fn contains_seq(text: Seq<char>, pat: Seq<char>) -> bool {
    exists|k: int| 0 <= k && #[trigger] occurs_at(text, pat, k)
}

/// Whether `pat` occurs in `text`.
pub fn contains_text(text: &str, pat: &str) -> (result: bool)
    ensures
        result == contains_seq(text@, pat@),
{
    let chars = chars_of(text);
    let piece = chars_of(pat);
    let found = find_from(&chars, &piece, 0);
    proof {
        if found is None {
            assert forall|k: int| 0 <= k implies !#[trigger] occurs_at(text@, pat@, k) by {
            }
        }
    }
    found.is_some()
}

/// Code of `c` with ASCII upper-case letters mapped to lower case.
pub open spec fn ascii_lower_code(c: char) -> u32 {
    let u = c as u32;
    if 65 <= u && u <= 90 {
        (u + 32) as u32
    } else {
        u
    }
}

/// `a` and `b` are equal when ASCII letter case is ignored.
pub open spec fn eq_ignore_ascii_case(a: Seq<char>, b: Seq<char>) -> bool {
    &&& a.len() == b.len()
    &&& forall|i: int| 0 <= i < a.len() ==> #[trigger] ascii_lower_code(a[i]) == ascii_lower_code(b[i])
}

fn lower_code(c: char) -> (result: u32)
    ensures
        result == ascii_lower_code(c),
{
    let u = c as u32;
    if 65 <= u && u <= 90 {
        u + 32
    } else {
        u
    }
}

/// Whether `a` and `b` are equal when ASCII letter case is ignored.
pub fn equal_ignoring_ascii_case(a: &str, b: &str) -> (result: bool)
    ensures
        result == eq_ignore_ascii_case(a@, b@),
{
    let x = chars_of(a);
    let y = chars_of(b);
    if x.len() != y.len() {
        return false;
    }
    let mut i: usize = 0;
    while i < x.len()
        invariant
            x@ == a@,
            y@ == b@,
            x@.len() == y@.len(),
            i <= x@.len(),
            forall|j: int| 0 <= j < i ==> #[trigger] ascii_lower_code(x@[j]) == ascii_lower_code(y@[j]),
        decreases x@.len() - i,
    {
        if lower_code(x[i]) != lower_code(y[i]) {
            return false;
        }
        i = i + 1;
    }
    true
}

/// `s` begins with `prefix`.
pub open spec fn has_prefix(s: Seq<char>, prefix: Seq<char>) -> bool {
    prefix.len() <= s.len() && s.take(prefix.len() as int) == prefix
}

/// Whether `text` begins with `prefix`.
pub fn starts_with_text(text: &str, prefix: &str) -> (result: bool)
    ensures
        result == has_prefix(text@, prefix@),
{
    let s = chars_of(text);
    let p = chars_of(prefix);
    if p.len() > s.len() {
        return false;
    }
    let mut i: usize = 0;
    while i < p.len()
        invariant
            s@ == text@,
            p@ == prefix@,
            p@.len() <= s@.len(),
            i <= p@.len(),
            forall|j: int| 0 <= j < i ==> s@[j] == p@[j],
        decreases p@.len() - i,
    {
        if s[i] != p[i] {
            assert(s@.take(p@.len() as int)[i as int] != p@[i as int]);
            return false;
        }
        i = i + 1;
    }
    assert(s@.take(p@.len() as int) =~= p@);
    true
}

/// `c` is an ASCII decimal digit.
pub open spec fn is_ascii_digit(c: char) -> bool {
    '0' <= c && c <= '9'
}

/// `s` is one or more ASCII decimal digits.
pub open spec fn all_digits(s: Seq<char>) -> bool {
    s.len() > 0 && forall|i: int| 0 <= i < s.len() ==> #[trigger] is_ascii_digit(s[i])
}

/// The number that the decimal digits `s` write.
pub open spec fn digits_value(s: Seq<char>) -> int
    decreases s.len(),
{
    if s.len() == 0 {
        0
    } else {
        10 * digits_value(s.drop_last()) + (s.last() as int - '0' as int)
    }
}

/// The integer written in `s` the way std's integer parsing reads it: an
/// optional `+` sign (or `-` when `signed`), then at least one decimal digit
/// and nothing else.
pub open spec fn decimal_integer(s: Seq<char>, signed: bool) -> Option<int> {
    if s.len() > 0 && s[0] == '+' {
        if all_digits(s.drop_first()) {
            Some(digits_value(s.drop_first()))
        } else {
            None
        }
    } else if signed && s.len() > 0 && s[0] == '-' {
        if all_digits(s.drop_first()) {
            Some(-digits_value(s.drop_first()))
        } else {
            None
        }
    } else if all_digits(s) {
        Some(digits_value(s))
    } else {
        None
    }
}

/// The `i64` that `s` writes, when it writes one in range.
pub open spec fn i64_from_text(s: Seq<char>) -> Option<i64> {
    match decimal_integer(s, true) {
        Some(v) => if i64::MIN <= v && v <= i64::MAX {
            Some(v as i64)
        } else {
            None
        },
        None => None,
    }
}

/// The `usize` that `s` writes, when it writes one in range.
pub open spec fn usize_from_text(s: Seq<char>) -> Option<usize> {
    match decimal_integer(s, false) {
        Some(v) => if 0 <= v && v <= usize::MAX {
            Some(v as usize)
        } else {
            None
        },
        None => None,
    }
}

/// Parse `text` as an `i64` (`str::parse`): an optional sign and decimal
/// digits, in range.
#[verifier::external_body]
pub(crate) fn parse_i64(text: &str) -> (result: Option<i64>)
    ensures
        result == i64_from_text(text@),
{
    text.parse::<i64>().ok()
}

/// Parse `text` as a `usize` (`str::parse`): an optional `+` and decimal
/// digits, in range.
#[verifier::external_body]
pub(crate) fn parse_usize(text: &str) -> (result: Option<usize>)
    ensures
        result == usize_from_text(text@),
{
    text.parse::<usize>().ok()
}

/// The decimal digits of `n`.
pub open spec fn decimal_text(n: nat) -> Seq<char>
    decreases n,
{
    if n < 10 {
        seq![(('0' as u32) + n) as char]
    } else {
        decimal_text(n / 10) + seq![(('0' as u32) + n % 10) as char]
    }
}

/// The decimal digits of `n`.
pub fn decimal_string(n: usize) -> (result: String)
    ensures
        result@ == decimal_text(n as nat),
    decreases n,
{
    let digit = n % 10;
    let c: char = if digit == 0 { '0' } else if digit == 1 { '1' } else if digit == 2 { '2' } else if digit == 3 {
        '3'
    } else if digit == 4 { '4' } else if digit == 5 { '5' } else if digit == 6 { '6' } else if digit == 7 {
        '7'
    } else if digit == 8 { '8' } else { '9' };
    let mut chars: Vec<char> = Vec::new();
    chars.push(c);
    let last = string_of(chars.as_slice());
    if n < 10 {
        proof {
            assert(last@ =~= decimal_text(n as nat));
        }
        last
    } else {
        let mut head = decimal_string(n / 10);
        head.append(last.as_str());
        proof {
            assert(head@ =~= decimal_text(n as nat));
        }
        head
    }
}

/// `s` with every occurrence of `pat` replaced by `rep`, scanning left to
/// right and never overlapping; `s` itself when `pat` is empty.
pub open spec fn replace_all(s: Seq<char>, pat: Seq<char>, rep: Seq<char>) -> Seq<char>
    decreases s.len(),
{
    if pat.len() == 0 {
        s
    } else {
        match leftmost_from(s, pat, 0) {
            None => s,
            Some(p) => if 0 <= p && p + pat.len() <= s.len() {
                s.take(p) + rep + replace_all(s.skip(p + pat.len()), pat, rep)
            } else {
                s
            },
        }
    }
}

/// An occurrence in a suffix is an occurrence in the whole, shifted.
proof fn lemma_occurs_in_suffix(s: Seq<char>, pat: Seq<char>, pos: int, j: int)
    requires
        0 <= pos <= s.len(),
        0 <= j,
    ensures
        occurs_at(s.skip(pos), pat, j) == occurs_at(s, pat, pos + j),
{
    if 0 <= j && j + pat.len() <= s.len() - pos {
        assert(s.skip(pos).subrange(j, j + pat.len()) =~= s.subrange(pos + j, pos + j + pat.len()));
    }
}

/// `s` with every occurrence of the non-empty `pat` replaced by `rep`.
pub fn replace_text(s: &str, pat: &str, rep: &str) -> (result: String)
    requires
        pat@.len() > 0,
    ensures
        result@ == replace_all(s@, pat@, rep@),
{
    let chars = chars_of(s);
    let piece = chars_of(pat);
    let n = chars.len();
    let m = piece.len();
    let mut out = String::new();
    let mut pos: usize = 0;
    proof {
        assert(chars@.skip(0) =~= chars@);
    }
    while pos <= n
        invariant
            chars@ == s@,
            piece@ == pat@,
            n == chars@.len(),
            m == piece@.len(),
            m > 0,
            pos <= n,
            out@ + replace_all(chars@.skip(pos as int), pat@, rep@) == replace_all(s@, pat@, rep@),
        decreases n + 1 - pos,
    {
        let ghost rest = chars@.skip(pos as int);
        match find_from(&chars, &piece, pos) {
            None => {
                proof {
                    lemma_leftmost_from(rest, pat@, 0);
                    assert forall|q: int| 0 <= q implies !#[trigger] occurs_at(rest, pat@, q) by {
                        lemma_occurs_in_suffix(chars@, pat@, pos as int, q);
                    }
                    if leftmost_from(rest, pat@, 0) is Some {
                        let p = leftmost_from(rest, pat@, 0)->0;
                        assert(occurs_at(rest, pat@, p));
                    }
                }
                let tail = string_of(vstd::slice::slice_subrange(chars.as_slice(), pos, n));
                out.append(tail.as_str());
                proof {
                    assert(tail@ =~= rest);
                }
                return out;
            },
            Some(k) => {
                proof {
                    lemma_leftmost_from(rest, pat@, 0);
                    lemma_occurs_in_suffix(chars@, pat@, pos as int, k - pos);
                    assert forall|q: int| 0 <= q < k - pos implies !#[trigger] occurs_at(rest, pat@, q) by {
                        lemma_occurs_in_suffix(chars@, pat@, pos as int, q);
                    }
                    let p = leftmost_from(rest, pat@, 0);
                    if p is None {
                        assert(occurs_at(rest, pat@, k - pos));
                    } else {
                        let pp = p->0;
                        if pp < k - pos {
                            assert(!occurs_at(rest, pat@, pp));
                        }
                        if pp > k - pos {
                            assert(occurs_at(rest, pat@, k - pos));
                        }
                    }
                    assert(leftmost_from(rest, pat@, 0) == Some(k - pos));
                    assert(rest.skip(k - pos + m) =~= chars@.skip(k + m));
                }
                let before = string_of(vstd::slice::slice_subrange(chars.as_slice(), pos, k));
                out.append(before.as_str());
                out.append(rep);
                proof {
                    assert(before@ =~= rest.take(k - pos));
                }
                pos = k + m;
            },
        }
    }
    out
}

} // verus!
