//! Character-level text helpers shared by the parsers: Unicode whitespace,
//! trimming, splitting into pieces, lines and tokens, and unsigned decimal
//! parsing. Every function works on `Vec<char>` and is specified over the
//! character sequence it receives.

use vstd::prelude::*;
use vstd::utf8::{decode_utf8, valid_utf8};

verus! {

/// The Unicode `White_Space` property (the set `char::is_whitespace` tests).
pub open spec fn is_ws(c: char) -> bool {
    let u = c as u32;
    ||| 0x09 <= u && u <= 0x0D
    ||| u == 0x20
    ||| u == 0x85
    ||| u == 0xA0
    ||| u == 0x1680
    ||| 0x2000 <= u && u <= 0x200A
    ||| u == 0x2028
    ||| u == 0x2029
    ||| u == 0x202F
    ||| u == 0x205F
    ||| u == 0x3000
}

/// Whitespace test, identical to `char::is_whitespace`.
pub fn is_whitespace(c: char) -> (r: bool)
    ensures
        r == is_ws(c),
{
    let u = c as u32;
    (0x09 <= u && u <= 0x0D) || u == 0x20 || u == 0x85 || u == 0xA0 || u == 0x1680 || (0x2000
        <= u && u <= 0x200A) || u == 0x2028 || u == 0x2029 || u == 0x202F || u == 0x205F || u
        == 0x3000
}

/// The characters of a string slice, in order (`str::chars`).
#[verifier::external_body]
pub fn chars_of(s: &str) -> (v: Vec<char>)
    ensures
        v@ == s@,
{
    s.chars().collect()
}

/// The string made of the given characters (`FromIterator<char> for String`).
#[verifier::external_body]
pub fn string_of(v: &Vec<char>) -> (s: String)
    ensures
        s@ == v@,
{
    v.iter().collect()
}

/// `std::str::from_utf8`, as an owned string: `Some` exactly for
/// well-formed UTF-8, with the characters the bytes encode.
#[verifier::external_body]
pub(crate) fn utf8_str(bytes: &[u8]) -> (r: Option<String>)
    ensures
        r is Some <==> valid_utf8(bytes@),
        r matches Some(s) ==> s@ == decode_utf8(bytes@),
{
    std::str::from_utf8(bytes).ok().map(|s| s.to_owned())
}

/// Copy of `v[a..b]`.
pub fn copy_range(v: &Vec<char>, a: usize, b: usize) -> (r: Vec<char>)
    requires
        a <= b <= v.len(),
    ensures
        r@ == v@.subrange(a as int, b as int),
{
    let mut r: Vec<char> = Vec::new();
    let mut i = a;
    while i < b
        invariant
            a <= i <= b <= v.len(),
            r@ == v@.subrange(a as int, i as int),
        decreases b - i,
    {
        r.push(v[i]);
        i = i + 1;
        assert(r@ =~= v@.subrange(a as int, i as int));
    }
    r
}

/// Copy of a whole character vector.
pub fn copy_all(v: &Vec<char>) -> (r: Vec<char>)
    ensures
        r@ == v@,
{
    let r = copy_range(v, 0, v.len());
    assert(v@.subrange(0, v@.len() as int) =~= v@);
    r
}

// --- Splitting ---------------------------------------------------------------

/// Pieces of `s` between occurrences of `sep` (`str::split(sep)`): one more
/// piece than there are separators, empty pieces included.
pub open spec fn split_char(s: Seq<char>, sep: char) -> Seq<Seq<char>>
    decreases s.len(),
{
    if s.len() == 0 {
        seq![Seq::<char>::empty()]
    } else {
        let prev = split_char(s.drop_last(), sep);
        if s.last() == sep {
            prev.push(Seq::<char>::empty())
        } else {
            prev.update(prev.len() - 1, prev.last().push(s.last()))
        }
    }
}

/// Pieces of `s` between whitespace characters, empty pieces included.
pub open spec fn split_ws_pieces(s: Seq<char>) -> Seq<Seq<char>>
    decreases s.len(),
{
    if s.len() == 0 {
        seq![Seq::<char>::empty()]
    } else {
        let prev = split_ws_pieces(s.drop_last());
        if is_ws(s.last()) {
            prev.push(Seq::<char>::empty())
        } else {
            prev.update(prev.len() - 1, prev.last().push(s.last()))
        }
    }
}

/// The non-empty elements of a sequence of pieces, in order.
pub open spec fn non_empty(p: Seq<Seq<char>>) -> Seq<Seq<char>>
    decreases p.len(),
{
    if p.len() == 0 {
        Seq::<Seq<char>>::empty()
    } else if p.last().len() == 0 {
        non_empty(p.drop_last())
    } else {
        non_empty(p.drop_last()).push(p.last())
    }
}

/// Whitespace-separated tokens (`str::split_whitespace`).
pub open spec fn ws_tokens(s: Seq<char>) -> Seq<Seq<char>> {
    non_empty(split_ws_pieces(s))
}

pub proof fn lemma_split_char_len(s: Seq<char>, sep: char)
    ensures
        split_char(s, sep).len() >= 1,
    decreases s.len(),
{
    if s.len() > 0 {
        lemma_split_char_len(s.drop_last(), sep);
    }
}

pub proof fn lemma_split_ws_len(s: Seq<char>)
    ensures
        split_ws_pieces(s).len() >= 1,
    decreases s.len(),
{
    if s.len() > 0 {
        lemma_split_ws_len(s.drop_last());
    }
}

/// The character-sequence view of a vector of character vectors.
pub proof fn lemma_deep_view_push(old_v: Seq<Vec<char>>, new_v: Seq<Vec<char>>, x: Vec<char>)
    requires
        new_v == old_v.push(x),
    ensures
        Seq::new(new_v.len(), |i: int| new_v[i].deep_view()) == Seq::new(
            old_v.len(),
            |i: int| old_v[i].deep_view(),
        ).push(x@),
{
    assert(x.deep_view() =~= x@);
    assert(Seq::new(new_v.len(), |i: int| new_v[i].deep_view()) =~= Seq::new(
        old_v.len(),
        |i: int| old_v[i].deep_view(),
    ).push(x@));
}

/// `str::split(sep)` on a character vector.
pub fn split_on(v: &Vec<char>, sep: char) -> (r: Vec<Vec<char>>)
    ensures
        r.deep_view() == split_char(v@, sep),
{
    let mut done: Vec<Vec<char>> = Vec::new();
    let mut cur: Vec<char> = Vec::new();
    let mut i: usize = 0;
    while i < v.len()
        invariant
            i <= v.len(),
            done.deep_view().push(cur@) == split_char(v@.take(i as int), sep),
        decreases v.len() - i,
    {
        let ghost before = v@.take(i as int);
        assert(v@.take(i + 1).drop_last() =~= before);
        proof {
            lemma_split_char_len(before, sep);
        }
        if v[i] == sep {
            let ghost old_done = done@;
            let ghost old_cur = cur;
            done.push(cur);
            cur = Vec::new();
            proof { lemma_deep_view_push(old_done, done@, old_cur); }
            assert(done.deep_view().push(cur@) =~= split_char(v@.take(i + 1), sep));
        } else {
            let ghost old_cur = cur@;
            cur.push(v[i]);
            assert(done.deep_view().push(cur@) =~= split_char(v@.take(i + 1), sep));
        }
        i = i + 1;
    }
    assert(v@.take(v.len() as int) =~= v@);
    let ghost old_done = done@;
    let ghost old_cur = cur;
    done.push(cur);
    proof { lemma_deep_view_push(old_done, done@, old_cur); }
    done
}

/// `str::split_whitespace` on a character vector.
pub fn tokens(v: &Vec<char>) -> (r: Vec<Vec<char>>)
    ensures
        r.deep_view() == ws_tokens(v@),
{
    let mut done: Vec<Vec<char>> = Vec::new();
    let mut cur: Vec<char> = Vec::new();
    let mut i: usize = 0;
    let ghost mut pieces: Seq<Seq<char>> = Seq::empty();
    while i < v.len()
        invariant
            i <= v.len(),
            pieces.push(cur@) == split_ws_pieces(v@.take(i as int)),
            done.deep_view() == non_empty(pieces),
        decreases v.len() - i,
    {
        let ghost before = v@.take(i as int);
        assert(v@.take(i + 1).drop_last() =~= before);
        proof {
            lemma_split_ws_len(before);
        }
        if is_whitespace(v[i]) {
            let ghost old_done = done@;
            let ghost old_cur = cur;
            let ghost old_pieces = pieces;
            proof {
                pieces = pieces.push(cur@);
                assert(pieces.drop_last() =~= old_pieces);
            }
            if cur.len() > 0 {
                done.push(cur);
                proof { lemma_deep_view_push(old_done, done@, old_cur); }
            } else {
                done = done;
            }
            cur = Vec::new();
            assert(pieces.push(cur@) =~= split_ws_pieces(v@.take(i + 1)));
        } else {
            cur.push(v[i]);
            assert(pieces.push(cur@) =~= split_ws_pieces(v@.take(i + 1)));
        }
        i = i + 1;
    }
    assert(v@.take(v.len() as int) =~= v@);
    let ghost final_pieces = pieces.push(cur@);
    assert(final_pieces.drop_last() =~= pieces);
    if cur.len() > 0 {
        let ghost old_done = done@;
        let ghost old_cur = cur;
        done.push(cur);
        proof { lemma_deep_view_push(old_done, done@, old_cur); }
    }
    done
}

// --- Trimming ----------------------------------------------------------------

/// `s` without its leading whitespace (`str::trim_start`).
pub open spec fn trim_start(s: Seq<char>) -> Seq<char>
    decreases s.len(),
{
    if s.len() > 0 && is_ws(s[0]) {
        trim_start(s.drop_first())
    } else {
        s
    }
}

/// `s` without its trailing whitespace (`str::trim_end`).
pub open spec fn trim_end(s: Seq<char>) -> Seq<char>
    decreases s.len(),
{
    if s.len() > 0 && is_ws(s.last()) {
        trim_end(s.drop_last())
    } else {
        s
    }
}

/// `s` without leading and trailing whitespace (`str::trim`).
pub open spec fn trim(s: Seq<char>) -> Seq<char> {
    trim_end(trim_start(s))
}

proof fn lemma_trim_start_skip(s: Seq<char>, k: int)
    requires
        0 <= k <= s.len(),
        forall|j: int| 0 <= j < k ==> is_ws(#[trigger] s[j]),
        k == s.len() || !is_ws(s[k]),
    ensures
        trim_start(s) == s.skip(k),
    decreases k,
{
    if k == 0 {
        assert(s.skip(0) =~= s);
    } else {
        let t = s.drop_first();
        assert forall|j: int| 0 <= j < k - 1 implies is_ws(#[trigger] t[j]) by {
            assert(t[j] == s[j + 1]);
        }
        if k - 1 < t.len() {
            assert(t[k - 1] == s[k]);
        }
        lemma_trim_start_skip(t, k - 1);
        assert(t.skip(k - 1) =~= s.skip(k));
    }
}

proof fn lemma_trim_end_take(s: Seq<char>, k: int)
    requires
        0 <= k <= s.len(),
        forall|j: int| k <= j < s.len() ==> is_ws(#[trigger] s[j]),
        k == 0 || !is_ws(s[k - 1]),
    ensures
        trim_end(s) == s.take(k),
    decreases s.len() - k,
{
    if k == s.len() {
        assert(s.take(k) =~= s);
    } else {
        let t = s.drop_last();
        assert forall|j: int| k <= j < t.len() implies is_ws(#[trigger] t[j]) by {
            assert(t[j] == s[j]);
        }
        if k > 0 {
            assert(t[k - 1] == s[k - 1]);
        }
        lemma_trim_end_take(t, k);
        assert(t.take(k) =~= s.take(k));
    }
}

/// Trimming leaves a sequence without whitespace unchanged.
pub proof fn lemma_trim_no_ws(s: Seq<char>)
    requires
        forall|j: int| 0 <= j < s.len() ==> !is_ws(#[trigger] s[j]),
    ensures
        trim(s) == s,
{
    lemma_trim_start_skip(s, 0);
    assert(s.skip(0) =~= s);
    lemma_trim_end_take(s, s.len() as int);
    assert(s.take(s.len() as int) =~= s);
}

/// Bounds `(a, b)` of `trim(v[lo..hi])` inside `v`.
pub fn trim_bounds(v: &Vec<char>, lo: usize, hi: usize) -> (r: (usize, usize))
    requires
        lo <= hi <= v.len(),
    ensures
        lo <= r.0 <= r.1 <= hi,
        v@.subrange(r.0 as int, r.1 as int) == trim(v@.subrange(lo as int, hi as int)),
        trim_start(v@.subrange(lo as int, hi as int)) == v@.subrange(r.0 as int, hi as int),
{
    let ghost s = v@.subrange(lo as int, hi as int);
    let mut a = lo;
    while a < hi && is_whitespace(v[a])
        invariant
            lo <= a <= hi <= v.len(),
            s == v@.subrange(lo as int, hi as int),
            forall|j: int| lo <= j < a ==> is_ws(#[trigger] v@[j]),
        decreases hi - a,
    {
        a = a + 1;
    }
    proof {
        assert forall|j: int| 0 <= j < a - lo implies is_ws(#[trigger] s[j]) by {
            assert(s[j] == v@[lo + j]);
        }
        if a < hi {
            assert(s[a - lo] == v@[a as int]);
        }
        lemma_trim_start_skip(s, a - lo);
        assert(s.skip(a - lo) =~= v@.subrange(a as int, hi as int));
    }
    let ghost t = v@.subrange(a as int, hi as int);
    let mut b = hi;
    while b > a && is_whitespace(v[b - 1])
        invariant
            lo <= a <= b <= hi <= v.len(),
            t == v@.subrange(a as int, hi as int),
            forall|j: int| b <= j < hi ==> is_ws(#[trigger] v@[j]),
        decreases b - a,
    {
        b = b - 1;
    }
    proof {
        assert forall|j: int| b - a <= j < t.len() implies is_ws(#[trigger] t[j]) by {
            assert(t[j] == v@[a + j]);
        }
        if b > a {
            assert(t[b - a - 1] == v@[b - 1]);
        }
        lemma_trim_end_take(t, b - a);
        assert(t.take(b - a) =~= v@.subrange(a as int, b as int));
    }
    (a, b)
}

/// `str::trim` on a character vector.
pub fn trimmed(v: &Vec<char>) -> (r: Vec<char>)
    ensures
        r@ == trim(v@),
{
    let (a, b) = trim_bounds(v, 0, v.len());
    assert(v@.subrange(0, v@.len() as int) =~= v@);
    copy_range(v, a, b)
}

/// `str::trim_start` on a character vector.
pub fn trimmed_start(v: &Vec<char>) -> (r: Vec<char>)
    ensures
        r@ == trim_start(v@),
{
    let (a, _b) = trim_bounds(v, 0, v.len());
    assert(v@.subrange(0, v@.len() as int) =~= v@);
    copy_range(v, a, v.len())
}

// --- Lines -------------------------------------------------------------------

/// A line without the `'\r'` of a `"\r\n"` terminator.
pub open spec fn strip_cr(p: Seq<char>) -> Seq<char> {
    if p.len() > 0 && p.last() == '\r' {
        p.drop_last()
    } else {
        p
    }
}

/// The lines of `s` (`str::lines`): split at `'\n'`, a `'\r'` just before a
/// `'\n'` removed, no final empty line after a trailing `'\n'`.
pub open spec fn lines_of(s: Seq<char>) -> Seq<Seq<char>> {
    let pieces = split_char(s, '\n');
    let terminated = Seq::new((pieces.len() - 1) as nat, |i: int| strip_cr(pieces[i]));
    if pieces.last().len() == 0 {
        terminated
    } else {
        terminated.push(pieces.last())
    }
}

/// Removes a trailing `'\r'`.
pub fn without_cr(p: Vec<char>) -> (r: Vec<char>)
    ensures
        r@ == strip_cr(p@),
{
    let mut p = p;
    if p.len() > 0 && p[p.len() - 1] == '\r' {
        p.pop();
    }
    p
}

/// `str::lines` on a character vector.
pub fn lines(v: &Vec<char>) -> (r: Vec<Vec<char>>)
    ensures
        r.deep_view() == lines_of(v@),
{
    let pieces = split_on(v, '\n');
    proof {
        lemma_split_char_len(v@, '\n');
    }
    let ghost pv = pieces.deep_view();
    let n = pieces.len();
    let mut out: Vec<Vec<char>> = Vec::new();
    let mut i: usize = 0;
    while i + 1 < n
        invariant
            n == pieces.len() >= 1,
            pv == pieces.deep_view(),
            i + 1 <= n,
            out.deep_view() == Seq::new(i as nat, |k: int| strip_cr(pv[k])),
        decreases n - i,
    {
        let line = without_cr(copy_all(&pieces[i]));
        assert(pieces[i as int].deep_view() =~= pieces[i as int]@);
        let ghost old_out = out@;
        out.push(line);
        proof {
            lemma_deep_view_push(old_out, out@, line);
        }
        i = i + 1;
        assert(out.deep_view() =~= Seq::new(i as nat, |k: int| strip_cr(pv[k])));
    }
    assert(pieces[n - 1].deep_view() =~= pieces[n - 1]@);
    if pieces[n - 1].len() > 0 {
        let last = copy_all(&pieces[n - 1]);
        let ghost old_out = out@;
        out.push(last);
        proof {
            lemma_deep_view_push(old_out, out@, last);
        }
    }
    out
}

// --- Prefixes and searching --------------------------------------------------

/// `p` is a prefix of `v`.
pub fn has_prefix(v: &Vec<char>, p: &Vec<char>) -> (r: bool)
    ensures
        r == p@.is_prefix_of(v@),
{
    if p.len() > v.len() {
        return false;
    }
    let mut i: usize = 0;
    while i < p.len()
        invariant
            p.len() <= v.len(),
            i <= p.len(),
            forall|j: int| 0 <= j < i ==> p@[j] == v@[j],
        decreases p.len() - i,
    {
        if p[i] != v[i] {
            assert(p@ != v@.subrange(0, p@.len() as int) || p@[i as int] == v@.subrange(
                0,
                p@.len() as int,
            )[i as int]);
            return false;
        }
        i = i + 1;
    }
    assert(p@ =~= v@.subrange(0, p@.len() as int));
    true
}

/// `str::strip_prefix` as a specification.
pub open spec fn strip_prefix(s: Seq<char>, p: Seq<char>) -> Option<Seq<char>> {
    if p.is_prefix_of(s) {
        Some(s.skip(p.len() as int))
    } else {
        None
    }
}

/// `str::strip_prefix` on character vectors.
pub fn strip_prefix_of(v: &Vec<char>, p: &Vec<char>) -> (r: Option<Vec<char>>)
    ensures
        r.is_some() == strip_prefix(v@, p@).is_some(),
        r.is_some() ==> r.unwrap()@ == strip_prefix(v@, p@).unwrap(),
{
    if has_prefix(v, p) {
        let rest = copy_range(v, p.len(), v.len());
        assert(rest@ =~= v@.skip(p@.len() as int));
        Some(rest)
    } else {
        None
    }
}

/// Index of the first occurrence of `c` in `s`.
pub open spec fn find_first(s: Seq<char>, c: char) -> Option<int>
    decreases s.len(),
{
    if s.len() == 0 {
        None
    } else {
        match find_first(s.drop_last(), c) {
            Some(k) => Some(k),
            None => if s.last() == c {
                Some(s.len() - 1)
            } else {
                None
            },
        }
    }
}

pub proof fn lemma_find_first_bounds(s: Seq<char>, c: char)
    ensures
        find_first(s, c) is Some ==> 0 <= find_first(s, c).unwrap() < s.len() && s[find_first(s, c).unwrap()] == c,
        find_first(s, c) is None ==> forall|j: int| 0 <= j < s.len() ==> s[j] != c,
    decreases s.len(),
{
    if s.len() > 0 {
        lemma_find_first_bounds(s.drop_last(), c);
        if find_first(s, c) is None {
            assert forall|j: int| 0 <= j < s.len() implies s[j] != c by {
                if j < s.len() - 1 {
                    assert(s.drop_last()[j] == s[j]);
                }
            }
        }
    }
}

/// Index of the first `c` in `v`.
pub fn find_char(v: &Vec<char>, c: char) -> (r: Option<usize>)
    ensures
        r.is_some() == find_first(v@, c).is_some(),
        r.is_some() ==> r.unwrap() as int == find_first(v@, c).unwrap(),
{
    let mut i: usize = 0;
    while i < v.len()
        invariant
            i <= v.len(),
            find_first(v@.take(i as int), c) is None,
        decreases v.len() - i,
    {
        assert(v@.take(i + 1).drop_last() =~= v@.take(i as int));
        if v[i] == c {
            proof {
                lemma_find_first_prefix(v@, c, i as int);
            }
            return Some(i);
        }
        i = i + 1;
    }
    assert(v@.take(v.len() as int) =~= v@);
    None
}

proof fn lemma_find_first_prefix(s: Seq<char>, c: char, i: int)
    requires
        0 <= i < s.len(),
        find_first(s.take(i), c) is None,
        s[i] == c,
    ensures
        find_first(s, c) == Some(i),
    decreases s.len() - i,
{
    if i + 1 == s.len() {
        assert(s.drop_last() =~= s.take(i));
    } else {
        assert(s.drop_last().take(i) =~= s.take(i));
        lemma_find_first_prefix(s.drop_last(), c, i);
    }
}

// --- ASCII case --------------------------------------------------------------

/// `char::to_ascii_lowercase`.
pub open spec fn lower(c: char) -> char {
    if 'A' <= c && c <= 'Z' {
        ((c as u32) + 32) as char
    } else {
        c
    }
}

/// Lower-cases ASCII letters, leaves every other character unchanged.
pub fn to_lower(c: char) -> (r: char)
    ensures
        r == lower(c),
{
    if 'A' <= c && c <= 'Z' {
        ((c as u8) + 32) as char
    } else {
        c
    }
}

/// `str::to_ascii_lowercase` as a specification.
pub open spec fn lower_all(s: Seq<char>) -> Seq<char> {
    Seq::new(s.len(), |i: int| lower(s[i]))
}

/// `str::to_ascii_lowercase` on a character vector.
pub fn lowercase(v: &Vec<char>) -> (r: Vec<char>)
    ensures
        r@ == lower_all(v@),
{
    let mut r: Vec<char> = Vec::new();
    let mut i: usize = 0;
    while i < v.len()
        invariant
            i <= v.len(),
            r@ == Seq::new(i as nat, |k: int| lower(v@[k])),
        decreases v.len() - i,
    {
        r.push(to_lower(v[i]));
        i = i + 1;
        assert(r@ =~= Seq::new(i as nat, |k: int| lower(v@[k])));
    }
    assert(r@ =~= lower_all(v@));
    r
}

// --- Unsigned decimal numbers ------------------------------------------------

pub open spec fn is_digit(c: char) -> bool {
    '0' <= c && c <= '9'
}

pub open spec fn all_digits(s: Seq<char>) -> bool {
    forall|i: int| 0 <= i < s.len() ==> is_digit(#[trigger] s[i])
}

/// Value of a string of decimal digits.
pub open spec fn digits_value(s: Seq<char>) -> nat
    decreases s.len(),
{
    if s.len() == 0 {
        0
    } else {
        digits_value(s.drop_last()) * 10 + ((s.last() as u32) - ('0' as u32)) as nat
    }
}

/// `str::parse` for an unsigned integer type whose largest value is `max`:
/// an optional `+`, then at least one ASCII digit, the value at most `max`.
pub open spec fn parse_uint(s: Seq<char>, max: nat) -> Option<nat> {
    let d = if s.len() > 0 && s[0] == '+' {
        s.drop_first()
    } else {
        s
    };
    if d.len() > 0 && all_digits(d) && digits_value(d) <= max {
        Some(digits_value(d))
    } else {
        None
    }
}

proof fn lemma_digits_value_prefix(s: Seq<char>, k: int)
    requires
        0 <= k <= s.len(),
        all_digits(s),
    ensures
        digits_value(s.take(k)) <= digits_value(s),
    decreases s.len(),
{
    if k == s.len() {
        assert(s.take(k) =~= s);
    } else {
        let t = s.drop_last();
        assert(all_digits(t)) by {
            assert forall|i: int| 0 <= i < t.len() implies is_digit(#[trigger] t[i]) by {
                assert(t[i] == s[i]);
            }
        }
        lemma_digits_value_prefix(t, k);
        assert(t.take(k) =~= s.take(k));
    }
}

/// Parses an unsigned decimal number no larger than `max`
/// (`str::parse::<u64>` when `max == u64::MAX`).
pub fn parse_u64_max(v: &Vec<char>, max: u64) -> (r: Option<u64>)
    ensures
        r.is_some() == parse_uint(v@, max as nat).is_some(),
        r.is_some() ==> r.unwrap() as nat == parse_uint(v@, max as nat).unwrap(),
{
    let start: usize = if v.len() > 0 && v[0] == '+' {
        1
    } else {
        0
    };
    let ghost d = if v@.len() > 0 && v@[0] == '+' {
        v@.drop_first()
    } else {
        v@
    };
    assert(d =~= v@.skip(start as int));
    if start == v.len() {
        return None;
    }
    let mut val: u64 = 0;
    let mut i = start;
    while i < v.len()
        invariant
            start <= i <= v.len(),
            d == v@.skip(start as int),
            d == (if v@.len() > 0 && v@[0] == '+' {
                v@.drop_first()
            } else {
                v@
            }),
            d.len() > 0,
            all_digits(d.take(i - start)),
            val as nat == digits_value(d.take(i - start)),
            val <= max,
        decreases v.len() - i,
    {
        let c = v[i];
        assert(d[i - start] == c);
        if !('0' <= c && c <= '9') {
            assert(!is_digit(d[i - start]));
            assert(!all_digits(d));
            return None;
        }
        let digit = (c as u32 - '0' as u32) as u64;
        let next: u128 = (val as u128) * 10 + (digit as u128);
        assert(d.take(i - start + 1).drop_last() =~= d.take(i - start));
        assert(d.take(i - start + 1).last() == c);
        assert(digits_value(d.take(i - start + 1)) == next);
        assert(all_digits(d.take(i - start + 1))) by {
            let t = d.take(i - start + 1);
            assert forall|j: int| 0 <= j < t.len() implies is_digit(#[trigger] t[j]) by {
                if j < i - start {
                    assert(t[j] == d.take(i - start)[j]);
                }
            }
        }
        if next > max as u128 {
            proof {
                if all_digits(d) {
                    lemma_digits_value_prefix(d, i - start + 1);
                }
            }
            return None;
        }
        val = next as u64;
        i = i + 1;
    }
    assert(d.take(d.len() as int) =~= d);
    Some(val)
}

/// `str::strip_prefix` with a literal prefix.
pub fn strip_lit(v: &Vec<char>, lit: &str) -> (r: Option<Vec<char>>)
    ensures
        r.is_some() == strip_prefix(v@, lit@).is_some(),
        r.is_some() ==> r.unwrap()@ == strip_prefix(v@, lit@).unwrap(),
{
    let p = chars_of(lit);
    strip_prefix_of(v, &p)
}

/// `v` starts with the literal `lit`.
pub fn starts_with_lit(v: &Vec<char>, lit: &str) -> (r: bool)
    ensures
        r == lit@.is_prefix_of(v@),
{
    let p = chars_of(lit);
    has_prefix(v, &p)
}

/// `v` spells the literal `lit`.
pub fn eq_lit(v: &Vec<char>, lit: &str) -> (r: bool)
    ensures
        r == (v@ == lit@),
{
    let p = chars_of(lit);
    if p.len() != v.len() {
        return false;
    }
    let r = has_prefix(v, &p);
    proof {
        if r {
            assert(v@ =~= p@.subrange(0, p@.len() as int));
            assert(v@ =~= p@);
        }
    }
    r
}

/// Index of the first occurrence of `p` in `s` (`str::find` with a string pattern).
pub open spec fn find_sub(s: Seq<char>, p: Seq<char>) -> Option<int>
    decreases s.len(),
{
    if s.len() < p.len() {
        None
    } else if s.len() == 0 {
        Some(0)
    } else {
        match find_sub(s.drop_last(), p) {
            Some(k) => Some(k),
            None => if s.subrange(s.len() - p.len(), s.len() as int) == p {
                Some(s.len() - p.len())
            } else {
                None
            },
        }
    }
}

proof fn lemma_find_sub_none_take(s: Seq<char>, p: Seq<char>, i: int)
    requires
        0 <= i <= s.len(),
        i < p.len() || find_sub(s.take(i), p) is None,
    ensures
        i < p.len() ==> find_sub(s.take(i), p) is None,
{
    if i < p.len() {
        assert(s.take(i).len() < p.len());
    }
}

proof fn lemma_find_sub_step(s: Seq<char>, p: Seq<char>, e: int)
    requires
        p.len() > 0,
        p.len() <= e <= s.len(),
        find_sub(s.take(e - 1), p) is None || e - 1 < p.len(),
    ensures
        find_sub(s.take(e), p) == (if s.subrange(e - p.len(), e) == p {
            Some(e - p.len())
        } else {
            None::<int>
        }),
{
    let t = s.take(e);
    assert(t.drop_last() =~= s.take(e - 1));
    assert(t.subrange(t.len() - p.len(), t.len() as int) =~= s.subrange(e - p.len(), e));
    if e - 1 < p.len() {
        assert(s.take(e - 1).len() < p.len());
    }
}

proof fn lemma_find_sub_extend(s: Seq<char>, p: Seq<char>, e: int, k: int)
    requires
        0 <= e <= s.len(),
        find_sub(s.take(e), p) == Some(k),
    ensures
        find_sub(s, p) == Some(k),
    decreases s.len() - e,
{
    if e == s.len() {
        assert(s.take(e) =~= s);
    } else {
        assert(s.drop_last().take(e) =~= s.take(e));
        lemma_find_sub_extend(s.drop_last(), p, e, k);
        assert(s.len() >= p.len()) by {
            lemma_find_sub_len(s.take(e), p);
        }
    }
}

proof fn lemma_find_sub_len(s: Seq<char>, p: Seq<char>)
    ensures
        find_sub(s, p) is Some ==> s.len() >= p.len(),
        find_sub(s, p) matches Some(k) ==> 0 <= k && k + p.len() <= s.len() && s.subrange(k, k + p.len()) == p,
    decreases s.len(),
{
    if s.len() == 0 && p.len() == 0 {
        assert(s.subrange(0, 0) =~= p);
    }
    if s.len() >= p.len() && s.len() > 0 {
        lemma_find_sub_len(s.drop_last(), p);
        if let Some(k) = find_sub(s.drop_last(), p) {
            assert(s.drop_last().subrange(k, k + p.len()) =~= s.subrange(k, k + p.len()));
        }
    }
}

proof fn lemma_find_sub_empty(s: Seq<char>, p: Seq<char>)
    requires
        p.len() == 0,
    ensures
        find_sub(s, p) == Some(0int),
    decreases s.len(),
{
    if s.len() > 0 {
        lemma_find_sub_empty(s.drop_last(), p);
    }
}

/// `str::split_once` with a string pattern: the text before and after the
/// first occurrence of `p`.
pub open spec fn split_once_sub(s: Seq<char>, p: Seq<char>) -> Option<(Seq<char>, Seq<char>)> {
    match find_sub(s, p) {
        Some(k) => Some((s.take(k), s.skip(k + p.len()))),
        None => None,
    }
}

/// `str::split_once` with a literal pattern.
pub fn split_once_lit(v: &Vec<char>, lit: &str) -> (r: Option<(Vec<char>, Vec<char>)>)
    ensures
        r.is_some() == split_once_sub(v@, lit@).is_some(),
        r.is_some() ==> r.unwrap().0@ == split_once_sub(v@, lit@).unwrap().0 && r.unwrap().1@
            == split_once_sub(v@, lit@).unwrap().1,
{
    let p = chars_of(lit);
    if p.len() == 0 {
        proof {
            lemma_find_sub_empty(v@, p@);
        }
        let after = copy_all(v);
        let before: Vec<char> = Vec::new();
        assert(before@ =~= v@.take(0));
        assert(after@ =~= v@.skip(0));
        return Some((before, after));
    }
    if p.len() > v.len() {
        assert(find_sub(v@, p@) is None);
        return None;
    }
    let mut start: usize = 0;
    proof {
        lemma_find_sub_none_take(v@, p@, (p.len() - 1) as int);
    }
    while start <= v.len() - p.len()
        invariant
            p@ == lit@,
            0 < p.len() <= v.len(),
            start <= v.len() - p.len() + 1,
            start + p.len() - 1 < p.len() || find_sub(v@.take(start + p.len() - 1), p@) is None,
        decreases v.len() - p.len() + 1 - start,
    {
        let e = start + p.len();
        let mut j: usize = 0;
        let mut same = true;
        while j < p.len()
            invariant
                p.len() <= e <= v.len(),
                start == e - p.len(),
                j <= p.len(),
                same == (forall|m: int| 0 <= m < j ==> v@[start + m] == p@[m]),
            decreases p.len() - j,
        {
            if v[start + j] != p[j] {
                same = false;
            }
            j = j + 1;
        }
        proof {
            lemma_find_sub_step(v@, p@, e as int);
        }
        if same {
            assert(v@.subrange(start as int, e as int) =~= p@);
            proof {
                lemma_find_sub_extend(v@, p@, e as int, start as int);
            }
            let before = copy_range(v, 0, start);
            let after = copy_range(v, e, v.len());
            assert(before@ =~= v@.take(start as int));
            assert(after@ =~= v@.skip(e as int));
            return Some((before, after));
        }
        assert(v@.subrange(start as int, e as int) != p@) by {
            let m = choose|m: int| 0 <= m < p.len() && v@[start + m] != p@[m];
            assert(v@.subrange(start as int, e as int)[m] == v@[start + m]);
        }
        start = start + 1;
    }
    assert(v@.take(v.len() as int) =~= v@);
    None
}

} // verus!
