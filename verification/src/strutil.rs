//! Verified string helpers: whitespace trimming, blank tests, decimal
//! rendering of ids, substring search and joining.

use vstd::prelude::*;

verus! {

/// The characters that Rust's `char::is_whitespace` recognises
/// (the Unicode `White_Space` property).
pub open spec fn is_space_char(c: char) -> bool {
    ||| c == ' '
    ||| c == '\t'
    ||| c == '\n'
    ||| c == '\u{b}'
    ||| c == '\u{c}'
    ||| c == '\r'
    ||| c == '\u{85}'
    ||| c == '\u{a0}'
    ||| c == '\u{1680}'
    ||| ('\u{2000}' <= c && c <= '\u{200a}')
    ||| c == '\u{2028}'
    ||| c == '\u{2029}'
    ||| c == '\u{202f}'
    ||| c == '\u{205f}'
    ||| c == '\u{3000}'
}

pub fn is_space(c: char) -> (r: bool)
    ensures
        r == is_space_char(c),
{
    c == ' ' || c == '\t' || c == '\n' || c == '\u{b}' || c == '\u{c}' || c == '\r'
        || c == '\u{85}' || c == '\u{a0}' || c == '\u{1680}'
        || ('\u{2000}' <= c && c <= '\u{200a}') || c == '\u{2028}' || c == '\u{2029}'
        || c == '\u{202f}' || c == '\u{205f}' || c == '\u{3000}'
}

/// A string is blank when every character is whitespace; trimming it
/// would leave nothing.
pub open spec fn is_blank_str(s: Seq<char>) -> bool {
    forall|i: int| 0 <= i < s.len() ==> is_space_char(s[i])
}

pub fn is_blank(s: &str) -> (r: bool)
    ensures
        r == is_blank_str(s@),
{
    let n: usize = s.unicode_len();
    let mut i: usize = 0;
    while i < n
        invariant
            i <= n,
            n == s@.len(),
            forall|k: int| 0 <= k < i ==> is_space_char(s@[k]),
        decreases n - i,
    {
        if !is_space(s.get_char(i)) {
            return false;
        }
        i = i + 1;
    }
    true
}

pub open spec fn trim_start_spec(s: Seq<char>) -> Seq<char>
    decreases s.len(),
{
    if s.len() > 0 && is_space_char(s[0]) {
        trim_start_spec(s.drop_first())
    } else {
        s
    }
}

pub open spec fn trim_end_spec(s: Seq<char>) -> Seq<char>
    decreases s.len(),
{
    if s.len() > 0 && is_space_char(s[s.len() - 1]) {
        trim_end_spec(s.drop_last())
    } else {
        s
    }
}

/// What `str::trim` leaves: the input without leading and trailing
/// whitespace.
pub open spec fn trim_spec(s: Seq<char>) -> Seq<char> {
    trim_end_spec(trim_start_spec(s))
}

proof fn lemma_trim_start_at(s: Seq<char>, i: int)
    requires
        0 <= i <= s.len(),
        forall|k: int| 0 <= k < i ==> is_space_char(s[k]),
        i == s.len() || !is_space_char(s[i]),
    ensures
        trim_start_spec(s) =~= s.subrange(i, s.len() as int),
    decreases i,
{
    if i == 0 {
        assert(trim_start_spec(s) =~= s.subrange(0, s.len() as int));
    } else {
        let t = s.drop_first();
        assert(forall|k: int| 0 <= k < i - 1 ==> is_space_char(t[k]));
        lemma_trim_start_at(t, i - 1);
        assert(t.subrange(i - 1, t.len() as int) =~= s.subrange(i, s.len() as int));
    }
}

proof fn lemma_trim_end_at(s: Seq<char>, j: int)
    requires
        0 <= j <= s.len(),
        forall|k: int| j <= k < s.len() ==> is_space_char(s[k]),
        j == 0 || !is_space_char(s[j - 1]),
    ensures
        trim_end_spec(s) =~= s.subrange(0, j),
    decreases s.len(),
{
    if j == s.len() {
        if s.len() > 0 && is_space_char(s[s.len() - 1]) {
            assert(false);
        }
        assert(trim_end_spec(s) =~= s.subrange(0, j));
    } else {
        let t = s.drop_last();
        lemma_trim_end_at(t, j);
        assert(t.subrange(0, j) =~= s.subrange(0, j));
    }
}

/// Trimming a non-empty result never starts or ends with whitespace.
pub proof fn lemma_trim_properties(s: Seq<char>)
    ensures
        trim_spec(s).len() == 0 <==> is_blank_str(s),
        trim_spec(s).len() > 0 ==> !is_space_char(trim_spec(s)[0]),
        trim_spec(s).len() > 0 ==> !is_space_char(trim_spec(s)[trim_spec(s).len() - 1]),
        trim_spec(s).len() <= s.len(),
{
    lemma_trim_start_props(s);
    lemma_trim_end_props(trim_start_spec(s));
    let ts = trim_start_spec(s);
    let t = trim_end_spec(ts);
    if t.len() == 0 {
        lemma_blank_from_trim(s);
    }
    if !is_blank_str(s) {
        lemma_nonblank_trim(s);
    }
}

proof fn lemma_trim_start_props(s: Seq<char>)
    ensures
        trim_start_spec(s).len() > 0 ==> !is_space_char(trim_start_spec(s)[0]),
        trim_start_spec(s).len() <= s.len(),
        trim_start_spec(s).len() > 0 ==> trim_start_spec(s)[trim_start_spec(s).len() - 1] == s[s.len() - 1],
        forall|k: int| 0 <= k < trim_start_spec(s).len() ==>
            trim_start_spec(s)[k] == s[k + s.len() - trim_start_spec(s).len()],
    decreases s.len(),
{
    if s.len() > 0 && is_space_char(s[0]) {
        lemma_trim_start_props(s.drop_first());
    }
}

proof fn lemma_trim_end_props(s: Seq<char>)
    ensures
        trim_end_spec(s).len() > 0 ==> !is_space_char(trim_end_spec(s)[trim_end_spec(s).len() - 1]),
        trim_end_spec(s).len() <= s.len(),
        forall|k: int| 0 <= k < trim_end_spec(s).len() ==> trim_end_spec(s)[k] == s[k],
    decreases s.len(),
{
    if s.len() > 0 && is_space_char(s[s.len() - 1]) {
        let t = s.drop_last();
        lemma_trim_end_props(t);
        assert forall|k: int| 0 <= k < trim_end_spec(s).len() implies trim_end_spec(s)[k] == s[k] by {
            assert(trim_end_spec(s)[k] == t[k]);
        }
    }
}

proof fn lemma_blank_from_trim(s: Seq<char>)
    requires
        trim_spec(s).len() == 0,
    ensures
        is_blank_str(s),
    decreases s.len(),
{
    if s.len() > 0 {
        if is_space_char(s[0]) {
            lemma_blank_from_trim(s.drop_first());
            assert forall|i: int| 0 <= i < s.len() implies is_space_char(s[i]) by {
                if i > 0 {
                    assert(is_space_char(s.drop_first()[i - 1]));
                }
            }
        } else {
            let ts = trim_start_spec(s);
            assert(ts == s);
            lemma_trim_end_props(s);
            if trim_end_spec(s).len() == 0 {
                lemma_trim_end_all_blank(s);
                assert(is_space_char(s[0]));
            }
        }
    }
}

proof fn lemma_trim_end_all_blank(s: Seq<char>)
    requires
        trim_end_spec(s).len() == 0,
    ensures
        is_blank_str(s),
    decreases s.len(),
{
    if s.len() > 0 {
        if is_space_char(s[s.len() - 1]) {
            lemma_trim_end_all_blank(s.drop_last());
            assert forall|i: int| 0 <= i < s.len() implies is_space_char(s[i]) by {
                if i < s.len() - 1 {
                    assert(is_space_char(s.drop_last()[i]));
                }
            }
        }
    }
}

proof fn lemma_nonblank_trim(s: Seq<char>)
    requires
        !is_blank_str(s),
    ensures
        trim_spec(s).len() > 0,
    decreases s.len(),
{
    let i = choose|i: int| 0 <= i < s.len() && !is_space_char(s[i]);
    if s.len() > 0 && is_space_char(s[0]) {
        assert(!is_space_char(s.drop_first()[i - 1]));
        lemma_nonblank_trim(s.drop_first());
    } else {
        let ts = trim_start_spec(s);
        assert(ts == s);
        lemma_trim_end_keeps_nonblank(s, i);
    }
}

proof fn lemma_trim_end_keeps_nonblank(s: Seq<char>, i: int)
    requires
        0 <= i < s.len(),
        !is_space_char(s[i]),
    ensures
        trim_end_spec(s).len() > 0,
    decreases s.len(),
{
    if is_space_char(s[s.len() - 1]) {
        assert(s.drop_last()[i] == s[i]);
        lemma_trim_end_keeps_nonblank(s.drop_last(), i);
    }
}

/// `str::trim` over characters: drops leading and trailing whitespace.
pub fn trim(s: &str) -> (r: String)
    ensures
        r@ == trim_spec(s@),
{
    let n: usize = s.unicode_len();
    let mut i: usize = 0;
    while i < n && is_space(s.get_char(i))
        invariant
            i <= n,
            n == s@.len(),
            forall|k: int| 0 <= k < i ==> is_space_char(s@[k]),
        decreases n - i,
    {
        i = i + 1;
    }
    let mut j: usize = n;
    while j > i && is_space(s.get_char(j - 1))
        invariant
            i <= j <= n,
            n == s@.len(),
            forall|k: int| j <= k < n ==> is_space_char(s@[k]),
        decreases j,
    {
        j = j - 1;
    }
    proof {
        if j == i {
            lemma_trim_start_at(s@, i as int);
            if i < n {
                lemma_trim_end_at(s@.subrange(i as int, n as int), 0);
            } else {
                lemma_trim_end_at(s@.subrange(i as int, n as int), 0);
            }
        } else {
            lemma_trim_start_at(s@, i as int);
            lemma_trim_end_at(s@.subrange(i as int, n as int), j - i);
        }
        assert(trim_spec(s@) =~= s@.subrange(i as int, j as int));
    }
    let piece = s.substring_char(i, j);
    piece.to_owned()
}


pub fn empty_string() -> (r: String)
    ensures
        r@ == Seq::<char>::empty(),
{
    let r = "".to_owned();
    proof {
        reveal_strlit("");
        assert(r@ =~= Seq::<char>::empty());
    }
    r
}

/// The first `n` characters of a string (all of it when shorter).
pub fn take_chars(s: &str, n: usize) -> (r: String)
    ensures
        r@ == s@.take(if n <= s@.len() { n as int } else { s@.len() as int }),
{
    let len: usize = s.unicode_len();
    let cut: usize = if n <= len { n } else { len };
    let piece = s.substring_char(0, cut);
    assert(piece@ =~= s@.take(cut as int));
    piece.to_owned()
}

/// Character-wise equality of two string slices.
pub fn str_eq(a: &str, b: &str) -> (r: bool)
    ensures
        r == (a@ == b@),
{
    let na: usize = a.unicode_len();
    let nb: usize = b.unicode_len();
    if na != nb {
        return false;
    }
    let mut i: usize = 0;
    while i < na
        invariant
            i <= na,
            na == a@.len(),
            na == b@.len(),
            forall|k: int| 0 <= k < i ==> a@[k] == b@[k],
        decreases na - i,
    {
        if a.get_char(i) != b.get_char(i) {
            return false;
        }
        i = i + 1;
    }
    proof {
        assert(a@ =~= b@);
    }
    true
}

pub open spec fn digit_char(d: int) -> char {
    if d == 0 { '0' }
    else if d == 1 { '1' }
    else if d == 2 { '2' }
    else if d == 3 { '3' }
    else if d == 4 { '4' }
    else if d == 5 { '5' }
    else if d == 6 { '6' }
    else if d == 7 { '7' }
    else if d == 8 { '8' }
    else { '9' }
}

/// The decimal rendering of a number, without leading zeros.
pub open spec fn dec_spec(n: int) -> Seq<char>
    decreases n,
{
    if n < 10 {
        seq![digit_char(n)]
    } else {
        dec_spec(n / 10).push(digit_char(n % 10))
    }
}

fn digit_str(d: u32) -> (r: &'static str)
    requires
        d < 10,
    ensures
        r@ == seq![digit_char(d as int)],
{
    proof {
        reveal_strlit("0");
        reveal_strlit("1");
        reveal_strlit("2");
        reveal_strlit("3");
        reveal_strlit("4");
        reveal_strlit("5");
        reveal_strlit("6");
        reveal_strlit("7");
        reveal_strlit("8");
        reveal_strlit("9");
    }
    let r = if d == 0 { "0" }
    else if d == 1 { "1" }
    else if d == 2 { "2" }
    else if d == 3 { "3" }
    else if d == 4 { "4" }
    else if d == 5 { "5" }
    else if d == 6 { "6" }
    else if d == 7 { "7" }
    else if d == 8 { "8" }
    else { "9" };
    proof {
        assert(r@ =~= seq![digit_char(d as int)]);
    }
    r
}

/// Decimal rendering of a `u32`.
pub fn u32_string(n: u32) -> (r: String)
    ensures
        r@ == dec_spec(n as int),
    decreases n,
{
    if n < 10 {
        digit_str(n).to_owned()
    } else {
        let mut s = u32_string(n / 10);
        s.append(digit_str(n % 10));
        proof {
            assert(s@ =~= dec_spec(n as int));
        }
        s
    }
}

/// The decimal rendering padded with zeros to at least three digits,
/// as in the on-disk chapter file names.
pub open spec fn pad3_spec(n: int) -> Seq<char> {
    if n < 10 {
        seq!['0', '0'] + dec_spec(n)
    } else if n < 100 {
        seq!['0'] + dec_spec(n)
    } else {
        dec_spec(n)
    }
}

pub fn pad3_string(n: u32) -> (r: String)
    ensures
        r@ == pad3_spec(n as int),
{
    proof {
        reveal_strlit("00");
        reveal_strlit("0");
        reveal_strlit("");
    }
    let mut s = if n < 10 {
        let t = "00".to_owned();
        proof {
            assert(t@ =~= seq!['0', '0']);
        }
        t
    } else if n < 100 {
        let t = "0".to_owned();
        proof {
            assert(t@ =~= seq!['0']);
        }
        t
    } else {
        "".to_owned()
    };
    let d = u32_string(n);
    s.append(d.as_str());
    proof {
        assert(s@ =~= pad3_spec(n as int));
    }
    s
}

/// Whether `pat` occurs in `s` at character position `i`.
pub open spec fn matches_at(s: Seq<char>, pat: Seq<char>, i: int) -> bool {
    0 <= i && i + pat.len() <= s.len() && s.subrange(i, i + pat.len()) == pat
}

/// The first character position where `pat` occurs in `s`.
pub open spec fn first_match(s: Seq<char>, pat: Seq<char>) -> Option<int> {
    if exists|i: int| matches_at(s, pat, i) {
        Some(choose|i: int| matches_at(s, pat, i) && forall|j: int| 0 <= j < i ==> !matches_at(s, pat, j))
    } else {
        None
    }
}

pub proof fn lemma_first_match_props(s: Seq<char>, pat: Seq<char>)
    ensures
        match first_match(s, pat) {
            Some(i) => matches_at(s, pat, i) && forall|j: int| 0 <= j < i ==> !matches_at(s, pat, j),
            None => forall|j: int| !matches_at(s, pat, j),
        },
{
    if exists|i: int| matches_at(s, pat, i) {
        let w = choose|i: int| matches_at(s, pat, i);
        lemma_minimal_match_exists(s, pat, w);
        let m = choose|m: int| matches_at(s, pat, m)
            && forall|j: int| 0 <= j < m ==> !matches_at(s, pat, j);
        lemma_first_match_some(s, pat, m);
    } else {
        assert(forall|j: int| !matches_at(s, pat, j));
    }
}

proof fn lemma_minimal_match_exists(s: Seq<char>, pat: Seq<char>, w: int)
    requires
        matches_at(s, pat, w),
    ensures
        exists|m: int| matches_at(s, pat, m)
            && forall|j: int| 0 <= j < m ==> !matches_at(s, pat, j),
    decreases w,
{
    if forall|j: int| 0 <= j < w ==> !matches_at(s, pat, j) {
        assert(matches_at(s, pat, w)
            && forall|j: int| 0 <= j < w ==> !matches_at(s, pat, j));
    } else {
        let v = choose|v: int| 0 <= v < w && matches_at(s, pat, v);
        lemma_minimal_match_exists(s, pat, v);
    }
}

proof fn lemma_first_match_some(s: Seq<char>, pat: Seq<char>, i: int)
    requires
        matches_at(s, pat, i),
        forall|j: int| 0 <= j < i ==> !matches_at(s, pat, j),
    ensures
        first_match(s, pat) == Some(i),
{
    assert(exists|k: int| matches_at(s, pat, k));
    let w = choose|w: int| matches_at(s, pat, w) && forall|j: int| 0 <= j < w ==> !matches_at(s, pat, j);
    assert(matches_at(s, pat, i) && forall|j: int| 0 <= j < i ==> !matches_at(s, pat, j));
    if w < i {
        assert(!matches_at(s, pat, w));
    }
    if i < w {
        assert(!matches_at(s, pat, i));
    }
}

fn matches_here(s: &str, pat: &str, i: usize) -> (r: bool)
    requires
        i + pat@.len() <= s@.len(),
    ensures
        r == matches_at(s@, pat@, i as int),
{
    let n: usize = s.unicode_len();
    let m: usize = pat.unicode_len();
    let mut k: usize = 0;
    while k < m
        invariant
            k <= m,
            n == s@.len(),
            m == pat@.len(),
            i + m <= n,
            forall|t: int| 0 <= t < k ==> s@[i + t] == pat@[t],
        decreases m - k,
    {
        if s.get_char(i + k) != pat.get_char(k) {
            assert(s@.subrange(i as int, i + m) != pat@) by {
                assert(s@.subrange(i as int, i + m)[k as int] != pat@[k as int]);
            }
            return false;
        }
        k = k + 1;
    }
    proof {
        assert(s@.subrange(i as int, i + m) =~= pat@);
    }
    true
}

/// The position of the first occurrence of `pat` in `s`, as `str::find`
/// reports it, counting characters rather than bytes.
pub fn find_sub(s: &str, pat: &str) -> (r: Option<usize>)
    ensures
        match r {
            Some(i) => first_match(s@, pat@) == Some(i as int),
            None => first_match(s@, pat@) is None,
        },
{
    let n: usize = s.unicode_len();
    let m: usize = pat.unicode_len();
    if m > n {
        proof {
            assert(forall|i: int| !matches_at(s@, pat@, i));
        }
        return None;
    }
    if m == 0 {
        proof {
            assert(s@.subrange(0, 0) =~= pat@);
            lemma_first_match_some(s@, pat@, 0);
        }
        return Some(0);
    }
    let mut i: usize = 0;
    while i <= n - m
        invariant
            0 <= i <= n - m + 1,
            1 <= m <= n,
            n == s@.len(),
            m == pat@.len(),
            forall|j: int| 0 <= j < i ==> !matches_at(s@, pat@, j),
        decreases n - i,
    {
        if matches_here(s, pat, i) {
            proof {
                lemma_first_match_some(s@, pat@, i as int);
            }
            return Some(i);
        }
        i = i + 1;
    }
    proof {
        assert(forall|j: int| 0 <= j < i ==> !matches_at(s@, pat@, j));
        assert(forall|j: int| j >= i ==> !matches_at(s@, pat@, j));
        if exists|j: int| matches_at(s@, pat@, j) {
            let j = choose|j: int| matches_at(s@, pat@, j);
            assert(!matches_at(s@, pat@, j));
        }
    }
    None
}

/// `sep`-joined concatenation, as `Vec::join` produces it.
pub open spec fn join_spec(parts: Seq<Seq<char>>, sep: Seq<char>) -> Seq<char>
    decreases parts.len(),
{
    if parts.len() == 0 {
        Seq::empty()
    } else if parts.len() == 1 {
        parts[0]
    } else {
        join_spec(parts.drop_last(), sep) + sep + parts.last()
    }
}

pub open spec fn views_of(parts: Seq<String>) -> Seq<Seq<char>> {
    parts.map_values(|p: String| p@)
}

/// Join string parts with a newline between each pair.
pub fn join_lines(parts: &Vec<String>) -> (r: String)
    ensures
        r@ == join_spec(views_of(parts@), "\n"@),
{
    let mut out = String::new();
    let mut i: usize = 0;
    while i < parts.len()
        invariant
            i <= parts@.len(),
            out@ == join_spec(views_of(parts@).take(i as int), "\n"@),
        decreases parts@.len() - i,
    {
        if i > 0 {
            out.append("\n");
        }
        out.append(parts[i].as_str());
        proof {
            let vs = views_of(parts@);
            assert(vs.take(i + 1).drop_last() =~= vs.take(i as int));
            assert(vs.take(i + 1).last() == parts@[i as int]@);
            if i == 0 {
                assert(out@ =~= join_spec(vs.take(i + 1), "\n"@));
            } else {
                assert(out@ =~= join_spec(vs.take(i + 1), "\n"@));
            }
        }
        i = i + 1;
    }
    proof {
        assert(views_of(parts@).take(parts@.len() as int) =~= views_of(parts@));
    }
    out
}

} // verus!
