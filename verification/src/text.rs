//! Character-level string helpers shared by the editor logic.
//!
//! Text is handled as `Vec<char>` inside the library; the specifications speak
//! of `Seq<char>`.
use vstd::prelude::*;

verus! {

// ── Character classes ────────────────────────────────────────────────────────

/// The characters with the Unicode `White_Space` property.
pub open spec fn is_ws(c: char) -> bool {
    let u = c as u32;
    ||| 9 <= u <= 13
    ||| u == 32
    ||| u == 0x85
    ||| u == 0xA0
    ||| u == 0x1680
    ||| 0x2000 <= u <= 0x200A
    ||| u == 0x2028
    ||| u == 0x2029
    ||| u == 0x202F
    ||| u == 0x205F
    ||| u == 0x3000
}

/// Whether `char::is_alphanumeric` holds of `c` (Unicode Alphabetic or Numeric).
pub uninterp spec fn char_alphanumeric(c: char) -> bool;

/// A lower-cased copy of a text, as `str::to_lowercase` computes it.
pub uninterp spec fn lowercase(s: Seq<char>) -> Seq<char>;

/// Identifier characters: alphanumeric or underscore.
pub open spec fn is_word_char(c: char) -> bool {
    char_alphanumeric(c) || c == '_'
}

/// ASCII letters and digits.
pub open spec fn is_ascii_alnum(c: char) -> bool {
    ('a' <= c && c <= 'z') || ('A' <= c && c <= 'Z') || ('0' <= c && c <= '9')
}

/// `char::is_whitespace`: true exactly for the Unicode White_Space characters.
pub(crate) fn char_is_whitespace(c: char) -> (b: bool)
    ensures
        b == is_ws(c),
{
    let u = c as u32;
    (9 <= u && u <= 13) || u == 32 || u == 0x85 || u == 0xA0 || u == 0x1680 || (0x2000 <= u && u <= 0x200A) || u
        == 0x2028 || u == 0x2029 || u == 0x202F || u == 0x205F || u == 0x3000
}

/// `char::is_alphanumeric`; its result is named `char_alphanumeric`.
#[verifier::external_body]
pub(crate) fn char_is_alphanumeric(c: char) -> (b: bool)
    ensures
        b == char_alphanumeric(c),
{
    c.is_alphanumeric()
}

/// `str::to_lowercase` on the text held in `s`; its result is named `lowercase`.
#[verifier::external_body]
pub(crate) fn chars_to_lowercase(s: &Vec<char>) -> (res: Vec<char>)
    ensures
        res@ == lowercase(s@),
{
    let st: String = s.iter().collect();
    st.to_lowercase().chars().collect()
}

/// Identifier character test.
pub fn is_word_char_exec(c: char) -> (b: bool)
    ensures
        b == is_word_char(c),
{
    c == '_' || char_is_alphanumeric(c)
}

/// ASCII alphanumeric test.
pub fn is_ascii_alnum_exec(c: char) -> (b: bool)
    ensures
        b == is_ascii_alnum(c),
{
    ('a' <= c && c <= 'z') || ('A' <= c && c <= 'Z') || ('0' <= c && c <= '9')
}

// ── Conversions ──────────────────────────────────────────────────────────────

/// The characters of `s`, in order.
pub fn str_chars(s: &str) -> (res: Vec<char>)
    ensures
        res@ == s@,
{
    let mut res: Vec<char> = Vec::new();
    for c in it: s.chars()
        invariant
            it.seq() == s@,
            res@ == it.seq().take(it.index() as int),
    {
        res.push(c);
    }
    res
}

/// A `String` holding exactly the characters of `v` (`FromIterator<&char>`).
#[verifier::external_body]
pub(crate) fn chars_string(v: &Vec<char>) -> (res: String)
    ensures
        res@ == v@,
{
    v.iter().collect()
}

/// The characters `s[a..b]` as a new vector.
pub fn slice_chars(s: &Vec<char>, a: usize, b: usize) -> (res: Vec<char>)
    requires
        a <= b <= s.len(),
    ensures
        res@ == s@.subrange(a as int, b as int),
{
    let mut res: Vec<char> = Vec::new();
    let mut i = a;
    while i < b
        invariant
            a <= i <= b <= s.len(),
            res@ == s@.subrange(a as int, i as int),
        decreases b - i,
    {
        res.push(s[i]);
        i += 1;
    }
    res
}

/// Appends all of `t` to `v`.
pub fn append_chars(v: &mut Vec<char>, t: &Vec<char>)
    ensures
        final(v)@ == old(v)@ + t@,
{
    let mut i: usize = 0;
    while i < t.len()
        invariant
            i <= t.len(),
            v@ == old(v)@ + t@.subrange(0, i as int),
        decreases t.len() - i,
    {
        v.push(t[i]);
        i += 1;
        proof {
            assert(t@.subrange(0, i as int) =~= t@.subrange(0, i - 1).push(t@[i - 1]));
        }
    }
    proof {
        assert(t@.subrange(0, t@.len() as int) =~= t@);
    }
}

/// Text equality.
pub fn chars_eq(s: &Vec<char>, t: &Vec<char>) -> (b: bool)
    ensures
        b == (s@ == t@),
{
    if s.len() != t.len() {
        return false;
    }
    let mut i: usize = 0;
    while i < s.len()
        invariant
            s.len() == t.len(),
            i <= s.len(),
            forall|j: int| 0 <= j < i ==> s@[j] == t@[j],
        decreases s.len() - i,
    {
        if s[i] != t[i] {
            return false;
        }
        i += 1;
    }
    proof {
        assert(s@ =~= t@);
    }
    true
}

// ── Matching ─────────────────────────────────────────────────────────────────

/// `p` occurs in `s` starting at index `i`.
pub open spec fn match_at(s: Seq<char>, p: Seq<char>, i: int) -> bool {
    0 <= i && i + p.len() <= s.len() && s.subrange(i, i + p.len()) == p
}

/// `p` occurs somewhere in `s` (`str::contains`).
pub open spec fn contains(s: Seq<char>, p: Seq<char>) -> bool {
    exists|i: int| match_at(s, p, i)
}

/// `s` begins with `p` (`str::starts_with`).
pub open spec fn starts_with(s: Seq<char>, p: Seq<char>) -> bool {
    match_at(s, p, 0)
}

/// `s` ends with `p` (`str::ends_with`).
pub open spec fn ends_with(s: Seq<char>, p: Seq<char>) -> bool {
    p.len() <= s.len() && match_at(s, p, s.len() - p.len())
}

/// Does `p` occur in `s` at `i`?
pub fn match_at_exec(s: &Vec<char>, p: &Vec<char>, i: usize) -> (b: bool)
    ensures
        b == match_at(s@, p@, i as int),
{
    if p.len() > s.len() || i > s.len() - p.len() {
        return false;
    }
    let mut k: usize = 0;
    while k < p.len()
        invariant
            i + p.len() <= s.len(),
            k <= p.len(),
            forall|j: int| 0 <= j < k ==> s@[i + j] == p@[j],
        decreases p.len() - k,
    {
        if s[i + k] != p[k] {
            proof {
                assert(s@.subrange(i as int, i + p.len())[k as int] != p@[k as int]);
            }
            return false;
        }
        k += 1;
    }
    proof {
        assert(s@.subrange(i as int, i + p.len()) =~= p@);
    }
    true
}

/// The first index at or after `from` where `p` occurs in `s`.
pub open spec fn first_match(s: Seq<char>, p: Seq<char>, from: nat) -> Option<nat>
    decreases s.len() + 1 - from,
{
    if from + p.len() > s.len() {
        None
    } else if match_at(s, p, from as int) {
        Some(from)
    } else {
        first_match(s, p, from + 1)
    }
}

/// `first_match` finds the earliest occurrence, and finds none only when there is none.
pub proof fn lemma_first_match(s: Seq<char>, p: Seq<char>, from: nat)
    ensures
        first_match(s, p, from) matches Some(i) ==> from <= i && match_at(s, p, i as int) && (
        forall|j: int| from <= j < i ==> !match_at(s, p, j)),
        first_match(s, p, from) is None ==> forall|j: int| from <= j ==> !match_at(s, p, j),
    decreases s.len() + 1 - from,
{
    if from + p.len() <= s.len() && !match_at(s, p, from as int) {
        lemma_first_match(s, p, from + 1);
    }
}

/// The first occurrence of `p` in `s` at or after `from` (`str::find` on a suffix).
pub fn find_from_exec(s: &Vec<char>, p: &Vec<char>, from: usize) -> (r: Option<usize>)
    ensures
        r is None <==> first_match(s@, p@, from as nat) is None,
        r matches Some(i) ==> first_match(s@, p@, from as nat) == Some(i as nat),
        match r {
            Some(i) => from <= i && match_at(s@, p@, i as int) && (forall|j: int|
                from <= j < i ==> !match_at(s@, p@, j)),
            None => forall|j: int| from <= j ==> !match_at(s@, p@, j),
        },
{
    proof {
        lemma_first_match(s@, p@, from as nat);
    }
    if p.len() > s.len() {
        return None;
    }
    let last = s.len() - p.len();
    if from > last {
        return None;
    }
    let mut i = from;
    loop
        invariant
            last == s.len() - p.len(),
            from <= i <= last,
            first_match(s@, p@, from as nat) == first_match(s@, p@, i as nat),
        decreases last - i,
    {
        if match_at_exec(s, p, i) {
            proof {
                lemma_first_match(s@, p@, from as nat);
            }
            return Some(i);
        }
        if i == last {
            proof {
                reveal_with_fuel(first_match, 2);
                lemma_first_match(s@, p@, from as nat);
            }
            return None;
        }
        i += 1;
    }
}

/// `str::contains` on character vectors.
pub fn contains_exec(s: &Vec<char>, p: &Vec<char>) -> (b: bool)
    ensures
        b == contains(s@, p@),
{
    match find_from_exec(s, p, 0) {
        Some(i) => true,
        None => {
            proof {
                assert forall|j: int| !match_at(s@, p@, j) by {
                    if 0 <= j {
                    }
                }
            }
            false
        },
    }
}

/// `str::starts_with` on character vectors.
pub fn starts_with_exec(s: &Vec<char>, p: &Vec<char>) -> (b: bool)
    ensures
        b == starts_with(s@, p@),
{
    match_at_exec(s, p, 0)
}

/// `str::ends_with` on character vectors.
pub fn ends_with_exec(s: &Vec<char>, p: &Vec<char>) -> (b: bool)
    ensures
        b == ends_with(s@, p@),
{
    if p.len() > s.len() {
        return false;
    }
    match_at_exec(s, p, s.len() - p.len())
}

/// Index of the first occurrence of the character `c` in `s`.
pub open spec fn find_char(s: Seq<char>, c: char) -> Option<int> {
    if exists|i: int| 0 <= i < s.len() && s[i] == c {
        Some(choose|i: int| 0 <= i < s.len() && s[i] == c && (forall|j: int| 0 <= j < i ==> s[j] != c))
    } else {
        None
    }
}

/// `str::find` for a single character.
pub fn find_char_exec(s: &Vec<char>, c: char) -> (r: Option<usize>)
    ensures
        r matches Some(i) ==> i < s.len() && s@[i as int] == c && (forall|j: int| 0 <= j < i ==> s@[j] != c),
        r is None ==> forall|j: int| 0 <= j < s.len() ==> s@[j] != c,
        r matches Some(i) ==> find_char(s@, c) == Some(i as int),
        r is None ==> find_char(s@, c) is None,
{
    let mut i: usize = 0;
    while i < s.len()
        invariant
            i <= s.len(),
            forall|j: int| 0 <= j < i ==> s@[j] != c,
        decreases s.len() - i,
    {
        if s[i] == c {
            proof {
                let k = choose|k: int| 0 <= k < s.len() && s@[k] == c && (forall|j: int| 0 <= j < k ==> s@[j] != c);
                if k < i {
                } else if k > i {
                }
                assert(k == i);
            }
            return Some(i);
        }
        i += 1;
    }
    None
}

/// Does `c` occur in `s`?
pub fn has_char(s: &Vec<char>, c: char) -> (b: bool)
    ensures
        b == s@.contains(c),
{
    match find_char_exec(s, c) {
        Some(i) => {
            assert(s@[i as int] == c);
            true
        },
        None => false,
    }
}

// ── Trimming ─────────────────────────────────────────────────────────────────

/// `s` without its leading white space.
pub open spec fn trim_start(s: Seq<char>) -> Seq<char>
    decreases s.len(),
{
    if s.len() > 0 && is_ws(s[0]) {
        trim_start(s.drop_first())
    } else {
        s
    }
}

/// `s` without its trailing white space.
pub open spec fn trim_end(s: Seq<char>) -> Seq<char>
    decreases s.len(),
{
    if s.len() > 0 && is_ws(s.last()) {
        trim_end(s.drop_last())
    } else {
        s
    }
}

/// `s` without leading and trailing white space (`str::trim`).
pub open spec fn trim(s: Seq<char>) -> Seq<char> {
    trim_end(trim_start(s))
}

/// `s` without any trailing occurrences of `c` (`str::trim_end_matches(c)`).
pub open spec fn trim_end_char(s: Seq<char>, c: char) -> Seq<char>
    decreases s.len(),
{
    if s.len() > 0 && s.last() == c {
        trim_end_char(s.drop_last(), c)
    } else {
        s
    }
}

/// Trimming a character never lengthens a text.
pub proof fn lemma_trim_end_char_len(s: Seq<char>, c: char)
    ensures
        trim_end_char(s, c).len() <= s.len(),
    decreases s.len(),
{
    if s.len() > 0 && s.last() == c {
        lemma_trim_end_char_len(s.drop_last(), c);
    }
}

/// `s` without any leading occurrences of `c` (`str::trim_start_matches(c)`).
pub open spec fn trim_start_char(s: Seq<char>, c: char) -> Seq<char>
    decreases s.len(),
{
    if s.len() > 0 && s[0] == c {
        trim_start_char(s.drop_first(), c)
    } else {
        s
    }
}

/// Index of the first non-white-space character.
pub fn trim_start_index(s: &Vec<char>) -> (i: usize)
    ensures
        i <= s.len(),
        trim_start(s@) == s@.subrange(i as int, s@.len() as int),
{
    let mut i: usize = 0;
    proof {
        assert(s@.subrange(0, s@.len() as int) =~= s@);
    }
    while i < s.len() && char_is_whitespace(s[i])
        invariant
            i <= s.len(),
            trim_start(s@) == trim_start(s@.subrange(i as int, s@.len() as int)),
        decreases s.len() - i,
    {
        proof {
            let t = s@.subrange(i as int, s@.len() as int);
            assert(t.drop_first() =~= s@.subrange(i + 1, s@.len() as int));
        }
        i += 1;
    }
    i
}

/// One past the index of the last non-white-space character.
pub fn trim_end_index(s: &Vec<char>) -> (j: usize)
    ensures
        j <= s.len(),
        trim_end(s@) == s@.subrange(0, j as int),
{
    let mut j: usize = s.len();
    proof {
        assert(s@.subrange(0, s@.len() as int) =~= s@);
    }
    while j > 0 && char_is_whitespace(s[j - 1])
        invariant
            j <= s.len(),
            trim_end(s@) == trim_end(s@.subrange(0, j as int)),
        decreases j,
    {
        proof {
            let t = s@.subrange(0, j as int);
            assert(t.drop_last() =~= s@.subrange(0, j - 1));
        }
        j -= 1;
    }
    j
}

/// `str::trim_start`.
pub fn trim_start_exec(s: &Vec<char>) -> (res: Vec<char>)
    ensures
        res@ == trim_start(s@),
{
    let i = trim_start_index(s);
    slice_chars(s, i, s.len())
}

/// `str::trim_end`.
pub fn trim_end_exec(s: &Vec<char>) -> (res: Vec<char>)
    ensures
        res@ == trim_end(s@),
{
    let j = trim_end_index(s);
    slice_chars(s, 0, j)
}

/// `str::trim`.
pub fn trim_exec(s: &Vec<char>) -> (res: Vec<char>)
    ensures
        res@ == trim(s@),
{
    let t = trim_start_exec(s);
    trim_end_exec(&t)
}

/// `str::trim_end_matches(c)` for a single character.
pub fn trim_end_char_exec(s: &Vec<char>, c: char) -> (res: Vec<char>)
    ensures
        res@ == trim_end_char(s@, c),
{
    let mut j: usize = s.len();
    proof {
        assert(s@.subrange(0, s@.len() as int) =~= s@);
    }
    while j > 0 && s[j - 1] == c
        invariant
            j <= s.len(),
            trim_end_char(s@, c) == trim_end_char(s@.subrange(0, j as int), c),
        decreases j,
    {
        proof {
            let t = s@.subrange(0, j as int);
            assert(t.drop_last() =~= s@.subrange(0, j - 1));
        }
        j -= 1;
    }
    slice_chars(s, 0, j)
}

/// `str::trim_start_matches(c)` for a single character.
pub fn trim_start_char_exec(s: &Vec<char>, c: char) -> (res: Vec<char>)
    ensures
        res@ == trim_start_char(s@, c),
{
    let mut i: usize = 0;
    proof {
        assert(s@.subrange(0, s@.len() as int) =~= s@);
    }
    while i < s.len() && s[i] == c
        invariant
            i <= s.len(),
            trim_start_char(s@, c) == trim_start_char(s@.subrange(i as int, s@.len() as int), c),
        decreases s.len() - i,
    {
        proof {
            let t = s@.subrange(i as int, s@.len() as int);
            assert(t.drop_first() =~= s@.subrange(i + 1, s@.len() as int));
        }
        i += 1;
    }
    slice_chars(s, i, s.len())
}

/// Is `s` empty or made only of white space? (`s.trim().is_empty()`)
pub open spec fn is_blank(s: Seq<char>) -> bool {
    forall|i: int| 0 <= i < s.len() ==> is_ws(s[i])
}

/// A text is blank exactly when trimming leaves nothing.
pub proof fn lemma_blank_trim(s: Seq<char>)
    ensures
        is_blank(s) <==> trim(s).len() == 0,
        is_blank(s) <==> trim_start(s).len() == 0,
    decreases s.len(),
{
    if s.len() > 0 && is_ws(s[0]) {
        lemma_blank_trim(s.drop_first());
        if is_blank(s.drop_first()) {
            assert(is_blank(s)) by {
                assert forall|i: int| 0 <= i < s.len() implies is_ws(s[i]) by {
                    if i > 0 {
                        assert(s[i] == s.drop_first()[i - 1]);
                    }
                }
            }
        }
        if is_blank(s) {
            assert(is_blank(s.drop_first())) by {
                assert forall|i: int| 0 <= i < s.drop_first().len() implies is_ws(s.drop_first()[i]) by {
                    assert(s.drop_first()[i] == s[i + 1]);
                }
            }
        }
    } else if s.len() > 0 {
        assert(!is_blank(s));
        lemma_trim_end_keeps_first(s);
    }
}

/// Trimming the end of a text that starts with a non-blank character keeps it non-empty.
proof fn lemma_trim_end_keeps_first(s: Seq<char>)
    requires
        s.len() > 0,
        !is_ws(s[0]),
    ensures
        trim_end(s).len() > 0,
    decreases s.len(),
{
    if is_ws(s.last()) {
        assert(s.len() > 1);
        assert(s.drop_last()[0] == s[0]);
        lemma_trim_end_keeps_first(s.drop_last());
    }
}

/// `s.trim().is_empty()`.
pub fn is_blank_exec(s: &Vec<char>) -> (b: bool)
    ensures
        b == is_blank(s@),
{
    let mut i: usize = 0;
    while i < s.len()
        invariant
            i <= s.len(),
            forall|j: int| 0 <= j < i ==> is_ws(s@[j]),
        decreases s.len() - i,
    {
        if !char_is_whitespace(s[i]) {
            return false;
        }
        i += 1;
    }
    true
}

/// Number of leading occurrences of `c` in `l`.
pub open spec fn leading(l: Seq<char>, c: char) -> nat
    decreases l.len(),
{
    if l.len() > 0 && l[0] == c {
        1 + leading(l.drop_first(), c)
    } else {
        0
    }
}

/// `leading` is the length of the run of `c` at the start.
pub proof fn lemma_leading(l: Seq<char>, c: char, k: int)
    requires
        0 <= k <= l.len(),
        forall|m: int| 0 <= m < k ==> l[m] == c,
        k == l.len() || l[k] != c,
    ensures
        leading(l, c) == k,
    decreases k,
{
    if k > 0 {
        assert forall|m: int| 0 <= m < k - 1 implies l.drop_first()[m] == c by {
            assert(l.drop_first()[m] == l[m + 1]);
        }
        lemma_leading(l.drop_first(), c, k - 1);
    }
}

/// Counts the leading occurrences of `c` (`chars().take_while(..).count()`).
pub fn leading_exec(l: &Vec<char>, c: char) -> (n: usize)
    ensures
        n == leading(l@, c),
        n <= l.len(),
{
    let mut k: usize = 0;
    while k < l.len() && l[k] == c
        invariant
            k <= l.len(),
            forall|m: int| 0 <= m < k ==> l@[m] == c,
        decreases l.len() - k,
    {
        k += 1;
    }
    proof {
        lemma_leading(l@, c, k as int);
    }
    k
}

// ── Lines ────────────────────────────────────────────────────────────────────

/// Index of the first `'\n'` in `s`, or its length when there is none.
pub open spec fn first_nl(s: Seq<char>) -> nat
    decreases s.len(),
{
    if s.len() == 0 {
        0
    } else if s[0] == '\n' {
        0
    } else {
        1 + first_nl(s.drop_first())
    }
}

/// `l` without one trailing `'\r'`.
pub open spec fn strip_cr(l: Seq<char>) -> Seq<char> {
    if l.len() > 0 && l.last() == '\r' {
        l.drop_last()
    } else {
        l
    }
}

/// The lines of `s` as `str::lines` yields them: split after each `'\n'`, the
/// `'\n'` and one `'\r'` before it removed; no empty line after a final `'\n'`.
pub open spec fn lines(s: Seq<char>) -> Seq<Seq<char>>
    decreases s.len(),
{
    if s.len() == 0 {
        seq![]
    } else {
        let k = first_nl(s);
        if k < s.len() {
            seq![strip_cr(s.take(k as int))] + lines(s.skip(k + 1 as int))
        } else {
            seq![s]
        }
    }
}

/// `first_nl` is the position of the first newline.
pub proof fn lemma_first_nl(s: Seq<char>, k: int)
    requires
        0 <= k <= s.len(),
        forall|m: int| 0 <= m < k ==> s[m] != '\n',
        k == s.len() || s[k] == '\n',
    ensures
        first_nl(s) == k,
    decreases k,
{
    if k > 0 {
        assert forall|m: int| 0 <= m < k - 1 implies s.drop_first()[m] != '\n' by {
            assert(s.drop_first()[m] == s[m + 1]);
        }
        lemma_first_nl(s.drop_first(), k - 1);
    }
}

/// The view of a vector of character vectors.
pub open spec fn seqs_of(v: Seq<Vec<char>>) -> Seq<Seq<char>> {
    v.map_values(|x: Vec<char>| x@)
}

/// Removes one trailing `'\r'`.
pub fn strip_cr_exec(l: Vec<char>) -> (res: Vec<char>)
    ensures
        res@ == strip_cr(l@),
{
    let mut l = l;
    if l.len() > 0 && l[l.len() - 1] == '\r' {
        l.pop();
    }
    l
}

/// `str::lines`, collected.
pub fn split_lines(s: &Vec<char>) -> (res: Vec<Vec<char>>)
    ensures
        seqs_of(res@) == lines(s@),
{
    let mut res: Vec<Vec<char>> = Vec::new();
    let mut start: usize = 0;
    proof {
        assert(s@.skip(0) =~= s@);
        assert(seqs_of(res@) =~= seq![]);
    }
    while start < s.len()
        invariant
            start <= s.len(),
            seqs_of(res@) + lines(s@.skip(start as int)) == lines(s@),
        decreases s.len() - start,
    {
        let ghost rest = s@.skip(start as int);
        let mut j = start;
        while j < s.len() && s[j] != '\n'
            invariant
                start <= j <= s.len(),
                forall|m: int| start <= m < j ==> s@[m] != '\n',
            decreases s.len() - j,
        {
            j += 1;
        }
        proof {
            lemma_first_nl(rest, j - start);
        }
        if j < s.len() {
            let piece = slice_chars(s, start, j);
            let piece = strip_cr_exec(piece);
            proof {
                assert(rest.take(j - start) =~= s@.subrange(start as int, j as int));
                assert(rest.skip(j - start + 1) =~= s@.skip(j + 1));
            }
            let ghost prev = res@;
            res.push(piece);
            proof {
                assert(seqs_of(res@) =~= seqs_of(prev) + seq![piece@]);
            }
            start = j + 1;
        } else {
            let piece = slice_chars(s, start, j);
            proof {
                assert(rest =~= s@.subrange(start as int, j as int));
                assert(s@.skip(j as int) =~= seq![]);
            }
            let ghost prev = res@;
            res.push(piece);
            proof {
                assert(seqs_of(res@) =~= seqs_of(prev) + seq![piece@]);
            }
            start = j;
        }
    }
    proof {
        assert(s@.skip(start as int) =~= seq![]);
        assert(seqs_of(res@) + seq![] =~= seqs_of(res@));
    }
    res
}

/// The lines of `s` joined with `'\n'` (`[..].join("\n")`).
pub open spec fn join_nl(ls: Seq<Seq<char>>) -> Seq<char>
    decreases ls.len(),
{
    if ls.len() == 0 {
        seq![]
    } else if ls.len() == 1 {
        ls[0]
    } else {
        join_nl(ls.drop_last()) + seq!['\n'] + ls.last()
    }
}

/// `slice.join("\n")`.
pub fn join_lines(ls: &Vec<Vec<char>>) -> (res: Vec<char>)
    ensures
        res@ == join_nl(seqs_of(ls@)),
{
    let mut res: Vec<char> = Vec::new();
    let mut i: usize = 0;
    while i < ls.len()
        invariant
            i <= ls.len(),
            res@ == join_nl(seqs_of(ls@).take(i as int)),
        decreases ls.len() - i,
    {
        proof {
            let t = seqs_of(ls@).take(i + 1);
            assert(t.drop_last() =~= seqs_of(ls@).take(i as int));
        }
        if i > 0 {
            res.push('\n');
        }
        append_chars(&mut res, &ls[i]);
        i += 1;
    }
    proof {
        assert(seqs_of(ls@).take(ls@.len() as int) =~= seqs_of(ls@));
    }
    res
}

} // verus!

verus! {

// ── Numbers and replacement ──────────────────────────────────────────────────

/// The decimal digit for `d < 10`.
pub open spec fn digit_char(d: nat) -> char {
    if d == 0 { '0' } else if d == 1 { '1' } else if d == 2 { '2' } else if d == 3 { '3' }
    else if d == 4 { '4' } else if d == 5 { '5' } else if d == 6 { '6' } else if d == 7 { '7' }
    else if d == 8 { '8' } else { '9' }
}

/// Decimal notation of `n`, without leading zeros (`n.to_string()`).
pub open spec fn decimal(n: nat) -> Seq<char>
    decreases n,
{
    if n < 10 {
        seq![digit_char(n)]
    } else {
        decimal(n / 10).push(digit_char(n % 10))
    }
}

fn digit_exec(d: usize) -> (c: char)
    requires
        d < 10,
    ensures
        c == digit_char(d as nat),
{
    if d == 0 { '0' } else if d == 1 { '1' } else if d == 2 { '2' } else if d == 3 { '3' }
    else if d == 4 { '4' } else if d == 5 { '5' } else if d == 6 { '6' } else if d == 7 { '7' }
    else if d == 8 { '8' } else { '9' }
}

/// Decimal notation of `n`.
pub fn decimal_exec(n: usize) -> (res: Vec<char>)
    ensures
        res@ == decimal(n as nat),
    decreases n,
{
    if n < 10 {
        let mut v: Vec<char> = Vec::new();
        v.push(digit_exec(n));
        v
    } else {
        let mut v = decimal_exec(n / 10);
        v.push(digit_exec(n % 10));
        v
    }
}

/// `s.replace(from, to)` for a non-empty `from`: every non-overlapping
/// occurrence, left to right, replaced.
pub open spec fn replace_all(s: Seq<char>, from: Seq<char>, to: Seq<char>) -> Seq<char>
    decreases s.len(),
{
    if from.len() == 0 {
        s
    } else {
        match first_match(s, from, 0) {
            Some(i) => {
                proof {
                    lemma_first_match(s, from, 0);
                }
                s.take(i as int) + to + replace_all(s.skip((i + from.len()) as int), from, to)
            },
            None => s,
        }
    }
}

/// `str::replace` for a non-empty pattern.
pub fn replace_all_exec(s: &Vec<char>, from: &Vec<char>, to: &Vec<char>) -> (res: Vec<char>)
    requires
        from.len() > 0,
    ensures
        res@ == replace_all(s@, from@, to@),
{
    let mut res: Vec<char> = Vec::new();
    let mut pos: usize = 0;
    proof {
        assert(s@.skip(0) =~= s@);
    }
    loop
        invariant
            from.len() > 0,
            pos <= s.len(),
            res@ + replace_all(s@.skip(pos as int), from@, to@) == replace_all(s@, from@, to@),
        decreases s.len() - pos,
    {
        let ghost rest = s@.skip(pos as int);
        match find_from_exec(s, from, pos) {
            Some(i) => {
                proof {
                    lemma_first_match(s@, from@, pos as nat);
                    lemma_first_match(rest, from@, 0);
                    let k = (i - pos) as nat;
                    assert(match_at(rest, from@, k as int)) by {
                        assert(rest.subrange(k as int, (k + from@.len()) as int) =~= s@.subrange(i as int, i + from@.len()));
                    }
                    assert forall|j: int| 0 <= j < k implies !match_at(rest, from@, j) by {
                        if match_at(rest, from@, j) {
                            assert(rest.subrange(j, j + from@.len()) =~= s@.subrange(pos + j, pos + j + from@.len()));
                            assert(match_at(s@, from@, pos + j));
                        }
                    }
                    if first_match(rest, from@, 0) != Some(k) {
                        match first_match(rest, from@, 0) {
                            Some(m) => {
                                if m < k {
                                } else {
                                }
                            },
                            None => {},
                        }
                    }
                    assert(first_match(rest, from@, 0) == Some(k));
                    assert(rest.take(k as int) =~= s@.subrange(pos as int, i as int));
                    assert(rest.skip((k + from@.len()) as int) =~= s@.skip(i + from@.len()));
                }
                let piece = slice_chars(s, pos, i);
                append_chars(&mut res, &piece);
                append_chars(&mut res, to);
                pos = i + from.len();
            },
            None => {
                proof {
                    lemma_first_match(rest, from@, 0);
                    if first_match(rest, from@, 0) is Some {
                        let m = first_match(rest, from@, 0)->0;
                        assert(rest.subrange(m as int, (m + from@.len()) as int) =~= s@.subrange(pos + m, pos + m + from@.len()));
                        assert(match_at(s@, from@, pos + m));
                    }
                    assert(rest =~= s@.subrange(pos as int, s@.len() as int));
                }
                let piece = slice_chars(s, pos, s.len());
                append_chars(&mut res, &piece);
                return res;
            },
        }
    }
}

} // verus!

verus! {

/// An owned copy of `s`.
pub fn owned(s: &str) -> (r: String)
    ensures
        r@ == s@,
{
    chars_string(&str_chars(s))
}

/// A fresh copy of a string.
pub fn copy_string(s: &String) -> (r: String)
    ensures
        r@ == s@,
{
    s.clone()
}

} // verus!

verus! {

/// The texts of a list of strings.
pub open spec fn texts(v: Seq<String>) -> Seq<Seq<char>> {
    v.map_values(|s: String| s@)
}

/// Each character vector as a `String`.
pub fn to_strings(v: &Vec<Vec<char>>) -> (r: Vec<String>)
    ensures
        texts(r@) == seqs_of(v@),
{
    let mut r: Vec<String> = Vec::new();
    let mut i: usize = 0;
    while i < v.len()
        invariant
            i <= v.len(),
            texts(r@) == seqs_of(v@).take(i as int),
        decreases v.len() - i,
    {
        let ghost before = r@;
        r.push(chars_string(&v[i]));
        proof {
            assert(texts(r@) =~= texts(before).push(v@[i as int]@));
            assert(seqs_of(v@).take(i + 1) =~= seqs_of(v@).take(i as int).push(v@[i as int]@));
        }
        i += 1;
    }
    proof {
        assert(seqs_of(v@).take(v@.len() as int) =~= seqs_of(v@));
    }
    r
}

/// Appends a copy of every vector of `w` to `v`.
pub fn extend_seqs(v: &mut Vec<Vec<char>>, w: &Vec<Vec<char>>)
    ensures
        seqs_of(final(v)@) == seqs_of(old(v)@) + seqs_of(w@),
{
    let mut i: usize = 0;
    while i < w.len()
        invariant
            i <= w.len(),
            seqs_of(v@) == seqs_of(old(v)@) + seqs_of(w@).take(i as int),
        decreases w.len() - i,
    {
        let ghost before = v@;
        let c = slice_chars(&w[i], 0, w[i].len());
        proof {
            assert(w@[i as int]@.subrange(0, w@[i as int]@.len() as int) =~= w@[i as int]@);
        }
        v.push(c);
        proof {
            assert(seqs_of(v@) =~= seqs_of(before).push(w@[i as int]@));
            assert(seqs_of(w@).take(i + 1) =~= seqs_of(w@).take(i as int).push(w@[i as int]@));
        }
        i += 1;
    }
    proof {
        assert(seqs_of(w@).take(w@.len() as int) =~= seqs_of(w@));
    }
}

/// A copy of a character vector.
pub fn copy_chars(s: &Vec<char>) -> (r: Vec<char>)
    ensures
        r@ == s@,
{
    proof {
        assert(s@.subrange(0, s@.len() as int) =~= s@);
    }
    slice_chars(s, 0, s.len())
}

} // verus!

verus! {

// ── Ordering of texts ────────────────────────────────────────────────────────

/// Lexicographic order of texts by character (the order of `str` comparison).
pub open spec fn lex_lt(a: Seq<char>, b: Seq<char>) -> bool
    decreases a.len(),
{
    if a.len() == 0 {
        b.len() > 0
    } else if b.len() == 0 {
        false
    } else if a[0] != b[0] {
        (a[0] as int) < (b[0] as int)
    } else {
        lex_lt(a.drop_first(), b.drop_first())
    }
}

/// Of two different texts, one comes first.
pub proof fn lemma_lex_total(a: Seq<char>, b: Seq<char>)
    requires
        a != b,
    ensures
        lex_lt(a, b) || lex_lt(b, a),
    decreases a.len(),
{
    if a.len() > 0 && b.len() > 0 && a[0] == b[0] {
        if a.drop_first() == b.drop_first() {
            assert(a =~= seq![a[0]] + a.drop_first());
            assert(b =~= seq![b[0]] + b.drop_first());
            assert(a == b);
        }
        lemma_lex_total(a.drop_first(), b.drop_first());
    } else if a.len() > 0 && b.len() > 0 {
        assert((a[0] as int) != (b[0] as int));
    } else if a.len() == 0 && b.len() == 0 {
        assert(a =~= b);
    }
}

/// No text comes before itself.
pub proof fn lemma_lex_irreflexive(a: Seq<char>)
    ensures
        !lex_lt(a, a),
    decreases a.len(),
{
    if a.len() > 0 {
        lemma_lex_irreflexive(a.drop_first());
    }
}

/// Lexicographic comparison.
pub fn lex_lt_exec(a: &Vec<char>, b: &Vec<char>) -> (r: bool)
    ensures
        r == lex_lt(a@, b@),
{
    let mut i: usize = 0;
    proof {
        assert(a@.skip(0) =~= a@);
        assert(b@.skip(0) =~= b@);
    }
    while i < a.len() && i < b.len() && a[i] == b[i]
        invariant
            i <= a.len(),
            i <= b.len(),
            lex_lt(a@, b@) == lex_lt(a@.skip(i as int), b@.skip(i as int)),
        decreases a.len() - i,
    {
        proof {
            assert(a@.skip(i as int).drop_first() =~= a@.skip(i + 1));
            assert(b@.skip(i as int).drop_first() =~= b@.skip(i + 1));
        }
        i += 1;
    }
    if i == a.len() {
        i < b.len()
    } else if i == b.len() {
        false
    } else {
        a[i] < b[i]
    }
}

/// Each text comes strictly before the next.
pub open spec fn strictly_sorted(s: Seq<Seq<char>>) -> bool {
    forall|i: int| 0 <= i < s.len() - 1 ==> lex_lt(#[trigger] s[i], s[i + 1])
}

/// Inserts `x` into the sorted list `v` unless it is already there.
pub fn insert_sorted_unique(v: &mut Vec<String>, x: String)
    requires
        strictly_sorted(texts(old(v)@)),
    ensures
        strictly_sorted(texts(final(v)@)),
        texts(final(v)@).to_set() == texts(old(v)@).to_set().insert(x@),
{
    let xv = str_chars(x.as_str());
    let mut i: usize = 0;
    while i < v.len()
        invariant
            i <= v.len(),
            xv@ == x@,
            v@ == old(v)@,
            strictly_sorted(texts(v@)),
            forall|j: int| 0 <= j < i ==> texts(v@)[j] != x@,
        decreases v.len() - i,
    {
        if v[i] == x {
            proof {
                assert(texts(v@)[i as int] == x@);
                assert(texts(v@).to_set().insert(x@) =~= texts(v@).to_set());
            }
            return;
        }
        i += 1;
    }
    let mut p: usize = 0;
    while p < v.len() && lex_lt_exec(&str_chars(v[p].as_str()), &xv)
        invariant
            p <= v.len(),
            xv@ == x@,
            strictly_sorted(texts(v@)),
            p > 0 ==> lex_lt(texts(v@)[p - 1], x@),
        decreases v.len() - p,
    {
        p += 1;
    }
    let ghost before = v@;
    proof {
        if p < v.len() {
            lemma_lex_total(texts(v@)[p as int], x@);
        }
    }
    v.insert(p, x);
    proof {
        assert(texts(v@) =~= texts(before).insert(p as int, x@));
        assert forall|k: int| 0 <= k < texts(v@).len() - 1 implies lex_lt(#[trigger] texts(v@)[k], texts(v@)[k + 1]) by {
            if k < p - 1 {
                assert(texts(v@)[k] == texts(before)[k]);
                assert(texts(v@)[k + 1] == texts(before)[k + 1]);
            } else if k == p - 1 {
            } else if k == p {
            } else {
                assert(texts(v@)[k] == texts(before)[k - 1]);
                assert(texts(v@)[k + 1] == texts(before)[k]);
            }
        }
        assert(texts(v@).to_set() =~= texts(before).to_set().insert(x@)) by {
            assert forall|y: Seq<char>| texts(v@).to_set().contains(y) <==> texts(before).to_set().insert(x@).contains(y) by {
                if texts(v@).to_set().contains(y) {
                    let k = choose|k: int| 0 <= k < texts(v@).len() && texts(v@)[k] == y;
                    if k < p {
                        assert(texts(before)[k] == y);
                    } else if k > p {
                        assert(texts(before)[k - 1] == y);
                    }
                }
                if texts(before).to_set().contains(y) {
                    let k = choose|k: int| 0 <= k < texts(before).len() && texts(before)[k] == y;
                    if k < p {
                        assert(texts(v@)[k] == y);
                    } else {
                        assert(texts(v@)[k + 1] == y);
                    }
                }
                if y == x@ {
                    assert(texts(v@)[p as int] == y);
                }
            }
        }
    }
}

} // verus!
