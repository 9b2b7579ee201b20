//! Token kinds, the language a highlighter works in, and its per-line token cache.
use vstd::prelude::*;

use crate::text::{chars_eq, chars_string, chars_to_lowercase, lines, lowercase, starts_with, starts_with_exec, str_chars};

verus! {

#[derive(Clone, Copy, PartialEq, Eq, Debug, Structural)]
pub enum TokenKind {
    Keyword,
    KeywordType,
    String,
    Comment,
    Number,
    Function,
    Macro,
    Normal,
    Class,
    TypeParam,
    Operator,
    Property,
}

/// The RGB colour a token kind is drawn in.
pub open spec fn kind_rgb(k: TokenKind) -> (u8, u8, u8) {
    match k {
        TokenKind::Keyword => (197, 134, 192),
        TokenKind::KeywordType => (86, 156, 214),
        TokenKind::String => (206, 145, 120),
        TokenKind::Comment => (106, 153, 85),
        TokenKind::Number => (181, 206, 168),
        TokenKind::Function => (220, 220, 170),
        TokenKind::Macro => (220, 220, 170),
        TokenKind::Normal => (212, 212, 212),
        TokenKind::Class => (78, 201, 176),
        TokenKind::TypeParam => (180, 220, 220),
        TokenKind::Operator => (212, 212, 212),
        TokenKind::Property => (156, 220, 254),
    }
}

impl TokenKind {
    /// The RGB colour this kind is drawn in.
    pub fn color(self) -> (c: (u8, u8, u8))
        ensures
            c == kind_rgb(self),
    {
        match self {
            TokenKind::Keyword => (197, 134, 192),
            TokenKind::KeywordType => (86, 156, 214),
            TokenKind::String => (206, 145, 120),
            TokenKind::Comment => (106, 153, 85),
            TokenKind::Number => (181, 206, 168),
            TokenKind::Function => (220, 220, 170),
            TokenKind::Macro => (220, 220, 170),
            TokenKind::Normal => (212, 212, 212),
            TokenKind::Class => (78, 201, 176),
            TokenKind::TypeParam => (180, 220, 220),
            TokenKind::Operator => (212, 212, 212),
            TokenKind::Property => (156, 220, 254),
        }
    }
}

#[derive(Clone, Debug)]
pub struct Token {
    pub text: String,
    pub kind: TokenKind,
}

/// The kind rendered for highlight capture `idx` of the capture-name table
/// (attribute, comment, comment.documentation, constant, constant.builtin,
/// constructor, function, function.builtin, function.macro, function.method,
/// keyword, keyword.function, keyword.operator, keyword.return,
/// keyword.storage, label, number, operator, property, punctuation,
/// punctuation.bracket, punctuation.delimiter, string, string.escape,
/// string.special, type, type.builtin, variable, variable.builtin,
/// variable.parameter).
pub open spec fn capture_kind(idx: usize) -> TokenKind {
    if idx == 0 {
        TokenKind::Macro
    } else if idx == 1 || idx == 2 {
        TokenKind::Comment
    } else if idx == 3 || idx == 4 {
        TokenKind::Keyword
    } else if idx == 5 {
        TokenKind::Class
    } else if 6 <= idx <= 9 {
        TokenKind::Function
    } else if idx == 10 || idx == 11 || idx == 13 || idx == 14 {
        TokenKind::Keyword
    } else if idx == 12 || idx == 17 {
        TokenKind::Operator
    } else if idx == 16 {
        TokenKind::Number
    } else if idx == 18 {
        TokenKind::Property
    } else if 22 <= idx <= 24 {
        TokenKind::String
    } else if idx == 25 || idx == 26 {
        TokenKind::KeywordType
    } else if idx == 28 {
        TokenKind::Keyword
    } else {
        TokenKind::Normal
    }
}

/// Maps a highlight capture index to the token kind it is drawn with.
pub fn capture_idx_to_kind(idx: usize) -> (k: TokenKind)
    ensures
        k == capture_kind(idx),
{
    match idx {
        0 => TokenKind::Macro,
        1 | 2 => TokenKind::Comment,
        3 | 4 => TokenKind::Keyword,
        5 => TokenKind::Class,
        6..=9 => TokenKind::Function,
        10 | 11 | 13 | 14 => TokenKind::Keyword,
        12 | 17 => TokenKind::Operator,
        15 => TokenKind::Normal,
        16 => TokenKind::Number,
        18 => TokenKind::Property,
        19..=21 => TokenKind::Normal,
        22..=24 => TokenKind::String,
        25 | 26 => TokenKind::KeywordType,
        27 | 29 => TokenKind::Normal,
        28 => TokenKind::Keyword,
        _ => TokenKind::Normal,
    }
}

/// The grammar key a language extension is highlighted with.
pub open spec fn primary_language(lang: Seq<char>) -> Seq<char> {
    if lang == "jsx"@ {
        "tsx"@
    } else if lang == "mjs"@ || lang == "cjs"@ {
        "js"@
    } else if lang == "mts"@ || lang == "cts"@ {
        "ts"@
    } else if lang == "csx"@ {
        "cs"@
    } else if lang == "htm"@ {
        "html"@
    } else {
        lang
    }
}

pub(crate) fn is_text(v: &Vec<char>, lit: &str) -> (b: bool)
    ensures
        b == (v@ == lit@),
{
    chars_eq(v, &str_chars(lit))
}

/// Normalises an extension to its primary grammar key.
pub fn primary_lang(lang: &str) -> (r: String)
    ensures
        r@ == primary_language(lang@),
{
    let v = str_chars(lang);
    if is_text(&v, "jsx") {
        chars_string(&str_chars("tsx"))
    } else if is_text(&v, "mjs") || is_text(&v, "cjs") {
        chars_string(&str_chars("js"))
    } else if is_text(&v, "mts") || is_text(&v, "cts") {
        chars_string(&str_chars("ts"))
    } else if is_text(&v, "csx") {
        chars_string(&str_chars("cs"))
    } else if is_text(&v, "htm") {
        chars_string(&str_chars("html"))
    } else {
        chars_string(&v)
    }
}

/// Keywords offered for completion in `lang`: language support comes from
/// extensions, so there are none built in.
pub fn keywords_for_language(_lang: &str) -> (r: &'static [&'static str])
    ensures
        r@.len() == 0,
{
    &[]
}

/// The text after the last `c` in `s` (`s` itself when it holds no `c`), as
/// `str::rsplit(c).next()` gives it.
pub open spec fn after_last(s: Seq<char>, c: char) -> Seq<char>
    decreases s.len(),
{
    if s.len() == 0 {
        s
    } else if s.last() == c {
        seq![]
    } else {
        after_last(s.drop_last(), c).push(s.last())
    }
}

pub(crate) fn after_last_exec(s: &Vec<char>, c: char) -> (r: Vec<char>)
    ensures
        r@ == after_last(s@, c),
{
    let mut i: usize = s.len();
    proof {
        assert(s@.take(s@.len() as int) =~= s@);
        assert(s@ + s@.skip(s@.len() as int) =~= s@);
    }
    while i > 0
        invariant
            i <= s.len(),
            after_last(s@, c) == after_last(s@.take(i as int), c) + s@.skip(i as int),
        ensures
            i == 0 || s@[i - 1] == c,
            after_last(s@, c) == after_last(s@.take(i as int), c) + s@.skip(i as int),
        decreases i,
    {
        if s[i - 1] == c {
            break;
        }
        proof {
            let t = s@.take(i as int);
            assert(t.drop_last() =~= s@.take(i - 1));
            assert(s@.skip(i - 1) =~= seq![t.last()] + s@.skip(i as int));
            assert(after_last(s@.take(i - 1), c).push(t.last()) + s@.skip(i as int) =~= after_last(s@.take(i - 1), c) + s@.skip(i - 1));
        }
        i -= 1;
    }
    proof {
        if i > 0 {
            assert(s@.take(i as int).last() == c);
            assert(after_last(s@.take(i as int), c) =~= seq![]);
        } else {
            assert(after_last(s@.take(0), c) =~= seq![]);
        }
    }
    let mut r: Vec<char> = Vec::new();
    let mut k: usize = i;
    while k < s.len()
        invariant
            i <= k <= s.len(),
            r@ == s@.subrange(i as int, k as int),
        decreases s.len() - k,
    {
        r.push(s[k]);
        proof {
            assert(r@ =~= s@.subrange(i as int, k + 1));
        }
        k += 1;
    }
    proof {
        assert(r@ =~= s@.skip(i as int));
    }
    r
}

/// The extension `set_language_from_filename` passes on for `filename`:
/// `dockerfile` for `Dockerfile` and `Dockerfile.*`, `makefile` for `Makefile`
/// and `GNUmakefile` (compared lower-cased), and otherwise the text after the
/// last dot.
pub open spec fn filename_language(filename: Seq<char>) -> Seq<char> {
    let lower = lowercase(filename);
    if lower == "dockerfile"@ || starts_with(lower, "dockerfile."@) {
        "dockerfile"@
    } else if lower == "makefile"@ || lower == "gnumakefile"@ {
        "makefile"@
    } else {
        after_last(filename, '.')
    }
}

/// The single-line fallback tokenisation: nothing for an empty line, else the
/// whole line as one `Normal` token.
pub open spec fn plain_tokens(line: Seq<char>) -> Seq<(Seq<char>, TokenKind)> {
    if line.len() == 0 {
        seq![]
    } else {
        seq![(line, TokenKind::Normal)]
    }
}

/// The text and kind of each token.
pub open spec fn tokens_view(v: Seq<Token>) -> Seq<(Seq<char>, TokenKind)> {
    v.map_values(|t: Token| (t.text@, t.kind))
}

fn tokenize_line_regex(_lang: &str, line: &str) -> (r: Vec<Token>)
    ensures
        tokens_view(r@) == plain_tokens(line@),
{
    let v = str_chars(line);
    let mut r: Vec<Token> = Vec::new();
    if v.len() == 0 {
        proof {
            assert(tokens_view(r@) =~= plain_tokens(line@));
        }
        return r;
    }
    r.push(Token { text: chars_string(&v), kind: TokenKind::Normal });
    proof {
        assert(tokens_view(r@) =~= plain_tokens(line@));
    }
    r
}

pub struct Highlighter {
    pub language: String,
    /// Token list per line, for the content version in `last_version`.
    pub line_tokens: Vec<Vec<Token>>,
    /// The content version `line_tokens` was computed for; -1 forces a rebuild.
    pub last_version: i32,
}

impl Highlighter {
    pub fn new() -> (h: Self)
        ensures
            h.language@.len() == 0,
            h.line_tokens@.len() == 0,
            h.last_version == -1,
    {
        Highlighter { language: String::new(), line_tokens: Vec::new(), last_version: -1 }
    }

    /// Switches to the lower-cased `ext`; a change of language drops the token cache.
    pub fn set_language(&mut self, ext: &str)
        ensures
            final(self).language@ == lowercase(ext@),
            old(self).language@ == lowercase(ext@) ==> *final(self) == *old(self),
            old(self).language@ != lowercase(ext@) ==> final(self).last_version == -1
                && final(self).line_tokens@.len() == 0,
    {
        let new_lang = chars_to_lowercase(&str_chars(ext));
        if !chars_eq(&str_chars(self.language.as_str()), &new_lang) {
            self.language = chars_string(&new_lang);
            self.last_version = -1;
            self.line_tokens = Vec::new();
        }
    }

    /// Picks the language from a file name (see `filename_language`).
    pub fn set_language_from_filename(&mut self, filename: &str)
        ensures
            final(self).language@ == lowercase(filename_language(filename@)),
            old(self).language@ == lowercase(filename_language(filename@)) ==> *final(self) == *old(self),
            old(self).language@ != lowercase(filename_language(filename@)) ==> final(self).last_version == -1
                && final(self).line_tokens@.len() == 0,
    {
        let f = str_chars(filename);
        let lower = chars_to_lowercase(&f);
        if is_text(&lower, "dockerfile") || starts_with_exec(&lower, &str_chars("dockerfile.")) {
            self.set_language("dockerfile");
            return;
        }
        if is_text(&lower, "makefile") || is_text(&lower, "gnumakefile") {
            self.set_language("makefile");
            return;
        }
        let ext = chars_string(&after_last_exec(&f, '.'));
        self.set_language(ext.as_str());
    }

    /// Forces the token cache to be rebuilt.
    pub fn invalidate(&mut self)
        ensures
            final(self).last_version == -1,
            final(self).line_tokens@.len() == 0,
            final(self).language == old(self).language,
    {
        self.last_version = -1;
        self.line_tokens = Vec::new();
    }

    /// Whether the cached tokens are stale for content `version`.
    pub fn needs_update(&self, version: i32) -> (b: bool)
        ensures
            b == (version != self.last_version),
    {
        version != self.last_version
    }

    /// Single-line tokenisation for contexts without cached tokens.
    pub fn tokenize_line(&self, line: &str) -> (r: Vec<Token>)
        ensures
            tokens_view(r@) == plain_tokens(line@),
    {
        tokenize_line_regex(self.language.as_str(), line)
    }
}

} // verus!

verus! {

// ── Replaying highlight events into per-line tokens ──────────────────────────

/// An event of a highlighter's run over a source text: a capture starts
/// (with its index in the capture-name table), the innermost one ends, or a
/// stretch of source (byte offsets) is emitted.
#[derive(Clone, Copy)]
pub enum HighlightStep {
    Start(usize),
    End,
    Source { start: usize, end: usize },
}

/// A line's tokens as plain values.
pub type RowModel = Seq<(Seq<char>, TokenKind)>;

/// The tokens of each line.
pub open spec fn rows_view(v: Seq<Vec<Token>>) -> Seq<RowModel> {
    v.map_values(|row: Vec<Token>| tokens_view(row@))
}

/// The number of newlines in `s`.
pub open spec fn nl_count(s: Seq<char>) -> nat
    decreases s.len(),
{
    if s.len() == 0 {
        0
    } else {
        nl_count(s.drop_last()) + (if s.last() == '\n' { 1nat } else { 0nat })
    }
}

/// The character at which byte offset `b` of the UTF-8 encoding of `c`
/// starts (the end counts); none when `b` falls inside a character or
/// beyond the end.
pub open spec fn char_at_byte(c: Seq<char>, b: int) -> Option<int> {
    if exists|k: int| 0 <= k <= c.len() && crate::editor::search::utf8_len(#[trigger] c.take(k)) == b {
        Some(choose|k: int| 0 <= k <= c.len() && crate::editor::search::utf8_len(#[trigger] c.take(k)) == b)
    } else {
        None
    }
}

/// `res` with `piece` added to line `line` as a token of `kind`, unless the
/// piece is empty or the line does not exist.
pub open spec fn put_piece(res: Seq<RowModel>, line: int, piece: Seq<char>, kind: TokenKind) -> Seq<RowModel> {
    if 0 <= line < res.len() && piece.len() > 0 {
        res.update(line, res[line].push((piece, kind)))
    } else {
        res
    }
}

/// Emits the text `seg` from line `line` on, with `cur` gathered on that
/// line so far: each newline closes a piece and moves to the next line.
pub open spec fn emit_text(res: Seq<RowModel>, line: int, cur: Seq<char>, seg: Seq<char>, kind: TokenKind) -> Seq<RowModel>
    decreases seg.len(),
{
    if seg.len() == 0 {
        put_piece(res, line, cur, kind)
    } else if seg[0] == '\n' {
        emit_text(put_piece(res, line, cur, kind), line + 1, seq![], seg.drop_first(), kind)
    } else {
        emit_text(res, line, cur.push(seg[0]), seg.drop_first(), kind)
    }
}

/// The kind text is drawn in: that of the innermost open capture.
pub open spec fn current_kind(stack: Seq<TokenKind>) -> TokenKind {
    if stack.len() > 0 {
        stack.last()
    } else {
        TokenKind::Normal
    }
}

/// One line per line of `c` (at least one), each without tokens.
pub open spec fn empty_rows(c: Seq<char>) -> Seq<RowModel> {
    Seq::new(if lines(c).len() > 0 { lines(c).len() } else { 1 }, |i: int| seq![])
}

/// The open captures and the tokens after replaying `events` over `c`.
pub open spec fn replay(c: Seq<char>, events: Seq<HighlightStep>) -> (Seq<TokenKind>, Seq<RowModel>)
    decreases events.len(),
{
    if events.len() == 0 {
        (seq![], empty_rows(c))
    } else {
        let (stack, res) = replay(c, events.drop_last());
        match events.last() {
            HighlightStep::Start(h) => (stack.push(capture_kind(h)), res),
            HighlightStep::End => (if stack.len() > 0 { stack.drop_last() } else { stack }, res),
            HighlightStep::Source { start, end } => {
                if start < end && char_at_byte(c, start as int) is Some && char_at_byte(c, end as int) is Some {
                    let ka = char_at_byte(c, start as int)->0;
                    let kb = char_at_byte(c, end as int)->0;
                    (stack, emit_text(res, nl_count(c.take(ka)) as int, seq![], c.subrange(ka, kb), current_kind(stack)))
                } else {
                    (stack, res)
                }
            },
        }
    }
}

/// Lines left without tokens get their whole text as one `Normal` token.
pub open spec fn filled_rows(res: Seq<RowModel>, ls: Seq<Seq<char>>) -> Seq<RowModel> {
    Seq::new(
        res.len(),
        |i: int|
            if i < ls.len() && res[i].len() == 0 && ls[i].len() > 0 {
                seq![(ls[i], TokenKind::Normal)]
            } else {
                res[i]
            },
    )
}

/// The per-line tokens a highlighter's events give for `source`.
pub open spec fn highlighted(source: Seq<char>, events: Seq<HighlightStep>) -> Seq<RowModel> {
    filled_rows(replay(source, events).1, lines(source))
}

/// `str::len`: the number of bytes of the text's UTF-8 encoding.
#[verifier::external_body]
fn str_byte_len(s: &str) -> (n: usize)
    ensures
        n == crate::editor::search::utf8_len(s@),
{
    s.len()
}

proof fn lemma_utf8_prefix(c: Seq<char>, j: int, k: int)
    requires
        0 <= j <= k <= c.len(),
    ensures
        crate::editor::search::utf8_len(c.take(j)) + (k - j) <= crate::editor::search::utf8_len(c.take(k)),
        crate::editor::search::utf8_len(c.take(k)) <= crate::editor::search::utf8_len(c),
    decreases c.len() - j,
{
    if j < c.len() {
        assert(c.take(j + 1).drop_last() =~= c.take(j));
        lemma_utf8_prefix(c, j + 1, if k > j { k } else { j + 1 });
        if k == j {
            assert(c.take(c.len() as int) =~= c);
        }
    } else {
        assert(c.take(c.len() as int) =~= c);
    }
}

/// The byte offset of each character boundary of `c`.
fn byte_offsets(c: &Vec<char>, total: usize) -> (offs: Vec<usize>)
    requires
        total == crate::editor::search::utf8_len(c@),
    ensures
        offs@.len() == c@.len() + 1,
        forall|k: int| 0 <= k <= c@.len() ==> #[trigger] offs@[k] == crate::editor::search::utf8_len(c@.take(k)),
{
    let mut offs: Vec<usize> = Vec::new();
    let mut r: usize = 0;
    offs.push(0);
    proof {
        assert(c@.take(0) =~= seq![]);
    }
    let mut i: usize = 0;
    while i < c.len()
        invariant
            i <= c@.len(),
            total == crate::editor::search::utf8_len(c@),
            offs@.len() == i + 1,
            r == crate::editor::search::utf8_len(c@.take(i as int)),
            forall|k: int| 0 <= k <= i ==> #[trigger] offs@[k] == crate::editor::search::utf8_len(c@.take(k)),
        decreases c.len() - i,
    {
        let ch = c[i] as u32;
        let w: usize = if ch < 0x80 {
            1
        } else if ch < 0x800 {
            2
        } else if ch < 0x10000 {
            3
        } else {
            4
        };
        proof {
            assert(c@.take(i + 1).drop_last() =~= c@.take(i as int));
            lemma_utf8_prefix(c@, i + 1, i + 1);
        }
        r = r + w;
        offs.push(r);
        i += 1;
    }
    offs
}

/// The number of newlines before each character boundary of `c`.
fn newline_counts(c: &Vec<char>) -> (nls: Vec<usize>)
    ensures
        nls@.len() == c@.len() + 1,
        forall|k: int| 0 <= k <= c@.len() ==> #[trigger] nls@[k] == nl_count(c@.take(k)),
        forall|k: int| 0 <= k <= c@.len() ==> nls@[k] <= k,
{
    let mut nls: Vec<usize> = Vec::new();
    let mut r: usize = 0;
    nls.push(0);
    proof {
        assert(c@.take(0) =~= seq![]);
    }
    let mut i: usize = 0;
    while i < c.len()
        invariant
            i <= c@.len(),
            nls@.len() == i + 1,
            r == nl_count(c@.take(i as int)),
            r <= i,
            forall|k: int| 0 <= k <= i ==> #[trigger] nls@[k] == nl_count(c@.take(k)),
            forall|k: int| 0 <= k <= i ==> nls@[k] <= k,
        decreases c.len() - i,
    {
        proof {
            assert(c@.take(i + 1).drop_last() =~= c@.take(i as int));
            assert(c@.take(i + 1).last() == c@[i as int]);
        }
        if c[i] == '\n' {
            r = r + 1;
        }
        nls.push(r);
        i += 1;
    }
    nls
}

/// The character at byte offset `b`, found among the boundaries `offs`.
fn char_at_byte_exec(c: &Vec<char>, offs: &Vec<usize>, b: usize) -> (r: Option<usize>)
    requires
        offs@.len() == c@.len() + 1,
        forall|k: int| 0 <= k <= c@.len() ==> #[trigger] offs@[k] == crate::editor::search::utf8_len(c@.take(k)),
    ensures
        match r {
            Some(k) => char_at_byte(c@, b as int) == Some(k as int) && k <= c@.len(),
            None => char_at_byte(c@, b as int) is None,
        },
{
    let mut k: usize = 0;
    while k < offs.len()
        invariant
            k <= offs@.len(),
            offs@.len() == c@.len() + 1,
            forall|j: int| 0 <= j <= c@.len() ==> #[trigger] offs@[j] == crate::editor::search::utf8_len(c@.take(j)),
            forall|j: int| 0 <= j < k ==> crate::editor::search::utf8_len(#[trigger] c@.take(j)) != b,
        decreases offs.len() - k,
    {
        if offs[k] == b {
            proof {
                assert(crate::editor::search::utf8_len(c@.take(k as int)) == b);
                let m = choose|m: int| 0 <= m <= c@.len() && crate::editor::search::utf8_len(#[trigger] c@.take(m)) == b;
                if m < k {
                    lemma_utf8_prefix(c@, m, k as int);
                } else if m > k {
                    lemma_utf8_prefix(c@, k as int, m);
                }
            }
            return Some(k);
        }
        proof {
            assert(crate::editor::search::utf8_len(c@.take(k as int)) == offs@[k as int]);
        }
        k += 1;
    }
    None
}

fn put_piece_exec(res: &mut Vec<Vec<Token>>, line: usize, piece: &Vec<char>, kind: TokenKind)
    ensures
        rows_view(final(res)@) == put_piece(rows_view(old(res)@), line as int, piece@, kind),
{
    if line < res.len() && piece.len() > 0 {
        let ghost before = res@;
        let mut row = res.remove(line);
        let ghost row0 = row@;
        row.push(Token { text: chars_string(piece), kind });
        res.insert(line, row);
        proof {
            assert(tokens_view(row@) =~= tokens_view(row0).push((piece@, kind)));
            assert(rows_view(res@) =~= rows_view(before).update(line as int, tokens_view(row0).push((piece@, kind))));
        }
    }
}

fn emit_text_exec(res: &mut Vec<Vec<Token>>, c: &Vec<char>, ka: usize, kb: usize, line0: usize, kind: TokenKind)
    requires
        ka <= kb <= c@.len(),
        line0 <= ka,
    ensures
        rows_view(final(res)@) == emit_text(rows_view(old(res)@), line0 as int, seq![], c@.subrange(ka as int, kb as int), kind),
{
    let mut cur: Vec<char> = Vec::new();
    let mut line = line0;
    let mut k = ka;
    while k < kb
        invariant
            ka <= k <= kb <= c@.len(),
            line <= k,
            emit_text(rows_view(old(res)@), line0 as int, seq![], c@.subrange(ka as int, kb as int), kind) == emit_text(
                rows_view(res@),
                line as int,
                cur@,
                c@.subrange(k as int, kb as int),
                kind,
            ),
        decreases kb - k,
    {
        proof {
            assert(c@.subrange(k as int, kb as int)[0] == c@[k as int]);
            assert(c@.subrange(k as int, kb as int).drop_first() =~= c@.subrange(k + 1, kb as int));
        }
        if c[k] == '\n' {
            put_piece_exec(res, line, &cur, kind);
            line = line + 1;
            cur = Vec::new();
            proof {
                assert(cur@ =~= seq![]);
            }
        } else {
            cur.push(c[k]);
        }
        k += 1;
    }
    put_piece_exec(res, line, &cur, kind);
}

/// The per-line tokens for `source` from a highlighter's events: captured
/// stretches are split at newlines and added to their lines in the kind of
/// the innermost capture; stretches that do not fall on character
/// boundaries are skipped; lines left without tokens get their text as one
/// `Normal` token.
pub fn tokens_from_events(source: &str, events: &Vec<HighlightStep>) -> (r: Vec<Vec<Token>>)
    ensures
        rows_view(r@) == highlighted(source@, events@),
{
    let c = str_chars(source);
    let total = str_byte_len(source);
    let offs = byte_offsets(&c, total);
    let nls = newline_counts(&c);
    let ls = crate::text::split_lines(&c);
    let nrows = if ls.len() > 0 {
        ls.len()
    } else {
        1
    };
    let mut res: Vec<Vec<Token>> = Vec::new();
    let mut j: usize = 0;
    while j < nrows
        invariant
            j <= nrows,
            res@.len() == j,
            forall|m: int| 0 <= m < j ==> (#[trigger] res@[m])@.len() == 0,
        decreases nrows - j,
    {
        res.push(Vec::new());
        j += 1;
    }
    proof {
        assert(crate::text::seqs_of(ls@).len() == ls@.len());
        assert forall|q: int| 0 <= q < res@.len() implies #[trigger] rows_view(res@)[q] == empty_rows(c@)[q] by {
            assert(tokens_view(res@[q]@) =~= seq![]);
        }
        assert(rows_view(res@) =~= empty_rows(c@));
    }
    let mut stack: Vec<TokenKind> = Vec::new();
    let mut i: usize = 0;
    proof {
        assert(events@.take(0) =~= seq![]);
    }
    while i < events.len()
        invariant
            i <= events@.len(),
            c@ == source@,
            offs@.len() == c@.len() + 1,
            forall|k: int| 0 <= k <= c@.len() ==> #[trigger] offs@[k] == crate::editor::search::utf8_len(c@.take(k)),
            nls@.len() == c@.len() + 1,
            forall|k: int| 0 <= k <= c@.len() ==> #[trigger] nls@[k] == nl_count(c@.take(k)),
            forall|k: int| 0 <= k <= c@.len() ==> nls@[k] <= k,
            (stack@, rows_view(res@)) == replay(c@, events@.take(i as int)),
        decreases events.len() - i,
    {
        proof {
            assert(events@.take(i + 1).drop_last() =~= events@.take(i as int));
            assert(events@.take(i + 1).last() == events@[i as int]);
        }
        let ghost kind0 = current_kind(stack@);
        match events[i] {
            HighlightStep::Start(h) => {
                stack.push(capture_idx_to_kind(h));
            },
            HighlightStep::End => {
                let _ = stack.pop();
            },
            HighlightStep::Source { start, end } => {
                if start < end {
                    let a = char_at_byte_exec(&c, &offs, start);
                    let b = char_at_byte_exec(&c, &offs, end);
                    match (a, b) {
                        (Some(ka), Some(kb)) => {
                            let kind = if stack.len() > 0 {
                                stack[stack.len() - 1]
                            } else {
                                TokenKind::Normal
                            };
                            proof {
                                if kb < ka {
                                    lemma_utf8_prefix(c@, kb as int, ka as int);
                                }
                            }
                            emit_text_exec(&mut res, &c, ka, kb, nls[ka], kind);
                        },
                        _ => {},
                    }
                }
            },
        }
        i += 1;
    }
    proof {
        assert(events@.take(events@.len() as int) =~= events@);
    }
    let ghost pre = rows_view(res@);
    let mut m: usize = 0;
    while m < res.len()
        invariant
            m <= res@.len(),
            pre.len() == res@.len(),
            crate::text::seqs_of(ls@) == lines(source@),
            forall|q: int| 0 <= q < m ==> #[trigger] rows_view(res@)[q] == filled_rows(pre, lines(source@))[q],
            forall|q: int| m <= q < res@.len() ==> #[trigger] rows_view(res@)[q] == pre[q],
        decreases res.len() - m,
    {
        proof {
            assert(crate::text::seqs_of(ls@).len() == ls@.len());
            assert(rows_view(res@)[m as int] == tokens_view(res@[m as int]@));
            assert(tokens_view(res@[m as int]@).len() == res@[m as int]@.len());
            if m < ls@.len() {
                assert(crate::text::seqs_of(ls@)[m as int] == ls@[m as int]@);
            }
        }
        if m < ls.len() && res[m].len() == 0 && ls[m].len() > 0 {
            let ghost before = res@;
            let _ = res.remove(m);
            let mut row: Vec<Token> = Vec::new();
            row.push(Token { text: chars_string(&ls[m]), kind: TokenKind::Normal });
            res.insert(m, row);
            proof {
                assert(tokens_view(row@) =~= seq![(ls@[m as int]@, TokenKind::Normal)]);
                assert(res@ =~= before.update(m as int, row));
                assert forall|q: int| 0 <= q < res@.len() && q != m implies #[trigger] rows_view(res@)[q] == rows_view(before)[q] by {
                    assert(res@[q] == before[q]);
                }
                assert(rows_view(res@)[m as int] == tokens_view(row@));
            }
        }
        m += 1;
    }
    proof {
        assert(rows_view(res@) =~= filled_rows(pre, lines(source@)));
    }
    res
}

} // verus!

verus! {

/// With no events from the highlighter, each line is shown as its own text
/// in one `Normal` token (an empty line has none).
pub proof fn lemma_no_events_plain(source: Seq<char>)
    requires
        lines(source).len() > 0,
    ensures
        highlighted(source, seq![]) == lines(source).map_values(|l: Seq<char>| plain_tokens(l)),
{
    assert(replay(source, seq![]).1 == empty_rows(source));
    assert(highlighted(source, seq![]) =~= lines(source).map_values(|l: Seq<char>| plain_tokens(l)));
}

} // verus!

verus! {

// ── Rebuilding the token cache ───────────────────────────────────────────────

/// The token lists of several lines.
pub open spec fn rows_of(v: Seq<Vec<Token>>) -> Seq<RowModel> {
    rows_view(v)
}

/// A present token list, or none.
pub open spec fn opt_row(o: Option<Vec<Token>>) -> Option<RowModel> {
    match o {
        Some(v) => Some(tokens_view(v@)),
        None => None,
    }
}

/// The tokens of line `i` from a line-by-line tokenizer: its own result
/// when it gives one, else the plain tokens of the line.
pub open spec fn line_or_plain(results: Seq<Option<Vec<Token>>>, ls: Seq<Seq<char>>, i: int) -> RowModel {
    if i < results.len() && results[i] is Some {
        tokens_view(results[i]->0@)
    } else {
        plain_tokens(ls[i])
    }
}

/// Some line has more than one token, or a first token that is not `Normal`.
pub open spec fn has_styling(rows: Seq<RowModel>) -> bool {
    exists|i: int| 0 <= i < rows.len() && (rows[i].len() > 1 || (rows[i].len() > 0 && rows[i][0].1 != TokenKind::Normal))
}

/// The token cache for `source` from the tokenizers that answered: a
/// document tokenizer's non-empty result; else the highlighter's result;
/// else a line tokenizer's results when they style anything; else each
/// line as plain text.
pub open spec fn document_rows(
    source: Seq<char>,
    doc: Option<Seq<RowModel>>,
    highlighted_rows: Option<Seq<RowModel>>,
    per_line: Option<Seq<Option<Vec<Token>>>>,
) -> Seq<RowModel> {
    let ls = lines(source);
    if doc is Some && doc->0.len() > 0 {
        doc->0
    } else if highlighted_rows is Some {
        highlighted_rows->0
    } else if per_line is Some && has_styling(Seq::new(ls.len(), |i: int| line_or_plain(per_line->0, ls, i))) {
        Seq::new(ls.len(), |i: int| line_or_plain(per_line->0, ls, i))
    } else {
        ls.map_values(|l: Seq<char>| plain_tokens(l))
    }
}

pub open spec fn opt_rows(o: Option<Vec<Vec<Token>>>) -> Option<Seq<RowModel>> {
    match o {
        Some(v) => Some(rows_view(v@)),
        None => None,
    }
}

fn copy_tokens(v: &Vec<Token>) -> (r: Vec<Token>)
    ensures
        tokens_view(r@) == tokens_view(v@),
{
    let mut r: Vec<Token> = Vec::new();
    let mut i: usize = 0;
    while i < v.len()
        invariant
            i <= v@.len(),
            tokens_view(r@) == tokens_view(v@).take(i as int),
        decreases v.len() - i,
    {
        let t = Token { text: crate::text::copy_string(&v[i].text), kind: v[i].kind };
        let ghost prev = r@;
        r.push(t);
        proof {
            assert(tokens_view(r@) =~= tokens_view(prev).push((v@[i as int].text@, v@[i as int].kind)));
            assert(tokens_view(v@).take(i + 1) =~= tokens_view(v@).take(i as int).push((v@[i as int].text@, v@[i as int].kind)));
        }
        i += 1;
    }
    proof {
        assert(tokens_view(v@).take(v@.len() as int) =~= tokens_view(v@));
    }
    r
}

fn is_styled(row: &Vec<Token>) -> (b: bool)
    ensures
        b == (tokens_view(row@).len() > 1 || (tokens_view(row@).len() > 0 && tokens_view(row@)[0].1 != TokenKind::Normal)),
{
    row.len() > 1 || (row.len() > 0 && row[0].kind != TokenKind::Normal)
}

impl Highlighter {
    /// Rebuilds the token cache for content `version` of `source` (nothing
    /// happens when the cache is already for that version), from what the
    /// tokenizers gave: `doc` from a document tokenizer, `highlighted_rows`
    /// from the built-in highlighter, `per_line` from a line tokenizer
    /// (each `None` when that tokenizer is not there or gave nothing).
    pub fn highlight_document(
        &mut self,
        source: &str,
        version: i32,
        doc: Option<Vec<Vec<Token>>>,
        highlighted_rows: Option<Vec<Vec<Token>>>,
        per_line: Option<Vec<Option<Vec<Token>>>>,
    )
        ensures
            version == old(self).last_version ==> *final(self) == *old(self),
            version != old(self).last_version ==> {
                &&& final(self).last_version == version
                &&& final(self).language == old(self).language
                &&& rows_view(final(self).line_tokens@) == document_rows(
                    source@,
                    opt_rows(doc),
                    opt_rows(highlighted_rows),
                    match per_line {
                        Some(v) => Some(v@),
                        None => None,
                    },
                )
            },
    {
        if version == self.last_version {
            return;
        }
        self.last_version = version;
        match doc {
            Some(d) => {
                if d.len() > 0 {
                    self.line_tokens = d;
                    return;
                }
            },
            None => {},
        }
        match highlighted_rows {
            Some(h) => {
                self.line_tokens = h;
                return;
            },
            None => {},
        }
        let ls = crate::text::split_lines(&str_chars(source));
        let ghost lsv = lines(source@);
        match per_line {
            Some(results) => {
                let mut rows: Vec<Vec<Token>> = Vec::new();
                let mut styled = false;
                let mut i: usize = 0;
                while i < ls.len()
                    invariant
                        i <= ls@.len(),
                        crate::text::seqs_of(ls@) == lsv,
                        rows@.len() == i,
                        forall|k: int| 0 <= k < i ==> #[trigger] tokens_view(rows@[k]@) == line_or_plain(results@, lsv, k),
                        styled == exists|k: int|
                            0 <= k < i && (line_or_plain(results@, lsv, k).len() > 1 || (line_or_plain(results@, lsv, k).len() > 0
                                && line_or_plain(results@, lsv, k)[0].1 != TokenKind::Normal)),
                    decreases ls.len() - i,
                {
                    proof {
                        assert(crate::text::seqs_of(ls@)[i as int] == ls@[i as int]@);
                    }
                    let row = if i < results.len() {
                        match &results[i] {
                            Some(t) => copy_tokens(t),
                            None => tokenize_line_regex("", chars_string(&ls[i]).as_str()),
                        }
                    } else {
                        tokenize_line_regex("", chars_string(&ls[i]).as_str())
                    };
                    proof {
                        assert(tokens_view(row@) == line_or_plain(results@, lsv, i as int));
                    }
                    let ghost prev_rows = rows@;
                    if is_styled(&row) {
                        styled = true;
                    }
                    rows.push(row);
                    proof {
                        assert forall|k: int| 0 <= k < i + 1 implies #[trigger] tokens_view(rows@[k]@) == line_or_plain(results@, lsv, k) by {
                            if k < i {
                                assert(rows@[k] == prev_rows[k]);
                            }
                        }
                    }
                    i += 1;
                }
                proof {
                    let all = Seq::new(lsv.len(), |k: int| line_or_plain(results@, lsv, k));
                    assert(rows_view(rows@) =~= all);
                    if styled {
                        let k = choose|k: int|
                            0 <= k < i && (line_or_plain(results@, lsv, k).len() > 1 || (line_or_plain(results@, lsv, k).len() > 0
                                && line_or_plain(results@, lsv, k)[0].1 != TokenKind::Normal));
                        assert(all[k] == line_or_plain(results@, lsv, k));
                    } else {
                        assert forall|k: int| 0 <= k < all.len() implies !(all[k].len() > 1 || (all[k].len() > 0 && all[k][0].1
                            != TokenKind::Normal)) by {
                            assert(all[k] == line_or_plain(results@, lsv, k));
                        }
                    }
                }
                if styled {
                    self.line_tokens = rows;
                    return;
                }
            },
            None => {},
        }
        let mut plain: Vec<Vec<Token>> = Vec::new();
        let mut j: usize = 0;
        while j < ls.len()
            invariant
                j <= ls@.len(),
                crate::text::seqs_of(ls@) == lsv,
                rows_view(plain@) == lsv.take(j as int).map_values(|l: Seq<char>| plain_tokens(l)),
            decreases ls.len() - j,
        {
            proof {
                assert(crate::text::seqs_of(ls@)[j as int] == ls@[j as int]@);
            }
            let row = tokenize_line_regex("", chars_string(&ls[j]).as_str());
            let ghost prev_plain = plain@;
            plain.push(row);
            proof {
                assert(rows_view(plain@) =~= rows_view(prev_plain).push(plain_tokens(lsv[j as int])));
                assert(rows_view(plain@) =~= lsv.take(j + 1).map_values(|l: Seq<char>| plain_tokens(l)));
            }
            j += 1;
        }
        proof {
            assert(lsv.take(lsv.len() as int) =~= lsv);
        }
        self.line_tokens = plain;
    }

    /// The tokens of line `line_idx`: the cached ones when there are some,
    /// else `plugin_tokens` (a line tokenizer's answer), else the line as
    /// plain text.
    pub fn tokens_for_line(&self, line_idx: usize, line_text: &str, plugin_tokens: Option<Vec<Token>>) -> (r: Vec<Token>)
        ensures
            tokens_view(r@) == (if line_idx < self.line_tokens@.len() && self.line_tokens@[line_idx as int]@.len() > 0 {
                tokens_view(self.line_tokens@[line_idx as int]@)
            } else {
                match plugin_tokens {
                    Some(t) => tokens_view(t@),
                    None => plain_tokens(line_text@),
                }
            }),
    {
        if line_idx < self.line_tokens.len() && self.line_tokens[line_idx].len() > 0 {
            return copy_tokens(&self.line_tokens[line_idx]);
        }
        match plugin_tokens {
            Some(t) => t,
            None => tokenize_line_regex(self.language.as_str(), line_text),
        }
    }
}

} // verus!
