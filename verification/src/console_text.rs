//! Text helpers of the install console and the detail panes: token
//! classification, splitting console lines into chunks, shortening long
//! values, repository links and language labels.
use vstd::prelude::*;

use crate::items::names;
use crate::text::{
    ascii_upper, chars_of, eq_ignore_ascii_case, is_ws, is_ws_exec, push_char, push_chars,
    push_str, string_of, trim, trimmed_chars, upper_of,
};

verus! {

/// Which characters are stripped from the ends of a token.
#[derive(Debug, Clone, Copy, PartialEq, Eq, Structural)]
pub enum StripSet {
    /// `,` `.` `:` `;`
    Punctuation,
    /// everything but ASCII letters and digits, `_`, `-`, `[` and `]`
    NonWord,
    /// `/`
    Slash,
}

pub open spec fn is_ascii_alnum(c: char) -> bool {
    ('a' <= c && c <= 'z') || ('A' <= c && c <= 'Z') || ('0' <= c && c <= '9')
}

pub open spec fn strips(set: StripSet, c: char) -> bool {
    match set {
        StripSet::Punctuation => c == ',' || c == '.' || c == ':' || c == ';',
        StripSet::NonWord => !is_ascii_alnum(c) && c != '_' && c != '-' && c != '[' && c != ']',
        StripSet::Slash => c == '/',
    }
}

fn strips_exec(set: StripSet, c: char) -> (r: bool)
    ensures
        r == strips(set, c),
{
    match set {
        StripSet::Punctuation => c == ',' || c == '.' || c == ':' || c == ';',
        StripSet::NonWord => !(('a' <= c && c <= 'z') || ('A' <= c && c <= 'Z') || ('0' <= c && c
            <= '9')) && c != '_' && c != '-' && c != '[' && c != ']',
        StripSet::Slash => c == '/',
    }
}

/// Number of leading characters in the set.
pub open spec fn lead_in(s: Seq<char>, set: StripSet) -> nat
    decreases s.len(),
{
    if s.len() > 0 && strips(set, s[0]) { 1 + lead_in(s.drop_first(), set) } else { 0 }
}

/// Number of trailing characters in the set.
pub open spec fn trail_in(s: Seq<char>, set: StripSet) -> nat
    decreases s.len(),
{
    if s.len() > 0 && strips(set, s.last()) { 1 + trail_in(s.drop_last(), set) } else { 0 }
}

/// `s` without the characters of the set at either end (`trim_matches`).
pub open spec fn strip_both(s: Seq<char>, set: StripSet) -> Seq<char> {
    let t = s.skip(lead_in(s, set) as int);
    t.take(t.len() - trail_in(t, set))
}

/// `s` without the characters of the set at its start (`trim_start_matches`).
pub open spec fn strip_start(s: Seq<char>, set: StripSet) -> Seq<char> {
    s.skip(lead_in(s, set) as int)
}

proof fn lemma_lead_in(s: Seq<char>, set: StripSet, i: int)
    requires
        0 <= i <= s.len(),
        forall|k: int| 0 <= k < i ==> strips(set, #[trigger] s[k]),
        i == s.len() || !strips(set, s[i]),
    ensures
        lead_in(s, set) == i,
    decreases i,
{
    if i > 0 {
        lemma_lead_in(s.drop_first(), set, i - 1);
    }
}

proof fn lemma_trail_in(s: Seq<char>, set: StripSet, i: int)
    requires
        0 <= i <= s.len(),
        forall|k: int| s.len() - i <= k < s.len() ==> strips(set, #[trigger] s[k]),
        i == s.len() || !strips(set, s[s.len() - i - 1]),
    ensures
        trail_in(s, set) == i,
    decreases i,
{
    if i > 0 {
        lemma_trail_in(s.drop_last(), set, i - 1);
    }
}

/// Strips the characters of the set from both ends (or only the start).
fn strip_chars(cs: &Vec<char>, set: StripSet, both: bool) -> (v: Vec<char>)
    ensures
        both ==> v@ == strip_both(cs@, set),
        !both ==> v@ == strip_start(cs@, set),
{
    let n = cs.len();
    let mut start: usize = 0;
    while start < n && strips_exec(set, cs[start])
        invariant
            start <= n,
            n == cs@.len(),
            forall|k: int| 0 <= k < start ==> strips(set, #[trigger] cs@[k]),
        decreases n - start,
    {
        start += 1;
    }
    proof {
        lemma_lead_in(cs@, set, start as int);
    }
    let mut end: usize = n;
    if both {
        while end > start && strips_exec(set, cs[end - 1])
            invariant
                start <= end <= n,
                n == cs@.len(),
                forall|k: int| end <= k < n ==> strips(set, #[trigger] cs@[k]),
            decreases end - start,
        {
            end -= 1;
        }
        let ghost t = cs@.skip(start as int);
        proof {
            assert forall|k: int| t.len() - (n - end) <= k < t.len() implies strips(set, #[trigger] t[k]) by {
                assert(t[k] == cs@[k + start]);
            }
            if end > start {
                assert(t[t.len() - (n - end) - 1] == cs@[end - 1]);
            }
            lemma_trail_in(t, set, (n - end) as int);
        }
    }
    let mut v: Vec<char> = Vec::new();
    let mut i: usize = start;
    while i < end
        invariant
            start <= i <= end <= n,
            n == cs@.len(),
            v@ == cs@.subrange(start as int, i as int),
        decreases end - i,
    {
        v.push(cs[i]);
        i += 1;
        assert(v@ =~= cs@.subrange(start as int, i as int));
    }
    if both {
        assert(v@ =~= strip_both(cs@, set));
    } else {
        assert(v@ =~= strip_start(cs@, set));
    }
    v
}

/// A component id token: after stripping `,.:;` from both ends it is `#`
/// followed by ASCII digits only.
pub open spec fn component_id_token(token: Seq<char>) -> bool {
    let t = strip_both(token, StripSet::Punctuation);
    t.len() > 0 && t[0] == '#' && forall|i: int| 1 <= i < t.len() ==> '0' <= #[trigger] t[i] && t[i] <= '9'
}

pub fn is_component_id_token(token: &str) -> (r: bool)
    ensures
        r == component_id_token(token@),
{
    let cs = chars_of(token);
    let t = strip_chars(&cs, StripSet::Punctuation, true);
    if t.len() == 0 || t[0] != '#' {
        return false;
    }
    let mut i: usize = 1;
    while i < t.len()
        invariant
            1 <= i <= t@.len(),
            t@ == strip_both(token@, StripSet::Punctuation),
            forall|k: int| 1 <= k < i ==> '0' <= #[trigger] t@[k] && t@[k] <= '9',
        decreases t@.len() - i,
    {
        if !('0' <= t[i] && t[i] <= '9') {
            assert(!('0' <= t@[i as int] && t@[i as int] <= '9'));
            return false;
        }
        i += 1;
    }
    true
}

/// A token reduced for comparison: everything but ASCII letters, digits,
/// `_`, `-`, `[` and `]` stripped from both ends, then ASCII upper-cased.
pub open spec fn normalized(token: Seq<char>) -> Seq<char> {
    ascii_upper(strip_both(token, StripSet::NonWord))
}

pub fn normalized_token(token: &str) -> (r: String)
    ensures
        r@ == normalized(token@),
{
    let cs = chars_of(token);
    let t = strip_chars(&cs, StripSet::NonWord, true);
    let mut r = String::new();
    let mut i: usize = 0;
    while i < t.len()
        invariant
            i <= t@.len(),
            t@ == strip_both(token@, StripSet::NonWord),
            r@ == ascii_upper(t@).take(i as int),
        decreases t@.len() - i,
    {
        push_char(&mut r, upper_of(t[i]));
        i += 1;
        assert(r@ =~= ascii_upper(t@).take(i as int));
    }
    assert(ascii_upper(t@).take(t@.len() as int) =~= ascii_upper(t@));
    r
}

// ---------------------------------------------------------------- chunks

/// The chunks finished so far, the chunk being built, and whether a quote
/// is open, after reading `cs`.
pub open spec fn chunk_state(cs: Seq<char>) -> (Seq<Seq<char>>, Seq<char>, bool)
    decreases cs.len(),
{
    if cs.len() == 0 {
        (seq![], seq![], false)
    } else {
        let (out, cur, quoted) = chunk_state(cs.drop_last());
        let ch = cs.last();
        if ch == '"' {
            (out, cur.push(ch), !quoted)
        } else if is_ws(ch) && !quoted {
            (out.push(cur.push(ch)), seq![], quoted)
        } else {
            (out, cur.push(ch), quoted)
        }
    }
}

/// The chunks of a console line: each chunk ends just after a whitespace
/// character outside double quotes; the rest of the line is the last chunk.
pub open spec fn chunks_of(cs: Seq<char>) -> Seq<Seq<char>> {
    let (out, cur, _) = chunk_state(cs);
    if cur.len() > 0 {
        out.push(cur)
    } else {
        out
    }
}

/// The chunks written one after the other.
pub open spec fn joined(chunks: Seq<Seq<char>>) -> Seq<char>
    decreases chunks.len(),
{
    if chunks.len() == 0 {
        seq![]
    } else {
        joined(chunks.drop_last()) + chunks.last()
    }
}

proof fn lemma_chunk_state(cs: Seq<char>)
    ensures
        joined(chunk_state(cs).0) + chunk_state(cs).1 == cs,
        forall|i: int|
            0 <= i < chunk_state(cs).0.len() ==> (#[trigger] chunk_state(cs).0[i]).len() > 0 && is_ws(
                chunk_state(cs).0[i].last(),
            ),
    decreases cs.len(),
{
    if cs.len() > 0 {
        lemma_chunk_state(cs.drop_last());
        let (out, cur, quoted) = chunk_state(cs.drop_last());
        let ch = cs.last();
        assert(cs =~= cs.drop_last().push(ch));
        if ch == '"' {
            assert(joined(out) + cur.push(ch) =~= (joined(out) + cur).push(ch));
        } else if is_ws(ch) && !quoted {
            let o2 = out.push(cur.push(ch));
            assert(o2.drop_last() =~= out);
            assert(joined(o2) + Seq::<char>::empty() =~= (joined(out) + cur).push(ch));
            assert forall|i: int| 0 <= i < o2.len() implies (#[trigger] o2[i]).len() > 0 && is_ws(o2[i].last()) by {
                if i < out.len() {
                    assert(o2[i] == out[i]);
                }
            }
        } else {
            assert(joined(out) + cur.push(ch) =~= (joined(out) + cur).push(ch));
        }
    }
}

/// Splitting a console line loses nothing: the chunks written one after
/// the other give the line back, none is empty, and every chunk but the
/// last ends in a whitespace character.
pub proof fn law_chunks_give_the_line_back(cs: Seq<char>)
    ensures
        joined(chunks_of(cs)) == cs,
        forall|i: int| 0 <= i < chunks_of(cs).len() ==> (#[trigger] chunks_of(cs)[i]).len() > 0,
        forall|i: int| 0 <= i < chunks_of(cs).len() - 1 ==> is_ws((#[trigger] chunks_of(cs)[i]).last()),
{
    lemma_chunk_state(cs);
    let (out, cur, _) = chunk_state(cs);
    if cur.len() > 0 {
        assert(out.push(cur).drop_last() =~= out);
        assert forall|i: int| 0 <= i < out.push(cur).len() implies (#[trigger] out.push(cur)[i]).len() > 0 by {
            if i < out.len() {
                assert(out.push(cur)[i] == out[i]);
            }
        }
        assert forall|i: int| 0 <= i < out.push(cur).len() - 1 implies is_ws((#[trigger] out.push(cur)[i]).last()) by {
            assert(out.push(cur)[i] == out[i]);
        }
    } else {
        assert(joined(out) + cur =~= joined(out));
    }
}

pub fn split_chunks_preserve_quotes(line: &str) -> (out: Vec<String>)
    ensures
        names(out@) == chunks_of(line@),
{
    let cs = chars_of(line);
    let mut out: Vec<String> = Vec::new();
    let mut cur: Vec<char> = Vec::new();
    let mut in_quote = false;
    let mut i: usize = 0;
    while i < cs.len()
        invariant
            i <= cs@.len(),
            cs@ == line@,
            (names(out@), cur@, in_quote) == chunk_state(cs@.take(i as int)),
        decreases cs@.len() - i,
    {
        let ch = cs[i];
        assert(cs@.take(i + 1).drop_last() =~= cs@.take(i as int));
        let ghost before = out@;
        if ch == '"' {
            in_quote = !in_quote;
            cur.push(ch);
        } else {
            cur.push(ch);
            if is_ws_exec(ch) && !in_quote {
                out.push(string_of(&cur));
                cur = Vec::new();
                assert(names(out@) =~= names(before).push(chunk_state(cs@.take(i as int)).1.push(ch)));
            }
        }
        i += 1;
    }
    assert(cs@.take(cs@.len() as int) =~= cs@);
    if cur.len() > 0 {
        let ghost before = out@;
        out.push(string_of(&cur));
        assert(names(out@) =~= names(before).push(cur@));
    }
    out
}

// ---------------------------------------------------------- shortening

/// The value, or when longer than `max_chars` characters its first
/// `max_chars - 3` characters (none when `max_chars < 3`) and `...`.
pub open spec fn ellipsized(value: Seq<char>, max_chars: nat) -> Seq<char> {
    if value.len() <= max_chars {
        value
    } else {
        value.take(if max_chars >= 3 { max_chars - 3 } else { 0 }) + "..."@
    }
}

pub fn ellipsize_end(value: &str, max_chars: usize) -> (r: String)
    ensures
        r@ == ellipsized(value@, max_chars as nat),
{
    let cs = chars_of(value);
    if cs.len() <= max_chars {
        return String::from_str(value);
    }
    let keep = if max_chars >= 3 {
        max_chars - 3
    } else {
        0
    };
    let mut prefix: Vec<char> = Vec::new();
    let mut i: usize = 0;
    while i < keep
        invariant
            i <= keep < cs@.len(),
            prefix@ == cs@.take(i as int),
        decreases keep - i,
    {
        prefix.push(cs[i]);
        i += 1;
        assert(prefix@ =~= cs@.take(i as int));
    }
    let mut r = string_of(&prefix);
    push_str(&mut r, "...");
    r
}

/// Whether `s` starts with `p`.
pub open spec fn starts_with(s: Seq<char>, p: Seq<char>) -> bool {
    p.len() <= s.len() && s.take(p.len() as int) == p
}

fn chars_start_with(s: &Vec<char>, p: &str) -> (r: bool)
    ensures
        r == starts_with(s@, p@),
{
    let pc = chars_of(p);
    if pc.len() > s.len() {
        return false;
    }
    let mut i: usize = 0;
    while i < pc.len()
        invariant
            i <= pc@.len() <= s@.len(),
            pc@ == p@,
            forall|k: int| 0 <= k < i ==> s@[k] == pc@[k],
        decreases pc@.len() - i,
    {
        if s[i] != pc[i] {
            assert(s@.take(pc@.len() as int)[i as int] != pc@[i as int]);
            return false;
        }
        i += 1;
    }
    assert(s@.take(pc@.len() as int) =~= pc@);
    true
}

/// A repository link: an `http://` or `https://` address as it is
/// (trimmed), anything else taken as `owner/repo` on GitHub.
pub open spec fn repo_url(value: Seq<char>) -> Seq<char> {
    let t = trim(value);
    if starts_with(t, "http://"@) || starts_with(t, "https://"@) {
        t
    } else {
        "https://github.com/"@ + strip_start(t, StripSet::Slash)
    }
}

pub fn github_repo_url(value: &str) -> (r: String)
    ensures
        r@ == repo_url(value@),
{
    let t = trimmed_chars(value);
    if chars_start_with(&t, "http://") || chars_start_with(&t, "https://") {
        return string_of(&t);
    }
    let rest = strip_chars(&t, StripSet::Slash, false);
    let mut r = String::from_str("https://github.com/");
    push_chars(&mut r, &rest);
    r
}

// -------------------------------------------------------------- languages

/// The game languages offered in step 1: locale and label.
pub open spec fn language_options() -> Seq<(&'static str, &'static str)> {
    seq![
        ("en_US", "English"),
        ("de_DE", "German"),
        ("fr_FR", "French"),
        ("es_ES", "Spanish"),
        ("it_IT", "Italian"),
        ("pl_PL", "Polish"),
        ("pt_BR", "Portuguese"),
        ("cs_CZ", "Czech"),
        ("tr_TR", "Turkish"),
        ("uk_UA", "Ukrainian"),
        ("ru_RU", "Russian"),
    ]
}

pub fn step1_language_options() -> (v: Vec<(&'static str, &'static str)>)
    ensures
        v@ == language_options(),
{
    let mut v = Vec::new();
    v.push(("en_US", "English"));
    v.push(("de_DE", "German"));
    v.push(("fr_FR", "French"));
    v.push(("es_ES", "Spanish"));
    v.push(("it_IT", "Italian"));
    v.push(("pl_PL", "Polish"));
    v.push(("pt_BR", "Portuguese"));
    v.push(("cs_CZ", "Czech"));
    v.push(("tr_TR", "Turkish"));
    v.push(("uk_UA", "Ukrainian"));
    v.push(("ru_RU", "Russian"));
    assert(v@ =~= language_options());
    v
}

/// The label of the first option whose locale equals `value` ignoring
/// ASCII case, from position `from` on; `value` itself when none does.
pub open spec fn language_label(opts: Seq<(&'static str, &'static str)>, value: Seq<char>, from: int) -> Seq<char>
    decreases opts.len() - from,
{
    if from < 0 || from >= opts.len() {
        value
    } else if eq_ignore_ascii_case(opts[from].0@, value) {
        opts[from].1@
    } else {
        language_label(opts, value, from + 1)
    }
}

pub fn step1_language_label(value: &str) -> (r: String)
    ensures
        r@ == language_label(language_options(), value@, 0),
{
    let opts = step1_language_options();
    let vc = chars_of(value);
    let mut i: usize = 0;
    while i < opts.len()
        invariant
            i <= opts@.len(),
            opts@ == language_options(),
            vc@ == value@,
            language_label(opts@, value@, i as int) == language_label(opts@, value@, 0),
        decreases opts@.len() - i,
    {
        let lc = chars_of(opts[i].0);
        if crate::text::chars_eq_ignore_ascii_case(&lc, &vc) {
            return String::from_str(opts[i].1);
        }
        i += 1;
    }
    String::from_str(value)
}

// ----------------------------------------------------------- token tones

/// The colour class of a console token.
#[derive(Debug, Clone, Copy, PartialEq, Eq, Structural)]
pub enum TokenTone {
    Default,
    Error,
    Warning,
    Debug,
    Info,
    Sent,
    Sand,
    Dim,
    Success,
}

/// `sub` occurs in `s`.
pub open spec fn has_part(s: Seq<char>, sub: Seq<char>) -> bool {
    exists|i: int| 0 <= i && i + sub.len() <= s.len() && #[trigger] s.subrange(i, i + sub.len()) == sub
}

/// Whether `sub` occurs in `s`.
fn chars_contain(s: &Vec<char>, sub: &str) -> (r: bool)
    ensures
        r == has_part(s@, sub@),
{
    let p = chars_of(sub);
    if p.len() > s.len() {
        assert forall|i: int| 0 <= i && i + p@.len() <= s@.len() implies #[trigger] s@.subrange(i, i + p@.len()) != p@ by {}
        return false;
    }
    let slen = s.len();
    let last = slen - p.len();
    let mut i: usize = 0;
    while i <= last
        invariant
            last == s@.len() - p@.len(),
            slen == s@.len(),
            p@ == sub@,
            forall|k: int| 0 <= k < i ==> #[trigger] s@.subrange(k, k + p@.len()) != p@,
        decreases last + 1 - i,
    {
        let mut j: usize = 0;
        let mut same = true;
        while j < p.len()
            invariant
                i <= last,
                slen == s@.len(),
                last == s@.len() - p@.len(),
                i + p@.len() <= s@.len(),
                j <= p@.len(),
                same == forall|q: int| 0 <= q < j ==> s@[i + q] == p@[q],
            decreases p@.len() - j,
        {
            if s[i + j] != p[j] {
                same = false;
            }
            j += 1;
        }
        if same {
            assert(s@.subrange(i as int, i + p@.len()) =~= p@);
            return true;
        }
        assert(s@.subrange(i as int, i + p@.len()) != p@) by {
            let q = choose|q: int| 0 <= q < p@.len() && s@[i + q] != p@[q];
            assert(s@.subrange(i as int, i + p@.len())[q] != p@[q]);
        }
        if i == last {
            assert forall|k: int| 0 <= k && k + p@.len() <= s@.len() implies #[trigger] s@.subrange(k, k + p@.len()) != p@ by {
                assert(k <= i);
            }
            return false;
        }
        i += 1;
    }
    false
}

/// The colour class of a token: log levels by name, the sent marker and
/// component ids, texts holding `~`, and the installer's own prefixes.
pub open spec fn token_tone_of(token: Seq<char>) -> TokenTone {
    let t = trim(token);
    let n = normalized(t);
    if n == "ERROR"@ || n == "FATAL"@ {
        TokenTone::Error
    } else if n == "WARN"@ || n == "WARNING"@ {
        TokenTone::Warning
    } else if n == "DEBUG"@ {
        TokenTone::Debug
    } else if n == "INFO"@ {
        TokenTone::Info
    } else if n == "[SENT]"@ || n == "SENT"@ {
        TokenTone::Sent
    } else if component_id_token(t) {
        TokenTone::Sent
    } else if t.contains('~') {
        TokenTone::Sand
    } else if has_part(n, "MOD_INSTALLER::"@) || has_part(n, "WEIDU_PARSER"@) || has_part(n, "WEIDU]"@) {
        TokenTone::Dim
    } else {
        TokenTone::Default
    }
}

fn chars_equal_str(s: &Vec<char>, t: &str) -> (r: bool)
    ensures
        r == (s@ == t@),
{
    let c = chars_of(t);
    crate::text::chars_eq(s, &c)
}

fn contains_char(s: &Vec<char>, c: char) -> (r: bool)
    ensures
        r == s@.contains(c),
{
    let mut i: usize = 0;
    while i < s.len()
        invariant
            i <= s@.len(),
            forall|k: int| 0 <= k < i ==> s@[k] != c,
        decreases s@.len() - i,
    {
        if s[i] == c {
            assert(s@[i as int] == c);
            return true;
        }
        i += 1;
    }
    false
}

proof fn lemma_blank_token_is_default()
    ensures
        token_tone_of(Seq::empty()) == TokenTone::Default,
{
    reveal_strlit("ERROR");
    reveal_strlit("FATAL");
    reveal_strlit("WARN");
    reveal_strlit("WARNING");
    reveal_strlit("DEBUG");
    reveal_strlit("INFO");
    reveal_strlit("[SENT]");
    reveal_strlit("SENT");
    reveal_strlit("MOD_INSTALLER::");
    reveal_strlit("WEIDU_PARSER");
    reveal_strlit("WEIDU]");
    let e = Seq::<char>::empty();
    assert(trim(e) =~= e);
    assert(strip_both(e, StripSet::NonWord) =~= e);
    assert(normalized(e) =~= e);
}

/// The colour class of a console token.
pub fn token_tone(token: &str) -> (tone: TokenTone)
    ensures
        tone == token_tone_of(token@),
{
    let tc = trimmed_chars(token);
    let t = string_of(&tc);
    let n = chars_of(normalized_token(t.as_str()).as_str());
    if chars_equal_str(&n, "ERROR") || chars_equal_str(&n, "FATAL") {
        TokenTone::Error
    } else if chars_equal_str(&n, "WARN") || chars_equal_str(&n, "WARNING") {
        TokenTone::Warning
    } else if chars_equal_str(&n, "DEBUG") {
        TokenTone::Debug
    } else if chars_equal_str(&n, "INFO") {
        TokenTone::Info
    } else if chars_equal_str(&n, "[SENT]") || chars_equal_str(&n, "SENT") {
        TokenTone::Sent
    } else if is_component_id_token(t.as_str()) {
        TokenTone::Sent
    } else if contains_char(&tc, '~') {
        TokenTone::Sand
    } else if chars_contain(&n, "MOD_INSTALLER::") || chars_contain(&n, "WEIDU_PARSER") || chars_contain(
        &n,
        "WEIDU]",
    ) {
        TokenTone::Dim
    } else {
        TokenTone::Default
    }
}

/// The tone of each chunk of a console line: on a line that reports a
/// successful install the words `SUCCESSFULLY` and `INSTALLED` are marked as
/// success; an empty line is a single blank in the default tone.
pub open spec fn chunk_tone(line: Seq<char>, chunk: Seq<char>) -> TokenTone {
    let n = normalized(chunk);
    if has_part(ascii_upper(line), "SUCCESSFULLY INSTALLED"@) && (n == "SUCCESSFULLY"@ || n
        == "INSTALLED"@) {
        TokenTone::Success
    } else {
        token_tone_of(chunk)
    }
}

pub fn line_tones(line: &str) -> (out: Vec<(String, TokenTone)>)
    ensures
        line@.len() == 0 ==> out@.len() == 1 && out@[0].0@ == " "@ && out@[0].1 == TokenTone::Default,
        line@.len() > 0 ==> {
            let chunks = chunks_of(line@);
            &&& out@.len() == chunks.len()
            &&& forall|k: int|
                0 <= k < out@.len() ==> (#[trigger] out@[k]).0@ == chunks[k] && out@[k].1
                    == chunk_tone(line@, chunks[k])
        },
{
    let line_chars = chars_of(line);
    if line_chars.len() == 0 {
        let mut out: Vec<(String, TokenTone)> = Vec::new();
        proof {
            reveal_strlit(" ");
            lemma_blank_token_is_default();
        }
        out.push((String::from_str(" "), TokenTone::Default));
        return out;
    }
    let mut upper = String::new();
    crate::text::push_upper(&mut upper, line);
    let uc = chars_of(upper.as_str());
    let success_line = chars_contain(&uc, "SUCCESSFULLY INSTALLED");
    let chunks = split_chunks_preserve_quotes(line);
    let mut out: Vec<(String, TokenTone)> = Vec::new();
    let mut k: usize = 0;
    while k < chunks.len()
        invariant
            k <= chunks@.len(),
            names(chunks@) == chunks_of(line@),
            success_line == has_part(ascii_upper(line@), "SUCCESSFULLY INSTALLED"@),
            out@.len() == k,
            forall|q: int|
                0 <= q < k ==> (#[trigger] out@[q]).0@ == chunks_of(line@)[q] && out@[q].1
                    == chunk_tone(line@, chunks_of(line@)[q]),
        decreases chunks@.len() - k,
    {
        let chunk = &chunks[k];
        assert(chunk@ == chunks_of(line@)[k as int]);
        let n = chars_of(normalized_token(chunk.as_str()).as_str());
        let tone = if success_line && (chars_equal_str(&n, "SUCCESSFULLY") || chars_equal_str(
            &n,
            "INSTALLED",
        )) {
            TokenTone::Success
        } else {
            token_tone(chunk.as_str())
        };
        out.push((chunk.clone(), tone));
        k += 1;
    }
    out
}

} // verus!
