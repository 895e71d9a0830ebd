//! Dean Edwards' p.a.c.k.e.r: JavaScript whose words are replaced by numbers into a
//! keyword list.

use crate::number;
use crate::resolver;
use crate::text;
use vstd::prelude::*;
use vstd::slice::slice_subrange;

verus! {

/// The quoted string that begins at position 0, from position `i` on: its characters,
/// with backslash escapes decoded, and the position behind the closing quote.
pub open spec fn quoted_from(args: Seq<char>, quote: char, i: int) -> (Seq<char>, int)
    decreases args.len() - i,
{
    if i < 0 || i >= args.len() {
        (Seq::empty(), i)
    } else if args[i] == '\\' && i + 1 < args.len() {
        let rest = quoted_from(args, quote, i + 2);
        (seq![args[i + 1]] + rest.0, rest.1)
    } else if args[i] == quote {
        (Seq::empty(), i + 1)
    } else {
        let rest = quoted_from(args, quote, i + 1);
        (seq![args[i]] + rest.0, rest.1)
    }
}

pub open spec fn decimal_digit(c: char) -> bool {
    '0' <= c <= '9'
}

/// The first position at or behind `i` where a decimal digit stands, or does not.
pub open spec fn digit_run(s: Seq<char>, digit: bool, i: int) -> int
    decreases s.len() - i,
{
    if i < 0 || i >= s.len() || decimal_digit(s[i]) == digit {
        i
    } else {
        digit_run(s, digit, i + 1)
    }
}

/// The first row of decimal digits in a text, as a number.
pub open spec fn first_number(s: Seq<char>) -> Option<nat> {
    let a = digit_run(s, true, 0);
    let b = digit_run(s, false, a);
    number::parsed(s.subrange(a, b), 10, u32::MAX as nat)
}

/// The characters that words are made of.
pub open spec fn word_char(c: char) -> bool {
    ('a' <= c <= 'z') || ('A' <= c <= 'Z') || ('0' <= c <= '9') || c == '_'
}

/// Where the word that begins at `i` ends.
pub open spec fn word_end(s: Seq<char>, i: int) -> int
    decreases s.len() - i,
{
    if i < 0 || i >= s.len() || !word_char(s[i]) {
        i
    } else {
        word_end(s, i + 1)
    }
}

/// A digit of a token: tokens are written in lower case.
pub open spec fn token_digit(c: char, radix: u32) -> bool {
    (('0' <= c <= '9') || ('a' <= c <= 'z')) && number::is_digit(c, radix as nat)
}

/// The number that a word writes as a token; none when it is no token or too large.
pub open spec fn token_value(word: Seq<char>, radix: u32) -> Option<nat> {
    if (forall|i: int| 0 <= i < word.len() ==> token_digit(#[trigger] word[i], radix))
        && number::value(word, radix as nat) <= usize::MAX {
        Some(number::value(word, radix as nat))
    } else {
        None
    }
}

/// What a word stands for: the keyword with its number, unless that is missing or empty.
pub open spec fn word_meaning(word: Seq<char>, radix: u32, keywords: Seq<Seq<char>>) -> Seq<char> {
    match token_value(word, radix) {
        Some(n) => if n < keywords.len() && keywords[n as int].len() > 0 {
            keywords[n as int]
        } else {
            word
        },
        None => word,
    }
}

/// The payload from position `i` on with every word replaced by what it stands for, and
/// everything else copied verbatim. What a word is replaced by is not looked at again.
pub open spec fn substituted(
    payload: Seq<char>,
    radix: u32,
    keywords: Seq<Seq<char>>,
    i: int,
) -> Seq<char>
    decreases payload.len() - i,
    via substituted_decreases
{
    if i < 0 || i >= payload.len() {
        Seq::empty()
    } else if word_char(payload[i]) {
        let j = word_end(payload, i);
        word_meaning(payload.subrange(i, j), radix, keywords) + substituted(
            payload,
            radix,
            keywords,
            j,
        )
    } else {
        seq![payload[i]] + substituted(payload, radix, keywords, i + 1)
    }
}

#[via_fn]
proof fn substituted_decreases(payload: Seq<char>, radix: u32, keywords: Seq<Seq<char>>, i: int) {
    if 0 <= i < payload.len() && word_char(payload[i]) {
        lemma_word_end(payload, i + 1);
    }
}

proof fn lemma_word_end(s: Seq<char>, i: int)
    requires
        0 <= i <= s.len(),
    ensures
        i <= word_end(s, i) <= s.len(),
        forall|k: int| i <= k < word_end(s, i) ==> word_char(s[k]),
    decreases s.len() - i,
{
    if i < s.len() && word_char(s[i]) {
        lemma_word_end(s, i + 1);
    }
}

proof fn lemma_digit_run(s: Seq<char>, digit: bool, i: int)
    requires
        0 <= i <= s.len(),
    ensures
        i <= digit_run(s, digit, i) <= s.len(),
    decreases s.len() - i,
{
    if i < s.len() && decimal_digit(s[i]) != digit {
        lemma_digit_run(s, digit, i + 1);
    }
}

/// What the arguments of the packed call stand for: payload, radix, count, keywords.
pub open spec fn unpacked_args(args: Seq<char>) -> Option<Seq<char>> {
    if args.len() == 0 || (args[0] != '\'' && args[0] != '"') {
        None
    } else {
        let (payload, end) = quoted_from(args, args[0], 1);
        let rest = resolver::tail(args, end);
        let quotes = seq!['\'', '"'];
        match (
            first_number(rest),
            text::find_any_from(rest, quotes, 0),
            text::rfind_any_to(rest, quotes, rest.len() - 1),
        ) {
            (Some(radix), Some(open), Some(close)) => if close <= open {
                None
            } else {
                Some(
                    substituted(
                        payload,
                        radix as u32,
                        text::split(rest.subrange(open + 1, close), |c: char| c == '|'),
                        0,
                    ),
                )
            },
            _ => None,
        }
    }
}

/// The code that packed JavaScript stands for:
/// `}('payload', radix, count, 'k1|k2|…'.split('|'))`.
pub open spec fn unpacked(src: Seq<char>) -> Option<Seq<char>> {
    let split = match text::find(src, ".split('|')"@) {
        Some(i) => Some(i),
        None => text::find(src, ".split(\"|\")"@),
    };
    match split {
        Some(sp) => match text::rfind(src.take(sp), "}("@) {
            Some(call) => unpacked_args(src.subrange(call + 2, sp)),
            None => None,
        },
        None => None,
    }
}

/// A payload is gone through once, word by word: a keyword is put in as it stands, even
/// where it holds tokens itself, and what follows is unpacked on its own.
pub proof fn law_single_pass(
    word: Seq<char>,
    rest: Seq<char>,
    radix: u32,
    keywords: Seq<Seq<char>>,
)
    requires
        word.len() > 0,
        forall|i: int| 0 <= i < word.len() ==> word_char(#[trigger] word[i]),
        rest.len() > 0 ==> !word_char(rest[0]),
    ensures
        substituted(word + rest, radix, keywords, 0) == word_meaning(word, radix, keywords)
            + substituted(rest, radix, keywords, 0),
{
    lemma_word_stops(word, rest, 0);
    assert((word + rest).subrange(0, word.len() as int) =~= word);
    assert((word + rest)[0] == word[0]);
    lemma_substituted_behind(word, rest, radix, keywords, 0);
}

/// What is no word is copied verbatim, and what follows is unpacked on its own.
pub proof fn law_rest_is_verbatim(
    c: char,
    rest: Seq<char>,
    radix: u32,
    keywords: Seq<Seq<char>>,
)
    requires
        !word_char(c),
    ensures
        substituted(seq![c] + rest, radix, keywords, 0) == seq![c] + substituted(
            rest,
            radix,
            keywords,
            0,
        ),
{
    lemma_substituted_behind(seq![c], rest, radix, keywords, 0);
}

/// A word ends where the text behind it does not go on with it.
proof fn lemma_word_stops(word: Seq<char>, rest: Seq<char>, i: int)
    requires
        0 <= i <= word.len(),
        forall|k: int| 0 <= k < word.len() ==> word_char(#[trigger] word[k]),
        rest.len() > 0 ==> !word_char(rest[0]),
    ensures
        word_end(word + rest, i) == word.len(),
    decreases word.len() - i,
{
    if i < word.len() {
        assert((word + rest)[i] == word[i]);
        lemma_word_stops(word, rest, i + 1);
    } else if rest.len() > 0 {
        assert((word + rest)[i] == rest[0]);
    }
}

/// A word behind a first part ends where it ends in the rest alone.
proof fn lemma_word_end_behind(a: Seq<char>, b: Seq<char>, i: int)
    requires
        0 <= i <= b.len(),
    ensures
        word_end(a + b, a.len() + i) == a.len() + word_end(b, i),
    decreases b.len() - i,
{
    if i < b.len() {
        assert((a + b)[a.len() + i] == b[i]);
        lemma_word_end_behind(a, b, i + 1);
    }
}

/// Unpacking behind a first part is unpacking the rest alone.
proof fn lemma_substituted_behind(
    a: Seq<char>,
    b: Seq<char>,
    radix: u32,
    keywords: Seq<Seq<char>>,
    i: int,
)
    requires
        0 <= i <= b.len(),
    ensures
        substituted(a + b, radix, keywords, a.len() + i) == substituted(b, radix, keywords, i),
    decreases b.len() - i,
{
    if i < b.len() {
        assert((a + b)[a.len() + i] == b[i]);
        if word_char(b[i]) {
            let j = word_end(b, i);
            lemma_word_end(b, i + 1);
            lemma_word_end_behind(a, b, i);
            assert((a + b).subrange(a.len() + i, a.len() + j) =~= b.subrange(i, j));
            lemma_substituted_behind(a, b, radix, keywords, j);
        } else {
            lemma_substituted_behind(a, b, radix, keywords, i + 1);
        }
    }
}

/// The digits that tokens are written with.
pub open spec fn token_char(d: nat) -> char {
    "0123456789abcdefghijklmnopqrstuvwxyz"@[d as int]
}

/// The token of a number: the number in base `radix`, in lower case and without leading
/// zeros, as a packer writes it.
pub open spec fn token(n: nat, radix: nat) -> Seq<char>
    decreases n,
    via token_decreases
{
    if radix < 2 || n < radix {
        seq![token_char(n)]
    } else {
        token(n / radix, radix).push(token_char(n % radix))
    }
}

#[via_fn]
proof fn token_decreases(n: nat, radix: nat) {
    if 2 <= radix <= n {
        lemma_quotient(n, radix);
    }
}

proof fn lemma_quotient(n: nat, radix: nat)
    requires
        2 <= radix <= n,
    ensures
        n / radix < n,
        n / radix * radix + n % radix == n,
        n % radix < radix,
{
    assert(n / radix < n) by (nonlinear_arith)
        requires
            2 <= radix <= n,
    ;
    assert(n / radix * radix + n % radix == n) by (nonlinear_arith)
        requires
            2 <= radix,
    ;
    assert(n % radix < radix) by (nonlinear_arith)
        requires
            2 <= radix,
    ;
}

proof fn lemma_token_char(d: nat)
    requires
        d < 36,
    ensures
        number::digit_value(token_char(d)) == Some(d),
        ('0' <= token_char(d) <= '9') || ('a' <= token_char(d) <= 'z'),
{
    reveal_strlit("0123456789abcdefghijklmnopqrstuvwxyz");
    assert(d == 0 || d == 1 || d == 2 || d == 3 || d == 4 || d == 5 || d == 6 || d == 7 || d == 8
        || d == 9 || d == 10 || d == 11 || d == 12 || d == 13 || d == 14 || d == 15 || d == 16
        || d == 17 || d == 18 || d == 19 || d == 20 || d == 21 || d == 22 || d == 23 || d == 24
        || d == 25 || d == 26 || d == 27 || d == 28 || d == 29 || d == 30 || d == 31 || d == 32
        || d == 33 || d == 34 || d == 35);
}

/// A token is a word, and reads back as its number.
proof fn lemma_token(n: nat, radix: u32)
    requires
        2 <= radix <= 36,
    ensures
        token(n, radix as nat).len() > 0,
        forall|i: int|
            0 <= i < token(n, radix as nat).len() ==> word_char(#[trigger] token(n, radix as nat)[i])
                && token_digit(token(n, radix as nat)[i], radix),
        number::value(token(n, radix as nat), radix as nat) == n,
    decreases n,
{
    let r = radix as nat;
    let t = token(n, r);
    if n < r {
        lemma_token_char(n);
        reveal_with_fuel(number::value, 2);
        assert(t.drop_last() =~= Seq::<char>::empty());
        assert(number::value(t, r) == 0 * r + n);
        assert(0 * r == 0) by (nonlinear_arith);
    } else {
        lemma_quotient(n, r);
        lemma_token(n / r, radix);
        lemma_token_char(n % r);
        assert(t.drop_last() =~= token(n / r, r));
    }
}

/// A payload that is just the token of a keyword unpacks to that keyword, however many
/// digits the token has; one whose keyword is missing or empty stays as it is.
pub proof fn law_token_unpacks(n: nat, radix: u32, keywords: Seq<Seq<char>>)
    requires
        2 <= radix <= 36,
        n <= usize::MAX,
    ensures
        substituted(token(n, radix as nat), radix, keywords, 0) == (if n < keywords.len()
            && keywords[n as int].len() > 0 {
            keywords[n as int]
        } else {
            token(n, radix as nat)
        }),
{
    let t = token(n, radix as nat);
    lemma_token(n, radix);
    law_single_pass(t, Seq::empty(), radix, keywords);
    assert(t + Seq::<char>::empty() =~= t);
    assert(substituted(t, radix, keywords, 0) =~= word_meaning(t, radix, keywords));
}

/// A word with an upper-case letter or an underscore in it is an identifier, no token,
/// and stays as it is.
pub proof fn law_identifiers_stay(
    word: Seq<char>,
    rest: Seq<char>,
    radix: u32,
    keywords: Seq<Seq<char>>,
)
    requires
        forall|i: int| 0 <= i < word.len() ==> word_char(#[trigger] word[i]),
        exists|i: int|
            0 <= i < word.len() && (#[trigger] word[i] == '_' || 'A' <= word[i] <= 'Z'),
        rest.len() > 0 ==> !word_char(rest[0]),
    ensures
        substituted(word + rest, radix, keywords, 0) == word + substituted(rest, radix, keywords, 0),
{
    law_single_pass(word, rest, radix, keywords);
    let i = choose|i: int|
        0 <= i < word.len() && (#[trigger] word[i] == '_' || 'A' <= word[i] <= 'Z');
    assert(!token_digit(word[i], radix));
}

/// What stands between words: at least one character, and none of a word.
pub open spec fn between(s: Seq<char>) -> bool {
    s.len() > 0 && forall|i: int| 0 <= i < s.len() ==> !word_char(#[trigger] s[i])
}

/// The payload that a packer makes of words: each replaced by its token, with what stands
/// behind it.
pub open spec fn packed(parts: Seq<(nat, Seq<char>)>, radix: nat) -> Seq<char>
    decreases parts.len(),
{
    if parts.len() == 0 {
        Seq::empty()
    } else {
        token(parts[0].0, radix) + parts[0].1 + packed(parts.drop_first(), radix)
    }
}

/// The words that a packer was given, with what stands behind each.
pub open spec fn spelled_out(parts: Seq<(nat, Seq<char>)>, keywords: Seq<Seq<char>>) -> Seq<char>
    decreases parts.len(),
{
    if parts.len() == 0 {
        Seq::empty()
    } else {
        keywords[parts[0].0 as int] + parts[0].1 + spelled_out(parts.drop_first(), keywords)
    }
}

/// Every part names a keyword that is not empty.
pub open spec fn packable(parts: Seq<(nat, Seq<char>)>, keywords: Seq<Seq<char>>) -> bool {
    forall|i: int|
        0 <= i < parts.len() ==> (#[trigger] parts[i]).0 < keywords.len() && parts[i].0
            <= usize::MAX && keywords[parts[i].0 as int].len() > 0 && between(parts[i].1)
}

proof fn lemma_verbatim(gap: Seq<char>, rest: Seq<char>, radix: u32, keywords: Seq<Seq<char>>)
    requires
        forall|i: int| 0 <= i < gap.len() ==> !word_char(#[trigger] gap[i]),
    ensures
        substituted(gap + rest, radix, keywords, 0) == gap + substituted(rest, radix, keywords, 0),
    decreases gap.len(),
{
    if gap.len() > 0 {
        let more = gap.drop_first();
        lemma_verbatim(more, rest, radix, keywords);
        law_rest_is_verbatim(gap[0], more + rest, radix, keywords);
        assert(seq![gap[0]] + (more + rest) =~= gap + rest);
        assert(seq![gap[0]] + (more + substituted(rest, radix, keywords, 0)) =~= gap + substituted(
            rest,
            radix,
            keywords,
            0,
        ));
    } else {
        assert(gap + rest =~= rest);
        assert(gap + substituted(rest, radix, keywords, 0) =~= substituted(
            rest,
            radix,
            keywords,
            0,
        ));
    }
}

/// Unpacking gives back what was packed.
pub proof fn law_packed_words_come_back(
    parts: Seq<(nat, Seq<char>)>,
    radix: u32,
    keywords: Seq<Seq<char>>,
)
    requires
        2 <= radix <= 36,
        packable(parts, keywords),
    ensures
        substituted(packed(parts, radix as nat), radix, keywords, 0) == spelled_out(
            parts,
            keywords,
        ),
    decreases parts.len(),
{
    if parts.len() > 0 {
        let (n, gap) = parts[0];
        let t = token(n, radix as nat);
        let rest = packed(parts.drop_first(), radix as nat);
        assert(n < keywords.len());
        assert(packable(parts.drop_first(), keywords)) by {
            assert forall|i: int| 0 <= i < parts.drop_first().len() implies (
            #[trigger] parts.drop_first()[i]).0 < keywords.len() && parts.drop_first()[i].0
                <= usize::MAX && keywords[parts.drop_first()[i].0 as int].len() > 0 && between(
                parts.drop_first()[i].1,
            ) by {
                assert(parts.drop_first()[i] == parts[i + 1]);
            }
        }
        law_packed_words_come_back(parts.drop_first(), radix, keywords);
        lemma_token(n, radix);
        assert((gap + rest)[0] == gap[0]);
        law_single_pass(t, gap + rest, radix, keywords);
        lemma_verbatim(gap, rest, radix, keywords);
        assert(t + (gap + rest) =~= t + gap + rest);
        assert(keywords[n as int] + (gap + spelled_out(parts.drop_first(), keywords))
            =~= keywords[n as int] + gap + spelled_out(parts.drop_first(), keywords));
    } else {
        assert(substituted(packed(parts, radix as nat), radix, keywords, 0) =~= spelled_out(
            parts,
            keywords,
        ));
    }
}

/// A text as it stands in a single-quoted string: quotes and backslashes behind a
/// backslash.
pub open spec fn escaped(s: Seq<char>) -> Seq<char>
    decreases s.len(),
{
    if s.len() == 0 {
        Seq::empty()
    } else {
        (if s[0] == '\'' || s[0] == '\\' {
            seq!['\\', s[0]]
        } else {
            seq![s[0]]
        }) + escaped(s.drop_first())
    }
}

proof fn lemma_escaped(before: Seq<char>, s: Seq<char>, behind: Seq<char>)
    ensures
        quoted_from(before + escaped(s) + seq!['\''] + behind, '\'', before.len() as int) == (
            s,
            (before.len() + escaped(s).len() + 1) as int,
        ),
    decreases s.len(),
{
    let args = before + escaped(s) + seq!['\''] + behind;
    if s.len() > 0 {
        let head = if s[0] == '\'' || s[0] == '\\' {
            seq!['\\', s[0]]
        } else {
            seq![s[0]]
        };
        let more = s.drop_first();
        lemma_escaped(before + head, more, behind);
        assert((before + head) + escaped(more) + seq!['\''] + behind =~= args);
        assert(args[before.len() as int] == head[0]);
        assert(head.len() == 2 ==> args[before.len() as int + 1] == head[1]);
        assert(seq![s[0]] + more =~= s);
    } else {
        assert(args[before.len() as int] == '\'');
        assert(quoted_from(args, '\'', before.len() as int).0 =~= s);
    }
}

/// The arguments of a packed call: payload, radix, count, keywords.
pub open spec fn call_args(
    payload: Seq<char>,
    radix: nat,
    count: nat,
    keywords: Seq<Seq<char>>,
) -> Seq<char> {
    seq!['\''] + escaped(payload) + seq!['\''] + (seq![','] + number::digits(radix) + seq![',']
        + number::digits(count) + seq![',', '\''] + text::join(keywords, seq!['|']) + seq!['\''])
}

proof fn lemma_run(s: Seq<char>, digit: bool, a: int, b: int)
    requires
        0 <= a <= b < s.len(),
        forall|k: int| a <= k < b ==> decimal_digit(#[trigger] s[k]) != digit,
        decimal_digit(s[b]) == digit,
    ensures
        digit_run(s, digit, a) == b,
    decreases b - a,
{
    if a < b {
        lemma_run(s, digit, a + 1, b);
    }
}

/// What the arguments of a packed call stand for is the payload with its words replaced
/// by the keywords, whatever characters the payload and the keywords hold: only the bar
/// between keywords is not one of theirs.
pub proof fn law_call_args(payload: Seq<char>, radix: u32, count: nat, keywords: Seq<Seq<char>>)
    requires
        keywords.len() > 0,
        forall|i: int| 0 <= i < keywords.len() ==> !(#[trigger] keywords[i]).contains('|'),
    ensures
        unpacked_args(call_args(payload, radix as nat, count, keywords)) == Some(
            substituted(payload, radix, keywords, 0),
        ),
{
    let words = text::join(keywords, seq!['|']);
    let d = number::digits(radix as nat);
    let e = number::digits(count);
    let rest = seq![','] + d + seq![','] + e + seq![',', '\''] + words + seq!['\''];
    let args = call_args(payload, radix as nat, count, keywords);
    let quotes = seq!['\'', '"'];
    lemma_escaped(seq!['\''], payload, rest);
    assert(args =~= seq!['\''] + escaped(payload) + seq!['\''] + rest);
    let end: int = 2 + escaped(payload).len() as int;
    assert(resolver::tail(args, end) =~= rest);
    number::lemma_digits(radix as nat);
    number::lemma_digits(count);
    number::law_decimal_round_trip(radix as nat, u32::MAX as nat);
    assert forall|k: int| 1 <= k < 1 + d.len() implies decimal_digit(#[trigger] rest[k]) by {
        assert(rest[k] == d[k - 1]);
    }
    assert(rest[0] == ',');
    lemma_run(rest, true, 0, 1);
    assert(rest[1 + d.len() as int] == ',');
    lemma_run(rest, false, 1, 1 + d.len() as int);
    assert(rest.subrange(1, 1 + d.len() as int) =~= d);
    let open: int = 3 + d.len() as int + e.len() as int;
    assert forall|k: int| 0 <= k < open implies !quotes.contains(#[trigger] rest[k]) by {
        if 1 <= k < 1 + d.len() {
            assert(rest[k] == d[k - 1]);
        } else if 2 + d.len() <= k < 2 + d.len() + e.len() {
            assert(rest[k] == e[k - 2 - d.len()]);
        }
    }
    assert(rest[open] == '\'');
    assert(quotes[0] == '\'');
    assert(quotes.contains('\''));
    resolver::lemma_first_of(rest, quotes, 0, open);
    assert(rest[rest.len() - 1] == '\'');
    assert(text::rfind_any_to(rest, quotes, rest.len() - 1) == Some(rest.len() - 1));
    assert(rest.subrange(open + 1, rest.len() - 1) =~= words);
    assert forall|i: int, k: int|
        0 <= i < keywords.len() && 0 <= k < keywords[i].len() implies #[trigger] keywords[i][k]
        != '|' by {
        assert(!keywords[i].contains('|'));
    }
    text::law_split_undoes_join(keywords, |c: char| c == '|', '|');
}

/// A script that was packed is recognised by its call: what unpacks are the arguments
/// between the last `}(` before the first `.split('|')` and that.
pub proof fn law_call_is_found(before: Seq<char>, args: Seq<char>, behind: Seq<char>)
    requires
        ({
            let src = before + "}("@ + args + ".split('|')"@ + behind;
            &&& forall|i: int|
                0 <= i < before.len() + 2 + args.len() ==> !(#[trigger] text::occurs_at(
                    src,
                    ".split('|')"@,
                    i,
                ))
            &&& forall|i: int|
                before.len() < i ==> !(#[trigger] text::occurs_at(before + "}("@ + args, "}("@, i))
        }),
    ensures
        unpacked(before + "}("@ + args + ".split('|')"@ + behind) == unpacked_args(args),
{
    reveal_strlit("}(");
    reveal_strlit(".split('|')");
    let split = ".split('|')"@;
    let src = before + "}("@ + args + split + behind;
    let b: int = before.len() as int;
    let sp: int = b + 2 + args.len() as int;
    let head = before + "}("@ + args;
    assert(src.subrange(sp, sp + split.len()) =~= split);
    text::lemma_find_from(src, split, 0);
    let at = text::find(src, split);
    assert(at == Some(sp)) by {
        assert(text::occurs_at(src, split, sp));
    }
    assert(src.take(sp) =~= head);
    assert(head.subrange(b, b + 2) =~= "}("@);
    text::lemma_rfind_to(head, "}("@, head.len() - 2);
    assert(text::rfind(head, "}("@) == Some(b)) by {
        assert(text::occurs_at(head, "}("@, b));
    }
    assert(src.subrange(b + 2, sp) =~= args);
}

/// A script that was packed unpacks to what it was packed from: the words in their
/// places, with what stands between them, through the whole of the call.
pub proof fn law_packed_script(
    before: Seq<char>,
    parts: Seq<(nat, Seq<char>)>,
    radix: u32,
    count: nat,
    keywords: Seq<Seq<char>>,
    behind: Seq<char>,
)
    requires
        2 <= radix <= 36,
        packable(parts, keywords),
        keywords.len() > 0,
        forall|i: int| 0 <= i < keywords.len() ==> !(#[trigger] keywords[i]).contains('|'),
        ({
            let args = call_args(packed(parts, radix as nat), radix as nat, count, keywords);
            let src = before + "}("@ + args + ".split('|')"@ + behind;
            &&& forall|i: int|
                0 <= i < before.len() + 2 + args.len() ==> !(#[trigger] text::occurs_at(
                    src,
                    ".split('|')"@,
                    i,
                ))
            &&& forall|i: int|
                before.len() < i ==> !(#[trigger] text::occurs_at(before + "}("@ + args, "}("@, i))
        }),
    ensures
        unpacked(
            before + "}("@ + call_args(
                packed(parts, radix as nat),
                radix as nat,
                count,
                keywords,
            ) + ".split('|')"@ + behind,
        ) == Some(spelled_out(parts, keywords)),
{
    let payload = packed(parts, radix as nat);
    law_call_is_found(before, call_args(payload, radix as nat, count, keywords), behind);
    law_call_args(payload, radix, count, keywords);
    law_packed_words_come_back(parts, radix, keywords);
}

/// Parse a lowercase base-`radix` token to its index — case-sensitive, mirroring
/// JS `c.toString(radix)` (tokens are lowercase; an uppercase word is a real
/// identifier, not a token). Returns `None` if any char is out of range or the
/// value overflows `usize` (a long identifier that isn't a token).
fn from_base(word: &[char], radix: u32) -> (r: Option<usize>)
    ensures
        match r {
            Some(n) => token_value(word@, radix) == Some(n as nat),
            None => token_value(word@, radix) is None,
        },
{
    let mut n: usize = 0;
    let mut over: bool = false;
    let mut i: usize = 0;
    while i < word.len()
        invariant
            i <= word@.len(),
            forall|k: int| 0 <= k < i ==> token_digit(#[trigger] word@[k], radix),
            i > 0 ==> radix > 0,
            over ==> number::value(word@.take(i as int), radix as nat) > usize::MAX,
            !over ==> n == number::value(word@.take(i as int), radix as nat),
        decreases word@.len() - i,
    {
        let c = word[i];
        let lower = ('0' <= c && c <= '9') || ('a' <= c && c <= 'z');
        let d: u32 = match number::digit_of(c) {
            Some(d) if lower && d < radix => d,
            _ => {
                assert(!token_digit(word@[i as int], radix));
                return None;
            },
        };
        proof {
            assert(word@.take(i + 1).drop_last() =~= word@.take(i as int));
            let head = number::value(word@.take(i as int), radix as nat);
            assert(number::value(word@.take(i + 1), radix as nat) == head * (radix as nat) + d);
            assert(head * (radix as nat) >= head) by (nonlinear_arith)
                requires
                    radix >= 1,
            ;
        }
        if !over {
            assert(n * radix <= 0xffff_ffff_ffff_ffff * 0xffff_ffff) by (nonlinear_arith)
                requires
                    n <= 0xffff_ffff_ffff_ffff,
                    radix <= 0xffff_ffff,
            ;
            let next: u128 = (n as u128) * (radix as u128) + d as u128;
            if next > usize::MAX as u128 {
                over = true;
            } else {
                n = next as usize;
            }
        }
        i = i + 1;
    }
    assert(word@.take(word@.len() as int) =~= word@);
    if over {
        None
    } else {
        Some(n)
    }
}

/// Appends what a word stands for.
fn put_meaning(out: &mut Vec<char>, word: &[char], radix: u32, keywords: &Vec<Vec<char>>)
    ensures
        final(out)@ == old(out)@ + word_meaning(word@, radix, text::pieces(keywords@)),
{
    let chosen: Option<usize> = match from_base(word, radix) {
        Some(n) => if n < keywords.len() && keywords[n].len() > 0 {
            Some(n)
        } else {
            None
        },
        None => None,
    };
    match chosen {
        Some(n) => put_all(out, keywords[n].as_slice()),
        None => put_all(out, word),
    }
}

fn put_all(out: &mut Vec<char>, s: &[char])
    ensures
        final(out)@ == old(out)@ + s@,
{
    let ghost before = out@;
    let mut i: usize = 0;
    while i < s.len()
        invariant
            i <= s@.len(),
            out@ == before + s@.take(i as int),
        decreases s@.len() - i,
    {
        out.push(s[i]);
        assert(s@.take(i + 1) =~= s@.take(i as int).push(s@[i as int]));
        i = i + 1;
    }
    assert(s@.take(s@.len() as int) =~= s@);
}

fn is_word(c: char) -> (r: bool)
    ensures
        r == word_char(c),
{
    ('a' <= c && c <= 'z') || ('A' <= c && c <= 'Z') || ('0' <= c && c <= '9') || c == '_'
}

/// Replaces every word of the payload in a single pass: what a word is replaced by is
/// copied verbatim. It must NOT be replaced again in the growing output (a keyword can
/// contain a token, which would re-expand and blow the string up exponentially).
fn substitute(payload: &[char], radix: u32, keywords: &Vec<Vec<char>>) -> (r: Vec<char>)
    ensures
        r@ == substituted(payload@, radix, text::pieces(keywords@), 0),
{
    let ghost words = text::pieces(keywords@);
    let mut out: Vec<char> = Vec::new();
    let mut i: usize = 0;
    assert(out@ + substituted(payload@, radix, words, 0) =~= substituted(
        payload@,
        radix,
        words,
        0,
    ));
    while i < payload.len()
        invariant
            i <= payload@.len(),
            words == text::pieces(keywords@),
            out@ + substituted(payload@, radix, words, i as int) == substituted(
                payload@,
                radix,
                words,
                0,
            ),
        decreases payload@.len() - i,
    {
        let ghost before = out@;
        if is_word(payload[i]) {
            let start: usize = i;
            while i < payload.len() && is_word(payload[i])
                invariant
                    start <= i <= payload@.len(),
                    word_end(payload@, i as int) == word_end(payload@, start as int),
                decreases payload@.len() - i,
            {
                i = i + 1;
            }
            assert(i == word_end(payload@, start as int));
            assert(i > start);
            let word = slice_subrange(payload, start, i);
            put_meaning(&mut out, word, radix, keywords);
            assert(out@ + substituted(payload@, radix, words, i as int) =~= before + (word_meaning(
                word@,
                radix,
                words,
            ) + substituted(payload@, radix, words, i as int)));
        } else {
            out.push(payload[i]);
            assert(out@ + substituted(payload@, radix, words, i + 1) =~= before + (seq![
                payload@[i as int],
            ] + substituted(payload@, radix, words, i + 1)));
            i = i + 1;
        }
    }
    assert(out@ + substituted(payload@, radix, words, i as int) =~= out@);
    out
}

/// The first row of decimal digits, as a number.
fn number_in(s: &[char]) -> (r: Option<u32>)
    ensures
        match r {
            Some(n) => first_number(s@) == Some(n as nat),
            None => first_number(s@) is None,
        },
{
    let mut a: usize = 0;
    while a < s.len() && !('0' <= s[a] && s[a] <= '9')
        invariant
            a <= s@.len(),
            digit_run(s@, true, a as int) == digit_run(s@, true, 0),
        decreases s@.len() - a,
    {
        a = a + 1;
    }
    let mut b: usize = a;
    while b < s.len() && '0' <= s[b] && s[b] <= '9'
        invariant
            a <= b <= s@.len(),
            digit_run(s@, false, b as int) == digit_run(s@, false, a as int),
        decreases s@.len() - b,
    {
        b = b + 1;
    }
    match number::parse(slice_subrange(s, a, b), 10, u32::MAX as u64) {
        Some(n) => Some(n as u32),
        None => None,
    }
}

/// The payload, the first quoted string, with backslash escapes decoded, and the
/// position behind it.
fn payload_of(args: &[char]) -> (r: (Vec<char>, usize))
    requires
        args@.len() > 0,
    ensures
        (r.0@, r.1 as int) == quoted_from(args@, args@[0], 1),
        r.1 <= args@.len(),
{
    let quote = args[0];
    let ghost whole = quoted_from(args@, quote, 1);
    let mut payload: Vec<char> = Vec::new();
    let mut i: usize = 1;
    assert(payload@ + quoted_from(args@, quote, 1).0 =~= whole.0);
    while i < args.len()
        invariant
            args@.len() > 0,
            quote == args@[0],
            1 <= i <= args@.len(),
            whole == quoted_from(args@, quote, 1),
            payload@ + quoted_from(args@, quote, i as int).0 == whole.0,
            quoted_from(args@, quote, i as int).1 == whole.1,
        decreases args@.len() - i,
    {
        let ghost before = payload@;
        if args[i] == '\\' && args.len() - i > 1 {
            payload.push(args[i + 1]);
            assert(payload@ + quoted_from(args@, quote, i + 2).0 =~= before + (seq![args@[i + 1]]
                + quoted_from(args@, quote, i + 2).0));
            i = i + 2;
        } else if args[i] == quote {
            assert(payload@ + Seq::<char>::empty() =~= payload@);
            return (payload, i + 1);
        } else {
            payload.push(args[i]);
            assert(payload@ + quoted_from(args@, quote, i + 1).0 =~= before + (seq![args@[i as int]]
                + quoted_from(args@, quote, i + 1).0));
            i = i + 1;
        }
    }
    assert(payload@ + quoted_from(args@, quote, i as int).0 =~= payload@);
    (payload, i)
}

/// The code that the arguments of the packed call stand for.
fn unpack_args(args: &[char]) -> (r: Option<Vec<char>>)
    ensures
        match r {
            Some(v) => unpacked_args(args@) == Some(v@),
            None => unpacked_args(args@) is None,
        },
{
    if args.len() == 0 || (args[0] != '\'' && args[0] != '"') {
        return None;
    }
    let (payload, end) = payload_of(args);
    let rest = slice_subrange(args, end, args.len());
    let radix: u32 = match number_in(rest) {
        Some(n) => n,
        None => return None,
    };
    // Keywords: between the first and last quote of the remaining args.
    let mut quotes: Vec<char> = Vec::new();
    quotes.push('\'');
    quotes.push('"');
    assert(quotes@ =~= seq!['\'', '"']);
    let open: usize = match text::position_any_from(rest, quotes.as_slice(), 0) {
        Some(i) => i,
        None => return None,
    };
    let close: usize = match text::last_position_any(rest, quotes.as_slice()) {
        Some(i) => i,
        None => return None,
    };
    if close <= open {
        return None;
    }
    let keywords = text::split_at_char(slice_subrange(rest, open + 1, close), '|');
    Some(substitute(payload.as_slice(), radix, &keywords))
}

/// The code that packed JavaScript stands for.
pub(crate) fn unpack(src: &[char]) -> (r: Option<Vec<char>>)
    ensures
        match r {
            Some(v) => unpacked(src@) == Some(v@),
            None => unpacked(src@) is None,
        },
{
    let single = text::chars_of(".split('|')");
    let double = text::chars_of(".split(\"|\")");
    let sp: usize = match text::position(src, single.as_slice()) {
        Some(i) => i,
        None => match text::position(src, double.as_slice()) {
            Some(i) => i,
            None => return None,
        },
    };
    let before = slice_subrange(src, 0, sp);
    assert(before@ =~= src@.take(sp as int));
    let opening = text::chars_of("}(");
    proof {
        reveal_strlit("}(");
    }
    let call: usize = match text::last_position(before, opening.as_slice()) {
        Some(i) => i,
        None => return None,
    };
    unpack_args(slice_subrange(src, call + 2, sp))
}

/// Unpack Dean Edwards' p.a.c.k.e.r output:
/// `}('payload', radix, count, 'k1|k2|…'.split('|'))`. Each base-`radix` token in the
/// payload is replaced by its keyword. Returns the decoded JS, or `None` if `src`
/// isn't packer output.
pub fn unpack_packed_js(src: &str) -> (r: Option<String>)
    ensures
        text::opt_text(r) == unpacked(src@),
{
    let s = text::chars_of(src);
    match unpack(s.as_slice()) {
        Some(v) => Some(text::string_of(v.as_slice())),
        None => None,
    }
}

} // verus!
