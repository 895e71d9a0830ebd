//! Text as a sequence of characters: the searching, splitting and trimming that
//! the parsers and the state machine are built from, each stated over `Seq<char>`.

use vstd::prelude::*;
use vstd::slice::slice_subrange;

verus! {

/// `p` stands in `s` at position `i`.
pub open spec fn occurs_at<T>(s: Seq<T>, p: Seq<T>, i: int) -> bool {
    0 <= i && i + p.len() <= s.len() && s.subrange(i, i + p.len()) == p
}

/// The first position at or after `i` at which `p` stands in `s`.
pub open spec fn find_from<T>(s: Seq<T>, p: Seq<T>, i: int) -> Option<int>
    decreases s.len() + 1 - i,
{
    if i < 0 || i + p.len() > s.len() {
        None
    } else if occurs_at(s, p, i) {
        Some(i)
    } else {
        find_from(s, p, i + 1)
    }
}

/// The first position of `p` in `s`.
pub open spec fn find<T>(s: Seq<T>, p: Seq<T>) -> Option<int> {
    find_from(s, p, 0)
}

/// The last position at or before `i` at which `p` stands in `s`.
pub open spec fn rfind_to<T>(s: Seq<T>, p: Seq<T>, i: int) -> Option<int>
    decreases i + 1,
{
    if i < 0 {
        None
    } else if occurs_at(s, p, i) {
        Some(i)
    } else {
        rfind_to(s, p, i - 1)
    }
}

/// The last position of `p` in `s`.
pub open spec fn rfind<T>(s: Seq<T>, p: Seq<T>) -> Option<int> {
    rfind_to(s, p, s.len() - p.len())
}

/// `p` stands somewhere in `s`.
pub open spec fn contains<T>(s: Seq<T>, p: Seq<T>) -> bool {
    exists|i: int| occurs_at(s, p, i)
}

/// `s` begins with `p`.
pub open spec fn starts_with<T>(s: Seq<T>, p: Seq<T>) -> bool {
    occurs_at(s, p, 0)
}

/// `s` ends with `p`.
pub open spec fn ends_with<T>(s: Seq<T>, p: Seq<T>) -> bool {
    occurs_at(s, p, s.len() - p.len())
}

/// The first position at or after `i` that holds one of the characters `set`.
pub open spec fn find_any_from(s: Seq<char>, set: Seq<char>, i: int) -> Option<int>
    decreases s.len() - i,
{
    if i < 0 || i >= s.len() {
        None
    } else if set.contains(s[i]) {
        Some(i)
    } else {
        find_any_from(s, set, i + 1)
    }
}

/// The last position at or before `i` that holds one of the characters `set`.
pub open spec fn rfind_any_to(s: Seq<char>, set: Seq<char>, i: int) -> Option<int>
    decreases i + 1,
{
    if i < 0 {
        None
    } else if set.contains(s[i]) {
        Some(i)
    } else {
        rfind_any_to(s, set, i - 1)
    }
}

/// The characters with the Unicode property `White_Space`.
pub open spec fn white(c: char) -> bool {
    ||| '\u{9}' <= c <= '\u{d}'
    ||| c == ' '
    ||| c == '\u{85}'
    ||| c == '\u{a0}'
    ||| c == '\u{1680}'
    ||| '\u{2000}' <= c <= '\u{200a}'
    ||| c == '\u{2028}'
    ||| c == '\u{2029}'
    ||| c == '\u{202f}'
    ||| c == '\u{205f}'
    ||| c == '\u{3000}'
}

/// `s` without its leading white space.
pub open spec fn trim_start(s: Seq<char>) -> Seq<char>
    decreases s.len(),
{
    if s.len() > 0 && white(s[0]) {
        trim_start(s.subrange(1, s.len() as int))
    } else {
        s
    }
}

/// `s` without its trailing white space.
pub open spec fn trim_end(s: Seq<char>) -> Seq<char>
    decreases s.len(),
{
    if s.len() > 0 && white(s.last()) {
        trim_end(s.drop_last())
    } else {
        s
    }
}

/// `s` without the white space around it.
pub open spec fn trim(s: Seq<char>) -> Seq<char> {
    trim_end(trim_start(s))
}

/// The pieces of `s` between the characters that `sep` picks: one piece more than
/// there are separators.
pub open spec fn split(s: Seq<char>, sep: spec_fn(char) -> bool) -> Seq<Seq<char>>
    decreases s.len(),
{
    if s.len() == 0 {
        seq![Seq::<char>::empty()]
    } else {
        let head = split(s.drop_last(), sep);
        if sep(s.last()) {
            head.push(Seq::<char>::empty())
        } else {
            head.drop_last().push(head.last().push(s.last()))
        }
    }
}

/// `c` in lower case when it is an ASCII letter.
pub open spec fn ascii_lower_char(c: char) -> char {
    if 'A' <= c <= 'Z' {
        (c as u32 + 32) as char
    } else {
        c
    }
}

/// `s` with its ASCII letters in lower case.
pub open spec fn ascii_lower(s: Seq<char>) -> Seq<char> {
    s.map_values(|c: char| ascii_lower_char(c))
}

/// `s` from position `i` on, with every occurrence of `p` met from left to right
/// (none overlapping another) replaced by `q`. `p` is not empty.
pub open spec fn replace_from(s: Seq<char>, p: Seq<char>, q: Seq<char>, i: int) -> Seq<char>
    decreases s.len() - i,
{
    if i < 0 || i >= s.len() || p.len() == 0 {
        Seq::empty()
    } else if occurs_at(s, p, i) {
        q + replace_from(s, p, q, i + p.len())
    } else {
        seq![s[i]] + replace_from(s, p, q, i + 1)
    }
}

/// `s` with every occurrence of `p` replaced by `q`.
pub open spec fn replace(s: Seq<char>, p: Seq<char>, q: Seq<char>) -> Seq<char> {
    replace_from(s, p, q, 0)
}

/// `parts` one after another with `sep` between neighbours.
pub open spec fn join(parts: Seq<Seq<char>>, sep: Seq<char>) -> Seq<char>
    decreases parts.len(),
{
    if parts.len() == 0 {
        Seq::empty()
    } else if parts.len() == 1 {
        parts[0]
    } else {
        join(parts.drop_last(), sep) + sep + parts.last()
    }
}

/// The views of a list of strings.
pub open spec fn texts(v: Seq<String>) -> Seq<Seq<char>> {
    v.map_values(|s: String| s@)
}

/// The view of an optional string.
pub open spec fn opt_text(o: Option<String>) -> Option<Seq<char>> {
    match o {
        Some(s) => Some(s@),
        None => None,
    }
}

/// Finding and occurring say the same thing: `find_from` gives the least position.
pub proof fn lemma_find_from<T>(s: Seq<T>, p: Seq<T>, i: int)
    requires
        0 <= i,
    ensures
        match find_from(s, p, i) {
            Some(k) => i <= k && occurs_at(s, p, k) && forall|j: int|
                i <= j < k ==> !occurs_at(s, p, j),
            None => forall|j: int| i <= j ==> !occurs_at(s, p, j),
        },
    decreases s.len() + 1 - i,
{
    if i + p.len() <= s.len() && !occurs_at(s, p, i) {
        lemma_find_from(s, p, i + 1);
        assert forall|j: int| i <= j && (match find_from(s, p, i) {
            Some(k) => j < k,
            None => true,
        }) implies !occurs_at(s, p, j) by {
            if j > i {
                assert(i + 1 <= j);
            }
        }
    }
}

/// A pattern stands in a text exactly when it is found there.
pub proof fn lemma_contains_is_found<T>(s: Seq<T>, p: Seq<T>)
    ensures
        contains(s, p) <==> find(s, p) is Some,
{
    lemma_find_from(s, p, 0);
    if contains(s, p) {
        let i = choose|i: int| occurs_at(s, p, i);
        assert(occurs_at(s, p, i));
    }
}

/// The last position is found: `rfind_to` gives the greatest position.
pub proof fn lemma_rfind_to<T>(s: Seq<T>, p: Seq<T>, i: int)
    ensures
        match rfind_to(s, p, i) {
            Some(k) => k <= i && occurs_at(s, p, k) && forall|j: int|
                k < j <= i ==> !occurs_at(s, p, j),
            None => forall|j: int| j <= i ==> !occurs_at(s, p, j),
        },
    decreases i + 1,
{
    if i >= 0 && !occurs_at(s, p, i) {
        lemma_rfind_to(s, p, i - 1);
    }
}

/// A text splits into at least one piece.
pub proof fn lemma_split_not_empty(s: Seq<char>, sep: spec_fn(char) -> bool)
    ensures
        split(s, sep).len() > 0,
    decreases s.len(),
{
    if s.len() > 0 {
        lemma_split_not_empty(s.drop_last(), sep);
    }
}

/// What holds no separator goes on the last piece.
pub proof fn lemma_split_longer(a: Seq<char>, w: Seq<char>, sep: spec_fn(char) -> bool)
    requires
        forall|i: int| 0 <= i < w.len() ==> !sep(#[trigger] w[i]),
    ensures
        split(a + w, sep) == split(a, sep).drop_last().push(split(a, sep).last() + w),
    decreases w.len(),
{
    lemma_split_not_empty(a, sep);
    if w.len() > 0 {
        let less = w.drop_last();
        lemma_split_longer(a, less, sep);
        assert((a + w).drop_last() =~= a + less);
        assert((a + w).last() == w.last());
        let head = split(a, sep);
        assert(!sep(w[w.len() - 1]));
        assert((head.last() + less).push(w.last()) =~= head.last() + w);
        assert(head.drop_last().push(head.last() + less).drop_last() =~= head.drop_last());
    } else {
        assert(a + w =~= a);
        assert(split(a, sep).last() + w =~= split(a, sep).last());
        assert(split(a, sep).drop_last().push(split(a, sep).last()) =~= split(a, sep));
    }
}

/// What comes behind a separator leaves the pieces before it as they are.
pub proof fn lemma_split_keeps(a: Seq<char>, b: Seq<char>, sep: spec_fn(char) -> bool)
    ensures
        split(a + b, sep).len() >= split(a, sep).len(),
        forall|i: int|
            0 <= i < split(a, sep).len() - 1 ==> #[trigger] split(a + b, sep)[i] == split(a, sep)[i],
    decreases b.len(),
{
    lemma_split_not_empty(a, sep);
    if b.len() > 0 {
        lemma_split_keeps(a, b.drop_last(), sep);
        lemma_split_not_empty(a + b.drop_last(), sep);
        assert((a + b).drop_last() =~= a + b.drop_last());
        assert((a + b).last() == b.last());
    } else {
        assert(a + b =~= a);
    }
}

/// Splitting gives back the pieces that were joined by a separator that none of them
/// holds.
pub proof fn law_split_undoes_join(parts: Seq<Seq<char>>, sep: spec_fn(char) -> bool, c: char)
    requires
        parts.len() > 0,
        sep(c),
        forall|i: int, k: int|
            0 <= i < parts.len() && 0 <= k < parts[i].len() ==> !sep(#[trigger] parts[i][k]),
    ensures
        split(join(parts, seq![c]), sep) == parts,
    decreases parts.len(),
{
    let w = parts.last();
    assert forall|k: int| 0 <= k < w.len() implies !sep(#[trigger] w[k]) by {
        assert(!sep(parts[parts.len() - 1][k]));
    }
    if parts.len() == 1 {
        lemma_split_longer(Seq::empty(), w, sep);
        assert(Seq::<char>::empty() + w =~= w);
        assert(split(Seq::<char>::empty(), sep) =~= seq![Seq::<char>::empty()]);
        assert(split(w, sep) =~= parts);
    } else {
        let less = parts.drop_last();
        assert forall|i: int, k: int| 0 <= i < less.len() && 0 <= k < less[i].len() implies !sep(
            #[trigger] less[i][k],
        ) by {
            assert(!sep(parts[i][k]));
        }
        law_split_undoes_join(less, sep, c);
        let a = join(less, seq![c]) + seq![c];
        assert(a.drop_last() =~= join(less, seq![c]));
        assert(split(a, sep) =~= less.push(Seq::empty()));
        lemma_split_longer(a, w, sep);
        assert(Seq::<char>::empty() + w =~= w);
        assert(less.push(Seq::<char>::empty()).drop_last() =~= less);
        assert(less.push(w) =~= parts);
    }
}

/// Trimming takes white space away at both ends, all of it there and nothing else.
pub proof fn law_trim(s: Seq<char>)
    ensures
        exists|a: int, b: int|
            0 <= a <= b <= s.len() && #[trigger] s.subrange(a, b) == trim(s) && (forall|i: int|
                0 <= i < a || b <= i < s.len() ==> white(#[trigger] s[i])),
        trim(s).len() > 0 ==> !white(trim(s)[0]) && !white(trim(s).last()),
    decreases s.len(),
{
    lemma_trim_start(s);
    let t = trim_start(s);
    lemma_trim_end(t);
    let a = s.len() - t.len();
    let b = a + trim(s).len();
    assert(s.subrange(a, b) =~= trim(s));
    assert forall|i: int| 0 <= i < a || b <= i < s.len() implies white(#[trigger] s[i]) by {
        if b <= i {
            assert(t[i - a] == s[i]);
        }
    }
}

proof fn lemma_trim_start(s: Seq<char>)
    ensures
        trim_start(s).len() <= s.len(),
        trim_start(s) == s.subrange(s.len() - trim_start(s).len(), s.len() as int),
        forall|i: int| 0 <= i < s.len() - trim_start(s).len() ==> white(#[trigger] s[i]),
        trim_start(s).len() > 0 ==> !white(trim_start(s)[0]),
    decreases s.len(),
{
    if s.len() > 0 && white(s[0]) {
        let more = s.subrange(1, s.len() as int);
        lemma_trim_start(more);
        assert forall|i: int| 0 <= i < s.len() - trim_start(s).len() implies white(
            #[trigger] s[i],
        ) by {
            if i > 0 {
                assert(more[i - 1] == s[i]);
            }
        }
        assert(trim_start(s) =~= s.subrange(s.len() - trim_start(s).len(), s.len() as int));
    } else {
        assert(s.subrange(0, s.len() as int) =~= s);
    }
}

proof fn lemma_trim_end(s: Seq<char>)
    ensures
        trim_end(s).len() <= s.len(),
        trim_end(s) == s.take(trim_end(s).len() as int),
        forall|i: int| trim_end(s).len() <= i < s.len() ==> white(#[trigger] s[i]),
        trim_end(s).len() > 0 ==> !white(trim_end(s).last()),
    decreases s.len(),
{
    if s.len() > 0 && white(s.last()) {
        let less = s.drop_last();
        lemma_trim_end(less);
        assert forall|i: int| trim_end(s).len() <= i < s.len() implies white(#[trigger] s[i]) by {
            if i < less.len() {
                assert(less[i] == s[i]);
            }
        }
        assert(trim_end(s) =~= s.take(trim_end(s).len() as int));
    } else {
        assert(s.take(s.len() as int) =~= s);
    }
}

/// Replacing puts the new text where the old one stood and goes on behind it; a text
/// without the old one stays as it is.
pub proof fn law_replace(a: Seq<char>, p: Seq<char>, q: Seq<char>, b: Seq<char>)
    requires
        p.len() > 0,
        forall|i: int| 0 <= i < a.len() ==> !(#[trigger] occurs_at(a + p + b, p, i)),
    ensures
        replace(a + p + b, p, q) == a + q + replace(b, p, q),
{
    let s = a + p + b;
    lemma_replace_until(s, p, q, 0, a.len() as int);
    assert(s.subrange(0, a.len() as int) =~= a);
    assert(s.subrange(a.len() as int, a.len() as int + p.len()) =~= p);
    assert(occurs_at(s, p, a.len() as int));
    lemma_replace_behind(a + p, b, p, q, 0);
    assert(a + (q + replace(b, p, q)) =~= a + q + replace(b, p, q));
}

/// A text in which a pattern does not stand stays as it is.
pub proof fn law_replace_nothing(s: Seq<char>, p: Seq<char>, q: Seq<char>)
    requires
        p.len() > 0,
        !contains(s, p),
    ensures
        replace(s, p, q) == s,
{
    assert forall|i: int| 0 <= i < s.len() implies !(#[trigger] occurs_at(s, p, i)) by {
    }
    lemma_replace_until(s, p, q, 0, s.len() as int);
    assert(s.subrange(0, s.len() as int) + Seq::<char>::empty() =~= s);
}

proof fn lemma_replace_until(s: Seq<char>, p: Seq<char>, q: Seq<char>, i: int, k: int)
    requires
        p.len() > 0,
        0 <= i <= k <= s.len(),
        forall|j: int| i <= j < k ==> !(#[trigger] occurs_at(s, p, j)),
    ensures
        replace_from(s, p, q, i) == s.subrange(i, k) + replace_from(s, p, q, k),
    decreases k - i,
{
    if i < k {
        lemma_replace_until(s, p, q, i + 1, k);
        assert(!occurs_at(s, p, i));
        assert(seq![s[i]] + (s.subrange(i + 1, k) + replace_from(s, p, q, k)) =~= s.subrange(i, k)
            + replace_from(s, p, q, k));
    } else {
        assert(s.subrange(i, k) + replace_from(s, p, q, k) =~= replace_from(s, p, q, k));
    }
}

proof fn lemma_replace_behind(a: Seq<char>, b: Seq<char>, p: Seq<char>, q: Seq<char>, i: int)
    requires
        0 <= i <= b.len(),
    ensures
        replace_from(a + b, p, q, a.len() + i) == replace_from(b, p, q, i),
    decreases b.len() - i,
{
    let s = a + b;
    if i < b.len() && p.len() > 0 {
        if i + p.len() <= b.len() {
            assert(s.subrange(a.len() + i, a.len() + i + p.len()) =~= b.subrange(i, i + p.len()));
            lemma_replace_behind(a, b, p, q, i + p.len());
        }
        lemma_replace_behind(a, b, p, q, i + 1);
        assert(s[a.len() + i] == b[i]);
    }
}

/// The letters A to Z become the letters a to z, and every other character stays.
pub proof fn law_ascii_lower(s: Seq<char>, i: int, k: int)
    requires
        0 <= i < s.len(),
        0 <= k < 26,
    ensures
        ascii_lower(s).len() == s.len(),
        s[i] == "ABCDEFGHIJKLMNOPQRSTUVWXYZ"@[k] ==> ascii_lower(s)[i]
            == "abcdefghijklmnopqrstuvwxyz"@[k],
        !('A' <= s[i] <= 'Z') ==> ascii_lower(s)[i] == s[i],
{
    reveal_strlit("ABCDEFGHIJKLMNOPQRSTUVWXYZ");
    reveal_strlit("abcdefghijklmnopqrstuvwxyz");
    assert(k == 0 || k == 1 || k == 2 || k == 3 || k == 4 || k == 5 || k == 6 || k == 7 || k == 8
        || k == 9 || k == 10 || k == 11 || k == 12 || k == 13 || k == 14 || k == 15 || k == 16
        || k == 17 || k == 18 || k == 19 || k == 20 || k == 21 || k == 22 || k == 23 || k == 24
        || k == 25);
}

/// Of the characters of ASCII, the space, the tab, the line feed, the vertical tab, the
/// form feed and the carriage return are white, and no other.
pub proof fn law_white(c: char)
    requires
        c <= '\u{7f}',
    ensures
        white(c) <==> c == ' ' || c == '\t' || c == '\n' || c == '\u{b}' || c == '\u{c}' || c == '\r',
{
}

/// A path below a directory has one separator between the two.
pub proof fn law_path_join(dir: Seq<char>, name: Seq<char>)
    ensures
        path_join(Seq::empty(), name) == name,
        path_join(dir.push('/'), name) == dir.push('/') + name,
        dir.len() > 0 && dir.last() != '/' ==> path_join(dir, name) == dir + seq!['/'] + name,
{
    assert(Seq::<char>::empty() + name =~= name);
}

/// The characters of a string.
pub fn chars_of(s: &str) -> (r: Vec<char>)
    ensures
        r@ == s@,
{
    let mut r: Vec<char> = Vec::new();
    for c in it: s.chars()
        invariant
            it.seq() == s@,
            r@ == s@.take(it.index() as int),
    {
        r.push(c);
        assert(s@.take(it.index() + 1) =~= s@.take(it.index() as int).push(c));
    }
    assert(s@.take(s@.len() as int) =~= s@);
    r
}

/// Appends one character: `String::push`, which adds the character at the end.
pub assume_specification[ String::push ](s: &mut String, c: char)
    ensures
        final(s)@ == old(s)@.push(c),
;

/// Takes the last character away: `String::pop`, which returns it, or `None` when
/// the string is empty.
pub assume_specification[ String::pop ](s: &mut String) -> (r: Option<char>)
    ensures
        old(s)@.len() == 0 ==> r is None && final(s)@ == old(s)@,
        old(s)@.len() > 0 ==> r == Some(old(s)@.last()) && final(s)@ == old(s)@.drop_last(),
;

/// Empties a string: `String::clear`.
pub assume_specification[ String::clear ](s: &mut String)
    ensures
        final(s)@ == Seq::<char>::empty(),
;

/// One text behind another.
pub fn cat(head: &str, tail: &str) -> (r: String)
    ensures
        r@ == head@ + tail@,
{
    let mut s = head.to_string();
    s.append(tail);
    s
}

/// Adds a string to a list of strings.
pub fn put(list: &mut Vec<String>, s: String)
    ensures
        texts(final(list)@) == texts(old(list)@).push(s@),
{
    let ghost before = list@;
    list.push(s);
    assert(texts(list@) =~= texts(before).push(s@));
}

/// Whether a text is in a list.
pub fn lists(list: &Vec<String>, s: &str) -> (r: bool)
    ensures
        r == texts(list@).contains(s@),
{
    let mut i: usize = 0;
    while i < list.len()
        invariant
            i <= list@.len(),
            forall|k: int| 0 <= k < i ==> (#[trigger] texts(list@)[k]) != s@,
        decreases list@.len() - i,
    {
        if str_same(list[i].as_str(), s) {
            assert(texts(list@)[i as int] == s@);
            return true;
        }
        i = i + 1;
    }
    false
}

/// Adds a text to a list of strings.
pub fn put_str(list: &mut Vec<String>, s: &str)
    ensures
        texts(final(list)@) == texts(old(list)@).push(s@),
{
    put(list, s.to_string());
}

/// A path below a directory: a separator stands between the two unless the directory
/// is empty or ends with one. `name` does not begin with a separator.
pub open spec fn path_join(dir: Seq<char>, name: Seq<char>) -> Seq<char> {
    if dir.len() == 0 || dir.last() == '/' {
        dir + name
    } else {
        dir + seq!['/'] + name
    }
}

/// The path of `name` in the directory `dir`.
pub fn joined_path(dir: &str, name: &str) -> (r: String)
    ensures
        r@ == path_join(dir@, name@),
{
    let d = chars_of(dir);
    let mut out = dir.to_string();
    if d.len() > 0 && d[d.len() - 1] != '/' {
        out.push('/');
    }
    out.append(name);
    assert(out@ =~= path_join(dir@, name@));
    out
}

/// The string made of the given characters.
pub fn string_of(c: &[char]) -> (r: String)
    ensures
        r@ == c@,
{
    let mut r = String::new();
    let mut i: usize = 0;
    while i < c.len()
        invariant
            i <= c@.len(),
            r@ == c@.take(i as int),
        decreases c@.len() - i,
    {
        r.push(c[i]);
        assert(c@.take(i + 1) =~= c@.take(i as int).push(c@[i as int]));
        i = i + 1;
    }
    assert(c@.take(c@.len() as int) =~= c@);
    r
}

/// Whether `p` stands in `s` at position `i`.
pub fn matches_at(s: &[char], p: &[char], i: usize) -> (r: bool)
    ensures
        r == occurs_at(s@, p@, i as int),
{
    if i > s.len() || p.len() > s.len() - i {
        return false;
    }
    let mut j: usize = 0;
    while j < p.len()
        invariant
            j <= p@.len(),
            i + p@.len() <= s.len(),
            forall|k: int| 0 <= k < j ==> s@[i + k] == p@[k],
        decreases p@.len() - j,
    {
        if s[i + j] != p[j] {
            assert(s@.subrange(i as int, i + p@.len())[j as int] != p@[j as int]);
            return false;
        }
        j = j + 1;
    }
    assert(s@.subrange(i as int, i + p@.len()) =~= p@);
    true
}

/// The first position of `p` in `s` at or after `from`.
pub fn position_from(s: &[char], p: &[char], from: usize) -> (r: Option<usize>)
    ensures
        match r {
            Some(k) => find_from(s@, p@, from as int) == Some(k as int) && k + p@.len() <= s@.len()
                <= usize::MAX,
            None => find_from(s@, p@, from as int) is None,
        },
{
    let mut i: usize = from;
    while i <= s.len() && p.len() <= s.len() - i
        invariant
            from <= i,
            from <= s@.len() ==> i <= s@.len() + 1,
            find_from(s@, p@, i as int) == find_from(s@, p@, from as int),
        decreases s@.len() + 1 - i,
    {
        if matches_at(s, p, i) {
            return Some(i);
        }
        if i == s.len() {
            assert(find_from(s@, p@, i + 1) is None);
            return None;
        }
        i = i + 1;
    }
    None
}

/// The first position of `p` in `s`.
pub fn position(s: &[char], p: &[char]) -> (r: Option<usize>)
    ensures
        match r {
            Some(k) => find(s@, p@) == Some(k as int) && k + p@.len() <= s@.len() <= usize::MAX,
            None => find(s@, p@) is None,
        },
{
    position_from(s, p, 0)
}

/// The last position of `p` in `s`.
pub fn last_position(s: &[char], p: &[char]) -> (r: Option<usize>)
    ensures
        match r {
            Some(k) => rfind(s@, p@) == Some(k as int) && k + p@.len() <= s@.len() <= usize::MAX,
            None => rfind(s@, p@) is None,
        },
{
    if p.len() > s.len() {
        return None;
    }
    let mut i: usize = s.len() - p.len();
    loop
        invariant
            i + p@.len() <= s@.len() <= usize::MAX,
            rfind_to(s@, p@, i as int) == rfind(s@, p@),
        decreases i,
    {
        if matches_at(s, p, i) {
            return Some(i);
        }
        if i == 0 {
            assert(rfind_to(s@, p@, -1) is None);
            return None;
        }
        i = i - 1;
    }
}

/// Whether `p` stands in `s`.
pub fn has(s: &[char], p: &[char]) -> (r: bool)
    ensures
        r == contains(s@, p@),
{
    let r = position(s, p);
    proof {
        lemma_contains_is_found(s@, p@);
    }
    r.is_some()
}

/// Whether `p` stands in `s`, on strings.
pub fn str_has(s: &str, p: &str) -> (r: bool)
    ensures
        r == contains(s@, p@),
{
    let a = chars_of(s);
    let b = chars_of(p);
    has(a.as_slice(), b.as_slice())
}

/// Whether `s` begins with `p`.
pub fn begins(s: &[char], p: &[char]) -> (r: bool)
    ensures
        r == starts_with(s@, p@),
{
    matches_at(s, p, 0)
}

/// Whether `s` begins with `p`, on strings.
pub fn str_begins(s: &str, p: &str) -> (r: bool)
    ensures
        r == starts_with(s@, p@),
{
    let a = chars_of(s);
    let b = chars_of(p);
    matches_at(a.as_slice(), b.as_slice(), 0)
}

/// Whether `s` begins with `p`, on bytes.
pub fn bytes_begin(s: &[u8], p: &[u8]) -> (r: bool)
    ensures
        r == starts_with(s@, p@),
{
    if p.len() > s.len() {
        return false;
    }
    let mut i: usize = 0;
    while i < p.len()
        invariant
            i <= p@.len() <= s@.len(),
            forall|k: int| 0 <= k < i ==> s@[k] == p@[k],
        decreases p@.len() - i,
    {
        if s[i] != p[i] {
            assert(s@.subrange(0, p@.len() as int)[i as int] != p@[i as int]);
            return false;
        }
        i = i + 1;
    }
    assert(s@.subrange(0, p@.len() as int) =~= p@);
    true
}

/// Whether `s` ends with `p`.
pub fn ends(s: &[char], p: &[char]) -> (r: bool)
    ensures
        r == ends_with(s@, p@),
{
    if p.len() > s.len() {
        return false;
    }
    matches_at(s, p, s.len() - p.len())
}

/// Whether two character lists are the same.
pub fn same(a: &[char], b: &[char]) -> (r: bool)
    ensures
        r == (a@ == b@),
{
    if a.len() != b.len() {
        return false;
    }
    let r = matches_at(a, b, 0);
    proof {
        assert(a@.subrange(0, a@.len() as int) =~= a@);
    }
    r
}

/// Whether two strings are the same.
pub fn str_same(a: &str, b: &str) -> (r: bool)
    ensures
        r == (a@ == b@),
{
    let x = chars_of(a);
    let y = chars_of(b);
    same(x.as_slice(), y.as_slice())
}

/// Whether `c` is one of `set`.
pub fn one_of(c: char, set: &[char]) -> (r: bool)
    ensures
        r == set@.contains(c),
{
    let mut i: usize = 0;
    while i < set.len()
        invariant
            i <= set@.len(),
            forall|k: int| 0 <= k < i ==> set@[k] != c,
        decreases set@.len() - i,
    {
        if set[i] == c {
            return true;
        }
        i = i + 1;
    }
    false
}

/// The first position at or after `from` that holds one of the characters `set`.
pub fn position_any_from(s: &[char], set: &[char], from: usize) -> (r: Option<usize>)
    ensures
        match r {
            Some(k) => find_any_from(s@, set@, from as int) == Some(k as int) && from <= k < s@.len(),
            None => find_any_from(s@, set@, from as int) is None,
        },
{
    let mut i: usize = from;
    while i < s.len()
        invariant
            from <= i,
            find_any_from(s@, set@, i as int) == find_any_from(s@, set@, from as int),
        decreases s@.len() - i,
    {
        if one_of(s[i], set) {
            return Some(i);
        }
        i = i + 1;
    }
    None
}

/// The last position in `s` that holds one of the characters `set`.
pub fn last_position_any(s: &[char], set: &[char]) -> (r: Option<usize>)
    ensures
        match r {
            Some(k) => rfind_any_to(s@, set@, s@.len() - 1) == Some(k as int) && k < s@.len(),
            None => rfind_any_to(s@, set@, s@.len() - 1) is None,
        },
{
    let mut i: usize = s.len();
    while i > 0
        invariant
            i <= s@.len(),
            rfind_any_to(s@, set@, i - 1) == rfind_any_to(s@, set@, s@.len() - 1),
        decreases i,
    {
        if one_of(s[i - 1], set) {
            return Some(i - 1);
        }
        i = i - 1;
    }
    None
}

/// Whether `c` is white space.
pub fn is_white(c: char) -> (r: bool)
    ensures
        r == white(c),
{
    ('\u{9}' <= c && c <= '\u{d}') || c == ' ' || c == '\u{85}' || c == '\u{a0}' || c == '\u{1680}'
        || ('\u{2000}' <= c && c <= '\u{200a}') || c == '\u{2028}' || c == '\u{2029}'
        || c == '\u{202f}' || c == '\u{205f}' || c == '\u{3000}'
}

/// `s` without the white space around it.
pub fn trimmed(s: &[char]) -> (r: &[char])
    ensures
        r@ == trim(s@),
{
    let mut a: usize = 0;
    assert(s@.subrange(0, s@.len() as int) =~= s@);
    while a < s.len() && is_white(s[a])
        invariant
            a <= s@.len(),
            trim_start(s@.subrange(a as int, s@.len() as int)) == trim_start(s@),
        decreases s@.len() - a,
    {
        assert(s@.subrange(a as int, s@.len() as int).subrange(1, s@.len() - a)
            =~= s@.subrange(a + 1, s@.len() as int));
        a = a + 1;
    }
    let mut b: usize = s.len();
    while b > a && is_white(s[b - 1])
        invariant
            a <= b <= s@.len(),
            trim_end(s@.subrange(a as int, b as int)) == trim_end(
                s@.subrange(a as int, s@.len() as int),
            ),
        decreases b,
    {
        assert(s@.subrange(a as int, b as int).drop_last() =~= s@.subrange(a as int, b - 1));
        b = b - 1;
    }
    slice_subrange(s, a, b)
}

/// `s` without the white space around it, on strings.
pub fn str_trimmed(s: &str) -> (r: String)
    ensures
        r@ == trim(s@),
{
    let a = chars_of(s);
    string_of(trimmed(a.as_slice()))
}

/// `c` in lower case when it is an ASCII letter.
pub fn ascii_lowered_char(c: char) -> (r: char)
    ensures
        r == ascii_lower_char(c),
{
    if 'A' <= c && c <= 'Z' {
        let lower: u8 = c as u8 + 32;
        lower as char
    } else {
        c
    }
}

/// `s` with its ASCII letters in lower case.
pub fn ascii_lowered(s: &[char]) -> (r: Vec<char>)
    ensures
        r@ == ascii_lower(s@),
{
    let mut r: Vec<char> = Vec::new();
    let mut i: usize = 0;
    while i < s.len()
        invariant
            i <= s@.len(),
            r@ == ascii_lower(s@.take(i as int)),
        decreases s@.len() - i,
    {
        r.push(ascii_lowered_char(s[i]));
        assert(ascii_lower(s@.take(i + 1)) =~= ascii_lower(s@.take(i as int)).push(
            ascii_lower_char(s@[i as int]),
        ));
        i = i + 1;
    }
    assert(s@.take(s@.len() as int) =~= s@);
    r
}

/// The lower case of a text under the full Unicode mapping.
pub uninterp spec fn lowercase(s: Seq<char>) -> Seq<char>;

/// `str::to_lowercase`, the Unicode lower case of the whole text. It depends on
/// the text alone. Of ASCII text it lowers the letters A to Z and keeps the rest;
/// for other text the mapping is Unicode's table and is left unstated.
#[verifier::external_body]
pub(crate) fn lowered(s: &str) -> (r: String)
    ensures
        r@ == lowercase(s@),
        vstd::utf8::is_ascii_chars(s@) ==> r@ == ascii_lower(s@),
{
    s.to_lowercase()
}

/// `s` with every occurrence of `p` replaced by `q`.
pub fn replaced(s: &[char], p: &[char], q: &[char]) -> (r: Vec<char>)
    requires
        p@.len() > 0,
    ensures
        r@ == replace(s@, p@, q@),
{
    let mut r: Vec<char> = Vec::new();
    let mut i: usize = 0;
    while i < s.len()
        invariant
            p@.len() > 0,
            i <= s@.len(),
            r@ + replace_from(s@, p@, q@, i as int) == replace(s@, p@, q@),
        decreases s@.len() - i,
    {
        let ghost before = r@;
        if matches_at(s, p, i) {
            let mut k: usize = 0;
            while k < q.len()
                invariant
                    k <= q@.len(),
                    r@ == before + q@.take(k as int),
                decreases q@.len() - k,
            {
                r.push(q[k]);
                assert(q@.take(k + 1) =~= q@.take(k as int).push(q@[k as int]));
                k = k + 1;
            }
            assert(q@.take(q@.len() as int) =~= q@);
            assert(before + (q@ + replace_from(s@, p@, q@, i + p@.len())) =~= (before + q@)
                + replace_from(s@, p@, q@, i + p@.len()));
            i = i + p.len();
        } else {
            r.push(s[i]);
            assert(before + (seq![s@[i as int]] + replace_from(s@, p@, q@, i + 1)) =~= before.push(
                s@[i as int],
            ) + replace_from(s@, p@, q@, i + 1));
            i = i + 1;
        }
    }
    assert(r@ + replace_from(s@, p@, q@, i as int) =~= r@);
    r
}

/// `String::from_utf8`: the text that the bytes encode, or nothing when they are not
/// valid UTF-8.
#[verifier::external_body]
pub(crate) fn utf8_text(bytes: Vec<u8>) -> (r: Option<String>)
    ensures
        match r {
            Some(s) => vstd::utf8::valid_utf8(bytes@) && s@ == vstd::utf8::decode_utf8(bytes@),
            None => !vstd::utf8::valid_utf8(bytes@),
        },
{
    String::from_utf8(bytes).ok()
}

/// The text of some bytes with what is not valid UTF-8 replaced.
pub uninterp spec fn lossy(bytes: Seq<u8>) -> Seq<char>;

/// `String::from_utf8_lossy`. Valid UTF-8 gives the text it encodes; what stands for
/// other bytes is left unstated.
#[verifier::external_body]
pub(crate) fn lossy_text(bytes: &[u8]) -> (r: String)
    ensures
        r@ == lossy(bytes@),
        vstd::utf8::valid_utf8(bytes@) ==> r@ == vstd::utf8::decode_utf8(bytes@),
{
    String::from_utf8_lossy(bytes).into_owned()
}

/// A text in quotes with its special characters escaped.
pub uninterp spec fn quoted(s: Seq<char>) -> Seq<char>;

/// `Debug` of `str`, which depends on the text alone; which characters are escaped is
/// left unstated.
#[verifier::external_body]
pub(crate) fn quoted_text(s: &str) -> (r: String)
    ensures
        r@ == quoted(s@),
{
    format!("{:?}", s)
}

/// The views of a list of character lists.
pub open spec fn pieces(v: Seq<Vec<char>>) -> Seq<Seq<char>> {
    v.map_values(|p: Vec<char>| p@)
}

/// The pieces of `s` between the characters that `f` picks.
pub fn split_by(s: &[char], f: impl Fn(char) -> bool, Ghost(sep): Ghost<spec_fn(char) -> bool>) -> (r:
    Vec<Vec<char>>)
    requires
        forall|c: char| f.requires((c,)),
        forall|c: char, b: bool| f.ensures((c,), b) ==> b == sep(c),
    ensures
        pieces(r@) == split(s@, sep),
        r@.len() > 0,
{
    let mut out: Vec<Vec<char>> = Vec::new();
    let mut last: Vec<char> = Vec::new();
    let mut i: usize = 0;
    while i < s.len()
        invariant
            forall|c: char| f.requires((c,)),
            forall|c: char, b: bool| f.ensures((c,), b) ==> b == sep(c),
            i <= s@.len(),
            pieces(out@).push(last@) == split(s@.take(i as int), sep),
        decreases s@.len() - i,
    {
        let c = s[i];
        let ghost head = pieces(out@).push(last@);
        proof {
            assert(s@.take(i + 1).drop_last() =~= s@.take(i as int));
            assert(head.drop_last() =~= pieces(out@));
        }
        if f(c) {
            let ghost before = out@;
            let ghost done = last@;
            out.push(last);
            last = Vec::new();
            assert(pieces(out@) =~= pieces(before).push(done));
        } else {
            last.push(c);
        }
        i = i + 1;
    }
    assert(s@.take(s@.len() as int) =~= s@);
    let ghost before = out@;
    out.push(last);
    assert(pieces(out@) =~= pieces(before).push(last@));
    out
}

/// The pieces of `s` between the occurrences of a character.
pub fn split_at_char(s: &[char], sep: char) -> (r: Vec<Vec<char>>)
    ensures
        pieces(r@) == split(s@, |c: char| c == sep),
        r@.len() > 0,
{
    let f = |c: char| -> (b: bool)
        ensures
            b == (c == sep),
        { c == sep };
    split_by(s, f, Ghost(|c: char| c == sep))
}

} // verus!
