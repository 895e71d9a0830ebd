//! Junk in a VOE payload: wherever digraphs are put in between its characters, decoding
//! gives what it gave without them.

use crate::codec;
use crate::resolver::voe;
use crate::text;
use vstd::prelude::*;

verus! {

/// One of the digraphs that VOE interleaves into its payload.
pub open spec fn is_junk(p: Seq<char>) -> bool {
    p == "@$"@ || p == "^^"@ || p == "~@"@ || p == "%?"@ || p == "*~"@ || p == "!!"@ || p == "#&"@
}

/// A single character of base64 text.
pub open spec fn is_letter(p: Seq<char>) -> bool {
    p.len() == 1 && codec::base64_char(p[0])
}

/// Single characters of base64 text with digraphs in between.
pub open spec fn is_sprinkled(pieces: Seq<Seq<char>>) -> bool {
    forall|i: int| 0 <= i < pieces.len() ==> is_junk(#[trigger] pieces[i]) || is_letter(pieces[i])
}

/// The pieces put together.
pub open spec fn joined(pieces: Seq<Seq<char>>) -> Seq<char>
    decreases pieces.len(),
{
    if pieces.len() == 0 {
        Seq::empty()
    } else {
        pieces[0] + joined(pieces.drop_first())
    }
}

/// The pieces that are no digraphs.
pub open spec fn letters(pieces: Seq<Seq<char>>) -> Seq<Seq<char>>
    decreases pieces.len(),
{
    if pieces.len() == 0 {
        Seq::empty()
    } else if is_junk(pieces[0]) {
        letters(pieces.drop_first())
    } else {
        seq![pieces[0]] + letters(pieces.drop_first())
    }
}

/// The pieces that are not `p`.
spec fn other_than(pieces: Seq<Seq<char>>, p: Seq<char>) -> Seq<Seq<char>>
    decreases pieces.len(),
{
    if pieces.len() == 0 {
        Seq::empty()
    } else if pieces[0] == p {
        other_than(pieces.drop_first(), p)
    } else {
        seq![pieces[0]] + other_than(pieces.drop_first(), p)
    }
}

/// ROT13 of every piece.
spec fn turned(pieces: Seq<Seq<char>>) -> Seq<Seq<char>> {
    pieces.map_values(|p: Seq<char>| voe::rot13(p))
}

proof fn reveal_junk()
    ensures
        "@$"@ =~= seq!['@', '$'],
        "^^"@ =~= seq!['^', '^'],
        "~@"@ =~= seq!['~', '@'],
        "%?"@ =~= seq!['%', '?'],
        "*~"@ =~= seq!['*', '~'],
        "!!"@ =~= seq!['!', '!'],
        "#&"@ =~= seq!['#', '&'],
{
    reveal_strlit("@$");
    reveal_strlit("^^");
    reveal_strlit("~@");
    reveal_strlit("%?");
    reveal_strlit("*~");
    reveal_strlit("!!");
    reveal_strlit("#&");
}

/// Replacing behind a first part is replacing in the rest alone.
proof fn lemma_replace_behind(a: Seq<char>, b: Seq<char>, p: Seq<char>, i: int)
    requires
        0 <= i <= b.len(),
    ensures
        text::replace_from(a + b, p, Seq::empty(), a.len() + i) == text::replace_from(
            b,
            p,
            Seq::empty(),
            i,
        ),
    decreases b.len() - i,
{
    let s = a + b;
    if i < b.len() && p.len() > 0 {
        if i + p.len() <= b.len() {
            assert(s.subrange(a.len() + i, a.len() + i + p.len()) =~= b.subrange(i, i + p.len()));
            lemma_replace_behind(a, b, p, i + p.len());
        }
        lemma_replace_behind(a, b, p, i + 1);
        assert(s[a.len() + i] == b[i]);
    }
}

/// No digraph `p` begins in the middle of another one, when the digraphs that are taken
/// out before `p` are gone.
spec fn apart(pieces: Seq<Seq<char>>, p: Seq<char>) -> bool {
    forall|i: int|
        0 <= i < pieces.len() ==> !(p == "~@"@ && #[trigger] pieces[i] == "@$"@)
}

proof fn lemma_first_char(pieces: Seq<Seq<char>>)
    requires
        is_sprinkled(pieces),
        pieces.len() > 0,
    ensures
        joined(pieces).len() > 0,
        joined(pieces)[0] == pieces[0][0],
        pieces[0].len() == 1 || pieces[0].len() == 2,
        is_sprinkled(pieces.drop_first()),
{
    reveal_junk();
    let rest = pieces.drop_first();
    assert(is_junk(pieces[0]) || is_letter(pieces[0]));
    assert forall|i: int| 0 <= i < rest.len() implies is_junk(#[trigger] rest[i]) || is_letter(
        rest[i],
    ) by {
        assert(rest[i] == pieces[i + 1]);
    }
}

/// Taking a digraph out of a text takes the pieces out that are that digraph.
proof fn lemma_replace_junk(pieces: Seq<Seq<char>>, p: Seq<char>)
    requires
        is_sprinkled(pieces),
        is_junk(p),
        apart(pieces, p),
    ensures
        text::replace(joined(pieces), p, Seq::empty()) == joined(other_than(pieces, p)),
        is_sprinkled(other_than(pieces, p)),
    decreases pieces.len(),
{
    reveal_junk();
    let none = Seq::<char>::empty();
    if pieces.len() == 0 {
        assert(text::replace(joined(pieces), p, none) =~= none);
    } else {
        let first = pieces[0];
        let rest = pieces.drop_first();
        let s = joined(pieces);
        lemma_first_char(pieces);
        assert forall|i: int| 0 <= i < rest.len() implies !(p == "~@"@ && #[trigger] rest[i]
            == "@$"@) by {
            assert(rest[i] == pieces[i + 1]);
        }
        lemma_replace_junk(rest, p);
        lemma_replace_behind(first, joined(rest), p, 0);
        assert(s == first + joined(rest));
        assert(is_junk(first) || is_letter(first));
        let kept = other_than(rest, p);
        if first == p {
            assert(s.subrange(0, p.len() as int) =~= p);
            assert(none + text::replace(joined(rest), p, none) =~= text::replace(
                joined(rest),
                p,
                none,
            ));
        } else {
            let all = seq![first] + kept;
            assert(all.drop_first() =~= kept);
            assert forall|i: int| 0 <= i < all.len() implies is_junk(#[trigger] all[i])
                || is_letter(all[i]) by {
                if i > 0 {
                    assert(all[i] == kept[i - 1]);
                }
            }
            if text::occurs_at(s, p, 0) {
                assert(s.subrange(0, 2)[0] == s[0]);
                assert(s.subrange(0, 2)[1] == s[1]);
                if is_junk(first) {
                    assert(s[1] == first[1]);
                    assert(first =~= p);
                }
            }
            if is_letter(first) {
                assert(first =~= seq![s[0]]);
            } else {
                if text::occurs_at(s, p, 1) {
                    assert(s.subrange(1, 3)[0] == s[1]);
                    assert(s.subrange(1, 3)[1] == s[2]);
                    assert(s[2] == joined(rest)[0]);
                    if rest.len() > 0 {
                        lemma_first_char(rest);
                        assert(rest[0] == pieces[1]);
                        assert(is_junk(rest[0]) || is_letter(rest[0]));
                    }
                    assert(false);
                }
                assert(text::replace_from(s, p, none, 1) == seq![s[1]] + text::replace_from(
                    s,
                    p,
                    none,
                    2,
                ));
                assert(seq![s[0]] + (seq![s[1]] + joined(kept)) =~= first + joined(kept));
            }
        }
    }
}

/// What is left when one digraph is taken out: the others stay, and so do the letters.
proof fn lemma_other_than(pieces: Seq<Seq<char>>, p: Seq<char>)
    requires
        is_junk(p),
    ensures
        letters(other_than(pieces, p)) == letters(pieces),
        forall|i: int|
            0 <= i < other_than(pieces, p).len() ==> (#[trigger] other_than(pieces, p)[i]) != p
                && pieces.contains(other_than(pieces, p)[i]),
    decreases pieces.len(),
{
    if pieces.len() > 0 {
        let rest = pieces.drop_first();
        let kept = other_than(rest, p);
        lemma_other_than(rest, p);
        assert forall|q: Seq<char>| rest.contains(q) implies pieces.contains(q) by {
            let i = choose|i: int| 0 <= i < rest.len() && rest[i] == q;
            assert(pieces[i + 1] == q);
        }
        if pieces[0] != p {
            let all = seq![pieces[0]] + kept;
            assert(all.drop_first() =~= kept);
            assert forall|i: int| 0 <= i < all.len() implies (#[trigger] all[i]) != p
                && pieces.contains(all[i]) by {
                if i > 0 {
                    assert(all[i] == kept[i - 1]);
                }
            }
        }
    }
}

/// Pieces without digraphs are all letters.
proof fn lemma_all_letters(pieces: Seq<Seq<char>>)
    requires
        forall|i: int| 0 <= i < pieces.len() ==> !is_junk(#[trigger] pieces[i]),
    ensures
        letters(pieces) == pieces,
    decreases pieces.len(),
{
    if pieces.len() > 0 {
        let rest = pieces.drop_first();
        assert forall|i: int| 0 <= i < rest.len() implies !is_junk(#[trigger] rest[i]) by {
            assert(rest[i] == pieces[i + 1]);
        }
        lemma_all_letters(rest);
        assert(seq![pieces[0]] + rest =~= pieces);
    } else {
        assert(letters(pieces) =~= pieces);
    }
}

/// One digraph is taken out; those that went before stay away.
proof fn lemma_stage(pieces: Seq<Seq<char>>, p: Seq<char>, gone: Seq<Seq<char>>)
    requires
        is_sprinkled(pieces),
        is_junk(p),
        p == "~@"@ ==> gone.contains("@$"@),
        forall|i: int| 0 <= i < pieces.len() ==> !gone.contains(#[trigger] pieces[i]),
    ensures
        text::replace(joined(pieces), p, Seq::empty()) == joined(other_than(pieces, p)),
        is_sprinkled(other_than(pieces, p)),
        letters(other_than(pieces, p)) == letters(pieces),
        forall|i: int|
            0 <= i < other_than(pieces, p).len() ==> !gone.push(p).contains(
                #[trigger] other_than(pieces, p)[i],
            ),
{
    lemma_replace_junk(pieces, p);
    lemma_other_than(pieces, p);
    let kept = other_than(pieces, p);
    assert forall|i: int| 0 <= i < kept.len() implies !gone.push(p).contains(
        #[trigger] kept[i],
    ) by {
        let j = choose|j: int| 0 <= j < pieces.len() && pieces[j] == kept[i];
        assert(!gone.contains(pieces[j]));
        if gone.push(p).contains(kept[i]) {
            let k = choose|k: int| 0 <= k < gone.push(p).len() && gone.push(p)[k] == kept[i];
            if k < gone.len() {
                assert(gone[k] == kept[i]);
            }
        }
    }
}

/// All digraphs are taken out.
proof fn lemma_stripped(pieces: Seq<Seq<char>>)
    requires
        is_sprinkled(pieces),
    ensures
        voe::stripped(joined(pieces)) == joined(letters(pieces)),
{
    let g0 = Seq::<Seq<char>>::empty();
    let g1 = g0.push("@$"@);
    let g2 = g1.push("^^"@);
    let g3 = g2.push("~@"@);
    let g4 = g3.push("%?"@);
    let g5 = g4.push("*~"@);
    let g6 = g5.push("!!"@);
    let g7 = g6.push("#&"@);
    let p1 = other_than(pieces, "@$"@);
    let p2 = other_than(p1, "^^"@);
    let p3 = other_than(p2, "~@"@);
    let p4 = other_than(p3, "%?"@);
    let p5 = other_than(p4, "*~"@);
    let p6 = other_than(p5, "!!"@);
    let p7 = other_than(p6, "#&"@);
    reveal_junk();
    assert("@$"@[0] == '@' && "^^"@[0] == '^' && "~@"@[0] == '~' && "%?"@[0] == '%' && "*~"@[0]
        == '*' && "!!"@[0] == '!' && "#&"@[0] == '#');
    assert(g2[0] == "@$"@);
    lemma_stage(pieces, "@$"@, g0);
    lemma_stage(p1, "^^"@, g1);
    lemma_stage(p2, "~@"@, g2);
    lemma_stage(p3, "%?"@, g3);
    lemma_stage(p4, "*~"@, g4);
    lemma_stage(p5, "!!"@, g5);
    lemma_stage(p6, "#&"@, g6);
    assert forall|i: int| 0 <= i < p7.len() implies !is_junk(#[trigger] p7[i]) by {
        assert(!g7.contains(p7[i]));
        assert(g7[0] == "@$"@ && g7[1] == "^^"@ && g7[2] == "~@"@ && g7[3] == "%?"@ && g7[4]
            == "*~"@ && g7[5] == "!!"@ && g7[6] == "#&"@);
    }
    lemma_all_letters(p7);
}

/// ROT13 leaves the digraphs alone and turns letters into letters.
proof fn lemma_turned(pieces: Seq<Seq<char>>)
    requires
        is_sprinkled(pieces),
    ensures
        is_sprinkled(turned(pieces)),
        voe::rot13(joined(pieces)) == joined(turned(pieces)),
        letters(turned(pieces)) == turned(letters(pieces)),
        is_sprinkled(letters(pieces)),
        forall|i: int| 0 <= i < joined(pieces).len() ==> !text::white(#[trigger] joined(pieces)[i]),
    decreases pieces.len(),
{
    reveal_junk();
    if pieces.len() == 0 {
        assert(voe::rot13(joined(pieces)) =~= joined(turned(pieces)));
        assert(letters(turned(pieces)) =~= turned(letters(pieces)));
    } else {
        let first = pieces[0];
        let rest = pieces.drop_first();
        lemma_first_char(pieces);
        lemma_turned(rest);
        assert(turned(pieces).drop_first() =~= turned(rest));
        assert(voe::rot13(joined(pieces)) =~= voe::rot13(first) + voe::rot13(joined(rest)));
        assert(is_junk(first) || is_letter(first));
        if is_junk(first) {
            assert(voe::rot13(first) =~= first);
        } else {
            assert(is_letter(voe::rot13(first)));
            assert(!is_junk(voe::rot13(first)));
            let all = seq![first] + letters(rest);
            assert(turned(all) =~= seq![voe::rot13(first)] + turned(letters(rest)));
            assert forall|i: int| 0 <= i < all.len() implies is_junk(#[trigger] all[i])
                || is_letter(all[i]) by {
                if i > 0 {
                    assert(all[i] == letters(rest)[i - 1]);
                }
            }
        }
        assert forall|i: int| 0 <= i < turned(pieces).len() implies is_junk(
            #[trigger] turned(pieces)[i],
        ) || is_letter(turned(pieces)[i]) by {
            if i > 0 {
                assert(turned(pieces)[i] == turned(rest)[i - 1]);
            }
        }
        assert forall|i: int| 0 <= i < joined(pieces).len() implies !text::white(
            #[trigger] joined(pieces)[i],
        ) by {
            if i >= first.len() {
                assert(joined(pieces)[i] == joined(rest)[i - first.len()]);
            }
        }
    }
}

/// Digraphs put in between the characters of a payload do not change what it decodes to.
pub proof fn law_junk_is_ignored(pieces: Seq<Seq<char>>)
    requires
        is_sprinkled(pieces),
    ensures
        voe::decoded(joined(pieces)) == voe::decoded(joined(letters(pieces))),
{
    let plain = letters(pieces);
    lemma_turned(pieces);
    lemma_turned(plain);
    voe::lemma_trim_nothing(joined(pieces));
    voe::lemma_trim_nothing(joined(plain));
    lemma_stripped(turned(pieces));
    lemma_stripped(turned(plain));
    lemma_letters_twice(pieces);
}

proof fn lemma_letters_twice(pieces: Seq<Seq<char>>)
    ensures
        letters(letters(pieces)) == letters(pieces),
    decreases pieces.len(),
{
    if pieces.len() > 0 {
        let rest = pieces.drop_first();
        lemma_letters_twice(rest);
        if !is_junk(pieces[0]) {
            assert((seq![pieces[0]] + letters(rest)).drop_first() =~= letters(rest));
        }
    }
}

} // verus!
