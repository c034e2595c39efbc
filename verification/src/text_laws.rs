//! What trimming, searching, cutting and writing numbers come to.

use vstd::prelude::*;
#[allow(unused_imports)]
use crate::text::{
    all_digits, blank, cut_at, decimal_of, digit_char, digits_value, filled, is_digit, is_white,
    lemma_decimal_digits, number_of, occurs_at, occurs_in, only, padded, pieces, swapped, trimmed,
    trimmed_end, trimmed_start, unsigned_part, words_of,
};

verus! {

/// A text of white space only.
pub open spec fn all_white(s: Seq<char>) -> bool {
    forall|i: int| 0 <= i < s.len() ==> is_white(#[trigger] s[i])
}

/// A text without any white space.
pub open spec fn no_white(s: Seq<char>) -> bool {
    forall|i: int| 0 <= i < s.len() ==> !is_white(#[trigger] s[i])
}

/// The texts one behind the other, with a character between any two.
pub open spec fn joined(parts: Seq<Seq<char>>, c: char) -> Seq<char>
    decreases parts.len(),
{
    if parts.len() == 0 {
        Seq::empty()
    } else if parts.len() == 1 {
        parts[0]
    } else {
        joined(parts.drop_last(), c) + seq![c] + parts.last()
    }
}

/// White space are the blank, the tab and the four signs behind it, and the further white space of
/// Unicode; no sign that can be seen is.
pub proof fn law_white_space_cannot_be_seen(c: char)
    ensures
        is_white(c) <==> set![
            9u32,
            10u32,
            11u32,
            12u32,
            13u32,
            32u32,
            133u32,
            160u32,
            5760u32,
            8192u32,
            8193u32,
            8194u32,
            8195u32,
            8196u32,
            8197u32,
            8198u32,
            8199u32,
            8200u32,
            8201u32,
            8202u32,
            8232u32,
            8233u32,
            8239u32,
            8287u32,
            12288u32,
        ].contains(c as u32),
        '!' <= c <= '~' ==> !is_white(c),
{
}

/// Trimming takes off exactly the white space at either end, and nothing in between.
pub proof fn law_trimming_takes_off_both_ends(head: Seq<char>, core: Seq<char>, tail: Seq<char>)
    requires
        all_white(head),
        all_white(tail),
        core.len() > 0 ==> !is_white(core.first()) && !is_white(core.last()),
    ensures
        trimmed(head + core + tail) == core,
{
    if core.len() == 0 {
        assert(head + core + tail =~= head + tail);
        assert(all_white(head + tail));
        lemma_start(head + tail, Seq::empty());
        assert((head + tail) + Seq::<char>::empty() =~= head + tail);
        assert(core =~= Seq::empty());
    } else {
        lemma_start(head, core + tail);
        assert(head + core + tail =~= head + (core + tail));
        assert((core + tail).first() == core.first());
        lemma_end(core, tail);
    }
}

proof fn lemma_start(head: Seq<char>, rest: Seq<char>)
    requires
        all_white(head),
        rest.len() > 0 ==> !is_white(rest.first()),
    ensures
        trimmed_start(head + rest) == rest,
    decreases head.len(),
{
    if head.len() == 0 {
        assert(head + rest =~= rest);
    } else {
        assert((head + rest).first() == head[0]);
        assert((head + rest).drop_first() =~= head.drop_first() + rest);
        lemma_start(head.drop_first(), rest);
    }
}

proof fn lemma_end(core: Seq<char>, tail: Seq<char>)
    requires
        all_white(tail),
        core.len() > 0,
        !is_white(core.last()),
    ensures
        trimmed_end(core + tail) == core,
    decreases tail.len(),
{
    if tail.len() == 0 {
        assert(core + tail =~= core);
    } else {
        assert((core + tail).last() == tail.last());
        assert((core + tail).drop_last() =~= core + tail.drop_last());
        lemma_end(core, tail.drop_last());
    }
}

/// A text is found wherever it stands, whatever stands around it.
pub proof fn law_texts_are_found_inside(head: Seq<char>, needle: Seq<char>, tail: Seq<char>)
    ensures
        occurs_in(head + needle + tail, needle),
        occurs_at(head + needle + tail, needle, head.len() as int),
{
    let s = head + needle + tail;
    assert(s.subrange(head.len() as int, head.len() as int + needle.len()) =~= needle);
    assert(occurs_at(s, needle, head.len() as int));
}

/// A text that is found at a position stands there, sign by sign.
pub proof fn law_found_texts_stand_there(s: Seq<char>, needle: Seq<char>, at: int, i: int)
    requires
        occurs_at(s, needle, at),
        0 <= i < needle.len(),
    ensures
        0 <= at,
        at + needle.len() <= s.len(),
        s[at + i] == needle[i],
{
    assert(s.subrange(at, at + needle.len())[i] == s[at + i]);
}

/// The pieces of a text, with the separator between any two, are the text again, and no piece holds
/// the separator.
pub proof fn law_pieces_make_the_text(s: Seq<char>, c: char)
    ensures
        cut_at(s, c).len() > 0,
        joined(cut_at(s, c), c) == s,
        forall|i: int| 0 <= i < cut_at(s, c).len() ==> !(#[trigger] cut_at(s, c)[i]).contains(c),
    decreases s.len(),
{
    if s.len() == 0 {
        assert(s =~= Seq::empty());
    } else {
        let t = s.drop_last();
        law_pieces_make_the_text(t, c);
        let before = cut_at(t, c);
        let now = cut_at(s, c);
        assert(t.push(s.last()) =~= s);
        if s.last() == c {
            assert(now == before.push(Seq::empty()));
            assert(now.drop_last() =~= before);
            assert(joined(now, c) =~= joined(before, c) + seq![c]);
            assert(joined(now, c) =~= s);
        } else {
            let last = before.last().push(s.last());
            assert(now == before.drop_last().push(last));
            assert(now.drop_last() =~= before.drop_last());
            assert(joined(now, c) =~= joined(before, c).push(s.last()));
            assert forall|i: int| 0 <= i < now.len() implies !(#[trigger] now[i]).contains(c) by {
                if i < now.len() - 1 {
                    assert(now[i] == before[i]);
                } else {
                    assert(!before[before.len() - 1].contains(c));
                    if last.contains(c) {
                        let k = choose|k: int| 0 <= k < last.len() && last[k] == c;
                        assert(k < last.len() - 1);
                        assert(before.last()[k] == c);
                    }
                }
            }
        }
    }
}

/// White space keeps words apart, however much of it there is.
pub proof fn law_words_stand_apart(a: Seq<char>, gap: Seq<char>, b: Seq<char>)
    requires
        all_white(gap),
        gap.len() > 0,
    ensures
        words_of(a + gap + b) == words_of(a) + words_of(b),
{
    reveal(Seq::filter);
    let sep = blank();
    let s = a + gap + b;
    if b.len() > 0 {
        lemma_blank_pieces(a, gap, b);
        lemma_filter_add(pieces(a + gap, sep).drop_last(), pieces(b, sep));
        lemma_gap(a, gap);
    } else {
        assert(s =~= a + gap);
        assert(b =~= Seq::empty());
        lemma_gap(a, gap);
        lemma_no_words();
        let p = pieces(a + gap, sep);
        lemma_blank_pieces_not_empty(a + gap);
        p.drop_last().lemma_filter_push(p.last(), filled());
        assert(p.drop_last().push(p.last()) =~= p);
        assert(words_of(a) + words_of(b) =~= words_of(a));
    }
}

proof fn lemma_no_words()
    ensures
        words_of(Seq::empty()) == Seq::<Seq<char>>::empty(),
{
    reveal(Seq::filter);
    let p = pieces(Seq::empty(), blank());
    assert(p =~= Seq::<Seq<char>>::empty().push(Seq::empty()));
    Seq::<Seq<char>>::empty().lemma_filter_push(Seq::empty(), filled());
}

proof fn lemma_blank_pieces_not_empty(s: Seq<char>)
    ensures
        pieces(s, blank()).len() > 0,
    decreases s.len(),
{
    if s.len() > 0 {
        lemma_blank_pieces_not_empty(s.drop_last());
    }
}

proof fn lemma_blank_pieces(a: Seq<char>, gap: Seq<char>, b: Seq<char>)
    requires
        all_white(gap),
        gap.len() > 0,
    ensures
        pieces(a + gap + b, blank()) == pieces(a + gap, blank()).drop_last() + pieces(b, blank()),
    decreases b.len(),
{
    let sep = blank();
    let s = a + gap + b;
    lemma_blank_pieces_not_empty(a + gap);
    if b.len() == 0 {
        assert(b =~= Seq::empty());
        assert(s =~= a + gap);
        assert((a + gap).last() == gap.last());
        assert(is_white(gap[gap.len() - 1]));
        assert(pieces(a + gap, sep).last() =~= Seq::empty());
        assert(pieces(a + gap, sep) =~= pieces(a + gap, sep).drop_last().push(Seq::empty()));
        assert(pieces(s, sep) =~= pieces(a + gap, sep).drop_last() + pieces(b, sep));
    } else {
        let t = b.drop_last();
        lemma_blank_pieces(a, gap, t);
        lemma_blank_pieces_not_empty(t);
        assert(s.drop_last() =~= a + gap + t);
        assert(s.last() == b.last());
        let head = pieces(a + gap, sep).drop_last();
        let before = head + pieces(t, sep);
        assert(before.last() == pieces(t, sep).last());
        assert(before.drop_last() =~= head + pieces(t, sep).drop_last());
        assert(pieces(s, sep) =~= head + pieces(b, sep));
    }
}

proof fn lemma_gap(a: Seq<char>, gap: Seq<char>)
    requires
        all_white(gap),
        gap.len() > 0,
    ensures
        pieces(a + gap, blank()).drop_last().filter(filled()) == words_of(a),
        pieces(a + gap, blank()).last().len() == 0,
    decreases gap.len(),
{
    let sep = blank();
    let s = a + gap;
    lemma_blank_pieces_not_empty(a);
    assert(s.last() == gap[gap.len() - 1]);
    assert(s.drop_last() =~= a + gap.drop_last());
    let before = pieces(s.drop_last(), sep);
    assert(pieces(s, sep) == before.push(Seq::empty()));
    assert(pieces(s, sep).drop_last() =~= before);
    if gap.len() == 1 {
        assert(s.drop_last() =~= a);
    } else {
        lemma_gap(a, gap.drop_last());
        before.drop_last().lemma_filter_push(before.last(), filled());
        lemma_blank_pieces_not_empty(s.drop_last());
        assert(before.drop_last().push(before.last()) =~= before);
    }
}

proof fn lemma_filter_add(x: Seq<Seq<char>>, y: Seq<Seq<char>>)
    ensures
        (x + y).filter(filled()) == x.filter(filled()) + y.filter(filled()),
    decreases y.len(),
{
    reveal(Seq::filter);
    if y.len() == 0 {
        assert(x + y =~= x);
        assert(y.filter(filled()) =~= Seq::empty());
        assert(x.filter(filled()) + y.filter(filled()) =~= x.filter(filled()));
    } else {
        let t = y.drop_last();
        lemma_filter_add(x, t);
        (x + t).lemma_filter_push(y.last(), filled());
        t.lemma_filter_push(y.last(), filled());
        assert((x + t).push(y.last()) =~= x + y);
        assert(t.push(y.last()) =~= y);
        assert((x + y).filter(filled()) =~= x.filter(filled()) + y.filter(filled()));
    }
}

/// A text that is not empty and holds no white space is one word; an empty text has none.
pub proof fn law_a_word_is_whole(w: Seq<char>)
    requires
        no_white(w),
    ensures
        w.len() > 0 ==> words_of(w) == seq![w],
        w.len() == 0 ==> words_of(w) == Seq::<Seq<char>>::empty(),
{
    reveal(Seq::filter);
    lemma_no_words();
    if w.len() > 0 {
        lemma_one_piece(w);
        Seq::<Seq<char>>::empty().lemma_filter_push(w, filled());
        assert(pieces(w, blank()) =~= Seq::<Seq<char>>::empty().push(w));
        assert(words_of(w) =~= seq![w]);
    } else {
        assert(w =~= Seq::empty());
    }
}

proof fn lemma_one_piece(w: Seq<char>)
    requires
        no_white(w),
    ensures
        pieces(w, blank()) == seq![w],
    decreases w.len(),
{
    if w.len() > 0 {
        assert(no_white(w.drop_last()));
        lemma_one_piece(w.drop_last());
        assert(!is_white(w[w.len() - 1]));
        assert(w.drop_last().push(w.last()) =~= w);
        assert(pieces(w, blank()) =~= seq![w]);
    } else {
        assert(w =~= Seq::empty());
    }
}

/// A number of one digit is written by that digit, and a longer one by the number without its last
/// digit and that digit.
pub proof fn law_decimals_are_positional(n: nat, d: nat)
    requires
        d < 10,
    ensures
        decimal_of(d) == seq!["0123456789"@[d as int]],
        n > 0 ==> decimal_of(10 * n + d) == decimal_of(n).push("0123456789"@[d as int]),
{
    reveal_strlit("0123456789");
    assert(digit_char(d) == "0123456789"@[d as int]);
    if n > 0 {
        assert((10 * n + d) / 10 == n);
        assert((10 * n + d) % 10 == d);
    }
}

/// A further digit makes a number ten times as large and adds itself, and it is read as long as it
/// is not too large; a plus sign in front changes nothing.
pub proof fn law_numbers_are_positional(s: Seq<char>, n: nat, d: nat, max: nat)
    requires
        number_of(s, n) == Some(n),
        d < 10,
    ensures
        number_of(s.push("0123456789"@[d as int]), max) == (if 10 * n + d <= max {
            Some(10 * n + d)
        } else {
            None
        }),
        s.first() != '+' ==> number_of(seq!['+'] + s, max) == (if n <= max {
            Some(n)
        } else {
            None
        }),
{
    reveal_strlit("0123456789");
    let c = "0123456789"@[d as int];
    let t = s.push(c);
    let u = unsigned_part(s);
    assert(unsigned_part(t) =~= u.push(c));
    assert(u.push(c).drop_last() =~= u);
    assert(digits_value(u.push(c)) == digits_value(u) * 10 + d);
    assert(all_digits(u.push(c)));
    if s.first() != '+' {
        assert((seq!['+'] + s).drop_first() =~= s);
    }
}

/// One digit is read as itself; nothing, a lone sign and a text with any other sign are no numbers.
pub proof fn law_only_digits_are_numbers(s: Seq<char>, max: nat, i: int)
    ensures
        forall|d: nat|
            d < 10 && d <= max ==> number_of(#[trigger] decimal_of(d), max) == Some(d),
        s.len() == 0 ==> number_of(s, max) is None,
        s == seq!['+'] ==> number_of(s, max) is None,
        0 <= i < s.len() && !('0' <= s[i] && s[i] <= '9') && (i > 0 || s[i] != '+') ==> number_of(
            s,
            max,
        ) is None,
        number_of(s, max) is Some ==> number_of(s, max)->0 <= max,
{
    assert forall|d: nat| d < 10 && d <= max implies number_of(
        #[trigger] decimal_of(d),
        max,
    ) == Some(d) by {
        lemma_decimal_digits(d);
        assert(is_digit(decimal_of(d)[0]));
    }
    if 0 <= i < s.len() && !('0' <= s[i] && s[i] <= '9') && (i > 0 || s[i] != '+') {
        let u = unsigned_part(s);
        let k = i - (s.len() - u.len());
        if u.len() == s.len() {
            assert(u[k] == s[i]);
        } else {
            assert(u =~= s.skip(1));
            assert(u[k] == s[i]);
        }
        assert(!is_digit(u[k]));
    }
    if s == seq!['+'] {
        assert(s.drop_first().len() == 0);
    }
}

/// A padded text ends with the text, begins with blanks only, and is as wide as asked for, or as the
/// text where that is wider.
pub proof fn law_padding_fills_the_width(s: Seq<char>, width: nat)
    ensures
        ({
            let p = padded(s, width);
            let n = p.len() - s.len();
            &&& p.len() == (if s.len() > width {
                s.len()
            } else {
                width
            })
            &&& p.skip(n) == s
            &&& forall|i: int| 0 <= i < n ==> #[trigger] p[i] == ' '
        }),
{
    let p = padded(s, width);
    assert(p.skip(p.len() - s.len()) =~= s);
}

/// Replacing keeps every other sign in its place.
pub proof fn law_replacing_keeps_the_rest(s: Seq<char>, from: char, to: char, i: int)
    requires
        0 <= i < s.len(),
    ensures
        swapped(s, from, to).len() == s.len(),
        s[i] == from ==> swapped(s, from, to)[i] == to,
        s[i] != from ==> swapped(s, from, to)[i] == s[i],
{
}

} // verus!
