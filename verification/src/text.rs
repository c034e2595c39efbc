//! Text as sequences of characters: trimming, searching, splitting, numbers.

use vstd::prelude::*;

verus! {

/// The characters with the Unicode property White_Space.
pub open spec fn is_white(c: char) -> bool {
    let n = c as u32;
    ||| 0x9 <= n <= 0xd
    ||| n == 0x20
    ||| n == 0x85
    ||| n == 0xa0
    ||| n == 0x1680
    ||| 0x2000 <= n <= 0x200a
    ||| n == 0x2028
    ||| n == 0x2029
    ||| n == 0x202f
    ||| n == 0x205f
    ||| n == 0x3000
}

/// Tells whether a character is white space.
pub fn white(c: char) -> (r: bool)
    ensures
        r == is_white(c),
{
    let n: u32 = c as u32;
    (0x9 <= n && n <= 0xd) || n == 0x20 || n == 0x85 || n == 0xa0 || n == 0x1680 || (0x2000 <= n && n
        <= 0x200a) || n == 0x2028 || n == 0x2029 || n == 0x202f || n == 0x205f || n == 0x3000
}

/// `s` without its leading white space.
pub open spec fn trimmed_start(s: Seq<char>) -> Seq<char>
    decreases s.len(),
{
    if s.len() > 0 && is_white(s.first()) {
        trimmed_start(s.drop_first())
    } else {
        s
    }
}

/// `s` without its trailing white space.
pub open spec fn trimmed_end(s: Seq<char>) -> Seq<char>
    decreases s.len(),
{
    if s.len() > 0 && is_white(s.last()) {
        trimmed_end(s.drop_last())
    } else {
        s
    }
}

/// `s` without white space at either end.
pub open spec fn trimmed(s: Seq<char>) -> Seq<char> {
    trimmed_end(trimmed_start(s))
}

/// The characters of a string.
pub fn chars_of(s: &str) -> (r: Vec<char>)
    ensures
        r@ == s@,
{
    let mut out: Vec<char> = Vec::new();
    for c in it: s.chars()
        invariant
            out@ == it.seq().take(it.index() as int),
            it.seq() == s@,
    {
        out.push(c);
    }
    out
}

/// Removes white space from both ends.
pub fn trim<'a>(s: &'a str) -> (r: &'a str)
    ensures
        r@ == trimmed(s@),
{
    let chars: Vec<char> = chars_of(s);
    let mut from: usize = 0;
    assert(s@.skip(0) =~= s@);
    while from < chars.len() && white(chars[from])
        invariant
            from <= chars@.len(),
            chars@ == s@,
            trimmed_start(s@) == trimmed_start(s@.skip(from as int)),
        decreases chars@.len() - from,
    {
        assert(s@.skip(from as int).drop_first() =~= s@.skip(from + 1));
        from = from + 1;
    }
    let ghost head = s@.skip(from as int);
    assert(trimmed_start(s@) == head);
    let mut to: usize = chars.len();
    assert(head =~= s@.subrange(from as int, to as int));
    while from < to && white(chars[to - 1])
        invariant
            from <= to <= chars@.len(),
            chars@ == s@,
            trimmed_end(head) == trimmed_end(s@.subrange(from as int, to as int)),
        decreases to,
    {
        assert(s@.subrange(from as int, to as int).drop_last() =~= s@.subrange(
            from as int,
            to - 1,
        ));
        to = to - 1;
    }
    s.substring_char(from, to)
}

/// `needle` stands in `s` at position `i`.
pub open spec fn occurs_at(s: Seq<char>, needle: Seq<char>, i: int) -> bool {
    0 <= i && i + needle.len() <= s.len() && s.subrange(i, i + needle.len()) == needle
}

/// `needle` stands somewhere in `s`.
pub open spec fn occurs_in(s: Seq<char>, needle: Seq<char>) -> bool {
    exists|i: int| occurs_at(s, needle, i)
}

/// Tells whether `needle` stands in `s` at position `i`.
fn stands_at(s: &Vec<char>, needle: &Vec<char>, i: usize) -> (r: bool)
    requires
        i + needle@.len() <= s@.len(),
    ensures
        r == occurs_at(s@, needle@, i as int),
{
    let mut k: usize = 0;
    let n: usize = s.len();
    while k < needle.len()
        invariant
            n == s@.len(),
            k <= needle@.len(),
            i + needle@.len() <= s@.len(),
            forall|j: int| 0 <= j < k ==> s@[i + j] == needle@[j],
        decreases needle@.len() - k,
    {
        if s[i + k] != needle[k] {
            assert(s@.subrange(i as int, i + needle@.len())[k as int] != needle@[k as int]);
            return false;
        }
        k = k + 1;
    }
    assert(s@.subrange(i as int, i + needle@.len()) =~= needle@);
    true
}

/// The first position at which `needle` stands in `s`.
pub fn find(s: &str, needle: &str) -> (r: Option<usize>)
    ensures
        match r {
            Some(i) => occurs_at(s@, needle@, i as int) && forall|j: int|
                0 <= j < i ==> !occurs_at(s@, needle@, j),
            None => !occurs_in(s@, needle@),
        },
{
    let hay: Vec<char> = chars_of(s);
    let pin: Vec<char> = chars_of(needle);
    if pin.len() > hay.len() {
        return None;
    }
    let last: usize = hay.len() - pin.len();
    let mut i: usize = 0;
    while i <= last
        invariant
            hay@ == s@,
            pin@ == needle@,
            pin@.len() + last == hay@.len(),
            i <= last + 1,
            hay@.len() <= usize::MAX,
            forall|j: int| 0 <= j < i ==> !occurs_at(s@, needle@, j),
        decreases last + 1 - i,
    {
        if stands_at(&hay, &pin, i) {
            return Some(i);
        }
        if i == last {
            assert(!occurs_in(s@, needle@));
            return None;
        }
        i = i + 1;
    }
    None
}

/// Tells whether `needle` stands in `s`.
pub fn contains(s: &str, needle: &str) -> (r: bool)
    ensures
        r == occurs_in(s@, needle@),
{
    find(s, needle).is_some()
}

/// Tells whether `s` begins with `prefix`.
pub fn begins_with(s: &str, prefix: &str) -> (r: bool)
    ensures
        r == prefix@.is_prefix_of(s@),
{
    let hay: Vec<char> = chars_of(s);
    let pin: Vec<char> = chars_of(prefix);
    if pin.len() > hay.len() {
        return false;
    }
    let r: bool = stands_at(&hay, &pin, 0);
    r
}

/// Tells whether two strings hold the same characters.
pub fn same(a: &str, b: &str) -> (r: bool)
    ensures
        r == (a@ == b@),
{
    let x: Vec<char> = chars_of(a);
    let y: Vec<char> = chars_of(b);
    if x.len() != y.len() {
        return false;
    }
    let r: bool = stands_at(&x, &y, 0);
    assert(x@.subrange(0, y@.len() as int) =~= x@);
    r
}

/// `s` cut at each separator; the separators are dropped, empty pieces are kept.
pub open spec fn pieces(s: Seq<char>, sep: spec_fn(char) -> bool) -> Seq<Seq<char>>
    decreases s.len(),
{
    if s.len() == 0 {
        seq![Seq::empty()]
    } else {
        let before = pieces(s.drop_last(), sep);
        if sep(s.last()) {
            before.push(Seq::empty())
        } else {
            before.drop_last().push(before.last().push(s.last()))
        }
    }
}

/// The separator `c` alone.
pub open spec fn only(c: char) -> spec_fn(char) -> bool {
    |x: char| x == c
}

/// White space as separator.
pub open spec fn blank() -> spec_fn(char) -> bool {
    |x: char| is_white(x)
}

/// Pieces that hold something.
pub open spec fn filled() -> spec_fn(Seq<char>) -> bool {
    |p: Seq<char>| p.len() > 0
}

/// `s` cut at each `c`.
pub open spec fn cut_at(s: Seq<char>, c: char) -> Seq<Seq<char>> {
    pieces(s, only(c))
}

/// The longest runs of characters in `s` that are not white space.
pub open spec fn words_of(s: Seq<char>) -> Seq<Seq<char>> {
    pieces(s, blank()).filter(filled())
}

/// What a list of strings holds.
pub open spec fn texts(v: Seq<String>) -> Seq<Seq<char>> {
    v.map_values(|s: String| s@)
}

/// Cuts `s` at each `c`.
pub fn split_at_char(s: &str, c: char) -> (r: Vec<String>)
    ensures
        texts(r@) == cut_at(s@, c),
        r@.len() > 0,
{
    let chars: Vec<char> = chars_of(s);
    let mut out: Vec<String> = Vec::new();
    let mut from: usize = 0;
    let mut i: usize = 0;
    let ghost sep = only(c);
    assert(s@.take(0) =~= Seq::empty());
    assert(pieces(s@.take(0), sep) =~= seq![Seq::empty()]);
    assert(s@.subrange(0, 0) =~= Seq::empty());
    assert(texts(out@) =~= pieces(s@.take(0), sep).drop_last());
    while i < chars.len()
        invariant
            chars@ == s@,
            from <= i <= chars@.len(),
            sep == only(c),
            pieces(s@.take(i as int), sep).len() > 0,
            texts(out@) == pieces(s@.take(i as int), sep).drop_last(),
            s@.subrange(from as int, i as int) == pieces(s@.take(i as int), sep).last(),
        decreases chars@.len() - i,
    {
        let ghost before = pieces(s@.take(i as int), sep);
        assert(s@.take(i + 1).drop_last() =~= s@.take(i as int));
        if chars[i] == c {
            let ghost kept = out@;
            out.push(s.substring_char(from, i).to_owned());
            from = i + 1;
            assert(texts(out@) =~= texts(kept).push(before.last()));
            assert(texts(out@) =~= before);
            assert(pieces(s@.take(i + 1), sep) == before.push(Seq::empty()));
            assert(before.push(Seq::empty()).drop_last() =~= before);
            assert(s@.subrange(i + 1, i + 1) =~= Seq::empty());
        } else {
            assert(s@.subrange(from as int, i + 1) =~= s@.subrange(from as int, i as int).push(
                s@[i as int],
            ));
            assert(before.drop_last().push(before.last().push(s@[i as int])).drop_last()
                =~= before.drop_last());
        }
        i = i + 1;
    }
    assert(s@.take(i as int) =~= s@);
    let ghost all = pieces(s@, sep);
    out.push(s.substring_char(from, i).to_owned());
    assert(texts(out@) =~= all.drop_last().push(all.last()));
    assert(all.drop_last().push(all.last()) =~= all);
    out
}

/// The words of `s`, cut at white space.
pub fn words(s: &str) -> (r: Vec<String>)
    ensures
        texts(r@) == words_of(s@),
{
    let chars: Vec<char> = chars_of(s);
    let mut out: Vec<String> = Vec::new();
    let mut from: usize = 0;
    let mut i: usize = 0;
    let ghost sep = blank();
    assert(s@.take(0) =~= Seq::empty());
    assert(pieces(s@.take(0), sep) =~= seq![Seq::empty()]);
    assert(pieces(s@.take(0), sep).drop_last() =~= Seq::empty());
    assert(s@.subrange(0, 0) =~= Seq::empty());
    assert(texts(out@) =~= pieces(s@.take(0), sep).drop_last().filter(filled())) by {
        reveal(Seq::filter);
    }
    while i < chars.len()
        invariant
            chars@ == s@,
            from <= i <= chars@.len(),
            sep == blank(),
            pieces(s@.take(i as int), sep).len() > 0,
            texts(out@) == pieces(s@.take(i as int), sep).drop_last().filter(filled()),
            s@.subrange(from as int, i as int) == pieces(s@.take(i as int), sep).last(),
        decreases chars@.len() - i,
    {
        let ghost before = pieces(s@.take(i as int), sep);
        assert(s@.take(i + 1).drop_last() =~= s@.take(i as int));
        if white(chars[i]) {
            let ghost kept = out@;
            proof {
                before.drop_last().lemma_filter_push(before.last(), filled());
                assert(before.drop_last().push(before.last()) =~= before);
                assert(before.push(Seq::empty()).drop_last() =~= before);
                assert(s@.subrange(i + 1, i + 1) =~= Seq::empty());
            }
            if from < i {
                out.push(s.substring_char(from, i).to_owned());
                assert(texts(out@) =~= texts(kept).push(before.last()));
            }
            from = i + 1;
        } else {
            assert(s@.subrange(from as int, i + 1) =~= s@.subrange(from as int, i as int).push(
                s@[i as int],
            ));
            assert(before.drop_last().push(before.last().push(s@[i as int])).drop_last()
                =~= before.drop_last());
        }
        i = i + 1;
    }
    assert(s@.take(i as int) =~= s@);
    let ghost all = pieces(s@, sep);
    let ghost kept = out@;
    proof {
        all.drop_last().lemma_filter_push(all.last(), filled());
        assert(all.drop_last().push(all.last()) =~= all);
    }
    if from < i {
        out.push(s.substring_char(from, i).to_owned());
        assert(texts(out@) =~= texts(kept).push(all.last()));
    }
    out
}

/// `c` is one of the digits 0 to 9.
pub open spec fn is_digit(c: char) -> bool {
    '0' <= c <= '9'
}

/// `s` holds digits only.
pub open spec fn all_digits(s: Seq<char>) -> bool {
    forall|i: int| 0 <= i < s.len() ==> is_digit(#[trigger] s[i])
}

/// The number that a row of digits writes.
pub open spec fn digits_value(s: Seq<char>) -> nat
    decreases s.len(),
{
    if s.len() == 0 {
        0
    } else {
        digits_value(s.drop_last()) * 10 + (s.last() as nat - '0' as nat) as nat
    }
}

/// `s` without one leading plus sign.
pub open spec fn unsigned_part(s: Seq<char>) -> Seq<char> {
    if s.len() > 0 && s.first() == '+' {
        s.drop_first()
    } else {
        s
    }
}

/// The unsigned number, at most `max`, that `s` writes: an optional plus sign and digits only.
pub open spec fn number_of(s: Seq<char>, max: nat) -> Option<nat> {
    let d = unsigned_part(s);
    if d.len() > 0 && all_digits(d) && digits_value(d) <= max {
        Some(digits_value(d))
    } else {
        None
    }
}

proof fn lemma_digits_grow(s: Seq<char>, k: int)
    requires
        0 <= k <= s.len(),
    ensures
        digits_value(s.take(k)) <= digits_value(s),
    decreases s.len() - k,
{
    if k < s.len() {
        lemma_digits_grow(s, k + 1);
        assert(s.take(k + 1).drop_last() =~= s.take(k));
    } else {
        assert(s.take(k) =~= s);
    }
}

/// Reads an unsigned number of at most `max`.
pub fn parse_number(s: &str, max: u64) -> (r: Option<u64>)
    ensures
        match r {
            Some(n) => number_of(s@, max as nat) == Some(n as nat),
            None => number_of(s@, max as nat) is None,
        },
{
    let chars: Vec<char> = chars_of(s);
    let mut i: usize = 0;
    let ghost d = unsigned_part(s@);
    let ghost skip: int = s@.len() - d.len();
    if chars.len() > 0 && chars[0] == '+' {
        i = 1;
    }
    if i == chars.len() {
        return None;
    }
    let mut n: u64 = 0;
    assert(d.take(0) =~= Seq::empty());
    while i < chars.len()
        invariant
            chars@ == s@,
            d == unsigned_part(s@),
            skip == s@.len() - d.len(),
            0 <= skip <= 1,
            d == s@.skip(skip),
            skip <= i <= chars@.len(),
            d.len() > 0,
            n <= max,
            n == digits_value(d.take(i - skip)),
            forall|j: int| 0 <= j < i - skip ==> is_digit(d[j]),
        decreases chars@.len() - i,
    {
        let c: char = chars[i];
        let ghost k = i - skip;
        assert(d[k] == c);
        if !('0' <= c && c <= '9') {
            assert(!is_digit(d[k]));
            return None;
        }
        let v: u64 = c as u64 - '0' as u64;
        assert(d.take(k + 1).drop_last() =~= d.take(k));
        assert(digits_value(d.take(k + 1)) == n * 10 + v);
        let wide: u128 = n as u128 * 10 + v as u128;
        if wide > max as u128 {
            proof {
                lemma_digits_grow(d, k + 1);
            }
            return None;
        }
        n = wide as u64;
        i = i + 1;
    }
    assert(d.take(i - skip) =~= d);
    Some(n)
}

/// Reads a `u64`.
pub fn parse_u64(s: &str) -> (r: Option<u64>)
    ensures
        match r {
            Some(n) => number_of(s@, u64::MAX as nat) == Some(n as nat),
            None => number_of(s@, u64::MAX as nat) is None,
        },
{
    parse_number(s, u64::MAX)
}

/// Reads a `u32`.
pub fn parse_u32(s: &str) -> (r: Option<u32>)
    ensures
        match r {
            Some(n) => number_of(s@, u32::MAX as nat) == Some(n as nat),
            None => number_of(s@, u32::MAX as nat) is None,
        },
{
    match parse_number(s, u32::MAX as u64) {
        Some(n) => Some(n as u32),
        None => None,
    }
}

/// The digit that writes `d`.
pub open spec fn digit_char(d: nat) -> char {
    (('0' as nat) + d) as char
}

/// `n` in decimal.
pub open spec fn decimal_of(n: nat) -> Seq<char>
    decreases n,
{
    if n < 10 {
        seq![digit_char(n)]
    } else {
        decimal_of(n / 10).push(digit_char(n % 10))
    }
}

fn digit_text(d: u64) -> (r: &'static str)
    requires
        d < 10,
    ensures
        r@ == seq![digit_char(d as nat)],
{
    proof {
        reveal_strlit("0");
        reveal_strlit("1");
        reveal_strlit("2");
        reveal_strlit("3");
        reveal_strlit("4");
        reveal_strlit("5");
        reveal_strlit("6");
        reveal_strlit("7");
        reveal_strlit("8");
        reveal_strlit("9");
    }
    let r: &'static str = if d == 0 {
        "0"
    } else if d == 1 {
        "1"
    } else if d == 2 {
        "2"
    } else if d == 3 {
        "3"
    } else if d == 4 {
        "4"
    } else if d == 5 {
        "5"
    } else if d == 6 {
        "6"
    } else if d == 7 {
        "7"
    } else if d == 8 {
        "8"
    } else {
        "9"
    };
    assert(r@ =~= seq![digit_char(d as nat)]);
    r
}

/// Writes a number in decimal.
pub fn decimal(n: u64) -> (r: String)
    ensures
        r@ == decimal_of(n as nat),
    decreases n,
{
    if n < 10 {
        digit_text(n).to_owned()
    } else {
        let head: String = decimal(n / 10);
        let r: String = head.concat(digit_text(n % 10));
        assert(r@ =~= decimal_of(n as nat));
        r
    }
}

/// `s` behind as many spaces as bring it to `width` characters.
pub open spec fn padded(s: Seq<char>, width: nat) -> Seq<char> {
    if s.len() >= width {
        s
    } else {
        Seq::new((width - s.len()) as nat, |i: int| ' ') + s
    }
}

/// Puts spaces in front of `s` up to `width` characters.
pub fn pad(s: &str, width: usize) -> (r: String)
    ensures
        r@ == padded(s@, width as nat),
{
    let mut out: String = String::new();
    let mut n: usize = s.unicode_len();
    while n < width
        invariant
            n == s@.len() + out@.len(),
            n <= width || out@.len() == 0,
            forall|i: int| 0 <= i < out@.len() ==> out@[i] == ' ',
        decreases width - n,
    {
        proof {
            reveal_strlit(" ");
        }
        out.append(" ");
        n = n + 1;
    }
    out.append(s);
    assert(out@ =~= padded(s@, width as nat));
    out
}

/// `s` with each `from` replaced by `to`.
pub open spec fn swapped(s: Seq<char>, from: char, to: char) -> Seq<char> {
    s.map_values(|c: char| if c == from { to } else { c })
}

/// Replaces each `from` in `s` by the one-character text `to`.
pub fn swap(s: &str, from: char, to: &str) -> (r: String)
    requires
        to@.len() == 1,
    ensures
        r@ == swapped(s@, from, to@[0]),
{
    let chars: Vec<char> = chars_of(s);
    let mut out: String = String::new();
    let mut i: usize = 0;
    while i < chars.len()
        invariant
            chars@ == s@,
            to@.len() == 1,
            i <= chars@.len(),
            out@ == swapped(s@.take(i as int), from, to@[0]),
        decreases chars@.len() - i,
    {
        if chars[i] == from {
            out.append(to);
        } else {
            out.append(s.substring_char(i, i + 1));
        }
        i = i + 1;
        assert(out@ =~= swapped(s@.take(i as int), from, to@[0]));
    }
    assert(s@.take(i as int) =~= s@);
    out
}

/// What an optional text holds.
pub open spec fn opt_text(s: Option<&str>) -> Option<Seq<char>> {
    match s {
        Some(t) => Some(t@),
        None => None,
    }
}

/// What an optional owned text holds.
pub open spec fn opt_string(s: Option<String>) -> Option<Seq<char>> {
    match s {
        Some(t) => Some(t@),
        None => None,
    }
}

/// A text without the separator is one piece.
pub proof fn lemma_whole(s: Seq<char>, c: char)
    requires
        !s.contains(c),
    ensures
        cut_at(s, c) == seq![s],
    decreases s.len(),
{
    if s.len() > 0 {
        assert(!s.drop_last().contains(c)) by {
            if s.drop_last().contains(c) {
                let i = choose|i: int| 0 <= i < s.len() - 1 && s.drop_last()[i] == c;
                assert(s[i] == c);
            }
        }
        assert(s.contains(s.last()));
        lemma_whole(s.drop_last(), c);
        assert(s.drop_last().push(s.last()) =~= s);
        assert(cut_at(s, c) =~= seq![s]);
    } else {
        assert(s =~= Seq::empty());
    }
}

/// Cutting takes off the text before the first separator.
pub proof fn lemma_first_piece(a: Seq<char>, c: char, b: Seq<char>)
    requires
        !a.contains(c),
    ensures
        cut_at(a + seq![c] + b, c) == seq![a] + cut_at(b, c),
    decreases b.len(),
{
    let s = a + seq![c] + b;
    if b.len() == 0 {
        assert(b =~= Seq::empty());
        assert(s.drop_last() =~= a);
        lemma_whole(a, c);
        assert(cut_at(s, c) =~= seq![a] + cut_at(b, c));
    } else {
        assert(s.drop_last() =~= a + seq![c] + b.drop_last());
        lemma_first_piece(a, c, b.drop_last());
        let before = cut_at(b.drop_last(), c);
        lemma_pieces_not_empty(b.drop_last(), only(c));
        assert((seq![a] + before).last() == before.last());
        assert((seq![a] + before).drop_last() =~= seq![a] + before.drop_last());
        assert(cut_at(s, c) =~= seq![a] + cut_at(b, c));
    }
}

proof fn lemma_pieces_not_empty(s: Seq<char>, sep: spec_fn(char) -> bool)
    ensures
        pieces(s, sep).len() > 0,
    decreases s.len(),
{
    if s.len() > 0 {
        lemma_pieces_not_empty(s.drop_last(), sep);
    }
}

/// A number in decimal holds digits only.
pub proof fn lemma_decimal_digits(n: nat)
    ensures
        all_digits(decimal_of(n)),
        decimal_of(n).len() > 0,
        digits_value(decimal_of(n)) == n,
    decreases n,
{
    if n < 10 {
        assert(decimal_of(n).drop_last() =~= Seq::empty());
        assert(digits_value(decimal_of(n).drop_last()) == 0);
    } else {
        lemma_decimal_digits(n / 10);
        let d = decimal_of(n);
        assert(d.drop_last() =~= decimal_of(n / 10));
    }
}

/// A number written in decimal is read back.
pub proof fn law_decimals_are_read_back(n: nat, max: nat)
    requires
        n <= max,
    ensures
        number_of(decimal_of(n), max) == Some(n),
{
    lemma_decimal_digits(n);
    let d = decimal_of(n);
    assert(is_digit(d[0]));
}

} // verus!
