//! Text: the few operations on strings that the rest of the crate is built on.

use vstd::prelude::*;
use vstd::string::*;

verus! {

/// `String::push` appends one character.
pub assume_specification[ String::push ](s: &mut String, c: char)
    ensures
        final(s)@ == old(s)@.push(c),
;

/// Whether a character has the Unicode property White_Space.
pub open spec fn is_white_space(c: char) -> bool {
    ||| '\u{9}' <= c <= '\u{d}'
    ||| c == '\u{20}'
    ||| c == '\u{85}'
    ||| c == '\u{a0}'
    ||| c == '\u{1680}'
    ||| '\u{2000}' <= c <= '\u{200a}'
    ||| c == '\u{2028}'
    ||| c == '\u{2029}'
    ||| c == '\u{202f}'
    ||| c == '\u{205f}'
    ||| c == '\u{3000}'
}

/// `char::is_whitespace` tells the characters of White_Space from the others.
pub assume_specification[ char::is_whitespace ](c: char) -> (b: bool)
    ensures
        b == is_white_space(c),
;

/// The characters of a text.
pub fn chars_of(s: &str) -> (r: Vec<char>)
    ensures
        r@ == s@,
{
    let mut r: Vec<char> = Vec::new();
    for c in it: s.chars()
        invariant
            r@ == s@.take(it.index() as int),
            it.seq() == s@,
    {
        r.push(c);
        assert(s@.take(it.index() as int).push(c) =~= s@.take(it.index() + 1));
    }
    assert(s@.take(s@.len() as int) =~= s@);
    r
}

/// The text that some characters spell.
pub fn text_of(cs: &Vec<char>) -> (r: String)
    ensures
        r@ == cs@,
{
    let mut r = String::new();
    let mut i: usize = 0;
    while i < cs.len()
        invariant
            i <= cs.len(),
            r@ == cs@.take(i as int),
        decreases cs.len() - i,
    {
        r.push(cs[i]);
        assert(cs@.take(i as int).push(cs@[i as int]) =~= cs@.take(i + 1));
        i += 1;
    }
    assert(cs@.take(cs@.len() as int) =~= cs@);
    r
}

/// A copy of some characters, from one place up to another.
pub(crate) fn part_of(cs: &Vec<char>, from: usize, to: usize) -> (r: Vec<char>)
    requires
        from <= to <= cs.len(),
    ensures
        r@ == cs@.subrange(from as int, to as int),
{
    let mut r: Vec<char> = Vec::new();
    let mut i: usize = from;
    while i < to
        invariant
            from <= i <= to <= cs.len(),
            r@ == cs@.subrange(from as int, i as int),
        decreases to - i,
    {
        r.push(cs[i]);
        assert(cs@.subrange(from as int, i as int).push(cs@[i as int]) =~= cs@.subrange(
            from as int,
            i + 1,
        ));
        i += 1;
    }
    r
}

// Trimming.

/// A text without the characters at its ends that are to be dropped.
pub open spec fn stripped(s: Seq<char>, drop: spec_fn(char) -> bool) -> Seq<char>
    decreases s.len(),
{
    if s.len() > 0 && drop(s.first()) {
        stripped(s.drop_first(), drop)
    } else if s.len() > 0 && drop(s.last()) {
        stripped(s.drop_last(), drop)
    } else {
        s
    }
}

/// A text without the white space at its ends.
pub open spec fn trimmed(s: Seq<char>) -> Seq<char> {
    stripped(s, |c: char| is_white_space(c))
}

/// What is left of some characters when those at the ends are dropped.
pub(crate) fn strip<F: Fn(char) -> bool>(
    cs: &Vec<char>,
    drop: F,
    Ghost(p): Ghost<spec_fn(char) -> bool>,
) -> (r: Vec<char>)
    requires
        forall|c: char| #[trigger] drop.requires((c,)),
        forall|c: char, b: bool| #[trigger] drop.ensures((c,), b) ==> b == p(c),
    ensures
        r@ == stripped(cs@, p),
{
    let mut from: usize = 0;
    let mut to: usize = cs.len();
    assert(cs@.subrange(0, cs@.len() as int) =~= cs@);
    while from < to && drop(cs[from])
        invariant
            from <= to == cs.len(),
            stripped(cs@, p) == stripped(cs@.subrange(from as int, to as int), p),
            forall|c: char| #[trigger] drop.requires((c,)),
            forall|c: char, b: bool| #[trigger] drop.ensures((c,), b) ==> b == p(c),
        ensures
            from <= to == cs.len(),
            stripped(cs@, p) == stripped(cs@.subrange(from as int, to as int), p),
            from < to ==> !p(cs@[from as int]),
        decreases to - from,
    {
        assert(cs@.subrange(from as int, to as int).drop_first() =~= cs@.subrange(
            from + 1,
            to as int,
        ));
        from += 1;
    }
    while from < to && drop(cs[to - 1])
        invariant
            from <= to <= cs.len(),
            from < to ==> !p(cs@[from as int]),
            stripped(cs@, p) == stripped(cs@.subrange(from as int, to as int), p),
            forall|c: char| #[trigger] drop.requires((c,)),
            forall|c: char, b: bool| #[trigger] drop.ensures((c,), b) ==> b == p(c),
        ensures
            from <= to <= cs.len(),
            stripped(cs@, p) == stripped(cs@.subrange(from as int, to as int), p),
            from < to ==> !p(cs@[from as int]) && !p(cs@[to - 1]),
        decreases to - from,
    {
        assert(cs@.subrange(from as int, to as int).drop_last() =~= cs@.subrange(
            from as int,
            to - 1,
        ));
        to -= 1;
    }
    part_of(cs, from, to)
}

/// A text without the white space at its ends.
pub fn trim(s: &str) -> (r: String)
    ensures
        r@ == trimmed(s@),
{
    let cs = chars_of(s);
    let blank = |c: char| -> (b: bool)
        ensures
            b == is_white_space(c),
        {
            c.is_whitespace()
        };
    let kept = strip(&cs, blank, Ghost(|c: char| is_white_space(c)));
    text_of(&kept)
}

/// The first word of a text: what stands between white space.
pub open spec fn first_word_of(s: Seq<char>) -> Option<Seq<char>>
    decreases s.len(),
{
    if s.len() == 0 {
        None
    } else if is_white_space(s.first()) {
        first_word_of(s.drop_first())
    } else {
        Some(up_to_white_space(s))
    }
}

/// The start of a text, up to the first white space.
pub open spec fn up_to_white_space(s: Seq<char>) -> Seq<char>
    decreases s.len(),
{
    if s.len() == 0 || is_white_space(s.first()) {
        Seq::empty()
    } else {
        seq![s.first()] + up_to_white_space(s.drop_first())
    }
}

/// The first word of a text.
pub fn first_word(s: &str) -> (r: Option<String>)
    ensures
        match r {
            Some(word) => first_word_of(s@) == Some(word@),
            None => first_word_of(s@) is None,
        },
{
    let cs = chars_of(s);
    let mut from: usize = 0;
    assert(s@.skip(0) =~= s@);
    while from < cs.len() && cs[from].is_whitespace()
        invariant
            from <= cs.len(),
            cs@ == s@,
            first_word_of(s@) == first_word_of(s@.skip(from as int)),
        ensures
            from <= cs.len(),
            first_word_of(s@) == first_word_of(s@.skip(from as int)),
            from < cs.len() ==> !is_white_space(cs@[from as int]),
        decreases cs.len() - from,
    {
        assert(s@.skip(from as int).drop_first() =~= s@.skip(from + 1));
        from += 1;
    }
    if from == cs.len() {
        return None;
    }
    let mut word: Vec<char> = Vec::new();
    let mut to: usize = from;
    while to < cs.len() && !cs[to].is_whitespace()
        invariant
            from <= to <= cs.len(),
            cs@ == s@,
            word@ + up_to_white_space(s@.skip(to as int)) == up_to_white_space(
                s@.skip(from as int),
            ),
        ensures
            word@ == up_to_white_space(s@.skip(from as int)),
        decreases cs.len() - to,
    {
        assert(s@.skip(to as int).drop_first() =~= s@.skip(to + 1));
        assert(word@.push(cs@[to as int]) + up_to_white_space(s@.skip(to + 1)) =~= word@ + (
        seq![cs@[to as int]] + up_to_white_space(s@.skip(to + 1))));
        word.push(cs[to]);
        to += 1;
        assert(to == cs.len() || is_white_space(cs@[to as int]) ==> word@
            + up_to_white_space(s@.skip(to as int)) =~= word@);
    }
    Some(text_of(&word))
}

// Searching and comparing.

/// Whether a text holds another one.
pub open spec fn holds(s: Seq<char>, word: Seq<char>) -> bool {
    exists|i: int| holds_at(s, word, i)
}

/// Whether a text holds another one at a place.
pub open spec fn holds_at(s: Seq<char>, word: Seq<char>, i: int) -> bool {
    0 <= i <= s.len() - word.len() && s.subrange(i, i + word.len()) == word
}

/// Whether the characters from a place on start with a word.
fn starts_at(cs: &Vec<char>, word: &Vec<char>, at: usize) -> (r: bool)
    requires
        at + word.len() <= cs.len(),
    ensures
        r == holds_at(cs@, word@, at as int),
{
    let mut j: usize = 0;
    while j < word.len()
        invariant
            j <= word.len(),
            at + word.len() <= cs.len(),
            forall|k: int| 0 <= k < j ==> cs@[at + k] == #[trigger] word@[k],
        decreases word.len() - j,
    {
        if cs[at + j] != word[j] {
            assert(cs@.subrange(at as int, at + word@.len())[j as int] != word@[j as int]);
            return false;
        }
        j += 1;
    }
    assert(cs@.subrange(at as int, at + word@.len()) =~= word@);
    true
}

/// Whether a text holds another one.
pub fn contains(s: &str, word: &str) -> (r: bool)
    ensures
        r == holds(s@, word@),
{
    let cs = chars_of(s);
    let sought = chars_of(word);
    if sought.len() > cs.len() {
        return false;
    }
    let last: usize = cs.len() - sought.len();
    let mut i: usize = 0;
    while i < last
        invariant
            i <= last == cs.len() - sought.len(),
            cs@ == s@,
            sought@ == word@,
            forall|k: int| 0 <= k < i ==> !#[trigger] holds_at(s@, word@, k),
        decreases last - i,
    {
        if starts_at(&cs, &sought, i) {
            return true;
        }
        i += 1;
    }
    starts_at(&cs, &sought, last)
}

/// Whether two texts are the same.
pub fn same(a: &str, b: &str) -> (r: bool)
    ensures
        r == (a@ == b@),
{
    let a = a.to_owned();
    let b = b.to_owned();
    a.eq(&b)
}

/// Whether a text comes before another in the order of their characters, or is
/// the same.
pub open spec fn in_order(a: Seq<char>, b: Seq<char>) -> bool
    decreases a.len(),
{
    a.len() == 0 || (b.len() > 0 && (a.first() < b.first() || (a.first() == b.first() && in_order(
        a.drop_first(),
        b.drop_first(),
    ))))
}

/// Whether a text comes before another, or is the same.
pub fn comes_first(a: &str, b: &str) -> (r: bool)
    ensures
        r == in_order(a@, b@),
{
    let x = chars_of(a);
    let y = chars_of(b);
    let mut i: usize = 0;
    assert(a@.skip(0) =~= a@ && b@.skip(0) =~= b@);
    while i < x.len() && i < y.len()
        invariant
            x@ == a@,
            y@ == b@,
            i <= x.len(),
            i <= y.len(),
            in_order(a@, b@) == in_order(a@.skip(i as int), b@.skip(i as int)),
        decreases x.len() - i,
    {
        if x[i] < y[i] {
            return true;
        }
        if y[i] < x[i] {
            return false;
        }
        assert(a@.skip(i as int).drop_first() =~= a@.skip(i + 1));
        assert(b@.skip(i as int).drop_first() =~= b@.skip(i + 1));
        i += 1;
    }
    i == x.len()
}

// Numbers.

/// The decimal digit of a number below ten.
pub open spec fn digit(n: int) -> char {
    (n + '0' as int) as char
}

/// The decimal digits of a number.
pub open spec fn digits(n: int) -> Seq<char>
    decreases n,
{
    if n < 10 {
        seq![digit(n)]
    } else {
        digits(n / 10).push(digit(n % 10))
    }
}

/// A whole number in decimal.
pub open spec fn decimal(n: int) -> Seq<char> {
    if n < 0 {
        seq!['-'] + digits(-n)
    } else {
        digits(n)
    }
}

/// The decimal digits of a number, after the characters that are there.
fn append_digits(n: u64, out: &mut Vec<char>)
    ensures
        final(out)@ == old(out)@ + digits(n as int),
    decreases n,
{
    if n < 10 {
        out.push((n as u8 + 48u8) as char);
        assert(out@ =~= old(out)@ + digits(n as int));
    } else {
        append_digits(n / 10, out);
        out.push(((n % 10) as u8 + 48u8) as char);
        assert(out@ =~= old(out)@ + digits(n as int));
    }
}

/// A whole number in decimal.
pub fn decimal_text(n: i64) -> (r: String)
    ensures
        r@ == decimal(n as int),
{
    let mut out: Vec<char> = Vec::new();
    if n < 0 {
        out.push('-');
        let size: u64 = (-(n + 1)) as u64 + 1;
        append_digits(size, &mut out);
    } else {
        append_digits(n as u64, &mut out);
    }
    assert(out@ =~= decimal(n as int));
    text_of(&out)
}

// Quoting.

/// The text that the `{:?}` of `format!` writes for a string.
pub uninterp spec fn debug_form(s: Seq<char>) -> Seq<char>;

/// `format!` with `{:?}` writes a string in quotes, with escapes. The text
/// depends on the string alone.
#[verifier::external_body]
pub(crate) fn debug_text(s: &str) -> (r: String)
    ensures
        r@ == debug_form(s@),
{
    format!("{:?}", s)
}

// What holds of these.

/// Whether a text is white space and nothing else.
pub open spec fn is_blank(s: Seq<char>) -> bool {
    forall|i: int| 0 <= i < s.len() ==> is_white_space(#[trigger] s[i])
}

/// Trimming takes all the white space at the ends of a text and nothing else.
pub proof fn trimming_takes_the_ends(before: Seq<char>, core: Seq<char>, after: Seq<char>)
    requires
        is_blank(before),
        is_blank(after),
        core.len() > 0 ==> !is_white_space(core.first()) && !is_white_space(core.last()),
    ensures
        trimmed(before + core + after) == core,
    decreases before.len() + after.len(),
{
    let s = before + core + after;
    if before.len() > 0 {
        assert(s.first() == before[0]);
        assert(s.drop_first() =~= before.drop_first() + core + after);
        trimming_takes_the_ends(before.drop_first(), core, after);
    } else if after.len() > 0 {
        assert(s.last() == after[after.len() - 1]);
        assert(s.drop_last() =~= before + core + after.drop_last());
        trimming_takes_the_ends(before, core, after.drop_last());
        if core.len() == 0 {
            assert(s =~= after);
            assert(s.first() == after[0]);
            assert(s.drop_first() =~= before + core + after.drop_first());
            trimming_takes_the_ends(before, core, after.drop_first());
        } else {
            assert(s.first() == core[0]);
        }
    } else {
        assert(s =~= core);
    }
}

/// Nothing is left of a text exactly where it is white space and nothing else.
pub proof fn blank_texts_are_trimmed_away(s: Seq<char>)
    ensures
        trimmed(s).len() == 0 <==> is_blank(s),
    decreases s.len(),
{
    if s.len() > 0 && is_white_space(s.first()) {
        blank_texts_are_trimmed_away(s.drop_first());
        assert forall|i: int| 0 <= i < s.len() && is_blank(s.drop_first()) implies is_white_space(
            #[trigger] s[i],
        ) by {
            if i > 0 {
                assert(s.drop_first()[i - 1] == s[i]);
            }
        }
        assert forall|i: int|
            0 <= i < s.drop_first().len() && is_blank(s) implies is_white_space(
            #[trigger] s.drop_first()[i],
        ) by {
            assert(s.drop_first()[i] == s[i + 1]);
        }
    } else if s.len() > 0 && is_white_space(s.last()) {
        blank_texts_are_trimmed_away(s.drop_last());
        assert(s.drop_last().first() == s.first());
        assert(!is_blank(s.drop_last()) && !is_blank(s)) by {
            assert(s.len() > 1);
            assert(s.drop_last()[0] == s[0]);
        }
    } else if s.len() > 0 {
        assert(!is_white_space(s[0]));
    }
}

/// The first word of a text is what stands before the next white space, past any
/// white space in front of it.
pub proof fn first_words_end_at_white_space(
    before: Seq<char>,
    word: Seq<char>,
    after: Seq<char>,
)
    requires
        is_blank(before),
        forall|i: int| 0 <= i < word.len() ==> !is_white_space(#[trigger] word[i]),
        after.len() > 0 ==> is_white_space(after.first()),
        word.len() == 0 ==> is_blank(after),
    ensures
        first_word_of(before + word + after) == if word.len() == 0 {
            None
        } else {
            Some(word)
        },
    decreases before.len() + after.len(),
{
    let s = before + word + after;
    if before.len() > 0 {
        assert(s.first() == before[0]);
        assert(s.drop_first() =~= before.drop_first() + word + after);
        first_words_end_at_white_space(before.drop_first(), word, after);
    } else if word.len() == 0 {
        assert(s =~= after);
        if after.len() > 0 {
            assert(s.drop_first() =~= before + word + after.drop_first());
            first_words_end_at_white_space(before, word, after.drop_first());
        }
    } else {
        assert(s =~= word + after);
        assert(s.first() == word[0]);
        words_are_taken(word, after);
    }
}

proof fn words_are_taken(word: Seq<char>, after: Seq<char>)
    requires
        forall|i: int| 0 <= i < word.len() ==> !is_white_space(#[trigger] word[i]),
        after.len() > 0 ==> is_white_space(after.first()),
    ensures
        up_to_white_space(word + after) == word,
    decreases word.len(),
{
    if word.len() > 0 {
        assert((word + after).first() == word[0]);
        assert((word + after).drop_first() =~= word.drop_first() + after);
        words_are_taken(word.drop_first(), after);
        assert(seq![word[0]] + word.drop_first() =~= word);
    } else {
        assert(word + after =~= after);
    }
}

/// A text holds another one exactly where it is that one with something in front
/// of it and something behind it.
pub proof fn held_texts_stand_in_between(s: Seq<char>, word: Seq<char>)
    ensures
        holds(s, word) <==> exists|before: Seq<char>, after: Seq<char>| #[trigger]
            (before + word + after) == s,
{
    if holds(s, word) {
        let i = choose|i: int| holds_at(s, word, i);
        assert(s.take(i) + word + s.skip(i + word.len()) =~= s);
    }
    if exists|before: Seq<char>, after: Seq<char>| #[trigger] (before + word + after) == s {
        let (before, after) = choose|before: Seq<char>, after: Seq<char>| #[trigger]
            (before + word + after) == s;
        assert((before + word + after).subrange(
            before.len() as int,
            (before.len() + word.len()) as int,
        ) =~= word);
        assert(holds_at(s, word, before.len() as int));
    }
}

/// Texts are in order as their first different characters are; and a text is in
/// order with a longer one that starts with it, and not the other way round.
pub proof fn first_differences_decide(
    start: Seq<char>,
    c: char,
    d: char,
    x: Seq<char>,
    y: Seq<char>,
)
    requires
        c < d,
    ensures
        in_order(start + seq![c] + x, start + seq![d] + y),
        !in_order(start + seq![d] + y, start + seq![c] + x),
        in_order(start, start + x),
        x.len() > 0 ==> !in_order(start + x, start),
    decreases start.len(),
{
    if start.len() > 0 {
        let rest = start.drop_first();
        first_differences_decide(rest, c, d, x, y);
        assert((start + seq![c] + x).drop_first() =~= rest + seq![c] + x);
        assert((start + seq![d] + y).drop_first() =~= rest + seq![d] + y);
        assert((start + x).drop_first() =~= rest + x);
        assert((start + seq![c] + x).first() == start[0]);
        assert((start + seq![d] + y).first() == start[0]);
        assert((start + x).first() == start[0]);
    } else {
        assert((start + seq![c] + x).first() == c);
        assert((start + seq![d] + y).first() == d);
    }
}

/// The number that some decimal digits stand for.
pub open spec fn number_of(s: Seq<char>) -> int
    decreases s.len(),
{
    if s.len() == 0 {
        0
    } else {
        10 * number_of(s.drop_last()) + (s.last() as int - '0' as int)
    }
}

/// A number in decimal reads back as the number. It is made of digits, with a sign
/// in front of a negative one, and with no zero in front of others.
pub proof fn decimals_read_back(n: int)
    ensures
        n >= 0 ==> {
            &&& decimal(n).len() > 0
            &&& number_of(decimal(n)) == n
            &&& forall|i: int| 0 <= i < decimal(n).len() ==> '0' <= #[trigger] decimal(n)[i] <= '9'
            &&& decimal(n).first() == '0' ==> n == 0 && decimal(n).len() == 1
        },
        n < 0 ==> decimal(n) == seq!['-'] + decimal(-n),
    decreases n,
{
    if n >= 10 {
        decimals_read_back(n / 10);
        let d = n % 10;
        assert(decimal(n) == decimal(n / 10).push(digit(d)));
        assert(decimal(n).drop_last() =~= decimal(n / 10));
        assert(decimal(n).first() == decimal(n / 10).first());
        assert(digit(d) as int == d + '0' as int);
    } else if n >= 0 {
        assert(decimal(n) =~= seq![digit(n)]);
        assert(digit(n) as int == n + '0' as int);
        assert(decimal(n).drop_last() =~= Seq::<char>::empty());
        assert(number_of(decimal(n).drop_last()) == 0);
    }
}

} // verus!
