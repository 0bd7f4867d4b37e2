//! Names: what an agent is called on the machine that runs it.

use sha2::Digest;
use vstd::prelude::*;
use vstd::string::*;
use vstd::utf8::encode_utf8;

use crate::text::{chars_of, part_of, strip, stripped, text_of};

verus! {

/// A character that a name may hold.
pub open spec fn is_name_char(c: char) -> bool {
    ||| 'a' <= c <= 'z'
    ||| '0' <= c <= '9'
    ||| c == '-'
    ||| c == '_'
}

/// A name becomes a filename, a unit label and part of a log path, so it is one
/// to sixty-four characters of a set that can do no harm in any of them.
pub open spec fn is_name(s: Seq<char>) -> bool {
    &&& 0 < s.len() <= 64
    &&& forall|i: int| 0 <= i < s.len() ==> is_name_char(#[trigger] s[i])
}

/// Whether a text can be a name.
pub fn is_valid_name(name: &str) -> (r: bool)
    ensures
        r == is_name(name@),
{
    let cs = chars_of(name);
    if cs.len() == 0 || cs.len() > 64 {
        return false;
    }
    let mut i: usize = 0;
    while i < cs.len()
        invariant
            i <= cs.len(),
            cs@ == name@,
            forall|j: int| 0 <= j < i ==> is_name_char(#[trigger] name@[j]),
        decreases cs.len() - i,
    {
        let c = cs[i];
        if !((c >= 'a' && c <= 'z') || (c >= '0' && c <= '9') || c == '-' || c == '_') {
            return false;
        }
        i += 1;
    }
    true
}

/// The label of an agent's unit.
pub open spec fn label_of(name: Seq<char>) -> Seq<char> {
    "dev.buzz.host."@ + name
}

/// The label of an agent's unit.
pub fn label(name: &str) -> (r: String)
    ensures
        r@ == label_of(name@),
{
    let mut r = "dev.buzz.host.".to_owned();
    r.append(name);
    r
}

// Slugs.

/// What stands in a slug for a character of a display name in lower case.
pub open spec fn slug_char(c: char) -> char {
    if 'a' <= c <= 'z' || '0' <= c <= '9' {
        c
    } else {
        '-'
    }
}

/// A text with each run of dashes made one dash.
pub open spec fn single_dashes(s: Seq<char>) -> Seq<char>
    decreases s.len(),
{
    if s.len() == 0 {
        s
    } else {
        let before = single_dashes(s.drop_last());
        if s.last() == '-' && before.len() > 0 && before.last() == '-' {
            before
        } else {
            before.push(s.last())
        }
    }
}

/// A text without the dashes at its ends.
pub open spec fn undashed(s: Seq<char>) -> Seq<char> {
    stripped(s, |c: char| c == '-')
}

/// The start of a text, up to forty characters.
pub open spec fn shortened(s: Seq<char>) -> Seq<char> {
    if s.len() > 40 {
        s.take(40)
    } else {
        s
    }
}

/// The slug of a display name that is in lower case already: its letters and
/// digits, with one dash for each stretch of anything else between them; cut to
/// forty characters; and `agent` where nothing would be left.
pub open spec fn slug_of(lowered: Seq<char>) -> Seq<char> {
    let plain = undashed(single_dashes(lowered.map_values(|c: char| slug_char(c))));
    undashed(
        shortened(
            if plain.len() == 0 {
                "agent"@
            } else {
                plain
            },
        ),
    )
}

/// Some characters without the dashes at their ends.
fn without_dashes(cs: &Vec<char>) -> (r: Vec<char>)
    ensures
        r@ == undashed(cs@),
{
    let dash = |c: char| -> (b: bool)
        ensures
            b == (c == '-'),
        {
            c == '-'
        };
    strip(cs, dash, Ghost(|c: char| c == '-'))
}

/// The slug of a display name that is in lower case already.
pub fn slug(lowered: &str) -> (r: String)
    ensures
        r@ == slug_of(lowered@),
{
    let cs = chars_of(lowered);
    let ghost mapped = lowered@.map_values(|c: char| slug_char(c));
    let mut plain: Vec<char> = Vec::new();
    let mut i: usize = 0;
    assert(mapped.take(0) =~= Seq::<char>::empty());
    while i < cs.len()
        invariant
            i <= cs.len(),
            cs@ == lowered@,
            mapped == lowered@.map_values(|c: char| slug_char(c)),
            plain@ == single_dashes(mapped.take(i as int)),
        decreases cs.len() - i,
    {
        let c = cs[i];
        let kept = if (c >= 'a' && c <= 'z') || (c >= '0' && c <= '9') {
            c
        } else {
            '-'
        };
        assert(mapped.take(i + 1).drop_last() =~= mapped.take(i as int));
        if !(kept == '-' && plain.len() > 0 && plain[plain.len() - 1] == '-') {
            plain.push(kept);
        }
        i += 1;
    }
    assert(mapped.take(mapped.len() as int) =~= mapped);
    let plain = without_dashes(&plain);
    let named = if plain.len() == 0 {
        chars_of("agent")
    } else {
        plain
    };
    let short = if named.len() > 40 {
        part_of(&named, 0, 40)
    } else {
        named
    };
    assert(named@.len() > 40 ==> named@.subrange(0, 40) =~= named@.take(40));
    text_of(&without_dashes(&short))
}

// Hashes.

/// The digest that `sha2::Sha256` computes of some bytes.
pub uninterp spec fn sha256(data: Seq<u8>) -> Seq<u8>;

/// `sha2::Sha256::digest` computes thirty-two bytes that depend on the data
/// alone.
#[verifier::external_body]
fn digest(data: &[u8]) -> (r: Vec<u8>)
    ensures
        r@ == sha256(data@),
        r@.len() == 32,
{
    sha2::Sha256::digest(data).to_vec()
}

/// A hexadecimal digit, in lower case.
pub open spec fn hex_digit(n: int) -> char {
    if n < 10 {
        (n + '0' as int) as char
    } else {
        (n - 10 + 'a' as int) as char
    }
}

/// Bytes in hexadecimal: two digits for each.
pub open spec fn hex_form(data: Seq<u8>) -> Seq<char> {
    Seq::new(
        2 * data.len(),
        |i: int|
            hex_digit(
                if i % 2 == 0 {
                    data[i / 2] as int / 16
                } else {
                    data[i / 2] as int % 16
                },
            ),
    )
}

/// `hex::encode` writes each byte as two digits in lower case, the high one
/// first.
#[verifier::external_body]
fn hex_text(data: &Vec<u8>) -> (r: String)
    ensures
        r@ == hex_form(data@),
{
    hex::encode(data)
}

/// The text that `str::to_lowercase` makes of a text.
pub uninterp spec fn lower_case(s: Seq<char>) -> Seq<char>;

/// `str::to_lowercase` makes a text that depends on the given one alone.
pub assume_specification[ str::to_lowercase ](s: &str) -> (r: String)
    ensures
        r@ == lower_case(s@),
;

// Unit names.

/// The name of a unit, from the display name in lower case and the digest of
/// the relay's address.
pub open spec fn unit_name_from(lowered: Seq<char>, digest: Seq<u8>) -> Seq<char> {
    slug_of(lowered) + "-"@ + hex_form(digest).take(6)
}

/// The name of the unit that runs this agent on this relay.
pub open spec fn unit_name_of(display: Seq<char>, relay: Seq<char>) -> Seq<char> {
    unit_name_from(lower_case(display), sha256(encode_utf8(relay)))
}

/// The name of a unit, from the display name in lower case and the digest of
/// the relay's address.
pub fn unit_name_for(lowered: &str, digest: &Vec<u8>) -> (r: String)
    requires
        digest.len() >= 3,
    ensures
        r@ == unit_name_from(lowered@, digest@),
{
    let mut r = slug(lowered);
    r.append("-");
    let hash = hex_text(digest);
    let hash = chars_of(hash.as_str());
    let start = text_of(&part_of(&hash, 0, 6));
    assert(hash@.subrange(0, 6) =~= hash@.take(6));
    r.append(start.as_str());
    r
}

/// A stable unit name for this agent on this relay.
///
/// The same identity on two relays is two processes, so the relay is part of
/// the name. The same agent on the same relay always gets the same name, so
/// that deploying again updates in place.
pub fn unit_name(display: &str, relay: &str) -> (r: String)
    ensures
        r@ == unit_name_of(display@, relay@),
        sha256(encode_utf8(relay@)).len() == 32,
        is_name(r@),
        r@.len() <= 47,
        !r@.contains('_'),
        r@.first() != '-',
{
    let lowered = display.to_lowercase();
    let hash = digest(relay.as_bytes());
    proof {
        unit_names_are_usable(lowered@, hash@);
    }
    unit_name_for(lowered.as_str(), &hash)
}

// What holds of names.

/// What is left when the ends are dropped is a stretch of the text, and neither
/// of its ends is to be dropped.
proof fn stripped_is_a_stretch(s: Seq<char>, drop: spec_fn(char) -> bool)
    ensures
        stripped(s, drop).len() <= s.len(),
        forall|i: int|
            0 <= i < stripped(s, drop).len() ==> s.contains(#[trigger] stripped(s, drop)[i]),
        stripped(s, drop).len() > 0 ==> !drop(stripped(s, drop).first()) && !drop(
            stripped(s, drop).last(),
        ),
    decreases s.len(),
{
    if s.len() > 0 && drop(s.first()) {
        stripped_is_a_stretch(s.drop_first(), drop);
        assert forall|i: int| 0 <= i < stripped(s, drop).len() implies s.contains(
            #[trigger] stripped(s, drop)[i],
        ) by {
            let j = s.drop_first().index_of(stripped(s, drop)[i]);
            assert(s[j + 1] == stripped(s, drop)[i]);
        }
    } else if s.len() > 0 && drop(s.last()) {
        stripped_is_a_stretch(s.drop_last(), drop);
        assert forall|i: int| 0 <= i < stripped(s, drop).len() implies s.contains(
            #[trigger] stripped(s, drop)[i],
        ) by {
            let j = s.drop_last().index_of(stripped(s, drop)[i]);
            assert(s[j] == stripped(s, drop)[i]);
        }
    }
}

/// A text whose first character stays keeps it.
proof fn stripped_keeps_the_first(s: Seq<char>, drop: spec_fn(char) -> bool)
    requires
        s.len() > 0,
        !drop(s.first()),
    ensures
        stripped(s, drop).len() > 0,
        stripped(s, drop).first() == s.first(),
    decreases s.len(),
{
    if drop(s.last()) {
        assert(s.len() > 1);
        stripped_keeps_the_first(s.drop_last(), drop);
    }
}

/// Making runs of dashes one dash adds no character.
proof fn single_dashes_add_nothing(s: Seq<char>)
    ensures
        forall|i: int|
            0 <= i < single_dashes(s).len() ==> s.contains(#[trigger] single_dashes(s)[i]),
    decreases s.len(),
{
    if s.len() > 0 {
        single_dashes_add_nothing(s.drop_last());
        let r = single_dashes(s);
        assert forall|i: int| 0 <= i < r.len() implies s.contains(#[trigger] r[i]) by {
            let before = single_dashes(s.drop_last());
            if i < before.len() {
                assert(r[i] == before[i]);
                let j = s.drop_last().index_of(before[i]);
                assert(s[j] == r[i]);
            } else {
                assert(r[i] == s[s.len() - 1]);
            }
        }
    }
}

/// A slug is one to forty letters, digits and dashes, and a dash is at neither
/// end.
pub proof fn slugs_are_plain(lowered: Seq<char>)
    ensures
        0 < slug_of(lowered).len() <= 40,
        forall|i: int|
            0 <= i < slug_of(lowered).len() ==> {
                let c = #[trigger] slug_of(lowered)[i];
                'a' <= c <= 'z' || '0' <= c <= '9' || c == '-'
            },
        slug_of(lowered).first() != '-',
        slug_of(lowered).last() != '-',
{
    reveal_strlit("agent");
    let dash = |c: char| c == '-';
    let mapped = lowered.map_values(|c: char| slug_char(c));
    let single = single_dashes(mapped);
    let plain = undashed(single);
    single_dashes_add_nothing(mapped);
    stripped_is_a_stretch(single, dash);
    let named = if plain.len() == 0 {
        "agent"@
    } else {
        plain
    };
    assert forall|i: int| 0 <= i < named.len() implies {
        let c = #[trigger] named[i];
        'a' <= c <= 'z' || '0' <= c <= '9' || c == '-'
    } by {
        if plain.len() > 0 {
            let j = single.index_of(plain[i]);
            assert(single[j] == plain[i]);
            let k = mapped.index_of(single[j]);
            assert(mapped[k] == slug_char(lowered[k]));
        }
    }
    let short = shortened(named);
    stripped_is_a_stretch(short, dash);
    stripped_keeps_the_first(short, dash);
    let slug = slug_of(lowered);
    assert(slug == stripped(short, dash));
    assert forall|i: int| 0 <= i < slug.len() implies {
        let c = #[trigger] slug[i];
        'a' <= c <= 'z' || '0' <= c <= '9' || c == '-'
    } by {
        let j = short.index_of(slug[i]);
        assert(short[j] == slug[i]);
        assert(named[j] == short[j]);
    }
}

/// Whatever an agent is called and whatever its relay, the name of its unit is
/// one that the host accepts. It is made of letters, digits and dashes, with at
/// most forty-seven characters and no dash in front, where a command would take
/// it for an option.
pub proof fn unit_names_are_usable(lowered: Seq<char>, digest: Seq<u8>)
    requires
        digest.len() >= 3,
    ensures
        is_name(unit_name_from(lowered, digest)),
        unit_name_from(lowered, digest).len() <= 47,
        !unit_name_from(lowered, digest).contains('_'),
        unit_name_from(lowered, digest).first() != '-',
{
    reveal_strlit("-");
    slugs_are_plain(lowered);
    let name = unit_name_from(lowered, digest);
    let slug = slug_of(lowered);
    assert forall|i: int| 0 <= i < name.len() implies is_name_char(#[trigger] name[i])
        && name[i] != '_' by {
        if i < slug.len() {
            assert(name[i] == slug[i]);
        } else if i > slug.len() {
            assert(name[i] == hex_form(digest)[i - slug.len() - 1]);
        }
    }
    assert(name.first() == slug.first());
}

/// Two units share a name exactly when their slugs are the same and the digests
/// of their relays start with the same three bytes: so one agent keeps its name,
/// and has another one on every relay whose digest starts differently.
pub proof fn unit_names_tell_relays_apart(a: Seq<char>, x: Seq<u8>, b: Seq<char>, y: Seq<u8>)
    requires
        x.len() >= 3,
        y.len() >= 3,
    ensures
        unit_name_from(a, x) == unit_name_from(b, y) <==> slug_of(a) == slug_of(b) && x.take(3)
            == y.take(3),
{
    reveal_strlit("-");
    let p = unit_name_from(a, x);
    let q = unit_name_from(b, y);
    let m = slug_of(a).len();
    assert(p.len() == m + 1 + hex_form(x).take(6).len());
    assert(q.len() == slug_of(b).len() + 1 + hex_form(y).take(6).len());
    if p == q {
        assert(m == slug_of(b).len());
        assert(slug_of(a) =~= p.take(m as int));
        assert(slug_of(b) =~= q.take(m as int));
        assert forall|i: int| 0 <= i < 3 implies x[i] == y[i] by {
            assert(p[m + 1 + 2 * i] == hex_form(x)[2 * i]);
            assert(q[m + 1 + 2 * i] == hex_form(y)[2 * i]);
            assert(p[m + 2 + 2 * i] == hex_form(x)[2 * i + 1]);
            assert(q[m + 2 + 2 * i] == hex_form(y)[2 * i + 1]);
        }
        assert(x.take(3) =~= y.take(3));
    }
    if slug_of(a) == slug_of(b) && x.take(3) == y.take(3) {
        assert forall|i: int| 0 <= i < 6 implies hex_form(x)[i] == hex_form(y)[i] by {
            assert(x.take(3)[i / 2] == y.take(3)[i / 2]);
        }
        assert(hex_form(x).take(6) =~= hex_form(y).take(6));
    }
}

/// Two units share a name exactly where the slugs of their agents are the same and
/// the digests of their relays' addresses start with the same three bytes: so one
/// agent has another unit on every relay whose digest starts differently.
pub proof fn units_are_distinct_per_relay(
    a: Seq<char>,
    x: Seq<char>,
    b: Seq<char>,
    y: Seq<char>,
)
    ensures
        sha256(encode_utf8(x)).len() == 32 && sha256(encode_utf8(y)).len() == 32 ==> (
        unit_name_of(a, x) == unit_name_of(b, y) <==> slug_of(lower_case(a)) == slug_of(
            lower_case(b),
        ) && sha256(encode_utf8(x)).take(3) == sha256(encode_utf8(y)).take(3)),
{
    if sha256(encode_utf8(x)).len() == 32 && sha256(encode_utf8(y)).len() == 32 {
        unit_names_tell_relays_apart(
            lower_case(a),
            sha256(encode_utf8(x)),
            lower_case(b),
            sha256(encode_utf8(y)),
        );
    }
}

/// A name holds no slash and no dot, so it cannot lead out of a directory.
pub proof fn names_stay_put(name: Seq<char>)
    requires
        is_name(name),
    ensures
        !name.contains('/'),
        !name.contains('.'),
{
}

/// Agents with different names have different labels.
pub proof fn labels_tell_names_apart(a: Seq<char>, b: Seq<char>)
    ensures
        label_of(a) == label_of(b) <==> a == b,
{
    let start = "dev.buzz.host."@;
    assert(a =~= label_of(a).skip(start.len() as int));
    assert(b =~= label_of(b).skip(start.len() as int));
}

/// The letters and digits of a text, without anything else.
pub open spec fn letters_and_digits(s: Seq<char>) -> Seq<char>
    decreases s.len(),
{
    if s.len() == 0 {
        s
    } else {
        let before = letters_and_digits(s.drop_last());
        if 'a' <= s.last() <= 'z' || '0' <= s.last() <= '9' {
            before.push(s.last())
        } else {
            before
        }
    }
}

/// Whether a text is letters and digits and nothing else.
pub open spec fn is_word(s: Seq<char>) -> bool {
    forall|i: int|
        0 <= i < s.len() ==> ('a' <= #[trigger] s[i] <= 'z' || '0' <= s[i] <= '9')
}

/// Whether a text holds no letter and no digit.
pub open spec fn is_gap(s: Seq<char>) -> bool {
    forall|i: int|
        0 <= i < s.len() ==> !('a' <= #[trigger] s[i] <= 'z' || '0' <= s[i] <= '9')
}

proof fn letters_follow(a: Seq<char>, b: Seq<char>)
    ensures
        letters_and_digits(a + b) == letters_and_digits(a) + letters_and_digits(b),
    decreases b.len(),
{
    if b.len() == 0 {
        assert(a + b =~= a);
    } else {
        letters_follow(a, b.drop_last());
        assert((a + b).drop_last() =~= a + b.drop_last());
        assert((a + b).last() == b.last());
        assert(letters_and_digits(a + b) =~= letters_and_digits(a) + letters_and_digits(b));
    }
}

proof fn mapping_keeps_letters(s: Seq<char>)
    ensures
        letters_and_digits(s.map_values(|c: char| slug_char(c))) == letters_and_digits(s),
    decreases s.len(),
{
    let mapped = s.map_values(|c: char| slug_char(c));
    if s.len() > 0 {
        mapping_keeps_letters(s.drop_last());
        assert(mapped.drop_last() =~= s.drop_last().map_values(|c: char| slug_char(c)));
        assert(mapped.last() == slug_char(s.last()));
    } else {
        assert(mapped =~= s);
    }
}

proof fn single_dashes_keep_letters(s: Seq<char>)
    ensures
        letters_and_digits(single_dashes(s)) == letters_and_digits(s),
    decreases s.len(),
{
    if s.len() > 0 {
        single_dashes_keep_letters(s.drop_last());
        let before = single_dashes(s.drop_last());
        assert(before.push(s.last()).drop_last() =~= before);
    }
}

proof fn dashes_at_the_ends_are_no_letters(s: Seq<char>)
    ensures
        letters_and_digits(undashed(s)) == letters_and_digits(s),
    decreases s.len(),
{
    let dash = |c: char| c == '-';
    if s.len() > 0 && s.first() == '-' {
        dashes_at_the_ends_are_no_letters(s.drop_first());
        assert(seq!['-'] + s.drop_first() =~= s);
        letters_follow(seq!['-'], s.drop_first());
        reveal_with_fuel(letters_and_digits, 2);
        assert(seq!['-'].drop_last() =~= Seq::<char>::empty());
        assert(letters_and_digits(seq!['-']) =~= Seq::<char>::empty());
        assert(letters_and_digits(s) =~= letters_and_digits(s.drop_first()));
        assert(undashed(s) == stripped(s.drop_first(), dash));
    } else if s.len() > 0 && s.last() == '-' {
        dashes_at_the_ends_are_no_letters(s.drop_last());
        assert(undashed(s) == stripped(s.drop_last(), dash));
    }
}

/// A slug keeps the letters and digits of the name, in order: all of them where
/// the name has at most forty characters, and otherwise those it has room for.
pub proof fn slugs_keep_letters_and_digits(lowered: Seq<char>)
    requires
        letters_and_digits(lowered).len() > 0,
    ensures
        letters_and_digits(slug_of(lowered)).is_prefix_of(letters_and_digits(lowered)),
        lowered.len() <= 40 ==> letters_and_digits(slug_of(lowered)) == letters_and_digits(lowered),
{
    let mapped = lowered.map_values(|c: char| slug_char(c));
    let plain = undashed(single_dashes(mapped));
    mapping_keeps_letters(lowered);
    single_dashes_keep_letters(mapped);
    single_dashes_are_fewer(mapped);
    dashes_at_the_ends_are_no_letters(single_dashes(mapped));
    stripped_is_a_stretch(single_dashes(mapped), |c: char| c == '-');
    assert(letters_and_digits(plain) == letters_and_digits(lowered));
    let short = shortened(plain);
    dashes_at_the_ends_are_no_letters(short);
    if plain.len() > 40 {
        assert(plain.take(40) + plain.skip(40) =~= plain);
        letters_follow(plain.take(40), plain.skip(40));
    }
}

proof fn single_dashes_are_fewer(s: Seq<char>)
    ensures
        single_dashes(s).len() <= s.len(),
    decreases s.len(),
{
    if s.len() > 0 {
        single_dashes_are_fewer(s.drop_last());
    }
}

/// Agents whose names differ in a letter or a digit have different units on one
/// relay, where the names have at most forty characters.
pub proof fn letters_and_digits_tell_agents_apart(a: Seq<char>, b: Seq<char>, digest: Seq<u8>)
    requires
        digest.len() >= 3,
        0 < letters_and_digits(a).len(),
        0 < letters_and_digits(b).len(),
        a.len() <= 40,
        b.len() <= 40,
        letters_and_digits(a) != letters_and_digits(b),
    ensures
        unit_name_from(a, digest) != unit_name_from(b, digest),
{
    slugs_keep_letters_and_digits(a);
    slugs_keep_letters_and_digits(b);
    unit_names_tell_relays_apart(a, digest, b, digest);
}

/// A slug of one word is the word, up to forty characters of it; of two words with
/// anything between them it is the two with one dash; what stands around them does
/// not count; and where there is no word it is `agent`.
pub proof fn slugs_put_dashes_between_words(
    before: Seq<char>,
    a: Seq<char>,
    between: Seq<char>,
    b: Seq<char>,
    after: Seq<char>,
)
    requires
        is_gap(before),
        is_gap(between),
        is_gap(after),
        is_word(a),
        is_word(b),
        a.len() > 0,
        b.len() > 0,
        between.len() > 0,
    ensures
        slug_of(before + a + after) == shortened_word(a),
        a.len() + 1 + b.len() <= 40 ==> slug_of(before + a + between + b + after) == a + seq!['-']
            + b,
        slug_of(before) == seq!['a', 'g', 'e', 'n', 't'],
{
    reveal_strlit("agent");
    assert("agent"@ =~= seq!['a', 'g', 'e', 'n', 't']);
    let dash = |c: char| c == '-';
    gaps_become_one_dash(Seq::empty(), before);
    assert(Seq::<char>::empty() + before =~= before);
    let none = Seq::<char>::empty();
    let lead = if before.len() == 0 {
        none
    } else {
        seq!['-']
    };
    let trail = if after.len() == 0 {
        none
    } else {
        seq!['-']
    };
    assert(dashed(before) =~= lead);
    // No word.
    ends_are_stripped(lead, none, none);
    assert(lead + none + none =~= lead);
    assert(shortened("agent"@) =~= "agent"@);
    ends_are_stripped(none, "agent"@, none);
    assert(none + "agent"@ + none =~= "agent"@);
    // One word.
    words_stay(before, a);
    gaps_become_one_dash(before + a, after);
    assert(dashed(before + a) =~= lead + a);
    assert(dashed(before + a + after) =~= lead + a + trail);
    ends_are_stripped(lead, a, trail);
    let short = shortened(a);
    ends_are_stripped(none, short, none);
    assert(none + short + none =~= short);
    // Two words.
    gaps_become_one_dash(before + a, between);
    assert(dashed(before + a + between) =~= lead + a + seq!['-']);
    words_stay(before + a + between, b);
    assert(dashed(before + a + between + b) =~= lead + (a + seq!['-'] + b));
    gaps_become_one_dash(before + a + between + b, after);
    assert(dashed(before + a + between + b + after) =~= lead + (a + seq!['-'] + b) + trail);
    ends_are_stripped(lead, a + seq!['-'] + b, trail);
    ends_are_stripped(none, a + seq!['-'] + b, none);
    assert(none + (a + seq!['-'] + b) + none =~= a + seq!['-'] + b);
}

/// A word, up to forty characters of it.
pub open spec fn shortened_word(s: Seq<char>) -> Seq<char> {
    if s.len() > 40 {
        s.take(40)
    } else {
        s
    }
}

/// A text as it stands in a slug, before its ends are taken off.
spec fn dashed(s: Seq<char>) -> Seq<char> {
    single_dashes(s.map_values(|c: char| slug_char(c)))
}

proof fn ends_are_stripped(lead: Seq<char>, core: Seq<char>, trail: Seq<char>)
    requires
        lead.len() <= 1,
        trail.len() <= 1,
        forall|i: int| 0 <= i < lead.len() ==> lead[i] == '-',
        forall|i: int| 0 <= i < trail.len() ==> trail[i] == '-',
        core.len() == 0 ==> trail.len() == 0,
        core.len() > 0 ==> core.first() != '-' && core.last() != '-',
    ensures
        undashed(lead + core + trail) == core,
    decreases lead.len() + trail.len(),
{
    let dash = |c: char| c == '-';
    let s = lead + core + trail;
    if lead.len() > 0 {
        assert(s.first() == '-');
        assert(s.drop_first() =~= lead.drop_first() + core + trail);
        ends_are_stripped(lead.drop_first(), core, trail);
        assert(stripped(s, dash) == stripped(s.drop_first(), dash));
    } else if trail.len() > 0 {
        assert(s.first() == core[0]);
        assert(s.last() == '-');
        assert(s.drop_last() =~= lead + core + trail.drop_last());
        ends_are_stripped(lead, core, trail.drop_last());
        assert(stripped(s, dash) == stripped(s.drop_last(), dash));
    } else {
        assert(s =~= core);
    }
}

proof fn words_stay(s: Seq<char>, word: Seq<char>)
    requires
        is_word(word),
    ensures
        dashed(s + word) == dashed(s) + word,
    decreases word.len(),
{
    if word.len() == 0 {
        assert(s + word =~= s);
        assert(dashed(s) + word =~= dashed(s));
    } else {
        let front = word.drop_last();
        words_stay(s, front);
        let mapped = (s + word).map_values(|c: char| slug_char(c));
        assert(mapped.drop_last() =~= (s + front).map_values(|c: char| slug_char(c)));
        assert(mapped.last() == slug_char(word[word.len() - 1]));
        assert(mapped.last() == word.last());
        assert(word.last() != '-');
        assert((dashed(s) + front).push(word.last()) =~= dashed(s) + word);
    }
}

proof fn gaps_become_one_dash(s: Seq<char>, gap: Seq<char>)
    requires
        is_gap(gap),
    ensures
        dashed(s + gap) == if gap.len() == 0 || (dashed(s).len() > 0 && dashed(s).last() == '-') {
            dashed(s)
        } else {
            dashed(s).push('-')
        },
    decreases gap.len(),
{
    if gap.len() == 0 {
        assert(s + gap =~= s);
    } else {
        let front = gap.drop_last();
        gaps_become_one_dash(s, front);
        let mapped = (s + gap).map_values(|c: char| slug_char(c));
        assert(mapped.drop_last() =~= (s + front).map_values(|c: char| slug_char(c)));
        assert(mapped.last() == slug_char(gap[gap.len() - 1]));
        assert(mapped.last() == '-');
    }
}

/// Whether no two dashes stand side by side.
pub open spec fn has_single_dashes(s: Seq<char>) -> bool {
    forall|i: int, j: int|
        0 <= i && j == i + 1 && j < s.len() ==> !(#[trigger] s[i] == '-' && #[trigger] s[j] == '-')
}

/// No two dashes stand side by side in a slug.
pub proof fn slugs_have_single_dashes(lowered: Seq<char>)
    ensures
        has_single_dashes(slug_of(lowered)),
{
    reveal_strlit("agent");
    let dash = |c: char| c == '-';
    let mapped = lowered.map_values(|c: char| slug_char(c));
    let plain = undashed(single_dashes(mapped));
    dashes_are_made_single(mapped);
    stripping_keeps_dashes_single(single_dashes(mapped), dash);
    let named = if plain.len() == 0 {
        "agent"@
    } else {
        plain
    };
    assert(has_single_dashes(named));
    stripping_keeps_dashes_single(shortened(named), dash);
}

proof fn dashes_are_made_single(s: Seq<char>)
    ensures
        has_single_dashes(single_dashes(s)),
    decreases s.len(),
{
    if s.len() > 0 {
        dashes_are_made_single(s.drop_last());
    }
}

proof fn stripping_keeps_dashes_single(s: Seq<char>, drop: spec_fn(char) -> bool)
    requires
        has_single_dashes(s),
    ensures
        has_single_dashes(stripped(s, drop)),
    decreases s.len(),
{
    if s.len() > 0 && drop(s.first()) {
        assert forall|i: int, j: int|
            0 <= i && j == i + 1 && j < s.drop_first().len() implies !(#[trigger] s.drop_first()[i]
            == '-' && #[trigger] s.drop_first()[j] == '-') by {
            assert(s.drop_first()[i] == s[i + 1] && s.drop_first()[j] == s[j + 1]);
        }
        stripping_keeps_dashes_single(s.drop_first(), drop);
    } else if s.len() > 0 && drop(s.last()) {
        stripping_keeps_dashes_single(s.drop_last(), drop);
    }
}

/// The number that a hexadecimal digit stands for.
pub open spec fn hex_value(c: char) -> int {
    if '0' <= c <= '9' {
        c as int - '0' as int
    } else {
        c as int - 'a' as int + 10
    }
}

/// A unit's name ends in a dash and six hexadecimal digits that stand for the first
/// three bytes of the digest of its relay's address, the high digit of each first;
/// what stands before them is the slug.
pub proof fn unit_names_end_in_the_digest(lowered: Seq<char>, digest: Seq<u8>)
    requires
        digest.len() >= 3,
    ensures
        ({
            let name = unit_name_from(lowered, digest);
            let at = name.len() - 6;
            &&& at > 0
            &&& name.take(at - 1) == slug_of(lowered)
            &&& name[at - 1] == '-'
            &&& forall|i: int|
                at <= i < name.len() ==> ('0' <= #[trigger] name[i] <= '9' || 'a' <= name[i] <= 'f')
            &&& forall|i: int|
                0 <= i < 3 ==> #[trigger] digest[i] as int == 16 * hex_value(name[at + 2 * i])
                    + hex_value(name[at + 2 * i + 1])
        }),
{
    reveal_strlit("-");
    let name = unit_name_from(lowered, digest);
    let at = name.len() - 6;
    let hex = hex_form(digest);
    assert(name.take(at - 1) =~= slug_of(lowered));
    assert forall|i: int| at <= i < name.len() implies ('0' <= #[trigger] name[i] <= '9' || 'a'
        <= name[i] <= 'f') by {
        assert(name[i] == hex[i - at]);
    }
    assert forall|i: int| 0 <= i < 3 implies #[trigger] digest[i] as int == 16 * hex_value(
        name[at + 2 * i],
    ) + hex_value(name[at + 2 * i + 1]) by {
        assert(name[at + 2 * i] == hex[2 * i]);
        assert(name[at + 2 * i + 1] == hex[2 * i + 1]);
        assert((2 * i) / 2 == i && (2 * i + 1) / 2 == i);
    }
}

/// A text can be a name exactly where it has one to sixty-four characters, each of
/// them one of these.
pub proof fn names_are_made_of_these(s: Seq<char>)
    ensures
        is_name(s) <==> (1 <= s.len() <= 64 && forall|i: int|
            0 <= i < s.len() ==> "abcdefghijklmnopqrstuvwxyz0123456789-_"@.contains(#[trigger] s[i])),
{
    reveal_strlit("abcdefghijklmnopqrstuvwxyz0123456789-_");
    let these = "abcdefghijklmnopqrstuvwxyz0123456789-_"@;
    assert(these.len() == 38);
    assert forall|c: char| these.contains(c) <==> is_name_char(c) by {
        if is_name_char(c) {
            let at = if 'a' <= c <= 'z' {
                c as int - 'a' as int
            } else if '0' <= c <= '9' {
                26 + (c as int - '0' as int)
            } else if c == '-' {
                36
            } else {
                37
            };
            assert(these[at] == c);
        }
    }
}

} // verus!
