//! Quoting: text that has to survive a shell or an XML reader.

use vstd::prelude::*;
use vstd::string::*;

use crate::text::chars_of;

verus! {

// The shell.

/// A text as it stands between single quotes: a quote closes them, stands
/// escaped, and opens them again.
pub open spec fn between_quotes(s: Seq<char>) -> Seq<char>
    decreases s.len(),
{
    if s.len() == 0 {
        s
    } else {
        (if s.first() == '\'' {
            seq!['\'', '\\', '\'', '\'']
        } else {
            seq![s.first()]
        }) + between_quotes(s.drop_first())
    }
}

/// A text as one word of a shell command.
pub open spec fn shell_quoted(s: Seq<char>) -> Seq<char> {
    seq!['\''] + between_quotes(s) + seq!['\'']
}

/// A text as one word of a shell command.
pub fn shell_quote(s: &str) -> (r: String)
    ensures
        r@ == shell_quoted(s@),
{
    proof {
        reveal_strlit("'");
        reveal_strlit("'\\''");
    }
    let cs = chars_of(s);
    let mut r = "'".to_owned();
    let mut i: usize = 0;
    assert(s@.skip(0) =~= s@);
    assert(r@ =~= seq!['\'']);
    while i < cs.len()
        invariant
            i <= cs.len(),
            cs@ == s@,
            "'\\''"@ =~= seq!['\'', '\\', '\'', '\''],
            r@ + between_quotes(s@.skip(i as int)) == seq!['\''] + between_quotes(s@),
        decreases cs.len() - i,
    {
        let ghost before = r@;
        let ghost rest = between_quotes(s@.skip(i + 1));
        assert(s@.skip(i as int).drop_first() =~= s@.skip(i + 1));
        if cs[i] == '\'' {
            r.append("'\\''");
            assert(r@ + rest =~= before + ("'\\''"@ + rest));
        } else {
            r.push(cs[i]);
            assert(r@ + rest =~= before + (seq![cs@[i as int]] + rest));
        }
        i += 1;
    }
    assert(r@ + between_quotes(s@.skip(s@.len() as int)) =~= r@);
    r.append("'");
    assert(r@ =~= shell_quoted(s@));
    r
}

/// The words that a POSIX shell reads from a text of single quotes, of characters
/// after a backslash, of lower-case letters and of spaces, from inside or outside
/// the quotes, with the start of a word read already or with none; nothing where
/// the text holds anything else or ends too early.
pub open spec fn read_words(s: Seq<char>, quoted: bool, word: Option<Seq<char>>) -> Option<
    Seq<Seq<char>>,
>
    decreases s.len(),
{
    if s.len() == 0 {
        if quoted {
            None
        } else {
            Some(
                match word {
                    Some(word) => seq![word],
                    None => Seq::empty(),
                },
            )
        }
    } else if s.first() == '\'' {
        read_words(s.drop_first(), !quoted, Some(begun(word)))
    } else if quoted || 'a' <= s.first() <= 'z' {
        read_words(s.drop_first(), quoted, Some(begun(word).push(s.first())))
    } else if s.first() == '\\' && s.len() > 1 && s[1] != '\n' {
        read_words(s.skip(2), false, Some(begun(word).push(s[1])))
    } else if s.first() == ' ' {
        let rest = read_words(s.drop_first(), false, None);
        match word {
            Some(word) => with_first(word, rest),
            None => rest,
        }
    } else {
        None
    }
}

/// The start of a word: nothing where none was read.
pub open spec fn begun(word: Option<Seq<char>>) -> Seq<char> {
    match word {
        Some(word) => word,
        None => Seq::empty(),
    }
}

/// The words of a shell command.
pub open spec fn shell_words(s: Seq<char>) -> Option<Seq<Seq<char>>> {
    read_words(s, false, None)
}

/// An item in front of some others, if there are others.
pub open spec fn with_first<T>(item: T, others: Option<Seq<T>>) -> Option<Seq<T>> {
    match others {
        Some(others) => Some(seq![item] + others),
        None => None,
    }
}

/// A shell reads a quoted text as one word, and the word is the text.
pub proof fn quoting_survives_the_shell(s: Seq<char>)
    ensures
        shell_words(shell_quoted(s)) == Some(seq![s]),
{
    quoted_text_is_read(s, Seq::empty(), None);
    assert(shell_quoted(s) + Seq::<char>::empty() =~= shell_quoted(s));
    assert(Seq::<char>::empty() + s =~= s);
}

/// A shell that meets a quoted text reads the text and goes on behind it.
pub(crate) proof fn quoted_text_is_read(s: Seq<char>, rest: Seq<char>, word: Option<Seq<char>>)
    ensures
        read_words(shell_quoted(s) + rest, false, word) == read_words(
            rest,
            false,
            Some(begun(word) + s),
        ),
{
    let text = shell_quoted(s) + rest;
    assert(text.drop_first() =~= between_quotes(s) + (seq!['\''] + rest));
    quotes_are_read(s, rest, begun(word));
}

/// Inside the quotes, a shell reads the text and then leaves them.
proof fn quotes_are_read(s: Seq<char>, rest: Seq<char>, word: Seq<char>)
    ensures
        read_words(between_quotes(s) + (seq!['\''] + rest), true, Some(word)) == read_words(
            rest,
            false,
            Some(word + s),
        ),
    decreases s.len(),
{
    let text = between_quotes(s) + (seq!['\''] + rest);
    if s.len() == 0 {
        assert(text.drop_first() =~= rest);
        assert(word + s =~= word);
    } else {
        let longer = word.push(s.first());
        quotes_are_read(s.drop_first(), rest, longer);
        let tail = between_quotes(s.drop_first()) + (seq!['\''] + rest);
        assert(longer + s.drop_first() =~= word + s);
        if s.first() == '\'' {
            assert(text =~= seq!['\'', '\\', '\'', '\''] + tail);
            let one = text.drop_first();
            let three = one.skip(2);
            assert(one[0] == '\\' && one[1] == '\'');
            assert(three =~= seq!['\''] + tail);
            assert(three.drop_first() =~= tail);
            assert(read_words(three, false, Some(longer)) == read_words(tail, true, Some(longer)));
            assert(read_words(one, false, Some(word)) == read_words(three, false, Some(longer)));
        } else {
            assert(text =~= seq![s.first()] + tail);
            assert(text.drop_first() =~= tail);
        }
    }
}

/// A shell that meets lower-case letters reads them and goes on behind them.
pub(crate) proof fn letters_are_read(s: Seq<char>, rest: Seq<char>, word: Option<Seq<char>>)
    requires
        s.len() > 0,
        forall|i: int| 0 <= i < s.len() ==> 'a' <= #[trigger] s[i] <= 'z',
    ensures
        read_words(s + rest, false, word) == read_words(rest, false, Some(begun(word) + s)),
    decreases s.len(),
{
    let longer = begun(word).push(s.first());
    assert((s + rest).first() == s[0]);
    assert((s + rest).drop_first() =~= s.drop_first() + rest);
    assert(longer + s.drop_first() =~= begun(word) + s);
    if s.len() > 1 {
        letters_are_read(s.drop_first(), rest, Some(longer));
    } else {
        assert(s.drop_first() + rest =~= rest);
        assert(longer =~= begun(word) + s);
    }
}

// XML.

/// What stands for a character in the text of an XML element.
pub open spec fn xml_form(c: char) -> Seq<char> {
    if c == '&' {
        seq!['&', 'a', 'm', 'p', ';']
    } else if c == '<' {
        seq!['&', 'l', 't', ';']
    } else if c == '>' {
        seq!['&', 'g', 't', ';']
    } else {
        seq![c]
    }
}

/// A text as it stands in an XML element.
pub open spec fn xml_escaped(s: Seq<char>) -> Seq<char>
    decreases s.len(),
{
    if s.len() == 0 {
        s
    } else {
        xml_form(s.first()) + xml_escaped(s.drop_first())
    }
}

/// A text as it stands in an XML element.
pub fn xml_escape(s: &str) -> (r: String)
    ensures
        r@ == xml_escaped(s@),
{
    proof {
        reveal_strlit("&amp;");
        reveal_strlit("&lt;");
        reveal_strlit("&gt;");
    }
    let cs = chars_of(s);
    let mut r = String::new();
    let mut i: usize = 0;
    assert(s@.skip(0) =~= s@);
    assert(r@ + xml_escaped(s@) =~= xml_escaped(s@));
    while i < cs.len()
        invariant
            i <= cs.len(),
            cs@ == s@,
            "&amp;"@ =~= xml_form('&'),
            "&lt;"@ =~= xml_form('<'),
            "&gt;"@ =~= xml_form('>'),
            r@ + xml_escaped(s@.skip(i as int)) == xml_escaped(s@),
        decreases cs.len() - i,
    {
        let ghost before = r@;
        let ghost rest = xml_escaped(s@.skip(i + 1));
        assert(s@.skip(i as int).drop_first() =~= s@.skip(i + 1));
        let c = cs[i];
        if c == '&' {
            r.append("&amp;");
        } else if c == '<' {
            r.append("&lt;");
        } else if c == '>' {
            r.append("&gt;");
        } else {
            r.push(c);
        }
        assert(r@ =~= before + xml_form(c));
        assert(r@ + rest =~= before + (xml_form(c) + rest));
        i += 1;
    }
    assert(r@ + xml_escaped(s@.skip(s@.len() as int)) =~= r@);
    r
}

/// The text that an XML reader finds in an element; nothing where it would find
/// markup or an entity other than the three.
pub open spec fn xml_text(s: Seq<char>) -> Option<Seq<char>>
    decreases s.len(),
{
    if s.len() == 0 {
        Some(s)
    } else if s.len() >= 5 && s.take(5) == xml_form('&') {
        with_first('&', xml_text(s.skip(5)))
    } else if s.len() >= 4 && s.take(4) == xml_form('<') {
        with_first('<', xml_text(s.skip(4)))
    } else if s.len() >= 4 && s.take(4) == xml_form('>') {
        with_first('>', xml_text(s.skip(4)))
    } else if s.first() == '&' || s.first() == '<' || s.first() == '>' {
        None
    } else {
        with_first(s.first(), xml_text(s.drop_first()))
    }
}

/// What an XML reader finds in an element with escaped text is the text: none of
/// it is taken for markup.
pub proof fn escaping_survives_xml(s: Seq<char>)
    ensures
        xml_text(xml_escaped(s)) == Some(s),
    decreases s.len(),
{
    if s.len() > 0 {
        let rest = s.drop_first();
        let tail = xml_escaped(rest);
        let text = xml_escaped(s);
        escaping_survives_xml(rest);
        assert(seq![s.first()] + rest =~= s);
        if s.first() == '&' {
            assert(text.take(5) =~= xml_form('&'));
            assert(text.skip(5) =~= tail);
        } else if s.first() == '<' {
            assert(text.take(4) =~= xml_form('<'));
            assert(text.skip(4) =~= tail);
            assert(text[1] == 'l');
            assert(text.len() >= 5 ==> text.take(5)[1] == 'l');
        } else if s.first() == '>' {
            assert(text.take(4) =~= xml_form('>'));
            assert(text.skip(4) =~= tail);
            assert(text[1] == 'g');
            assert(text.take(4)[1] == 'g');
            assert(text.len() >= 5 ==> text.take(5)[1] == 'g');
        } else {
            assert(text.drop_first() =~= tail);
            assert(text.len() >= 5 ==> text.take(5)[0] == s.first());
            assert(text.len() >= 4 ==> text.take(4)[0] == s.first());
        }
    }
}

} // verus!
