//! Lists of texts: splitting, joining and sorting.

use vstd::prelude::*;
use vstd::string::*;

use crate::text::{chars_of, comes_first, in_order, same, text_of};

verus! {

/// The texts of a list of strings.
pub open spec fn texts(v: Seq<String>) -> Seq<Seq<char>> {
    v.map_values(|s: String| s@)
}

/// The parts of a text between the separators; one part where there is none.
pub open spec fn split(s: Seq<char>, sep: char) -> Seq<Seq<char>>
    decreases s.len(),
{
    if s.len() == 0 {
        seq![Seq::empty()]
    } else {
        let before = split(s.drop_last(), sep);
        if s.last() == sep {
            before.push(Seq::empty())
        } else {
            before.drop_last().push(before.last().push(s.last()))
        }
    }
}

/// The texts one after the other, with a separator between each two.
pub open spec fn joined(parts: Seq<Seq<char>>, sep: Seq<char>) -> Seq<char>
    decreases parts.len(),
{
    if parts.len() == 0 {
        Seq::empty()
    } else if parts.len() == 1 {
        parts.first()
    } else {
        joined(parts.drop_last(), sep) + sep + parts.last()
    }
}

/// A text splits into at least one part.
pub proof fn split_is_not_empty(s: Seq<char>, sep: char)
    ensures
        split(s, sep).len() > 0,
    decreases s.len(),
{
    if s.len() > 0 {
        split_is_not_empty(s.drop_last(), sep);
    }
}

/// The parts of a text between the separators.
pub fn split_text(s: &str, sep: char) -> (r: Vec<String>)
    ensures
        texts(r@) == split(s@, sep),
{
    let cs = chars_of(s);
    let mut done: Vec<String> = Vec::new();
    let mut open: Vec<char> = Vec::new();
    let mut i: usize = 0;
    assert(cs@.take(0) =~= Seq::<char>::empty());
    assert(texts(done@).push(open@) =~= seq![Seq::<char>::empty()]);
    while i < cs.len()
        invariant
            i <= cs.len(),
            cs@ == s@,
            texts(done@).push(open@) == split(s@.take(i as int), sep),
        decreases cs.len() - i,
    {
        let ghost before = texts(done@).push(open@);
        assert(s@.take(i + 1).drop_last() =~= s@.take(i as int));
        if cs[i] == sep {
            let part = text_of(&open);
            done.push(part);
            assert(texts(done@) =~= before);
            open = Vec::new();
            assert(texts(done@).push(open@) =~= before.push(Seq::empty()));
        } else {
            assert(before.drop_last() =~= texts(done@));
            open.push(cs[i]);
        }
        i += 1;
    }
    assert(s@.take(s@.len() as int) =~= s@);
    let part = text_of(&open);
    let ghost parts = texts(done@);
    done.push(part);
    assert(texts(done@) =~= parts.push(open@));
    done
}

/// The texts one after the other, with a separator between each two.
pub fn join_texts(parts: &Vec<String>, sep: &str) -> (r: String)
    ensures
        r@ == joined(texts(parts@), sep@),
{
    let mut r = String::new();
    let mut i: usize = 0;
    assert(texts(parts@).take(0) =~= Seq::<Seq<char>>::empty());
    while i < parts.len()
        invariant
            i <= parts.len(),
            r@ == joined(texts(parts@).take(i as int), sep@),
        decreases parts.len() - i,
    {
        assert(texts(parts@).take(i + 1).drop_last() =~= texts(parts@).take(i as int));
        if i > 0 {
            r.append(sep);
        }
        let ghost so_far = r@;
        r.append(parts[i].as_str());
        assert(i == 0 ==> so_far + parts@[0]@ =~= parts@[0]@);
        i += 1;
    }
    assert(texts(parts@).take(parts@.len() as int) =~= texts(parts@));
    r
}

/// Whether a text is one of a list.
pub fn has_text(list: &Vec<String>, s: &str) -> (r: bool)
    ensures
        r == texts(list@).contains(s@),
{
    let mut i: usize = 0;
    while i < list.len()
        invariant
            i <= list.len(),
            forall|j: int| 0 <= j < i ==> #[trigger] texts(list@)[j] != s@,
        decreases list.len() - i,
    {
        if same(list[i].as_str(), s) {
            assert(texts(list@)[i as int] == s@);
            return true;
        }
        assert(texts(list@)[i as int] != s@);
        i += 1;
    }
    false
}

/// Splitting undoes joining, where there is something to join and no part
/// holds the separator.
pub proof fn splitting_undoes_joining(parts: Seq<Seq<char>>, sep: char)
    requires
        parts.len() > 0,
        forall|i: int| 0 <= i < parts.len() ==> !(#[trigger] parts[i]).contains(sep),
    ensures
        split(joined(parts, seq![sep]), sep) == parts,
    decreases parts.len(),
{
    if parts.len() == 1 {
        split_without_separator(Seq::empty(), parts[0], sep);
        assert(Seq::<char>::empty() + parts[0] =~= parts[0]);
        assert(split(Seq::<char>::empty(), sep) =~= seq![Seq::<char>::empty()]);
        assert(split(parts[0], sep) =~= parts);
    } else {
        let front = parts.drop_last();
        splitting_undoes_joining(front, sep);
        let head = joined(front, seq![sep]) + seq![sep];
        assert(head.drop_last() =~= joined(front, seq![sep]));
        assert(split(head, sep) == front.push(Seq::empty()));
        split_without_separator(head, parts.last(), sep);
        assert(split(head + parts.last(), sep) =~= parts);
    }
}

/// Text without a separator goes to the last part.
proof fn split_without_separator(head: Seq<char>, tail: Seq<char>, sep: char)
    requires
        !tail.contains(sep),
    ensures
        split(head + tail, sep) == split(head, sep).drop_last().push(
            split(head, sep).last() + tail,
        ),
    decreases tail.len(),
{
    split_is_not_empty(head, sep);
    if tail.len() == 0 {
        assert(head + tail =~= head);
        assert(split(head, sep).last() + tail =~= split(head, sep).last());
        assert(split(head, sep).drop_last().push(split(head, sep).last()) =~= split(head, sep));
    } else {
        let front = tail.drop_last();
        assert forall|c: char| front.contains(c) implies tail.contains(c) by {
            let i = front.index_of(c);
            assert(tail[i] == c);
        }
        split_without_separator(head, front, sep);
        assert((head + tail).drop_last() =~= head + front);
        assert(tail.last() == tail[tail.len() - 1]);
        assert(tail.contains(tail.last()));
        let before = split(head + front, sep);
        assert(before.drop_last() =~= split(head, sep).drop_last());
        assert((split(head, sep).last() + front).push(tail.last()) =~= split(head, sep).last()
            + tail);
    }
}

// Sorting.

/// Whether each text of a list is in order with all that follow.
pub open spec fn is_sorted(list: Seq<Seq<char>>) -> bool {
    forall|i: int, j: int| 0 <= i < j < list.len() ==> in_order(#[trigger] list[i], #[trigger] list[j])
}

/// Of two texts that are not in order, the second comes first.
pub proof fn order_is_total(a: Seq<char>, b: Seq<char>)
    ensures
        in_order(a, b) || in_order(b, a),
    decreases a.len(),
{
    if a.len() > 0 && b.len() > 0 && a.first() == b.first() {
        order_is_total(a.drop_first(), b.drop_first());
    }
}

/// Order carries over from one text to the next.
pub proof fn order_is_transitive(a: Seq<char>, b: Seq<char>, c: Seq<char>)
    requires
        in_order(a, b),
        in_order(b, c),
    ensures
        in_order(a, c),
    decreases a.len(),
{
    if a.len() > 0 && a.first() == b.first() && b.first() == c.first() {
        order_is_transitive(a.drop_first(), b.drop_first(), c.drop_first());
    }
}

/// The same texts in order.
pub fn sort_texts(list: Vec<String>) -> (r: Vec<String>)
    ensures
        is_sorted(texts(r@)),
        texts(r@).to_multiset() == texts(list@).to_multiset(),
{
    let mut out: Vec<String> = Vec::new();
    let ghost all = texts(list@);
    let mut n: usize = 0;
    assert(all.take(0) =~= texts(out@));
    while n < list.len()
        invariant
            n <= list.len(),
            all == texts(list@),
            is_sorted(texts(out@)),
            out@.len() == n,
            texts(out@).to_multiset() == all.take(n as int).to_multiset(),
        decreases list.len() - n,
    {
        let item = list[n].clone();
        let mut at: usize = 0;
        while at < out.len() && comes_first(out[at].as_str(), item.as_str())
            invariant
                at <= out.len(),
                forall|i: int| 0 <= i < at ==> in_order(#[trigger] texts(out@)[i], item@),
            ensures
                at <= out.len(),
                forall|i: int| 0 <= i < at ==> in_order(#[trigger] texts(out@)[i], item@),
                at < out.len() ==> !in_order(texts(out@)[at as int], item@),
            decreases out.len() - at,
        {
            at += 1;
        }
        let ghost before = texts(out@);
        out.insert(at, item);
        proof {
            let after = texts(out@);
            assert(after =~= before.insert(at as int, item@));
            before.insert_ensures(at as int, item@);
            vstd::seq_lib::to_multiset_insert(before, at as int, item@);
            assert(all.take(n + 1) =~= all.take(n as int).push(all[n as int]));
            all.take(n as int).to_multiset_ensures();
            assert(all[n as int] == item@);
            assert forall|i: int, j: int| 0 <= i < j < after.len() implies in_order(
                #[trigger] after[i],
                #[trigger] after[j],
            ) by {
                if at < before.len() {
                    order_is_total(before[at as int], item@);
                }
                if i == at {
                    if j > at + 1 {
                        order_is_transitive(item@, before[at as int], before[j - 1]);
                    }
                } else if i < at && j > at {
                    assert(in_order(before[i], before[j - 1]));
                } else if i > at {
                    assert(in_order(before[i - 1], before[j - 1]));
                }
            }
        }
        n += 1;
    }
    assert(all.take(list@.len() as int) =~= all);
    out
}

// What holds of splitting and joining.

/// The parts of a text hold no separator.
pub proof fn parts_hold_no_separator(s: Seq<char>, sep: char)
    ensures
        forall|i: int| 0 <= i < split(s, sep).len() ==> !(#[trigger] split(s, sep)[i]).contains(sep),
    decreases s.len(),
{
    if s.len() > 0 {
        let before = split(s.drop_last(), sep);
        parts_hold_no_separator(s.drop_last(), sep);
        split_is_not_empty(s.drop_last(), sep);
        assert forall|i: int| 0 <= i < split(s, sep).len() implies !(#[trigger] split(
            s,
            sep,
        )[i]).contains(sep) by {
            if s.last() != sep && i == before.len() - 1 {
                assert(!before.last().contains(sep));
                let part = before.last().push(s.last());
                assert(split(s, sep)[i] == part);
                assert forall|j: int| 0 <= j < part.len() implies part[j] != sep by {
                    if j < before.last().len() {
                        assert(before.last().contains(before.last()[j]));
                    }
                }
            } else if i < before.len() {
                assert(split(s, sep)[i] == before[i]);
            }
        }
    }
}

/// Joining undoes splitting.
pub proof fn joining_undoes_splitting(s: Seq<char>, sep: char)
    ensures
        joined(split(s, sep), seq![sep]) == s,
    decreases s.len(),
{
    let parts = split(s, sep);
    if s.len() == 0 {
        assert(parts.first() =~= s);
    } else {
        let before = split(s.drop_last(), sep);
        joining_undoes_splitting(s.drop_last(), sep);
        split_is_not_empty(s.drop_last(), sep);
        assert(s.drop_last().push(s.last()) =~= s);
        if s.last() == sep {
            assert(parts.drop_last() =~= before);
            assert(joined(parts, seq![sep]) =~= s);
        } else if before.len() == 1 {
            assert(joined(parts, seq![sep]) =~= s);
        } else {
            assert(parts.drop_last() =~= before.drop_last());
            assert(joined(parts, seq![sep]) =~= s);
        }
    }
}

/// Joining two lists gives the two joined texts with the separator between them,
/// and a single text stays as it is.
pub proof fn joined_lists_follow(a: Seq<Seq<char>>, b: Seq<Seq<char>>, sep: Seq<char>)
    ensures
        a.len() > 0 && b.len() > 0 ==> joined(a + b, sep) == joined(a, sep) + sep + joined(b, sep),
        a.len() == 1 ==> joined(a, sep) == a[0],
        a.len() == 0 ==> joined(a, sep).len() == 0,
    decreases b.len(),
{
    if a.len() > 0 && b.len() > 0 {
        assert((a + b).drop_last() =~= a + b.drop_last());
        assert((a + b).last() == b.last());
        if b.len() == 1 {
            assert(a + b.drop_last() =~= a);
        } else {
            joined_lists_follow(a, b.drop_last(), sep);
            assert(joined(a + b, sep) =~= joined(a, sep) + sep + joined(b, sep));
        }
    }
}

/// A text of two with a separator between them splits into the parts of the one and
/// then those of the other; and a text without a separator is its own only part.
pub proof fn split_texts_follow(a: Seq<char>, b: Seq<char>, sep: char)
    ensures
        split(a + seq![sep] + b, sep) == split(a, sep) + split(b, sep),
        !a.contains(sep) ==> split(a, sep) == seq![a],
    decreases b.len(),
{
    let s = a + seq![sep] + b;
    split_is_not_empty(a, sep);
    split_is_not_empty(b, sep);
    if b.len() == 0 {
        assert(s.drop_last() =~= a);
        assert(s.last() == sep);
        assert(split(s, sep) =~= split(a, sep) + split(b, sep));
    } else {
        let front = b.drop_last();
        split_texts_follow(a, front, sep);
        split_is_not_empty(front, sep);
        assert(s.drop_last() =~= a + seq![sep] + front);
        assert(s.last() == b.last());
        assert(split(s, sep) =~= split(a, sep) + split(b, sep));
    }
    if !a.contains(sep) {
        split_without_separator(Seq::empty(), a, sep);
        assert(Seq::<char>::empty() + a =~= a);
        assert(split(Seq::<char>::empty(), sep) =~= seq![Seq::<char>::empty()]);
        assert(split(a, sep) =~= seq![a]);
    }
}

} // verus!
