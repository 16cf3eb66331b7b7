//! What the operations on texts do, apart from how they are written.
use vstd::prelude::*;

use crate::text::{
    ascending, chars_of, contains_text, decimal, decimal_text, digit, first_chars, insert_text,
    is_space, is_whitespace, join, join_text, less, same, split_words, take_chars, text_less, texts,
    words_of,
};

verus! {

/// The texts of a list stand in it one for one.
pub proof fn texts_stand_one_for_one(list: Seq<String>)
    ensures
        texts(list).len() == list.len(),
        forall|i: int| 0 <= i < list.len() ==> #[trigger] texts(list)[i] == list[i]@,
{
}

/// The number that decimal digits stand for.
pub open spec fn number_of(digits: Seq<char>) -> nat
    decreases digits.len(),
{
    if digits.len() == 0 {
        0
    } else {
        (10 * number_of(digits.drop_last()) + (digits.last() as u32 - 48)) as nat
    }
}

/// A number written in decimal reads back as itself: it is made of the digits
/// from `0` to `9`, begins with another than `0` unless it is `0` alone, and
/// stands for the number that was written.
pub proof fn decimals_read_back(n: nat)
    ensures
        number_of(decimal_text(n)) == n,
        decimal_text(n).len() > 0,
        forall|i: int|
            0 <= i < decimal_text(n).len() ==> '0' <= #[trigger] decimal_text(n)[i] <= '9',
        n > 0 ==> decimal_text(n)[0] != '0',
        n == 0 ==> decimal_text(n).len() == 1,
    decreases n,
{
    let s = decimal_text(n);
    let d: nat = n % 10;
    assert(digit(d) as u32 == 48 + d);
    if n < 10 {
        assert(s.drop_last() =~= Seq::<char>::empty());
        assert(number_of(Seq::<char>::empty()) == 0);
        assert(s.last() == digit(n));
    } else {
        decimals_read_back(n / 10);
        assert(s.drop_last() =~= decimal_text(n / 10));
        assert(s.last() == digit(d));
        assert forall|i: int| 0 <= i < s.len() implies '0' <= #[trigger] s[i] <= '9' by {
            if i < s.len() - 1 {
                assert(s[i] == decimal_text(n / 10)[i]);
            }
        }
        assert(s[0] == decimal_text(n / 10)[0]);
    }
}

/// Different numbers are written differently.
pub proof fn decimals_differ(a: nat, b: nat)
    ensures
        decimal_text(a) == decimal_text(b) ==> a == b,
{
    decimals_read_back(a);
    decimals_read_back(b);
}

/// No texts join to nothing, one text to itself, and each further text
/// follows behind one more separator.
pub proof fn joining_goes_text_by_text(parts: Seq<Seq<char>>, part: Seq<char>, sep: Seq<char>)
    ensures
        join_text(Seq::empty(), sep) == Seq::<char>::empty(),
        join_text(seq![part], sep) == part,
        parts.len() > 0 ==> join_text(parts.push(part), sep) == join_text(parts, sep) + sep + part,
{
    assert(parts.push(part).drop_last() =~= parts);
}

/// Two lists of texts join to the texts that each joins to, with one more
/// separator between them.
pub proof fn joining_goes_list_by_list(a: Seq<Seq<char>>, b: Seq<Seq<char>>, sep: Seq<char>)
    requires
        a.len() > 0,
        b.len() > 0,
    ensures
        join_text(a + b, sep) == join_text(a, sep) + sep + join_text(b, sep),
    decreases b.len(),
{
    let all = a + b;
    assert(all.drop_last() =~= a + b.drop_last());
    assert(all.last() == b.last());
    if b.len() == 1 {
        assert(all.drop_last() =~= a);
        assert(b[0] == b.last());
    } else {
        joining_goes_list_by_list(a, b.drop_last(), sep);
        assert(join_text(all, sep) =~= join_text(a, sep) + sep + join_text(b, sep));
    }
}

/// The first characters of a text begin it, and there are as many of them as
/// were asked for, or all that it has.
pub proof fn first_chars_begin_a_text(s: Seq<char>, n: nat)
    ensures
        first_chars(s, n).len() == if s.len() <= n {
            s.len()
        } else {
            n
        },
        forall|i: int|
            0 <= i < first_chars(s, n).len() ==> #[trigger] first_chars(s, n)[i] == s[i],
{
}

/// The white space is made of the tabs and line ends of ASCII, its space, the
/// next line, and the spaces and separators of Unicode.
pub proof fn white_space_is_known(c: char)
    ensures
        is_space(c) <==> c == '\t' || c == '\n' || c == '\u{b}' || c == '\u{c}' || c == '\r' || c
            == ' ' || c == '\u{85}' || c == '\u{a0}' || c == '\u{1680}' || ('\u{2000}' <= c && c
            <= '\u{200a}') || c == '\u{2028}' || c == '\u{2029}' || c == '\u{202f}' || c
            == '\u{205f}' || c == '\u{3000}',
{
}

/// White space at its end adds no word to a text, and parts it from what
/// follows: the words of both come one after the other.
pub proof fn white_space_parts_words(a: Seq<char>, space: char, b: Seq<char>)
    requires
        is_space(space),
    ensures
        words_of(a.push(space)) == words_of(a),
        words_of(a.push(space) + b) == words_of(a) + words_of(b),
    decreases b.len(),
{
    let left = a.push(space);
    assert(left.drop_last() =~= a);
    if b.len() == 0 {
        assert(left + b =~= left);
        assert(words_of(a) + words_of(b) =~= words_of(a));
    } else {
        let all = left + b;
        let rest = b.drop_last();
        white_space_parts_words(a, space, rest);
        assert(all.drop_last() =~= left + rest);
        assert(all.last() == b.last());
        if is_space(b.last()) {
        } else if b.len() == 1 {
            assert(all[all.len() - 2] == space);
            assert(words_of(rest) =~= Seq::<Seq<char>>::empty());
            assert(words_of(all) =~= words_of(a) + words_of(b));
        } else {
            assert(all[all.len() - 2] == b[b.len() - 2]);
            if is_space(b[b.len() - 2]) {
                assert(words_of(all) =~= words_of(a) + words_of(b));
            } else {
                assert(rest.last() == b[b.len() - 2]);
                assert(words_of(rest).len() > 0);
                assert((words_of(a) + words_of(rest)).last() == words_of(rest).last());
                assert(words_of(all) =~= words_of(a) + words_of(b));
            }
        }
    }
}

/// A text without white space is one word, and no text has no words.
pub proof fn solid_text_is_one_word(s: Seq<char>)
    requires
        forall|i: int| 0 <= i < s.len() ==> !is_space(#[trigger] s[i]),
    ensures
        s.len() > 0 ==> words_of(s) == seq![s],
        s.len() == 0 ==> words_of(s) == Seq::<Seq<char>>::empty(),
    decreases s.len(),
{
    if s.len() > 0 {
        let rest = s.drop_last();
        assert forall|i: int| 0 <= i < rest.len() implies !is_space(#[trigger] rest[i]) by {
            assert(rest[i] == s[i]);
        }
        solid_text_is_one_word(rest);
        assert(!is_space(s[s.len() - 1]));
        if s.len() == 1 {
            assert(s =~= seq![s.last()]);
            assert(words_of(s) =~= seq![s]);
        } else {
            assert(!is_space(s[s.len() - 2]));
            assert(s =~= rest.push(s.last()));
            assert(words_of(s) =~= seq![s]);
        }
    }
}

/// What two texts have in common at their start does not matter to their
/// order; behind it the lesser character comes first, and the end of a text
/// comes before every character.
pub proof fn texts_are_ordered_by_their_first_difference(
    common: Seq<char>,
    a: Seq<char>,
    b: Seq<char>,
)
    ensures
        text_less(common + a, common + b) == text_less(a, b),
        a.len() == 0 ==> text_less(a, b) == (b.len() > 0),
        b.len() == 0 ==> !text_less(a, b),
        a.len() > 0 && b.len() > 0 && a[0] != b[0] ==> text_less(a, b) == (a[0] < b[0]),
    decreases common.len(),
{
    if common.len() == 0 {
        assert(common + a =~= a);
        assert(common + b =~= b);
    } else {
        texts_are_ordered_by_their_first_difference(common.drop_first(), a, b);
        assert((common + a).drop_first() =~= common.drop_first() + a);
        assert((common + b).drop_first() =~= common.drop_first() + b);
    }
}

/// Texts ascend where each comes before all those behind it.
pub proof fn ascending_texts_come_before_those_behind_them(list: Seq<Seq<char>>, last: Seq<char>)
    ensures
        ascending(Seq::empty()),
        ascending(list.push(last)) <==> ascending(list) && forall|i: int|
            0 <= i < list.len() ==> text_less(#[trigger] list[i], last),
{
    let all = list.push(last);
    if ascending(all) {
        assert forall|i: int, j: int| 0 <= i < j < list.len() implies text_less(
            #[trigger] list[i],
            #[trigger] list[j],
        ) by {
            assert(all[i] == list[i] && all[j] == list[j]);
        }
        assert forall|i: int| 0 <= i < list.len() implies text_less(#[trigger] list[i], last) by {
            assert(all[i] == list[i] && all[list.len() as int] == last);
        }
    }
    if ascending(list) && forall|i: int|
        0 <= i < list.len() ==> text_less(#[trigger] list[i], last) {
        assert forall|i: int, j: int| 0 <= i < j < all.len() implies text_less(
            #[trigger] all[i],
            #[trigger] all[j],
        ) by {
            assert(all[i] == list[i]);
            if j < list.len() {
                assert(all[j] == list[j]);
            }
        }
    }
}

/// What each operation on texts returns.
pub proof fn texts_are_taken_apart_and_put_together(
    n: u128,
    parts: &Vec<String>,
    sep: &str,
    s: &str,
    count: usize,
    c: char,
    text: String,
    chars: Vec<char>,
    words: Vec<String>,
    res: bool,
)
    ensures
        call_ensures(decimal, (n,), text) ==> text@ == decimal_text(n as nat),
        call_ensures(join, (parts, sep), text) ==> text@ == join_text(texts(parts@), sep@),
        call_ensures(take_chars, (s, count), text) ==> text@ == first_chars(s@, count as nat),
        call_ensures(chars_of, (s,), chars) ==> chars@ == s@,
        call_ensures(is_whitespace, (c,), res) ==> res == is_space(c),
        call_ensures(split_words, (s,), words) ==> texts(words@) == words_of(s@),
        call_ensures(contains_text, (parts, s), res) ==> (res <==> exists|i: int|
            0 <= i < parts@.len() && (#[trigger] parts@[i])@ == s@),
{
    if call_ensures(contains_text, (parts, s), res) {
        let all = texts(parts@);
        if all.contains(s@) {
            let i = choose|i: int| 0 <= i < all.len() && all[i] == s@;
            assert(parts@[i]@ == s@);
        }
        if exists|i: int| 0 <= i < parts@.len() && (#[trigger] parts@[i])@ == s@ {
            let i = choose|i: int| 0 <= i < parts@.len() && (#[trigger] parts@[i])@ == s@;
            assert(all[i] == s@);
        }
    }
}

/// Texts are told apart and put in order by their characters.
pub proof fn texts_are_told_apart(a: &str, b: &str, res: bool)
    ensures
        call_ensures(less, (a, b), res) ==> res == text_less(a@, b@),
        call_ensures(same, (a, b), res) ==> res == (a@ == b@),
{
}

/// A text that is put into an ascending list is in it, with all that was, and
/// the list ascends still.
pub proof fn texts_are_put_in_their_places(list: &mut Vec<String>, item: String, x: Seq<char>)
    requires
        call_ensures(insert_text, (list, item), ()),
    ensures
        forall|i: int, j: int|
            0 <= i < j < final(list)@.len() ==> text_less(
                (#[trigger] final(list)@[i])@,
                (#[trigger] final(list)@[j])@,
            ),
        texts(final(list)@).contains(x) <==> texts(old(list)@).contains(x) || x == item@,
{
    let all = texts(final(list)@);
    assert forall|i: int, j: int| 0 <= i < j < final(list)@.len() implies text_less(
        (#[trigger] final(list)@[i])@,
        (#[trigger] final(list)@[j])@,
    ) by {
        assert(all[i] == final(list)@[i]@ && all[j] == final(list)@[j]@);
    }
}

} // verus!
