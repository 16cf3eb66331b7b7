//! Strings as sequences of characters: the few operations that the rest of
//! the library builds its texts from.
pub mod laws;

use vstd::prelude::*;

verus! {

/// `String::push` appends one character to the end of the string.
pub assume_specification[ String::push ](s: &mut String, c: char)
    ensures
        final(s)@ == old(s)@.push(c),
;

/// The texts that a list of strings holds.
pub open spec fn texts(list: Seq<String>) -> Seq<Seq<char>> {
    list.map_values(|s: String| s@)
}

/// The character of a decimal digit.
pub open spec fn digit(d: nat) -> char {
    (('0' as u32) + d) as char
}

/// A number written in decimal, without leading zeros.
pub open spec fn decimal_text(n: nat) -> Seq<char>
    decreases n,
{
    if n < 10 {
        seq![digit(n)]
    } else {
        decimal_text(n / 10).push(digit(n % 10))
    }
}

/// Writes a number in decimal.
pub fn decimal(n: u128) -> (text: String)
    ensures
        text@ == decimal_text(n as nat),
    decreases n,
{
    let d: u8 = (n % 10) as u8;
    let c: char = (48u8 + d) as char;
    if n < 10 {
        let mut text = String::new();
        text.push(c);
        assert(text@ =~= decimal_text(n as nat));
        text
    } else {
        let mut text = decimal(n / 10);
        text.push(c);
        text
    }
}

/// `parts` in order, with `sep` between each two neighbours.
pub open spec fn join_text(parts: Seq<Seq<char>>, sep: Seq<char>) -> Seq<char>
    decreases parts.len(),
{
    if parts.len() == 0 {
        Seq::empty()
    } else if parts.len() == 1 {
        parts[0]
    } else {
        join_text(parts.drop_last(), sep) + sep + parts.last()
    }
}

/// Joins strings with a separator.
pub fn join(parts: &Vec<String>, sep: &str) -> (text: String)
    ensures
        text@ == join_text(texts(parts@), sep@),
{
    let ghost all = texts(parts@);
    let mut text = String::new();
    let mut i: usize = 0;
    assert(all.take(0) =~= Seq::<Seq<char>>::empty());
    while i < parts.len()
        invariant
            i <= parts.len(),
            all == texts(parts@),
            text@ == join_text(all.take(i as int), sep@),
        decreases parts.len() - i,
    {
        proof {
            assert(all.take(i + 1).drop_last() =~= all.take(i as int));
            assert(all.take(i + 1).last() == parts[i as int]@);
        }
        if i > 0 {
            text.append(sep);
            text.append(parts[i].as_str());
        } else {
            text.append(parts[i].as_str());
            assert(text@ =~= parts[0]@);
        }
        i += 1;
    }
    assert(all.take(parts.len() as int) =~= all);
    text
}

/// The first `n` characters of `s`, or all of it where it is shorter.
pub open spec fn first_chars(s: Seq<char>, n: nat) -> Seq<char> {
    if s.len() <= n {
        s
    } else {
        s.take(n as int)
    }
}

/// Cuts a string after its first `n` characters.
pub fn take_chars(s: &str, n: usize) -> (text: String)
    ensures
        text@ == first_chars(s@, n as nat),
{
    let len: usize = s.unicode_len();
    if len <= n {
        s.to_owned()
    } else {
        s.substring_char(0, n).to_owned()
    }
}

/// The characters of a string, as a list.
pub fn chars_of(s: &str) -> (chars: Vec<char>)
    ensures
        chars@ == s@,
{
    let mut chars: Vec<char> = Vec::new();
    for c in it: s.chars()
        invariant
            chars@ == it.seq().take(it.index() as int),
            it.seq() == s@,
    {
        chars.push(c);
        assert(it.seq().take(it.index() as int + 1) =~= it.seq().take(it.index() as int).push(c));
    }
    chars
}

/// Whether a character is white space: it has the Unicode property
/// `White_Space`.
pub open spec fn is_space(c: char) -> bool {
    let n = c as u32;
    ||| 0x09 <= n <= 0x0d
    ||| n == 0x20
    ||| n == 0x85
    ||| n == 0xa0
    ||| n == 0x1680
    ||| 0x2000 <= n <= 0x200a
    ||| n == 0x2028
    ||| n == 0x2029
    ||| n == 0x202f
    ||| n == 0x205f
    ||| n == 0x3000
}

/// Decides whether a character is white space.
pub fn is_whitespace(c: char) -> (space: bool)
    ensures
        space == is_space(c),
{
    let n: u32 = c as u32;
    (0x09 <= n && n <= 0x0d) || n == 0x20 || n == 0x85 || n == 0xa0 || n == 0x1680 || (0x2000 <= n
        && n <= 0x200a) || n == 0x2028 || n == 0x2029 || n == 0x202f || n == 0x205f || n == 0x3000
}

/// The words of a text: its longest runs of characters without white space,
/// in order. A character that is not white space goes on with the word before
/// it; after white space, or at the start, it begins a new one.
pub open spec fn words_of(s: Seq<char>) -> Seq<Seq<char>>
    decreases s.len(),
{
    if s.len() == 0 {
        Seq::empty()
    } else {
        let before = words_of(s.drop_last());
        if is_space(s.last()) {
            before
        } else if s.len() == 1 || is_space(s[s.len() - 2]) {
            before.push(seq![s.last()])
        } else {
            before.drop_last().push(before.last().push(s.last()))
        }
    }
}

/// A text that does not end in white space has a last word.
proof fn lemma_open_word(s: Seq<char>)
    requires
        s.len() > 0,
        !is_space(s.last()),
    ensures
        words_of(s).len() > 0,
{
}

/// The words of a text hold no white space, and none is empty.
pub proof fn words_are_solid(s: Seq<char>)
    ensures
        forall|i: int|
            #![trigger words_of(s)[i]]
            0 <= i < words_of(s).len() ==> words_of(s)[i].len() > 0 && forall|j: int|
                0 <= j < words_of(s)[i].len() ==> !is_space(#[trigger] words_of(s)[i][j]),
    decreases s.len(),
{
    if s.len() > 0 {
        words_are_solid(s.drop_last());
        if !is_space(s.last()) && s.len() > 1 && !is_space(s[s.len() - 2]) {
            lemma_open_word(s.drop_last());
            let before = words_of(s.drop_last());
            assert(words_of(s.drop_last())[before.len() - 1].len() > 0);
        }
    }
}

/// Splits a text into its words.
pub fn split_words(s: &str) -> (words: Vec<String>)
    ensures
        texts(words@) == words_of(s@),
{
    let chars = chars_of(s);
    let mut words: Vec<String> = Vec::new();
    let mut word = String::new();
    let mut i: usize = 0;
    assert(s@.take(0) =~= Seq::<char>::empty());
    assert(texts(words@) =~= Seq::<Seq<char>>::empty());
    while i < chars.len()
        invariant
            i <= chars.len(),
            chars@ == s@,
            word@.len() == 0 <==> (i == 0 || is_space(s@[i - 1])),
            word@.len() == 0 ==> texts(words@) == words_of(s@.take(i as int)),
            word@.len() > 0 ==> texts(words@).push(word@) == words_of(s@.take(i as int)),
        decreases chars.len() - i,
    {
        let c: char = chars[i];
        proof {
            assert(s@.take(i + 1).drop_last() =~= s@.take(i as int));
            assert(s@.take(i + 1).last() == c);
        }
        if is_whitespace(c) {
            if !word.as_str().is_empty() {
                let ghost done = texts(words@).push(word@);
                words.push(word);
                assert(texts(words@) =~= done);
                word = String::new();
            }
        } else {
            let ghost before = word@;
            let ghost done = texts(words@);
            word.push(c);
            proof {
                if before.len() == 0 {
                    assert(word@ =~= seq![c]);
                } else {
                    assert(done.push(before).drop_last() =~= done);
                }
            }
        }
        i += 1;
    }
    assert(s@.take(s@.len() as int) =~= s@);
    if !word.as_str().is_empty() {
        let ghost done = texts(words@).push(word@);
        words.push(word);
        assert(texts(words@) =~= done);
    }
    words
}

/// Whether `a` comes before `b` in the order of strings: by the first
/// character in which they differ, the shorter first where one begins the
/// other.
pub open spec fn text_less(a: Seq<char>, b: Seq<char>) -> bool
    decreases b.len(),
{
    if b.len() == 0 {
        false
    } else if a.len() == 0 {
        true
    } else if a[0] != b[0] {
        a[0] < b[0]
    } else {
        text_less(a.drop_first(), b.drop_first())
    }
}

/// No text comes before itself, and of two different texts one comes before
/// the other, but not both.
pub proof fn text_order_is_total(a: Seq<char>, b: Seq<char>)
    ensures
        a == b ==> !text_less(a, b),
        a != b ==> text_less(a, b) != text_less(b, a),
    decreases a.len(),
{
    if a.len() > 0 && b.len() > 0 && a[0] == b[0] {
        text_order_is_total(a.drop_first(), b.drop_first());
        assert(a =~= seq![a[0]] + a.drop_first());
        assert(b =~= seq![b[0]] + b.drop_first());
    } else if a.len() == 0 && b.len() == 0 {
        assert(a =~= b);
    }
}

/// The order of texts is transitive.
pub proof fn text_order_is_transitive(a: Seq<char>, b: Seq<char>, c: Seq<char>)
    requires
        text_less(a, b),
        text_less(b, c),
    ensures
        text_less(a, c),
    decreases a.len(),
{
    if a.len() > 0 && a[0] == b[0] && b[0] == c[0] {
        text_order_is_transitive(a.drop_first(), b.drop_first(), c.drop_first());
    }
}

/// Decides whether `a` comes before `b`.
pub fn less(a: &str, b: &str) -> (res: bool)
    ensures
        res == text_less(a@, b@),
{
    let x = chars_of(a);
    let y = chars_of(b);
    let mut i: usize = 0;
    assert(a@.skip(0) =~= a@);
    assert(b@.skip(0) =~= b@);
    while i < x.len() && i < y.len()
        invariant
            x@ == a@,
            y@ == b@,
            i <= x.len(),
            i <= y.len(),
            text_less(a@, b@) == text_less(a@.skip(i as int), b@.skip(i as int)),
        decreases x.len() - i,
    {
        if x[i] != y[i] {
            return x[i] < y[i];
        }
        proof {
            assert(a@.skip(i as int).drop_first() =~= a@.skip(i + 1));
            assert(b@.skip(i as int).drop_first() =~= b@.skip(i + 1));
        }
        i += 1;
    }
    i < y.len()
}

/// Whether two strings hold the same text.
pub fn same(a: &str, b: &str) -> (res: bool)
    ensures
        res == (a@ == b@),
{
    let x = chars_of(a);
    let y = chars_of(b);
    if x.len() != y.len() {
        return false;
    }
    let mut i: usize = 0;
    while i < x.len()
        invariant
            x@ == a@,
            y@ == b@,
            x.len() == y.len(),
            i <= x.len(),
            forall|j: int| 0 <= j < i ==> a@[j] == b@[j],
        decreases x.len() - i,
    {
        if x[i] != y[i] {
            return false;
        }
        i += 1;
    }
    assert(a@ =~= b@);
    true
}

/// Decides whether a list of strings holds the given text.
pub fn contains_text(list: &Vec<String>, s: &str) -> (res: bool)
    ensures
        res == texts(list@).contains(s@),
{
    let mut i: usize = 0;
    while i < list.len()
        invariant
            i <= list.len(),
            forall|j: int| 0 <= j < i ==> #[trigger] texts(list@)[j] != s@,
        decreases list.len() - i,
    {
        if same(list[i].as_str(), s) {
            assert(texts(list@)[i as int] == s@);
            return true;
        }
        i += 1;
    }
    false
}

/// Whether texts stand in ascending order, none twice.
pub open spec fn ascending(list: Seq<Seq<char>>) -> bool {
    forall|i: int, j: int|
        0 <= i < j < list.len() ==> text_less(#[trigger] list[i], #[trigger] list[j])
}

/// The last of an ascending list is the greatest.
proof fn lemma_last_is_greatest(list: Seq<Seq<char>>, x: Seq<char>)
    requires
        ascending(list),
        list.contains(x),
    ensures
        x == list.last() || text_less(x, list.last()),
{
    let k = choose|k: int| 0 <= k < list.len() && list[k] == x;
    if k < list.len() - 1 {
        assert(text_less(list[k], list[list.len() - 1]));
    }
}

/// Ascending lists of the same texts are equal.
pub proof fn lemma_ascending_unique(a: Seq<Seq<char>>, b: Seq<Seq<char>>)
    requires
        ascending(a),
        ascending(b),
        forall|x: Seq<char>| a.contains(x) <==> b.contains(x),
    ensures
        a == b,
    decreases a.len(),
{
    if a.len() == 0 {
        if b.len() > 0 {
            assert(b.contains(b[0]));
        }
        assert(a =~= b);
    } else {
        assert(a.contains(a[a.len() - 1]));
        lemma_last_is_greatest(b, a.last());
        assert(b.contains(b[b.len() - 1]));
        lemma_last_is_greatest(a, b.last());
        text_order_is_total(a.last(), b.last());
        assert(a.last() == b.last());
        let x = a.drop_last();
        let y = b.drop_last();
        assert(ascending(x)) by {
            assert forall|i: int, j: int| 0 <= i < j < x.len() implies text_less(
                #[trigger] x[i],
                #[trigger] x[j],
            ) by {
                assert(x[i] == a[i] && x[j] == a[j]);
            }
        }
        assert(ascending(y)) by {
            assert forall|i: int, j: int| 0 <= i < j < y.len() implies text_less(
                #[trigger] y[i],
                #[trigger] y[j],
            ) by {
                assert(y[i] == b[i] && y[j] == b[j]);
            }
        }
        assert forall|t: Seq<char>| x.contains(t) <==> y.contains(t) by {
            if x.contains(t) {
                let i = choose|i: int| 0 <= i < x.len() && x[i] == t;
                assert(a[i] == t);
                text_order_is_total(a[i], a[a.len() - 1]);
                assert(a.contains(t));
                let j = choose|j: int| 0 <= j < b.len() && b[j] == t;
                assert(y[j] == t);
            }
            if y.contains(t) {
                let j = choose|j: int| 0 <= j < y.len() && y[j] == t;
                assert(b[j] == t);
                text_order_is_total(b[j], b[b.len() - 1]);
                assert(b.contains(t));
                let i = choose|i: int| 0 <= i < a.len() && a[i] == t;
                assert(x[i] == t);
            }
        }
        lemma_ascending_unique(x, y);
        assert(a =~= x.push(a.last()));
        assert(b =~= y.push(b.last()));
    }
}

/// A text can be put between those that come before it and those that come
/// after it.
proof fn lemma_text_inserted(list: Seq<Seq<char>>, at: int, item: Seq<char>)
    requires
        ascending(list),
        0 <= at <= list.len(),
        forall|j: int| 0 <= j < at ==> text_less(#[trigger] list[j], item),
        at < list.len() ==> !text_less(list[at], item) && list[at] != item,
    ensures
        ascending(list.insert(at, item)),
        forall|x: Seq<char>| #[trigger]
            list.insert(at, item).contains(x) <==> list.contains(x) || x == item,
{
    let after = list.insert(at, item);
    assert forall|j: int| at <= j < list.len() implies text_less(item, #[trigger] list[j]) by {
        text_order_is_total(list[at], item);
        if at < j {
            text_order_is_transitive(item, list[at], list[j]);
        }
    }
    assert forall|i: int, j: int| 0 <= i < j < after.len() implies text_less(
        #[trigger] after[i],
        #[trigger] after[j],
    ) by {
        let x = if i < at { i } else { i - 1 };
        let y = if j < at { j } else { j - 1 };
        if i != at {
            assert(after[i] == list[x]);
        }
        if j != at {
            assert(after[j] == list[y]);
        }
    }
    assert forall|x: Seq<char>| #[trigger] after.contains(x) <==> list.contains(x) || x == item by {
        if after.contains(x) && x != item {
            let k = choose|k: int| 0 <= k < after.len() && after[k] == x;
            assert(list[if k < at { k } else { k - 1 }] == x);
        }
        if x == item {
            assert(after[at] == x);
        } else if list.contains(x) {
            let k = choose|k: int| 0 <= k < list.len() && list[k] == x;
            assert(after[if k < at { k } else { k + 1 }] == x);
        }
    }
}

/// Puts a text into its place in an ascending list, where it is not there
/// yet.
pub fn insert_text(list: &mut Vec<String>, item: String)
    requires
        ascending(texts(old(list)@)),
    ensures
        ascending(texts(final(list)@)),
        forall|x: Seq<char>| #[trigger]
            texts(final(list)@).contains(x) <==> texts(old(list)@).contains(x) || x == item@,
{
    let ghost before = texts(list@);
    let mut at: usize = 0;
    while at < list.len() && less(list[at].as_str(), item.as_str())
        invariant
            texts(list@) == before,
            at <= list.len(),
            forall|j: int| 0 <= j < at ==> text_less(#[trigger] before[j], item@),
        decreases list.len() - at,
    {
        assert(before[at as int] == list[at as int]@);
        at += 1;
    }
    if at < list.len() && same(list[at].as_str(), item.as_str()) {
        assert(before[at as int] == item@);
        return;
    }
    let ghost text = item@;
    list.insert(at, item);
    proof {
        if at < before.len() {
            assert(before[at as int] != text);
        }
        assert(texts(list@) =~= before.insert(at as int, text));
        lemma_text_inserted(before, at as int, text);
    }
}

/// Where a text goes in an ascending list.
proof fn lemma_text_place(list: Seq<Seq<char>>, item: Seq<char>) -> (at: int)
    requires
        ascending(list),
    ensures
        0 <= at <= list.len(),
        forall|j: int| 0 <= j < at ==> text_less(#[trigger] list[j], item),
        at < list.len() ==> !text_less(list[at], item),
    decreases list.len(),
{
    if list.len() == 0 {
        0
    } else if text_less(list.last(), item) {
        assert forall|j: int| 0 <= j < list.len() implies text_less(#[trigger] list[j], item) by {
            if j < list.len() - 1 {
                text_order_is_transitive(list[j], list[list.len() - 1], item);
            }
        }
        list.len() as int
    } else {
        let rest = list.drop_last();
        assert forall|i: int, j: int| 0 <= i < j < rest.len() implies text_less(
            #[trigger] rest[i],
            #[trigger] rest[j],
        ) by {
            assert(rest[i] == list[i] && rest[j] == list[j]);
        }
        let at = lemma_text_place(rest, item);
        assert forall|j: int| 0 <= j < at implies text_less(#[trigger] list[j], item) by {
            assert(list[j] == rest[j]);
        }
        if at < rest.len() {
            assert(list[at] == rest[at]);
        }
        at
    }
}

/// The texts of any list can be put in ascending order, each once.
pub proof fn lemma_ascending_exists(list: Seq<Seq<char>>) -> (sorted: Seq<Seq<char>>)
    ensures
        ascending(sorted),
        forall|x: Seq<char>| #[trigger] sorted.contains(x) <==> list.contains(x),
    decreases list.len(),
{
    if list.len() == 0 {
        list
    } else {
        let rest = list.drop_last();
        let item = list.last();
        let before = lemma_ascending_exists(rest);
        let sorted = if before.contains(item) {
            before
        } else {
            let at = lemma_text_place(before, item);
            if at < before.len() {
                assert(before.contains(before[at]));
            }
            lemma_text_inserted(before, at, item);
            before.insert(at, item)
        };
        assert forall|x: Seq<char>| #[trigger] sorted.contains(x) <==> list.contains(x) by {
            assert(list =~= rest.push(item));
            if rest.contains(x) {
                let k = choose|k: int| 0 <= k < rest.len() && rest[k] == x;
                assert(list[k] == x);
            }
            if list.contains(x) && x != item {
                let k = choose|k: int| 0 <= k < list.len() && list[k] == x;
                assert(rest[k] == x);
            }
            assert(list[list.len() - 1] == item);
            assert(before.contains(x) <==> rest.contains(x));
        }
        sorted
    }
}

} // verus!
