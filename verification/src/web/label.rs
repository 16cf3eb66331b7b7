//! Labels of the nodes of a graph.
use vstd::prelude::*;

use crate::seqs::lemma_filter_take;
use crate::text::{
    chars_of, first_chars, join, join_text, same, split_words, take_chars, texts, words_of,
};

verus! {

/// How many words of a title stand on one line of its label.
pub const MAX_WORDS_PER_LINE: usize = 4;

/// A character as it stands in a label.
pub open spec fn escaped_char(c: char) -> Seq<char> {
    if c == '\\' {
        seq!['\\', '\\']
    } else if c == '"' {
        seq!['\\', '"']
    } else if c == '\n' {
        seq![' ']
    } else {
        seq![c]
    }
}

/// A text as it stands in a label: backslashes and double quotes behind a
/// backslash, line ends as spaces.
pub open spec fn escaped(s: Seq<char>) -> Seq<char>
    decreases s.len(),
{
    if s.len() == 0 {
        Seq::empty()
    } else {
        escaped(s.drop_last()) + escaped_char(s.last())
    }
}

/// Writes a text as it stands in a label.
pub fn escape_label(text: &str) -> (label: String)
    ensures
        label@ == escaped(text@),
{
    let chars = chars_of(text);
    let mut label = String::new();
    let mut i: usize = 0;
    assert(text@.take(0) =~= Seq::<char>::empty());
    while i < chars.len()
        invariant
            i <= chars.len(),
            chars@ == text@,
            label@ == escaped(text@.take(i as int)),
        decreases chars.len() - i,
    {
        let c: char = chars[i];
        let ghost before = label@;
        if c == '\\' {
            label.push('\\');
            label.push('\\');
        } else if c == '"' {
            label.push('\\');
            label.push('"');
        } else if c == '\n' {
            label.push(' ');
        } else {
            label.push(c);
        }
        proof {
            assert(label@ =~= before + escaped_char(c));
            assert(text@.take(i + 1).drop_last() =~= text@.take(i as int));
        }
        i += 1;
    }
    assert(text@.take(text@.len() as int) =~= text@);
    label
}

/// The parts of a label that are shown: those that are not empty.
pub open spec fn shown_parts(parts: Seq<Seq<char>>) -> Seq<Seq<char>> {
    parts.filter(|part: Seq<char>| part.len() > 0)
}

/// A label made of several parts: those that are not empty, escaped, with
/// bars between them.
pub open spec fn label_text(parts: Seq<Seq<char>>) -> Seq<char> {
    join_text(shown_parts(parts).map_values(|part: Seq<char>| escaped(part)), " | "@)
}

/// Writes a label made of several parts.
pub fn label(parts: Vec<String>) -> (text: String)
    ensures
        text@ == label_text(texts(parts@)),
{
    let ghost all = texts(parts@);
    let ghost nonempty = |part: Seq<char>| part.len() > 0;
    let ghost write = |part: Seq<char>| escaped(part);
    let mut shown: Vec<String> = Vec::new();
    let mut i: usize = 0;
    proof {
        reveal(Seq::filter);
        assert(texts(shown@) =~= all.take(0).filter(nonempty).map_values(write));
    }
    while i < parts.len()
        invariant
            i <= parts.len(),
            all == texts(parts@),
            nonempty == (|part: Seq<char>| part.len() > 0),
            write == (|part: Seq<char>| escaped(part)),
            texts(shown@) == all.take(i as int).filter(nonempty).map_values(write),
        decreases parts.len() - i,
    {
        proof {
            lemma_filter_take(all, nonempty, i as int);
        }
        let ghost kept = all.take(i as int).filter(nonempty);
        let ghost before = texts(shown@);
        if !parts[i].as_str().is_empty() {
            let part = escape_label(parts[i].as_str());
            shown.push(part);
            assert(texts(shown@) =~= before.push(part@));
            assert(kept.push(all[i as int]).map_values(write) =~= kept.map_values(write).push(
                part@,
            ));
        }
        i += 1;
    }
    assert(all.take(all.len() as int) =~= all);
    join(&shown, " | ")
}

/// The name of a node: its kind and the first characters of its entity's id.
pub open spec fn node_name(kind: Seq<char>, entity_id: Seq<char>) -> Seq<char> {
    kind + "_"@ + first_chars(entity_id, 12)
}

/// Names a node.
pub fn node_id(kind: &str, entity_id: &str) -> (name: String)
    ensures
        name@ == node_name(kind@, entity_id@),
{
    let short = take_chars(entity_id, 12);
    kind.to_owned().concat("_").concat(short.as_str())
}

/// `words` cut into runs of `MAX_WORDS_PER_LINE`; the last may be shorter.
pub open spec fn word_lines(words: Seq<Seq<char>>) -> Seq<Seq<Seq<char>>> {
    Seq::new(
        ((words.len() + MAX_WORDS_PER_LINE - 1) / MAX_WORDS_PER_LINE as int) as nat,
        |i: int|
            words.subrange(
                MAX_WORDS_PER_LINE * i,
                if MAX_WORDS_PER_LINE * i + MAX_WORDS_PER_LINE <= words.len() {
                    MAX_WORDS_PER_LINE * i + MAX_WORDS_PER_LINE
                } else {
                    words.len() as int
                },
            ),
    )
}

/// A title as its label shows it: unchanged where it has few words, and with
/// line breaks between its runs of words otherwise.
pub open spec fn wrapped(title: Seq<char>) -> Seq<char> {
    if words_of(title).len() <= MAX_WORDS_PER_LINE {
        title
    } else {
        join_text(
            word_lines(words_of(title)).map_values(|line: Seq<Seq<char>>| join_text(line, " "@)),
            "<br/>"@,
        )
    }
}

/// Wraps a title for its label.
pub fn wrapped_title(title: &str) -> (text: String)
    ensures
        text@ == wrapped(title@),
{
    let words = split_words(title);
    if words.len() <= MAX_WORDS_PER_LINE {
        return title.to_owned();
    }
    let ghost all = words_of(title@);
    let ghost runs = word_lines(all);
    let ghost spaced = |line: Seq<Seq<char>>| join_text(line, " "@);
    let mut lines: Vec<String> = Vec::new();
    let mut from: usize = 0;
    while from < words.len()
        invariant
            texts(words@) == all,
            runs == word_lines(all),
            spaced == (|line: Seq<Seq<char>>| join_text(line, " "@)),
            from == MAX_WORDS_PER_LINE * lines.len() || from == words.len(),
            lines.len() <= runs.len(),
            from == words.len() <==> lines.len() == runs.len(),
            forall|k: int| 0 <= k < lines.len() ==> (#[trigger] lines@[k])@ == spaced(runs[k]),
        decreases words.len() - from,
    {
        let to: usize = if words.len() - from <= MAX_WORDS_PER_LINE {
            words.len()
        } else {
            from + MAX_WORDS_PER_LINE
        };
        let mut run: Vec<String> = Vec::new();
        let mut i: usize = from;
        while i < to
            invariant
                from <= i <= to <= words.len(),
                texts(words@) == all,
                texts(run@) == all.subrange(from as int, i as int),
            decreases to - i,
        {
            let ghost before = texts(run@);
            run.push(words[i].clone());
            proof {
                assert(texts(run@) =~= before.push(all[i as int]));
                assert(all.subrange(from as int, i + 1) =~= before.push(all[i as int]));
            }
            i += 1;
        }
        assert(runs[lines.len() as int] =~= all.subrange(from as int, to as int));
        let line = join(&run, " ");
        lines.push(line);
        from = to;
    }
    assert(texts(lines@) =~= runs.map_values(spaced));
    join(&lines, "<br/>")
}

/// The style class of a task's node.
pub open spec fn status_class(status: Seq<char>) -> Seq<char> {
    if status == "active"@ {
        "active"@
    } else if status == "in-progress"@ {
        "progress"@
    } else if status == "done"@ || status == "completed"@ {
        "done"@
    } else if status == "cancelled"@ {
        "cancelled"@
    } else {
        "open"@
    }
}

/// Chooses the style class of a task's node by its status; one that is not
/// known is drawn as open.
pub fn mermaid_class_for_status(status: &str) -> (class: &'static str)
    ensures
        class@ == status_class(status@),
{
    if same(status, "active") {
        "active"
    } else if same(status, "in-progress") {
        "progress"
    } else if same(status, "done") || same(status, "completed") {
        "done"
    } else if same(status, "cancelled") {
        "cancelled"
    } else {
        "open"
    }
}

} // verus!
