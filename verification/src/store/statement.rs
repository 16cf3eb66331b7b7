//! SQL statements and the values that go with them.
use vstd::prelude::*;

use crate::text::{decimal, decimal_text, join, join_text, texts};

verus! {

/// A SQL statement with the values of its numbered placeholders, in order.
#[derive(Debug)]
pub struct Statement {
    pub sql: String,
    pub params: Vec<String>,
}

/// What a [`Statement`] holds.
#[verifier::ext_equal]
pub struct StatementView {
    pub sql: Seq<char>,
    pub params: Seq<Seq<char>>,
}

impl View for Statement {
    type V = StatementView;

    open spec fn view(&self) -> StatementView {
        StatementView { sql: self.sql@, params: texts(self.params@) }
    }
}

impl Statement {
    /// The statement with the given text and values.
    pub fn new(sql: &str, params: &[&str]) -> (statement: Statement)
        ensures
            statement@.sql == sql@,
            statement@.params == params@.map_values(|param: &str| param@),
    {
        let mut list: Vec<String> = Vec::new();
        let mut i: usize = 0;
        while i < params.len()
            invariant
                i <= params.len(),
                list.len() == i,
                forall|k: int| 0 <= k < i ==> (#[trigger] list@[k])@ == params@[k]@,
            decreases params.len() - i,
        {
            list.push(params[i].to_owned());
            i += 1;
        }
        assert(texts(list@) =~= params@.map_values(|param: &str| param@));
        Statement { sql: sql.to_owned(), params: list }
    }
}

/// `count` numbered placeholders from `start` on, with commas between them.
pub open spec fn placeholder_text(count: nat, start: nat) -> Seq<char> {
    join_text(Seq::new(count, |i: int| "?"@ + decimal_text((start + i) as nat)), ", "@)
}

/// Writes `count` numbered placeholders from `start` on.
pub fn placeholders(count: usize, start: usize) -> (text: String)
    ensures
        text@ == placeholder_text(count as nat, start as nat),
{
    let ghost all = Seq::new(count as nat, |i: int| "?"@ + decimal_text((start + i) as nat));
    let mut parts: Vec<String> = Vec::new();
    let mut i: usize = 0;
    while i < count
        invariant
            i <= count,
            parts.len() == i,
            all == Seq::new(count as nat, |k: int| "?"@ + decimal_text((start + k) as nat)),
            forall|k: int| 0 <= k < i ==> (#[trigger] parts@[k])@ == all[k],
        decreases count - i,
    {
        let number = decimal(start as u128 + i as u128);
        parts.push("?".to_owned().concat(number.as_str()));
        i += 1;
    }
    assert(texts(parts@) =~= all);
    join(&parts, ", ")
}

/// No placeholders are written as nothing, one as its number behind a
/// question mark, and each further one follows behind a comma with the next
/// number.
pub proof fn placeholders_are_numbered_in_order(count: nat, start: nat)
    ensures
        placeholder_text(0, start) == Seq::<char>::empty(),
        placeholder_text(1, start) == "?"@ + decimal_text(start),
        count > 0 ==> placeholder_text(count + 1, start) == placeholder_text(count, start) + ", "@
            + ("?"@ + decimal_text(start + count)),
{
    let write = |i: int| "?"@ + decimal_text((start + i) as nat);
    let marks = Seq::new(count, write);
    assert(Seq::new(count + 1, write).drop_last() =~= marks);
    assert(Seq::new(1, write)[0] == write(0));
}

/// A statement is seen by its text and its values, in order.
pub proof fn statements_are_seen_field_by_field(statement: Statement)
    ensures
        statement@.sql == statement.sql@,
        statement@.params.len() == statement.params@.len(),
        forall|i: int|
            0 <= i < statement.params@.len() ==> #[trigger] statement@.params[i]
                == statement.params@[i]@,
{
}

} // verus!
