//! The wire protocol: how a text frame is read as a mutation or a range query,
//! and how change broadcasts and range responses are written.

use crate::decimal::{
    decimal, is_canonical, law_decimal_of_parsed, law_parse_decimal, parse_u32, parsed_u32,
    push_decimal, unsigned_part,
};
use vstd::prelude::*;
use vstd::string::*;

verus! {

/// What a mutation does to one checkbox.
#[derive(Debug, Clone, Copy, PartialEq, Eq, Structural)]
pub enum ChangeAction {
    Check,
    Uncheck,
}

impl ChangeAction {
    /// The one character that names the action on the wire.
    pub open spec fn wire_char(self) -> char {
        match self {
            ChangeAction::Check => 'c',
            ChangeAction::Uncheck => 'u',
        }
    }

    /// The state the checkbox has once the action is applied.
    pub open spec fn checked(self) -> bool {
        self == ChangeAction::Check
    }

    /// The score under which the store keeps that state.
    pub open spec fn score_value(self) -> u8 {
        if self.checked() {
            1
        } else {
            0
        }
    }

    /// Reads the action that a one-character field names.
    pub fn from_wire(field: &str) -> (r: Option<ChangeAction>)
        ensures
            r == action_of(field@),
    {
        let text = chars_of(field);
        action_from_field(&text)
    }

    /// Writes the action the way the wire names it.
    pub fn to_wire(self) -> (s: String)
        ensures
            s@ == seq![self.wire_char()],
    {
        proof {
            reveal_strlit("c");
            reveal_strlit("u");
        }
        match self {
            ChangeAction::Check => String::from_str("c"),
            ChangeAction::Uncheck => String::from_str("u"),
        }
    }

    /// Whether the action leaves the checkbox checked.
    #[verifier::when_used_as_spec(checked)]
    pub fn is_checked(self) -> (b: bool)
        ensures
            b == self.checked(),
    {
        match self {
            ChangeAction::Check => true,
            ChangeAction::Uncheck => false,
        }
    }

    /// The score to store for the action: 1 for checked, 0 for unchecked.
    #[verifier::when_used_as_spec(score_value)]
    pub fn score(self) -> (s: u8)
        ensures
            s == self.score_value(),
    {
        if self.is_checked() {
            1
        } else {
            0
        }
    }
}

/// The action that a field of a frame names, if it names one.
pub open spec fn action_of(field: Seq<char>) -> Option<ChangeAction> {
    if field == seq!['c'] {
        Some(ChangeAction::Check)
    } else if field == seq!['u'] {
        Some(ChangeAction::Uncheck)
    } else {
        None
    }
}

/// The fields of `text`: the runs of characters between its commas. A text
/// with `n` commas has `n + 1` fields, some of which may be empty.
pub open spec fn fields(text: Seq<char>) -> Seq<Seq<char>>
    decreases text.len(),
{
    if text.len() == 0 {
        seq![Seq::empty()]
    } else {
        let before = fields(text.drop_last());
        if text.last() == ',' {
            before.push(Seq::empty())
        } else {
            before.update(before.len() - 1, before.last().push(text.last()))
        }
    }
}

/// The word that opens a range query.
pub open spec fn get_word() -> Seq<char> {
    seq!['g', 'e', 't']
}

/// Whether `text` begins with the word `get`. Such a frame is read as a range
/// query and as nothing else.
pub open spec fn begins_with_get(text: Seq<char>) -> bool {
    text.len() >= 3 && text.take(3) == get_word()
}

/// The mutation that `text` asks for: at least three characters, exactly two
/// fields, the first an action and the second an index.
pub open spec fn mutation_of(text: Seq<char>) -> Option<(u32, ChangeAction)> {
    let f = fields(text);
    if text.len() >= 3 && f.len() == 2 && action_of(f[0]) is Some && parsed_u32(f[1]) is Some {
        Some((parsed_u32(f[1])->0, action_of(f[0])->0))
    } else {
        None
    }
}

/// The bounds that `text` asks about: at least three characters, exactly three
/// fields, the first the word `get` and the other two numbers. The bounds may
/// come in either order.
pub open spec fn range_query_of(text: Seq<char>) -> Option<(u32, u32)> {
    let f = fields(text);
    if text.len() >= 3 && f.len() == 3 && f[0] == get_word() && parsed_u32(f[1]) is Some
        && parsed_u32(f[2]) is Some {
        Some((parsed_u32(f[1])->0, parsed_u32(f[2])->0))
    } else {
        None
    }
}

/// The text that asks about a range: the word `get`, a comma, the start, a
/// comma, the end.
pub open spec fn range_query_text(start: u32, end: u32) -> Seq<char> {
    get_word() + seq![','] + decimal(start as nat) + seq![','] + decimal(end as nat)
}

/// The text that announces a change: the action, a comma, the index.
pub open spec fn change_text(action: ChangeAction, index: u32) -> Seq<char> {
    seq![action.wire_char(), ','] + decimal(index as nat)
}

/// One entry of a range response: a comma, the index, a colon, the score.
pub open spec fn entry_text(entry: (u32, u8)) -> Seq<char> {
    seq![','] + decimal(entry.0 as nat) + seq![':'] + decimal(entry.1 as nat)
}

/// The text of a range response: the word `get`, then one entry for each pair,
/// in the order given.
pub open spec fn range_response_text(entries: Seq<(u32, u8)>) -> Seq<char>
    decreases entries.len(),
{
    if entries.len() == 0 {
        get_word()
    } else {
        range_response_text(entries.drop_last()) + entry_text(entries.last())
    }
}

/// Whether the text of `entry` occurs somewhere in `text`.
pub open spec fn holds_entry(text: Seq<char>, entry: (u32, u8)) -> bool {
    exists|at: int|
        0 <= at && at + entry_text(entry).len() <= text.len() && #[trigger] text.subrange(
            at,
            at + entry_text(entry).len(),
        ) == entry_text(entry)
}

/// The views of a run of character vectors.
pub open spec fn views(parts: Seq<Vec<char>>) -> Seq<Seq<char>> {
    Seq::new(parts.len(), |i: int| parts[i]@)
}

/// The characters of `s`, in order.
pub fn chars_of(s: &str) -> (text: Vec<char>)
    ensures
        text@ == s@,
{
    let mut text: Vec<char> = Vec::new();
    let it = s.chars();
    for c in iter: it
        invariant
            text@ == iter.seq().take(iter.index() as int),
    {
        text.push(c);
    }
    text
}

fn action_from_field(field: &Vec<char>) -> (r: Option<ChangeAction>)
    ensures
        r == action_of(field@),
{
    if field.len() != 1 {
        None
    } else if field[0] == 'c' {
        assert(field@ =~= seq!['c']);
        Some(ChangeAction::Check)
    } else if field[0] == 'u' {
        assert(field@ =~= seq!['u']);
        Some(ChangeAction::Uncheck)
    } else {
        None
    }
}

fn is_get_word(field: &Vec<char>) -> (b: bool)
    ensures
        b == (field@ == get_word()),
{
    if field.len() == 3 && field[0] == 'g' && field[1] == 'e' && field[2] == 't' {
        assert(field@ =~= get_word());
        true
    } else {
        false
    }
}

/// Cuts `text` at its commas.
pub fn split_fields(text: &Vec<char>) -> (parts: Vec<Vec<char>>)
    ensures
        views(parts@) == fields(text@),
{
    let mut parts: Vec<Vec<char>> = Vec::new();
    let mut current: Vec<char> = Vec::new();
    let mut i: usize = 0;
    while i < text.len()
        invariant
            i <= text.len(),
            views(parts@).push(current@) == fields(text@.take(i as int)),
        decreases text.len() - i,
    {
        let c: char = text[i];
        let ghost before = views(parts@).push(current@);
        assert(text@.take(i + 1).drop_last() =~= text@.take(i as int));
        if c == ',' {
            parts.push(current);
            current = Vec::new();
        } else {
            current.push(c);
            assert(views(parts@).push(current@) =~= before.update(
                before.len() - 1,
                before.last().push(c),
            ));
        }
        i += 1;
    }
    assert(text@.take(i as int) =~= text@);
    parts.push(current);
    parts
}

/// Whether a frame is to be read as a range query.
pub fn is_range_request(text: &Vec<char>) -> (b: bool)
    ensures
        b == begins_with_get(text@),
{
    if text.len() >= 3 && text[0] == 'g' && text[1] == 'e' && text[2] == 't' {
        assert(text@.take(3) =~= get_word());
        true
    } else {
        false
    }
}

/// Reads a mutation from the characters of a frame.
pub fn decode_mutation(text: &Vec<char>) -> (r: Option<(u32, ChangeAction)>)
    ensures
        r == mutation_of(text@),
{
    if text.len() < 3 {
        return None;
    }
    let parts = split_fields(text);
    if parts.len() != 2 {
        return None;
    }
    match (action_from_field(&parts[0]), parse_u32(&parts[1])) {
        (Some(action), Some(index)) => Some((index, action)),
        _ => None,
    }
}

/// Reads a range query from the characters of a frame.
pub fn decode_range_query(text: &Vec<char>) -> (r: Option<(u32, u32)>)
    ensures
        r == range_query_of(text@),
{
    if text.len() < 3 {
        return None;
    }
    let parts = split_fields(text);
    if parts.len() != 3 {
        return None;
    }
    if !is_get_word(&parts[0]) {
        return None;
    }
    match (parse_u32(&parts[1]), parse_u32(&parts[2])) {
        (Some(start), Some(end)) => Some((start, end)),
        _ => None,
    }
}

/// Reads a mutation frame, `c,<index>` or `u,<index>`: the index and the
/// action, or nothing where the frame is not a mutation.
pub fn parse_change_message(msg: &str) -> (r: Option<(u32, ChangeAction)>)
    ensures
        r == mutation_of(msg@),
{
    let text = chars_of(msg);
    decode_mutation(&text)
}

/// Reads a range query frame, `get,<start>,<end>`: the two bounds, or nothing
/// where the frame is not a range query.
pub fn parse_get_message(msg: &str) -> (r: Option<(u32, u32)>)
    ensures
        r == range_query_of(msg@),
{
    let text = chars_of(msg);
    decode_range_query(&text)
}

/// Writes the announcement of a change.
pub fn encode_change(action: ChangeAction, index: u32) -> (s: String)
    ensures
        s@ == change_text(action, index),
{
    let mut out = action.to_wire();
    proof {
        reveal_strlit(",");
    }
    out.append(",");
    push_decimal(&mut out, index);
    out
}

/// Writes the response to a range query from the pairs that the store
/// returned, keeping their order.
pub fn encode_range_response(entries: &Vec<(u32, u8)>) -> (s: String)
    ensures
        s@ == range_response_text(entries@),
{
    proof {
        reveal_strlit("get");
        reveal_strlit(",");
        reveal_strlit(":");
    }
    let mut out = String::from_str("get");
    let mut i: usize = 0;
    while i < entries.len()
        invariant
            i <= entries.len(),
            out@ == range_response_text(entries@.take(i as int)),
            ","@ == seq![','],
            ":"@ == seq![':'],
        decreases entries.len() - i,
    {
        let (index, score) = entries[i];
        out.append(",");
        push_decimal(&mut out, index);
        out.append(":");
        push_decimal(&mut out, score as u32);
        assert(entries@.take(i + 1).drop_last() =~= entries@.take(i as int));
        i += 1;
    }
    assert(entries@.take(i as int) =~= entries@);
    out
}

/// Every text has at least one field.
pub proof fn lemma_fields_nonempty(text: Seq<char>)
    ensures
        fields(text).len() >= 1,
    decreases text.len(),
{
    if text.len() > 0 {
        lemma_fields_nonempty(text.drop_last());
    }
}

/// A text without a comma is its own single field; and a text with a single
/// field is that field.
pub proof fn lemma_single_field(text: Seq<char>)
    ensures
        !text.contains(',') <==> fields(text).len() == 1,
        fields(text).len() == 1 ==> fields(text)[0] == text,
    decreases text.len(),
{
    if text.len() > 0 {
        let front = text.drop_last();
        lemma_single_field(front);
        lemma_fields_nonempty(front);
        if text.last() != ',' && fields(text).len() == 1 {
            assert(fields(text)[0] =~= text);
        }
    }
}

/// A comma and a run without commas add one field: the run.
pub proof fn lemma_fields_append(text: Seq<char>, run: Seq<char>)
    requires
        !run.contains(','),
    ensures
        fields(text + seq![','] + run) == fields(text).push(run),
    decreases run.len(),
{
    let whole = text + seq![','] + run;
    lemma_fields_nonempty(text);
    if run.len() == 0 {
        assert(whole.drop_last() =~= text);
        assert(fields(whole) =~~= fields(text).push(run));
    } else {
        let front = run.drop_last();
        lemma_fields_append(text, front);
        assert(whole.drop_last() =~= text + seq![','] + front);
        assert(fields(whole) =~~= fields(text).push(run));
    }
}

/// The first field of a text is the text up to its first comma.
pub proof fn lemma_first_field_is_prefix(text: Seq<char>)
    ensures
        fields(text)[0].len() <= text.len(),
        fields(text)[0] == text.take(fields(text)[0].len() as int),
    decreases text.len(),
{
    if text.len() > 0 {
        let front = text.drop_last();
        lemma_first_field_is_prefix(front);
        lemma_fields_nonempty(front);
        lemma_single_field(front);
    }
}

/// A text of two fields is the first field, a comma, and the second field.
pub proof fn lemma_two_fields_join(text: Seq<char>)
    requires
        fields(text).len() == 2,
    ensures
        text == fields(text)[0] + seq![','] + fields(text)[1],
    decreases text.len(),
{
    let front = text.drop_last();
    lemma_fields_nonempty(front);
    if text.last() == ',' {
        lemma_single_field(front);
    } else {
        lemma_two_fields_join(front);
        assert(text =~= front.push(text.last()));
    }
}

/// A range response holds the entry of each pair it was written from.
pub proof fn lemma_response_holds_entry(entries: Seq<(u32, u8)>, k: int)
    requires
        0 <= k < entries.len(),
    ensures
        holds_entry(range_response_text(entries), entries[k]),
    decreases entries.len(),
{
    let text = range_response_text(entries);
    let front = range_response_text(entries.drop_last());
    let wanted = entry_text(entries[k]);
    if k == entries.len() - 1 {
        let at = front.len() as int;
        assert(text.subrange(at, at + wanted.len()) =~= wanted);
    } else {
        lemma_response_holds_entry(entries.drop_last(), k);
        let at = choose|at: int|
            0 <= at && at + wanted.len() <= front.len() && #[trigger] front.subrange(
                at,
                at + wanted.len(),
            ) == wanted;
        assert(text.subrange(at, at + wanted.len()) =~= front.subrange(at, at + wanted.len()));
    }
}

/// A numeral holds no comma.
pub proof fn lemma_numeral_holds_no_comma(numeral: Seq<char>)
    requires
        parsed_u32(numeral) is Some,
    ensures
        !numeral.contains(','),
{
    if numeral.contains(',') {
        let i = choose|i: int| 0 <= i < numeral.len() && numeral[i] == ',';
        if numeral[0] == '+' {
            assert(unsigned_part(numeral)[i - 1] == numeral[i]);
        }
    }
}

/// A text is a mutation exactly where it is the character of an action, a
/// comma and a numeral; it then asks for that action on the index that the
/// numeral denotes.
pub proof fn law_mutation_grammar(text: Seq<char>)
    ensures
        mutation_of(text) is Some <==> text.len() >= 2 && action_of(text.take(1)) is Some
            && text[1] == ',' && parsed_u32(text.skip(2)) is Some,
        mutation_of(text) is Some ==> mutation_of(text) == Some(
            (parsed_u32(text.skip(2))->0, action_of(text.take(1))->0),
        ),
{
    if mutation_of(text) is Some {
        lemma_two_fields_join(text);
        assert(text.take(1) =~= fields(text)[0]);
        assert(text.skip(2) =~= fields(text)[1]);
    }
    if text.len() >= 2 && action_of(text.take(1)) is Some && text[1] == ','
        && parsed_u32(text.skip(2)) is Some {
        let head = text.take(1);
        let numeral = text.skip(2);
        lemma_numeral_holds_no_comma(numeral);
        lemma_single_field(head);
        lemma_fields_append(head, numeral);
        assert(text =~= head + seq![','] + numeral);
    }
}

/// Reading the announcement of a change gives back the action and the index
/// that were announced.
pub proof fn law_change_text_decodes(action: ChangeAction, index: u32)
    ensures
        mutation_of(change_text(action, index)) == Some((index, action)),
{
    let head = seq![action.wire_char()];
    let number = decimal(index as nat);
    law_parse_decimal(index);
    lemma_numeral_holds_no_comma(number);
    lemma_single_field(head);
    lemma_fields_append(head, number);
    assert(change_text(action, index) =~= head + seq![','] + number);
}

/// Reading a range query written with the shortest numerals gives back its
/// bounds, whichever of them is the greater.
pub proof fn law_range_query_text_decodes(start: u32, end: u32)
    ensures
        range_query_of(range_query_text(start, end)) == Some((start, end)),
{
    let first = decimal(start as nat);
    let second = decimal(end as nat);
    law_parse_decimal(start);
    law_parse_decimal(end);
    lemma_numeral_holds_no_comma(first);
    lemma_numeral_holds_no_comma(second);
    lemma_single_field(get_word());
    lemma_fields_append(get_word(), first);
    lemma_fields_append(get_word() + seq![','] + first, second);
}

/// A mutation whose index is written without sign or leading zeros is
/// announced in the very words in which it was asked for.
pub proof fn law_canonical_mutation_reencodes(text: Seq<char>, index: u32, action: ChangeAction)
    requires
        mutation_of(text) == Some((index, action)),
        is_canonical(fields(text)[1]),
    ensures
        change_text(action, index) == text,
{
    lemma_two_fields_join(text);
    law_decimal_of_parsed(fields(text)[1]);
}

/// A frame is read in one way only: a range query begins with the word `get`,
/// and no mutation does.
pub proof fn law_frames_are_unambiguous(text: Seq<char>)
    ensures
        range_query_of(text) is Some ==> begins_with_get(text),
        mutation_of(text) is Some ==> !begins_with_get(text),
{
    lemma_first_field_is_prefix(text);
}

} // verus!
