//! Parser for one record of raw playback state: a brace-wrapped list of
//! `key = value` fragments separated by `;`.

use crate::raw_snapshot::RawSnapshot;
use crate::text::{
    find_char, first_index, leading, lemma_leading_is, lemma_leading_run, lemma_trailing_is,
    lemma_trailing_run, skip_leading, skip_trailing, split, to_chars, trailing, trim,
    trim_end_matches, trim_matches, trim_start_matches, trim_str, CharClass,
};
use vstd::prelude::*;

verus! {

/// Why a record could not be read.
#[derive(Debug)]
pub enum ParsingError {
    /// The record is not wrapped in exactly one pair of braces.
    UnmatchedBraces,
    /// The fragment carried here holds no `=`.
    MalformedKeyValue(String),
    /// The value carried here cannot be read as what its key calls for.
    MalformedValue(String),
}

/// What a `ParsingError` says, with the texts it carries as character sequences.
pub enum ParsingErrorView {
    UnmatchedBraces,
    MalformedKeyValue(Seq<char>),
    MalformedValue(Seq<char>),
}

impl View for ParsingError {
    type V = ParsingErrorView;

    open spec fn view(&self) -> ParsingErrorView {
        match self {
            ParsingError::UnmatchedBraces => ParsingErrorView::UnmatchedBraces,
            ParsingError::MalformedKeyValue(fragment) => ParsingErrorView::MalformedKeyValue(
                fragment@,
            ),
            ParsingError::MalformedValue(value) => ParsingErrorView::MalformedValue(value@),
        }
    }
}

/// Whether `s` is a `{`, a body and a `}`, where the body neither starts with
/// another `{` nor ends with another `}`.
pub open spec fn is_wrapped_once(s: Seq<char>) -> bool {
    &&& s.len() >= 2
    &&& s.first() == '{'
    &&& s.last() == '}'
    &&& s.len() > 2 ==> s[1] != '{' && s[s.len() - 2] != '}'
}

/// `s` without its first and its last character.
pub open spec fn unwrapped(s: Seq<char>) -> Seq<char> {
    s.subrange(1, s.len() - 1)
}

/// `s` without the line feeds at both ends.
pub open spec fn trim_newlines(s: Seq<char>) -> Seq<char> {
    trim_matches(s, CharClass::Only('\n'))
}

/// The function that `fragments` applies to each piece.
pub open spec fn newline_trimmer() -> spec_fn(Seq<char>) -> Seq<char> {
    |piece: Seq<char>| trim_newlines(piece)
}

/// The test that `fragments` keeps a piece by.
pub open spec fn is_nonempty() -> spec_fn(Seq<char>) -> bool {
    |piece: Seq<char>| piece.len() > 0
}

/// Each piece without the line feeds at its ends, the empty results left out.
pub open spec fn kept(pieces: Seq<Seq<char>>) -> Seq<Seq<char>> {
    pieces.map_values(newline_trimmer()).filter(is_nonempty())
}

/// The fragments of a body: its pieces between `;`, each without the line feeds
/// at its ends, the empty ones left out.
pub open spec fn fragments(body: Seq<char>) -> Seq<Seq<char>> {
    kept(split(body, ';'))
}

/// The character sequences of a list of texts.
pub open spec fn texts(list: Seq<&str>) -> Seq<Seq<char>> {
    list.map_values(|text: &str| text@)
}

/// Whether a fragment holds a `=`.
pub open spec fn is_key_value(fragment: Seq<char>) -> bool {
    first_index(fragment, '=') < fragment.len()
}

/// What stands before the first `=` of a fragment, without the white space at
/// its ends.
pub open spec fn key_of(fragment: Seq<char>) -> Seq<char> {
    trim(fragment.take(first_index(fragment, '=') as int))
}

/// What stands after the first `=` of a fragment, as it is.
pub open spec fn remainder_of(fragment: Seq<char>) -> Seq<char> {
    fragment.skip(first_index(fragment, '=') as int + 1)
}

/// `s` without one `"` at its start, if it starts with one, and then without one
/// `"` at its end, if it still ends with one.
pub open spec fn unquoted(s: Seq<char>) -> Seq<char> {
    let opened = if s.len() > 0 && s.first() == '"' {
        s.drop_first()
    } else {
        s
    };
    if opened.len() > 0 && opened.last() == '"' {
        opened.drop_last()
    } else {
        opened
    }
}

/// The value that a raw text stands for: the text without the white space at its
/// ends and without at most one quote at each end.
pub open spec fn value_of(raw: Seq<char>) -> Seq<char> {
    unquoted(trim(raw))
}

/// The key and the value of a fragment that holds a `=`.
pub open spec fn key_value_of(fragment: Seq<char>) -> (Seq<char>, Seq<char>) {
    (key_of(fragment), value_of(remainder_of(fragment)))
}

/// Cuts the braces off a record.
///
/// Succeeds exactly on a record wrapped in one pair of braces, with what stands
/// between them.
pub fn parse_braces(input: &str) -> (result: Result<&str, ParsingError>)
    ensures
        match result {
            Ok(body) => is_wrapped_once(input@) && body@ == unwrapped(input@),
            Err(e) => !is_wrapped_once(input@) && e@ == ParsingErrorView::UnmatchedBraces,
        },
{
    let chars = to_chars(input);
    let n = chars.len();
    if n < 2 || chars[0] != '{' || chars[n - 1] != '}' {
        return Err(ParsingError::UnmatchedBraces);
    }
    if n > 2 && (chars[1] == '{' || chars[n - 2] == '}') {
        return Err(ParsingError::UnmatchedBraces);
    }
    Ok(input.substring_char(1, n - 1))
}

/// Cuts a fragment at its first `=` into the key, without the white space at its
/// ends, and what follows the `=`.
///
/// Fails exactly on a fragment without `=`, with that fragment.
pub fn parse_key(input: &str) -> (result: Result<(&str, &str), ParsingError>)
    ensures
        match result {
            Ok((key, remainder)) => {
                &&& is_key_value(input@)
                &&& key@ == key_of(input@)
                &&& remainder@ == remainder_of(input@)
            },
            Err(e) => !is_key_value(input@) && e@ == ParsingErrorView::MalformedKeyValue(input@),
        },
{
    let chars = to_chars(input);
    let n = chars.len();
    let at = find_char(&chars, 0, n, '=');
    assert(chars@.subrange(0, n as int) =~= input@);
    if at == n {
        return Err(ParsingError::MalformedKeyValue(input.to_owned()));
    }
    let key = trim_str(input.substring_char(0, at));
    let remainder = input.substring_char(at + 1, n);
    proof {
        assert(input@.subrange(0, at as int) =~= input@.take(at as int));
        assert(remainder@ =~= remainder_of(input@));
    }
    Ok((key, remainder))
}

/// Reads a raw value: drops the white space at its ends, then at most one quote
/// at each end. Never fails.
pub fn parse_value(input: &str) -> (result: Result<&str, ParsingError>)
    ensures
        result matches Ok(value) && value@ == value_of(input@),
{
    let trimmed = trim_str(input);
    let chars = to_chars(trimmed);
    let n = chars.len();
    let open: usize = if 0 < n && chars[0] == '"' {
        1
    } else {
        0
    };
    let close = if open < n && chars[n - 1] == '"' {
        n - 1
    } else {
        n
    };
    let value = trimmed.substring_char(open, close);
    proof {
        let opened = if trimmed@.len() > 0 && trimmed@.first() == '"' {
            trimmed@.drop_first()
        } else {
            trimmed@
        };
        assert(opened =~= trimmed@.subrange(open as int, n as int));
        assert(value@ =~= value_of(input@));
    }
    Ok(value)
}

/// Reads a fragment into its key and its value.
///
/// Fails exactly on a fragment without `=`, with that fragment.
pub fn parse_key_value(input: &str) -> (result: Result<(&str, &str), ParsingError>)
    ensures
        match result {
            Ok((key, value)) => is_key_value(input@) && (key@, value@) == key_value_of(input@),
            Err(e) => !is_key_value(input@) && e@ == ParsingErrorView::MalformedKeyValue(input@),
        },
{
    match parse_key(input) {
        Ok((key, remainder)) => match parse_value(remainder) {
            Ok(value) => Ok((key, value)),
            Err(e) => Err(e),
        },
        Err(e) => Err(e),
    }
}

/// The function that reads each fragment of a record.
pub open spec fn key_value_reader() -> spec_fn(Seq<char>) -> (Seq<char>, Seq<char>) {
    |fragment: Seq<char>| key_value_of(fragment)
}

/// The position of the first fragment without `=`, or the number of fragments
/// where each holds one.
pub open spec fn first_malformed(list: Seq<Seq<char>>) -> nat
    decreases list.len(),
{
    if list.len() == 0 || !is_key_value(list[0]) {
        0
    } else {
        1 + first_malformed(list.drop_first())
    }
}

/// The mapping that a list of pairs builds up, each pair replacing what an
/// earlier one mapped its key to.
pub open spec fn snapshot_of(pairs: Seq<(Seq<char>, Seq<char>)>) -> Map<Seq<char>, Seq<char>>
    decreases pairs.len(),
{
    if pairs.len() == 0 {
        Map::empty()
    } else {
        snapshot_of(pairs.drop_last()).insert(pairs.last().0, pairs.last().1)
    }
}

/// What a record reads as: the mapping built from its fragments in order, or the
/// reason why it cannot be read. A record without braces fails as such; else the
/// first fragment without `=` fails the record.
pub open spec fn parsed(input: Seq<char>) -> Result<Map<Seq<char>, Seq<char>>, ParsingErrorView> {
    if !is_wrapped_once(input) {
        Err(ParsingErrorView::UnmatchedBraces)
    } else {
        let list = fragments(unwrapped(input));
        let bad = first_malformed(list);
        if bad < list.len() {
            Err(ParsingErrorView::MalformedKeyValue(list[bad as int]))
        } else {
            Ok(snapshot_of(list.map_values(key_value_reader())))
        }
    }
}

/// Adding a piece to a list adds its trimmed form to what is kept, unless that
/// form is empty.
pub proof fn lemma_kept_push(pieces: Seq<Seq<char>>, piece: Seq<char>)
    ensures
        kept(pieces.push(piece)) == if trim_newlines(piece).len() > 0 {
            kept(pieces).push(trim_newlines(piece))
        } else {
            kept(pieces)
        },
{
    pieces.lemma_push_map_commute(newline_trimmer(), piece);
    pieces.map_values(newline_trimmer()).lemma_filter_push(trim_newlines(piece), is_nonempty());
}

/// A position that holds a fragment without `=`, or the length, before which
/// every fragment holds one, is `first_malformed`.
pub proof fn lemma_first_malformed_is(list: Seq<Seq<char>>, n: int)
    requires
        0 <= n <= list.len(),
        forall|j: int| 0 <= j < n ==> is_key_value(#[trigger] list[j]),
        n < list.len() ==> !is_key_value(list[n]),
    ensures
        first_malformed(list) == n,
    decreases list.len(),
{
    if n > 0 {
        let rest = list.drop_first();
        assert forall|j: int| 0 <= j < n - 1 implies is_key_value(#[trigger] rest[j]) by {
            assert(rest[j] == list[j + 1]);
        }
        lemma_first_malformed_is(rest, n - 1);
    }
}

/// Cuts a body into its fragments. Never fails.
pub fn parse_lines(input: &str) -> (result: Result<Vec<&str>, ParsingError>)
    ensures
        result matches Ok(lines) && texts(lines@) == fragments(input@),
{
    let chars = to_chars(input);
    let n = chars.len();
    let mut lines: Vec<&str> = Vec::new();
    let mut start: usize = 0;
    let mut done = false;
    let ghost mut pieces: Seq<Seq<char>> = Seq::empty();
    assert(input@.skip(0) =~= input@);
    assert(texts(lines@) =~= kept(pieces)) by {
        reveal(Seq::filter);
    }
    while !done
        invariant
            start <= n,
            n == chars.len(),
            chars@ == input@,
            !done ==> split(input@, ';') == pieces + split(input@.skip(start as int), ';'),
            done ==> split(input@, ';') == pieces,
            texts(lines@) == kept(pieces),
        decreases
                (if done {
                    0
                } else {
                    n - start + 1
                }),
    {
        let at = find_char(&chars, start, n, ';');
        let from = skip_leading(&chars, start, at, CharClass::Only('\n'));
        let to = skip_trailing(&chars, from, at, CharClass::Only('\n'));
        let ghost rest = input@.skip(start as int);
        let ghost piece = input@.subrange(start as int, at as int);
        let ghost before = lines@;
        proof {
            assert(chars@.subrange(start as int, n as int) =~= rest);
            assert(rest.take(at - start) =~= piece);
            assert(chars@.subrange(from as int, at as int) =~= piece.skip(from - start));
            assert(trim_newlines(piece) =~= input@.subrange(from as int, to as int));
            lemma_kept_push(pieces, piece);
        }
        if from < to {
            let line = input.substring_char(from, to);
            lines.push(line);
            proof {
                before.lemma_push_map_commute(|text: &str| text@, line);
            }
        }
        if at == n {
            proof {
                assert(piece =~= rest);
                assert(pieces + seq![rest] =~= pieces.push(piece));
            }
            done = true;
        } else {
            proof {
                assert(rest.skip(at - start + 1) =~= input@.skip(at + 1));
                assert(pieces + (seq![piece] + split(input@.skip(at + 1), ';')) =~= pieces.push(
                    piece,
                ) + split(input@.skip(at + 1), ';'));
            }
            start = at + 1;
        }
        proof {
            pieces = pieces.push(piece);
        }
    }
    Ok(lines)
}

/// Reads a record into the mapping of its keys to its values.
///
/// The record must be wrapped in exactly one pair of braces, and each of its
/// fragments must hold a `=`. Where a key comes twice, its last value stays. A
/// record with nothing between its braces gives the empty mapping.
pub fn parse_raw(input: &String) -> (result: Result<RawSnapshot, ParsingError>)
    ensures
        match result {
            Ok(snapshot) => parsed(input@) == Ok::<Map<Seq<char>, Seq<char>>, ParsingErrorView>(
                snapshot@,
            ),
            Err(e) => parsed(input@) == Err::<Map<Seq<char>, Seq<char>>, ParsingErrorView>(e@),
        },
{
    let body = match parse_braces(input.as_str()) {
        Ok(body) => body,
        Err(e) => {
            return Err(e);
        },
    };
    let lines = match parse_lines(body) {
        Ok(lines) => lines,
        Err(e) => {
            return Err(e);
        },
    };
    let ghost list = fragments(unwrapped(input@));
    let ghost pairs = list.map_values(key_value_reader());
    let mut snapshot = RawSnapshot::new();
    let mut i: usize = 0;
    assert(pairs.take(0) =~= Seq::empty());
    while i < lines.len()
        invariant
            i <= lines.len(),
            is_wrapped_once(input@),
            list == fragments(unwrapped(input@)),
            texts(lines@) == list,
            pairs == list.map_values(key_value_reader()),
            forall|j: int| 0 <= j < i ==> is_key_value(#[trigger] list[j]),
            snapshot@ == snapshot_of(pairs.take(i as int)),
        decreases lines.len() - i,
    {
        assert(lines@[i as int]@ == list[i as int]);
        match parse_key_value(lines[i]) {
            Ok((key, value)) => {
                snapshot.insert(key.to_owned(), value.to_owned());
                proof {
                    let next = pairs.take(i + 1);
                    assert(next.drop_last() =~= pairs.take(i as int));
                    assert(next.last() == key_value_of(list[i as int]));
                }
            },
            Err(e) => {
                proof {
                    lemma_first_malformed_is(list, i as int);
                }
                return Err(e);
            },
        }
        i += 1;
    }
    proof {
        lemma_first_malformed_is(list, list.len() as int);
        assert(pairs.take(i as int) =~= pairs);
    }
    Ok(snapshot)
}

/// `s` without the `{` at its start and then without the `}` at its end, however
/// many there are of each.
pub open spec fn stripped(s: Seq<char>) -> Seq<char> {
    trim_end_matches(trim_start_matches(s, CharClass::Only('{')), CharClass::Only('}'))
}

/// A record is wrapped in exactly one pair of braces where it starts with `{`,
/// ends with `}`, and is two characters longer than what is left of it once the
/// braces at its ends are stripped; what is left is then what stands between
/// the two.
pub proof fn lemma_wrapped_once_is_two_stripped(s: Seq<char>)
    ensures
        is_wrapped_once(s) <==> {
            &&& s.len() > 0
            &&& s.first() == '{'
            &&& s.last() == '}'
            &&& stripped(s).len() + 2 == s.len()
        },
        is_wrapped_once(s) ==> stripped(s) == unwrapped(s),
{
    let open = CharClass::Only('{');
    let close = CharClass::Only('}');
    lemma_leading_run(s, open);
    let rest = trim_start_matches(s, open);
    lemma_trailing_run(rest, close);
    if is_wrapped_once(s) {
        lemma_leading_is(s, open, 1);
        assert(rest =~= s.skip(1));
        assert(rest.last() == s.last());
        if rest.len() > 1 {
            assert(rest[rest.len() - 2] == s[s.len() - 2]);
        }
        lemma_trailing_is(rest, close, 1);
        assert(stripped(s) =~= unwrapped(s));
    }
    if s.len() > 0 && s.first() == '{' && s.last() == '}' && stripped(s).len() + 2 == s.len() {
        assert(leading(s, open) >= 1);
        assert(leading(s, open) < s.len());
        assert(rest.last() == s.last());
        assert(trailing(rest, close) >= 1);
        assert(leading(s, open) == 1);
        assert(trailing(rest, close) == 1);
        if s.len() > 2 {
            assert(rest[rest.len() - 2] == s[s.len() - 2]);
        }
    }
}

/// A key is mapped exactly where some pair holds it.
pub proof fn lemma_snapshot_keys(pairs: Seq<(Seq<char>, Seq<char>)>, key: Seq<char>)
    ensures
        snapshot_of(pairs).contains_key(key) <==> exists|i: int|
            0 <= i < pairs.len() && (#[trigger] pairs[i]).0 == key,
    decreases pairs.len(),
{
    if pairs.len() > 0 {
        let before = pairs.drop_last();
        lemma_snapshot_keys(before, key);
        if snapshot_of(pairs).contains_key(key) {
            if pairs.last().0 == key {
                assert(pairs[pairs.len() - 1].0 == key);
            } else {
                let i = choose|i: int| 0 <= i < before.len() && (#[trigger] before[i]).0 == key;
                assert(pairs[i].0 == key);
            }
        }
        if exists|i: int| 0 <= i < pairs.len() && (#[trigger] pairs[i]).0 == key {
            let i = choose|i: int| 0 <= i < pairs.len() && (#[trigger] pairs[i]).0 == key;
            if i < before.len() {
                assert(before[i].0 == key);
            }
        }
    }
}

/// Where a key comes in several pairs, it is mapped to the value of the last of
/// them.
pub proof fn lemma_last_occurrence_wins(pairs: Seq<(Seq<char>, Seq<char>)>, i: int)
    requires
        0 <= i < pairs.len(),
        forall|j: int| i < j < pairs.len() ==> (#[trigger] pairs[j]).0 != pairs[i].0,
    ensures
        snapshot_of(pairs).contains_key(pairs[i].0),
        snapshot_of(pairs)[pairs[i].0] == pairs[i].1,
    decreases pairs.len(),
{
    if i < pairs.len() - 1 {
        let before = pairs.drop_last();
        assert(pairs[pairs.len() - 1].0 != pairs[i].0);
        assert forall|j: int| i < j < before.len() implies (#[trigger] before[j]).0
            != before[i].0 by {
            assert(before[j] == pairs[j]);
        }
        lemma_last_occurrence_wins(before, i);
    }
}

/// Whether no two of `pairs` hold the same key.
pub open spec fn has_distinct_keys(pairs: Seq<(Seq<char>, Seq<char>)>) -> bool {
    forall|i: int, j: int|
        0 <= i < j < pairs.len() ==> (#[trigger] pairs[i]).0 != (#[trigger] pairs[j]).0
}

/// Whether each item of one sequence is an item of the other. Of two sequences
/// of pairs with distinct keys this says that one is the other in another order.
pub open spec fn same_items<A>(p: Seq<A>, q: Seq<A>) -> bool {
    &&& forall|i: int| 0 <= i < p.len() ==> q.contains(#[trigger] p[i])
    &&& forall|j: int| 0 <= j < q.len() ==> p.contains(#[trigger] q[j])
}

/// A pair of a sequence with distinct keys is what its key is mapped to.
pub proof fn lemma_distinct_key_is_mapped(pairs: Seq<(Seq<char>, Seq<char>)>, i: int)
    requires
        has_distinct_keys(pairs),
        0 <= i < pairs.len(),
    ensures
        snapshot_of(pairs).contains_key(pairs[i].0),
        snapshot_of(pairs)[pairs[i].0] == pairs[i].1,
{
    lemma_last_occurrence_wins(pairs, i);
}

/// The order of the pairs does not matter where their keys are distinct: the
/// same pairs in another order build the same mapping.
pub proof fn lemma_order_of_pairs_does_not_matter(
    p: Seq<(Seq<char>, Seq<char>)>,
    q: Seq<(Seq<char>, Seq<char>)>,
)
    requires
        has_distinct_keys(p),
        has_distinct_keys(q),
        same_items(p, q),
    ensures
        snapshot_of(p) == snapshot_of(q),
{
    let left = snapshot_of(p);
    let right = snapshot_of(q);
    assert forall|key: Seq<char>| #[trigger]
        left.dom().contains(key) implies right.dom().contains(key) && right[key] == left[key] by {
        lemma_snapshot_keys(p, key);
        let i = choose|i: int| 0 <= i < p.len() && (#[trigger] p[i]).0 == key;
        assert(q.contains(p[i]));
        let j = choose|j: int| 0 <= j < q.len() && q[j] == p[i];
        lemma_distinct_key_is_mapped(p, i);
        lemma_distinct_key_is_mapped(q, j);
    }
    assert forall|key: Seq<char>| #[trigger]
        right.dom().contains(key) implies left.dom().contains(key) by {
        lemma_snapshot_keys(q, key);
        let j = choose|j: int| 0 <= j < q.len() && (#[trigger] q[j]).0 == key;
        assert(p.contains(q[j]));
        let i = choose|i: int| 0 <= i < p.len() && p[i] == q[j];
        lemma_distinct_key_is_mapped(p, i);
    }
    assert(left.dom() =~= right.dom());
    assert(left =~= right);
}

/// The order of the fragments does not matter where their keys are distinct:
/// two records, each wrapped in one pair of braces, that hold the same fragments
/// in another order, each with a `=` and no two with the same key, read as the
/// same mapping.
pub proof fn lemma_order_of_fragments_does_not_matter(x: Seq<char>, y: Seq<char>)
    requires
        is_wrapped_once(x),
        is_wrapped_once(y),
        same_items(fragments(unwrapped(x)), fragments(unwrapped(y))),
        forall|i: int|
            0 <= i < fragments(unwrapped(x)).len() ==> is_key_value(
                #[trigger] fragments(unwrapped(x))[i],
            ),
        has_distinct_keys(fragments(unwrapped(x)).map_values(key_value_reader())),
        has_distinct_keys(fragments(unwrapped(y)).map_values(key_value_reader())),
    ensures
        parsed(x) is Ok,
        parsed(x) == parsed(y),
{
    let fx = fragments(unwrapped(x));
    let fy = fragments(unwrapped(y));
    let p = fx.map_values(key_value_reader());
    let q = fy.map_values(key_value_reader());
    assert forall|j: int| 0 <= j < fy.len() implies is_key_value(#[trigger] fy[j]) by {
        assert(fx.contains(fy[j]));
        let i = choose|i: int| 0 <= i < fx.len() && fx[i] == fy[j];
        assert(is_key_value(fx[i]));
    }
    lemma_first_malformed_is(fx, fx.len() as int);
    lemma_first_malformed_is(fy, fy.len() as int);
    assert forall|i: int| 0 <= i < p.len() implies q.contains(#[trigger] p[i]) by {
        assert(fy.contains(fx[i]));
        let j = choose|j: int| 0 <= j < fy.len() && fy[j] == fx[i];
        assert(q[j] == p[i]);
    }
    assert forall|j: int| 0 <= j < q.len() implies p.contains(#[trigger] q[j]) by {
        assert(fx.contains(fy[j]));
        let i = choose|i: int| 0 <= i < fx.len() && fx[i] == fy[j];
        assert(p[i] == q[j]);
    }
    lemma_order_of_pairs_does_not_matter(p, q);
}

} // verus!
