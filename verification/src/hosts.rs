//! The configured host list: names separated by `;`, with surrounding white
//! space of the whole list, empty names and repeated names left out.

use vstd::prelude::*;
use vstd::string::*;
use crate::text::characters;
use crate::text::trim;
use crate::text::trimmed;

verus! {

/// The separator between the names of a host list.
pub const HOST_SEPARATOR: char = ';';

/// The pieces of a text between its separators, in order. A text without a
/// separator is one piece, and so is the empty text; two separators in a
/// row, or one at either end, give an empty piece.
pub open spec fn segments(text: Seq<char>, separator: char) -> Seq<Seq<char>>
    decreases text.len(),
{
    if text.len() == 0 {
        seq![Seq::empty()]
    } else {
        let before = segments(text.drop_last(), separator);
        if text.last() == separator {
            before.push(Seq::empty())
        } else {
            before.drop_last().push(before.last().push(text.last()))
        }
    }
}

/// The names of a list that are not empty, each at the place of its first
/// occurrence and nowhere else.
pub open spec fn distinct_nonempty(names: Seq<Seq<char>>) -> Seq<Seq<char>>
    decreases names.len(),
{
    if names.len() == 0 {
        Seq::empty()
    } else {
        with_name(distinct_nonempty(names.drop_last()), names.last())
    }
}

/// A list of names with one more name at its end, unless that name is empty
/// or in the list already.
pub open spec fn with_name(kept: Seq<Seq<char>>, name: Seq<char>) -> Seq<Seq<char>> {
    if name.len() == 0 || kept.contains(name) {
        kept
    } else {
        kept.push(name)
    }
}

/// The hosts that a configured host list names.
pub open spec fn host_list(text: Seq<char>) -> Seq<Seq<char>> {
    distinct_nonempty(segments(trimmed(text), HOST_SEPARATOR))
}

/// The names of a list of hosts, in order.
pub open spec fn host_names(hosts: Seq<String>) -> Seq<Seq<char>> {
    hosts.map_values(|host: String| host@)
}

/// Whether a host of that name is in the list.
fn has_host(hosts: &Vec<String>, name: &String) -> (found: bool)
    ensures
        found == host_names(hosts@).contains(name@),
{
    let mut index: usize = 0;
    while index < hosts.len()
        invariant
            index <= hosts.len(),
            forall|k: int| 0 <= k < index ==> host_names(hosts@)[k] != name@,
        decreases hosts.len() - index,
    {
        if hosts[index] == *name {
            assert(host_names(hosts@)[index as int] == name@);
            return true;
        }
        index += 1;
    }
    false
}

/// Adds a name to the hosts, unless it is empty or there already.
fn keep_host(hosts: &mut Vec<String>, name: &str)
    ensures
        host_names(final(hosts)@) == with_name(host_names(old(hosts)@), name@),
{
    if name.is_empty() {
        return ;
    }
    let host = name.to_owned();
    if !has_host(hosts, &host) {
        hosts.push(host);
        assert(host_names(hosts@) =~= host_names(old(hosts)@).push(name@));
    }
}

/// Reads a configured host list: the names between the `;` of the trimmed
/// text, without the empty ones, each once, in the order in which they
/// first occur.
pub fn parse_hosts(text: &str) -> (hosts: Vec<String>)
    ensures
        host_names(hosts@) == host_list(text@),
{
    let body = trim(text);
    let chars = characters(body);
    let length = chars.len();
    let mut hosts: Vec<String> = Vec::new();
    let ghost mut done: Seq<Seq<char>> = Seq::empty();
    let mut start: usize = 0;
    let mut index: usize = 0;
    assert(body@.take(0) =~= Seq::<char>::empty());
    assert(body@.subrange(0, 0) =~= Seq::<char>::empty());
    assert(done.push(Seq::<char>::empty()) =~= seq![Seq::<char>::empty()]);
    assert(host_names(hosts@) =~= distinct_nonempty(done));
    while index < length
        invariant
            start <= index <= length,
            length == chars.len(),
            chars@ == body@,
            segments(body@.take(index as int), HOST_SEPARATOR) == done.push(
                body@.subrange(start as int, index as int),
            ),
            host_names(hosts@) == distinct_nonempty(done),
        decreases length - index,
    {
        let ghost before = body@.take(index as int);
        let ghost current = body@.subrange(start as int, index as int);
        proof {
            let now = body@.take(index + 1);
            assert(now.drop_last() =~= before);
            assert(now.last() == body@[index as int]);
        }
        if chars[index] == HOST_SEPARATOR {
            keep_host(&mut hosts, body.substring_char(start, index));
            proof {
                assert(done.push(current).drop_last() =~= done);
                done = done.push(current);
                assert(body@.subrange(index + 1, index + 1) =~= Seq::<char>::empty());
            }
            start = index + 1;
        } else {
            proof {
                assert(done.push(current).drop_last() =~= done);
                assert(current.push(body@[index as int]) =~= body@.subrange(
                    start as int,
                    index + 1,
                ));
            }
        }
        index += 1;
    }
    keep_host(&mut hosts, body.substring_char(start, length));
    proof {
        let last = body@.subrange(start as int, length as int);
        assert(body@.take(length as int) =~= body@);
        assert(done.push(last).drop_last() =~= done);
    }
    hosts
}

/// The hosts of a list are distinct, and none of them is empty.
pub proof fn lemma_hosts_are_distinct(text: Seq<char>)
    ensures
        host_list(text).no_duplicates(),
        forall|i: int| 0 <= i < host_list(text).len() ==> (#[trigger] host_list(text)[i]).len() > 0,
{
    lemma_distinct_nonempty(segments(trimmed(text), HOST_SEPARATOR));
}

/// A name is among the hosts of a list exactly when it is not empty and is
/// one of the pieces of the trimmed list.
pub proof fn lemma_hosts_are_the_names(text: Seq<char>, name: Seq<char>)
    ensures
        host_list(text).contains(name) <==> (name.len() > 0 && segments(
            trimmed(text),
            HOST_SEPARATOR,
        ).contains(name)),
{
    lemma_kept_names(segments(trimmed(text), HOST_SEPARATOR), name);
}

/// A name is kept exactly when it is not empty and occurs in the list.
pub proof fn lemma_kept_names(names: Seq<Seq<char>>, name: Seq<char>)
    ensures
        distinct_nonempty(names).contains(name) <==> (name.len() > 0 && names.contains(name)),
    decreases names.len(),
{
    if names.len() > 0 {
        let rest = names.drop_last();
        let last = names.last();
        let kept = distinct_nonempty(rest);
        let all = distinct_nonempty(names);
        lemma_kept_names(rest, name);
        lemma_kept_names(rest, last);
        if all.contains(name) {
            let i = choose|i: int| 0 <= i < all.len() && all[i] == name;
            if i < kept.len() {
                assert(kept[i] == name);
                assert(kept.contains(name));
                let j = choose|j: int| 0 <= j < rest.len() && rest[j] == name;
                assert(names[j] == name);
            } else {
                assert(names[names.len() - 1] == name);
            }
        }
        if name.len() > 0 && names.contains(name) {
            let j = choose|j: int| 0 <= j < names.len() && names[j] == name;
            if j < rest.len() {
                assert(rest[j] == name);
                assert(rest.contains(name));
                let i = choose|i: int| 0 <= i < kept.len() && kept[i] == name;
                assert(all[i] == name);
            } else if kept.contains(last) {
                let i = choose|i: int| 0 <= i < kept.len() && kept[i] == last;
                assert(all[i] == name);
            } else {
                assert(all[all.len() - 1] == name);
            }
        }
    }
}

/// No name is kept twice, and no empty name is kept.
pub proof fn lemma_distinct_nonempty(names: Seq<Seq<char>>)
    ensures
        distinct_nonempty(names).no_duplicates(),
        forall|i: int|
            0 <= i < distinct_nonempty(names).len() ==> (#[trigger] distinct_nonempty(
                names,
            )[i]).len() > 0,
    decreases names.len(),
{
    if names.len() > 0 {
        lemma_distinct_nonempty(names.drop_last());
    }
}

/// Joining the pieces of a text with the separator gives the text back, and
/// no piece holds the separator: the pieces are the split of the text.
pub proof fn lemma_segments_split(text: Seq<char>, separator: char)
    ensures
        segments(text, separator).len() >= 1,
        joined(segments(text, separator), separator) == text,
        forall|i: int, j: int|
            0 <= i < segments(text, separator).len() && 0 <= j < segments(text, separator)[i].len()
                ==> #[trigger] segments(text, separator)[i][j] != separator,
    decreases text.len(),
{
    if text.len() > 0 {
        let rest = text.drop_last();
        let before = segments(rest, separator);
        lemma_segments_split(rest, separator);
        if text.last() == separator {
            let pieces = before.push(Seq::empty());
            assert(pieces.drop_last() =~= before);
            assert(joined(pieces, separator) =~= rest.push(separator));
            assert(rest.push(separator) =~= text);
        } else {
            let grown = before.last().push(text.last());
            let pieces = before.drop_last().push(grown);
            assert(pieces.drop_last() =~= before.drop_last());
            assert(pieces.last() == grown);
            if before.len() == 1 {
                assert(pieces.len() == 1);
                assert(joined(before, separator) == before.last());
                assert(joined(pieces, separator) == grown);
                assert(grown =~= text);
            } else {
                assert(joined(before, separator) == joined(before.drop_last(), separator).push(
                    separator,
                ) + before.last());
                let head = joined(before.drop_last(), separator).push(separator);
                assert(joined(pieces, separator) == head + grown);
                assert(rest.push(text.last()) =~= text);
                assert((head + before.last()).push(text.last()) =~= head + grown);
            }
            assert forall|i: int, j: int|
                0 <= i < pieces.len() && 0 <= j < pieces[i].len() implies #[trigger] pieces[i][j]
                != separator by {
                if i < pieces.len() - 1 {
                    assert(pieces[i] == before[i]);
                } else if j < before.last().len() {
                    assert(pieces[i][j] == before[before.len() - 1][j]);
                }
            }
        }
    } else {
        assert(segments(text, separator).drop_last() =~= Seq::<Seq<char>>::empty());
        assert(joined(segments(text, separator), separator) =~= text);
    }
}

/// The pieces of a list written one after the other, with the separator
/// between each two.
pub open spec fn joined(pieces: Seq<Seq<char>>, separator: char) -> Seq<char>
    decreases pieces.len(),
{
    if pieces.len() == 0 {
        Seq::empty()
    } else if pieces.len() == 1 {
        pieces.last()
    } else {
        joined(pieces.drop_last(), separator).push(separator) + pieces.last()
    }
}

} // verus!
