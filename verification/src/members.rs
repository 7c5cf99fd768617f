//! The people to greet, read from one line of comma-separated fields.

use crate::text::{join, parse_u64, parse_u64_spec};
use vstd::prelude::*;
use vstd::string::*;

verus! {

/// The fields of a line: each separator ends one field and starts the next,
/// so a line with `n` separators has `n + 1` fields, empty ones included.
pub open spec fn split(s: Seq<char>, sep: char) -> Seq<Seq<char>>
    decreases s.len(),
{
    if s.len() == 0 {
        seq![Seq::<char>::empty()]
    } else {
        let before = split(s.drop_last(), sep);
        if s.last() == sep {
            before.push(Seq::<char>::empty())
        } else {
            before.drop_last().push(before.last().push(s.last()))
        }
    }
}

/// A line always has a field.
pub proof fn lemma_split_is_not_empty(s: Seq<char>, sep: char)
    ensures
        split(s, sep).len() >= 1,
    decreases s.len(),
{
    if s.len() > 0 {
        lemma_split_is_not_empty(s.drop_last(), sep);
    }
}

/// The texts that a list of strings holds.
pub open spec fn texts(v: Seq<String>) -> Seq<Seq<char>> {
    Seq::new(v.len(), |i: int| v[i]@)
}

/// The members that a list of pairs holds: name and identifier.
pub open spec fn members_view(v: Seq<(String, u64)>) -> Seq<(Seq<char>, u64)> {
    Seq::new(v.len(), |i: int| (v[i].0@, v[i].1))
}

/// The names of a list of members, in its order.
pub open spec fn names_of(members: Seq<(Seq<char>, u64)>) -> Seq<Seq<char>> {
    Seq::new(members.len(), |i: int| members[i].0)
}

/// The members that a list of fields names. The fields go in pairs, a name
/// and an identifier; a pair whose second field is no identifier is left
/// out, and so is a last field without a partner.
pub open spec fn members_of(fields: Seq<Seq<char>>) -> Seq<(Seq<char>, u64)>
    decreases fields.len(),
{
    if fields.len() < 2 {
        Seq::empty()
    } else {
        let rest = members_of(fields.skip(2));
        match parse_u64_spec(fields[1]) {
            Some(id) => seq![(fields[0], id)] + rest,
            None => rest,
        }
    }
}

/// The members that a line names.
pub open spec fn parsed_members(line: Seq<char>) -> Seq<(Seq<char>, u64)> {
    members_of(split(line, ','))
}

/// Cuts a line into its fields.
pub fn split_fields(s: &str, sep: char) -> (fields: Vec<String>)
    ensures
        texts(fields@) == split(s@, sep),
{
    let n = s.unicode_len();
    let mut fields: Vec<String> = Vec::new();
    let mut start: usize = 0;
    let mut i: usize = 0;
    assert(s@.subrange(0, 0) =~= Seq::<char>::empty());
    assert(texts(fields@).push(s@.subrange(0, 0)) =~= split(s@.subrange(0, 0), sep));
    while i < n
        invariant
            start <= i <= n,
            n == s@.len(),
            split(s@.subrange(0, i as int), sep) == texts(fields@).push(
                s@.subrange(start as int, i as int),
            ),
        decreases n - i,
    {
        let c = s.get_char(i);
        let ghost head = s@.subrange(0, i + 1);
        assert(head.drop_last() =~= s@.subrange(0, i as int));
        assert(head.last() == c);
        if c == sep {
            let field = String::from_str(s.substring_char(start, i));
            let ghost before = texts(fields@);
            fields.push(field);
            start = i + 1;
            assert(texts(fields@) =~= before.push(field@));
            assert(s@.subrange(start as int, i + 1) =~= Seq::<char>::empty());
        } else {
            let ghost before = texts(fields@).push(s@.subrange(start as int, i as int));
            assert(before.drop_last() =~= texts(fields@));
            assert(before.last().push(c) =~= s@.subrange(start as int, i + 1));
        }
        i += 1;
    }
    let field = String::from_str(s.substring_char(start, n));
    let ghost before = texts(fields@);
    fields.push(field);
    assert(texts(fields@) =~= before.push(field@));
    assert(s@.subrange(0, n as int) =~= s@);
    fields
}

/// Reads the members from a line of alternating names and identifiers,
/// separated by commas. The order of the line is kept.
pub fn parse_members(line: &str) -> (members: Vec<(String, u64)>)
    ensures
        members_view(members@) == parsed_members(line@),
{
    let fields = split_fields(line, ',');
    let ghost all = texts(fields@);
    let mut members: Vec<(String, u64)> = Vec::new();
    let mut k: usize = 0;
    assert(all.skip(0) =~= all);
    assert(members_view(members@) + members_of(all.skip(0)) =~= members_of(all));
    while fields.len() - k >= 2
        invariant
            k <= fields.len(),
            all == texts(fields@),
            members_of(all) == members_view(members@) + members_of(all.skip(k as int)),
        decreases fields.len() - k,
    {
        let ghost rest = all.skip(k as int);
        let ghost before = members_view(members@);
        assert(rest.skip(2) =~= all.skip(k + 2));
        assert(rest[0] == fields@[k as int]@);
        assert(rest[1] == fields@[k + 1]@);
        match parse_u64(fields[k + 1].as_str()) {
            Some(id) => {
                let name = fields[k].clone();
                members.push((name, id));
                assert(members_view(members@) =~= before.push((rest[0], id)));
                assert(before.push((rest[0], id)) + members_of(rest.skip(2)) =~= before + (
                seq![(rest[0], id)] + members_of(rest.skip(2))));
            },
            None => {},
        }
        k += 2;
    }
    assert(members_of(all.skip(k as int)) =~= Seq::empty());
    assert(members_view(members@) + Seq::empty() =~= members_view(members@));
    members
}

/// No field holds the separator.
pub proof fn lemma_fields_hold_no_separator(s: Seq<char>, sep: char, k: int, i: int)
    requires
        0 <= k < split(s, sep).len(),
        0 <= i < split(s, sep)[k].len(),
    ensures
        split(s, sep)[k][i] != sep,
    decreases s.len(),
{
    if s.len() > 0 {
        let before = split(s.drop_last(), sep);
        lemma_split_is_not_empty(s.drop_last(), sep);
        if s.last() == sep {
            if k < before.len() {
                lemma_fields_hold_no_separator(s.drop_last(), sep, k, i);
            }
        } else {
            if k < before.len() - 1 {
                lemma_fields_hold_no_separator(s.drop_last(), sep, k, i);
            } else if i < before.last().len() {
                lemma_fields_hold_no_separator(s.drop_last(), sep, k, i);
            }
        }
    }
}

/// The fields of a line, put together again with the separator between
/// them, are the line.
pub proof fn lemma_split_joins_back(s: Seq<char>, sep: char)
    ensures
        join(split(s, sep), seq![sep]) == s,
    decreases s.len(),
{
    if s.len() == 0 {
        assert(join(split(s, sep), seq![sep]) =~= s);
    } else {
        let before = split(s.drop_last(), sep);
        lemma_split_is_not_empty(s.drop_last(), sep);
        lemma_split_joins_back(s.drop_last(), sep);
        let fields = split(s, sep);
        if s.last() == sep {
            assert(fields.drop_last() =~= before);
            assert(join(fields, seq![sep]) =~= s.drop_last() + seq![sep] + Seq::<char>::empty());
            assert(s.drop_last() + seq![sep] + Seq::<char>::empty() =~= s);
        } else {
            let c = s.last();
            if before.len() == 1 {
                assert(join(fields, seq![sep]) =~= before[0].push(c));
                assert(before[0].push(c) =~= s);
            } else {
                assert(fields.drop_last() =~= before.drop_last());
                assert(join(fields, seq![sep]) =~= (join(before.drop_last(), seq![sep]) + seq![sep]
                    + before.last()).push(c));
                assert((join(before.drop_last(), seq![sep]) + seq![sep] + before.last()).push(c)
                    =~= s);
            }
        }
    }
}

/// Pairs are read each for itself: what the first fields of a list name, an
/// even number of them, and what the fields after them name make up what
/// the whole list names. A pair that is dropped takes no other with it.
pub proof fn lemma_pairs_are_independent(first: Seq<Seq<char>>, rest: Seq<Seq<char>>)
    requires
        first.len() % 2 == 0,
    ensures
        members_of(first + rest) == members_of(first) + members_of(rest),
    decreases first.len(),
{
    if first.len() == 0 {
        assert(first + rest =~= rest);
        assert(members_of(first) + members_of(rest) =~= members_of(rest));
    } else {
        let all = first + rest;
        lemma_pairs_are_independent(first.skip(2), rest);
        assert(all.skip(2) =~= first.skip(2) + rest);
        assert(all[0] == first[0] && all[1] == first[1]);
        match parse_u64_spec(first[1]) {
            Some(id) => {
                assert(seq![(first[0], id)] + (members_of(first.skip(2)) + members_of(rest)) =~= (
                seq![(first[0], id)] + members_of(first.skip(2))) + members_of(rest));
            },
            None => {},
        }
    }
}

} // verus!
