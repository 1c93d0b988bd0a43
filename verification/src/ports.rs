//! Port descriptions: a single port, a comma-separated list, or a range.

use crate::error::ExpandError;
use crate::text::chars_of;
use crate::text::contains_char;
use crate::text::parse_u16;
use crate::text::read_u16;
use crate::text::split;
use crate::text::split_at_char;
use crate::text::trim;
use crate::text::trim_bounds;
use std::collections::BTreeSet;
use vstd::prelude::*;
use vstd::slice::slice_subrange;
use vstd::std_specs::btree::spec_btree_keys_iter;
use vstd::std_specs::cmp::OrdSpec;
use vstd::std_specs::iter::IteratorSpec;

verus! {

/// Whether every element of `s` is smaller than the one after it.
pub open spec fn ascending(s: Seq<u16>) -> bool {
    forall|i: int, j: int| 0 <= i < j < s.len() ==> s[i] < s[j]
}

/// Whether each of `tokens`, once trimmed, is a port number.
pub open spec fn all_ports(tokens: Seq<Seq<char>>) -> bool {
    forall|k: int| 0 <= k < tokens.len() ==> parse_u16(trim(#[trigger] tokens[k])) is Some
}

/// The ports that `tokens`, once trimmed, name.
pub open spec fn listed_ports(tokens: Seq<Seq<char>>) -> Set<u16> {
    Set::new(
        |p: u16|
            exists|k: int| 0 <= k < tokens.len() && parse_u16(trim(#[trigger] tokens[k])) == Some(p),
    )
}

/// The ports from `start` to `end`, both included; none if `end < start`.
pub open spec fn port_range(start: u16, end: u16) -> Set<u16> {
    Set::new(|p: u16| start <= p <= end)
}

/// The set of ports that a description denotes.
///
/// With a comma in it, the description is a list: every piece between
/// commas is trimmed and must be a port number. Otherwise, with a hyphen in
/// it, it is a range: exactly two pieces, each a port number as it stands,
/// and the range is empty when the second is below the first. Otherwise it
/// is one port number, trimmed.
pub open spec fn port_set(s: Seq<char>) -> Result<Set<u16>, ExpandError> {
    if s.contains(',') {
        let tokens = split(s, ',');
        if all_ports(tokens) {
            Ok(listed_ports(tokens))
        } else {
            Err(ExpandError::MalformedInput)
        }
    } else if s.contains('-') {
        let tokens = split(s, '-');
        if tokens.len() == 2 && parse_u16(tokens[0]) is Some && parse_u16(tokens[1]) is Some {
            Ok(port_range(parse_u16(tokens[0])->0, parse_u16(tokens[1])->0))
        } else {
            Err(ExpandError::MalformedInput)
        }
    } else {
        match parse_u16(trim(s)) {
            Some(p) => Ok(set![p]),
            None => Err(ExpandError::MalformedInput),
        }
    }
}

/// Adds one port to `set`.
fn insert_port(set: &mut BTreeSet<u16>, port: u16)
    ensures
        final(set)@ == old(set)@.insert(port),
{
    broadcast use vstd::laws_cmp::group_laws_cmp;

    set.insert(port);
}

/// Adds every port from `start` to `end` to `set`.
fn insert_range(set: &mut BTreeSet<u16>, start: u16, end: u16)
    ensures
        final(set)@ == old(set)@.union(port_range(start, end)),
{
    if start > end {
        assert(set@ =~= old(set)@.union(port_range(start, end)));
        return ;
    }
    let mut p: u16 = start;
    loop
        invariant_except_break
            start <= p <= end,
            set@ == old(set)@.union(Set::new(|q: u16| start <= q < p)),
        ensures
            set@ == old(set)@.union(port_range(start, end)),
        decreases end - p,
    {
        insert_port(set, p);
        if p == end {
            assert(set@ =~= old(set)@.union(port_range(start, end)));
            break ;
        }
        p += 1;
        assert(set@ =~= old(set)@.union(Set::new(|q: u16| start <= q < p)));
    }
}

/// Lists the members of `set` from the smallest to the largest.
pub fn sorted_members(set: &BTreeSet<u16>) -> (out: Vec<u16>)
    ensures
        ascending(out@),
        out@.to_set() == set@,
{
    broadcast use vstd::std_specs::btree::group_btree_axioms;
    broadcast use vstd::laws_cmp::group_laws_cmp;
    broadcast use vstd::laws_cmp::lemma_ref_obeys_cmp_spec;

    let ghost keys = spec_btree_keys_iter(set).remaining();
    let mut out: Vec<u16> = Vec::new();
    for key in it: set.iter()
        invariant
            it.seq() == keys,
            out@ == keys.unref().take(it.index()),
    {
        out.push(*key);
    }
    proof {
        assert(out@ =~= keys.unref());
        assert(vstd::laws_cmp::obeys_cmp::<&u16>());
        vstd::std_specs::btree::axiom_increasing_seq_meaning::<&u16>(keys);
        assert forall|i: int, j: int| 0 <= i < j < keys.len() implies *keys[i] < *keys[j] by {
            assert(OrdSpec::cmp_spec(&keys[i], &keys[j]) is Less);
        }
    }
    out
}

/// Expands a port description into the ports it denotes, in ascending
/// order and each once.
pub fn parse_ports(ports_str: &str) -> (ports: Result<Vec<u16>, ExpandError>)
    ensures
        match port_set(ports_str@) {
            Ok(set) => ports is Ok && ascending(ports->Ok_0@) && ports->Ok_0@.to_set() == set,
            Err(e) => ports is Err && ports->Err_0 == e,
        },
        ports is Ok ==> ports->Ok_0@.no_duplicates(),
{
    let text = chars_of(ports_str);
    let mut set: BTreeSet<u16> = BTreeSet::new();
    if contains_char(text.as_slice(), ',') {
        let pieces = split_at_char(text.as_slice(), ',');
        let ghost tokens = split(text@, ',');
        let mut k: usize = 0;
        while k < pieces.len()
            invariant
                k <= pieces.len(),
                text@ == ports_str@,
                text@.contains(','),
                tokens == split(text@, ','),
                pieces.len() == tokens.len(),
                forall|j: int| 0 <= j < pieces.len() ==> (#[trigger] pieces[j])@ == tokens[j],
                all_ports(tokens.take(k as int)),
                set@ == listed_ports(tokens.take(k as int)),
            decreases pieces.len() - k,
        {
            let piece = pieces[k].as_slice();
            let bounds = trim_bounds(piece);
            let ghost seen = tokens.take(k + 1);
            match read_u16(slice_subrange(piece, bounds.0, bounds.1)) {
                Some(port) => {
                    insert_port(&mut set, port);
                    proof {
                        assert(seen.drop_last() =~= tokens.take(k as int));
                        assert(parse_u16(trim(seen[k as int])) == Some(port));
                        assert(all_ports(seen));
                        assert(set@ =~= listed_ports(seen)) by {
                            assert forall|p: u16| listed_ports(seen).contains(p) implies set@.contains(
                                p,
                            ) by {
                                let j = choose|j: int|
                                    0 <= j < seen.len() && parse_u16(trim(#[trigger] seen[j]))
                                        == Some(p);
                                if j < k {
                                    assert(tokens.take(k as int)[j] == seen[j]);
                                }
                            }
                            assert forall|p: u16| set@.contains(p) implies listed_ports(
                                seen,
                            ).contains(p) by {
                                if p != port {
                                    let j = choose|j: int|
                                        0 <= j < k && parse_u16(
                                            trim(#[trigger] tokens.take(k as int)[j]),
                                        ) == Some(p);
                                    assert(seen[j] == tokens.take(k as int)[j]);
                                }
                            }
                        }
                    }
                },
                None => {
                    assert(parse_u16(trim(tokens[k as int])) is None);
                    return Err(ExpandError::MalformedInput);
                },
            }
            k += 1;
        }
        assert(tokens.take(k as int) =~= tokens);
    } else if contains_char(text.as_slice(), '-') {
        let pieces = split_at_char(text.as_slice(), '-');
        if pieces.len() != 2 {
            return Err(ExpandError::MalformedInput);
        }
        let start: u16 = match read_u16(pieces[0].as_slice()) {
            Some(port) => port,
            None => {
                return Err(ExpandError::MalformedInput);
            },
        };
        let end: u16 = match read_u16(pieces[1].as_slice()) {
            Some(port) => port,
            None => {
                return Err(ExpandError::MalformedInput);
            },
        };
        insert_range(&mut set, start, end);
        assert(set@ =~= port_range(start, end));
    } else {
        let bounds = trim_bounds(text.as_slice());
        match read_u16(slice_subrange(text.as_slice(), bounds.0, bounds.1)) {
            Some(port) => {
                insert_port(&mut set, port);
                assert(set@ =~= set![port]);
            },
            None => {
                return Err(ExpandError::MalformedInput);
            },
        }
    }
    let ports = sorted_members(&set);
    proof {
        lemma_ascending_distinct(ports@);
    }
    Ok(ports)
}

/// An ascending sequence holds no value twice.
pub proof fn lemma_ascending_distinct(s: Seq<u16>)
    requires
        ascending(s),
    ensures
        s.no_duplicates(),
{
}

} // verus!
