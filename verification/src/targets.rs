//! Target descriptions: a single address, a CIDR block, or a range of
//! addresses.

use crate::address::ascending_addresses;
use crate::address::expand_network;
use crate::address::expand_range;
use crate::address::lemma_block_enumeration;
use crate::address::lemma_range_enumeration;
use crate::address::range_addresses;
use crate::address::Address;
use crate::address::Network;
use crate::error::ExpandError;
use crate::text::chars_of;
use crate::text::contains_char;
use crate::text::split;
use crate::text::split_at_char;
use crate::text::trim;
use crate::text::trim_bounds;
use ipnetwork::IpNetwork;
use std::str::FromStr;
use vstd::prelude::*;
use vstd::slice::slice_subrange;

verus! {

/// The network that `ipnetwork` reads from a text, if it reads one: an
/// address of either family, alone or followed by `/` and a prefix.
pub uninterp spec fn network_of_text(text: Seq<char>) -> Option<Network>;

/// The address part of what `network_of_text` reads from a text.
pub open spec fn address_of_text(text: Seq<char>) -> Option<Address> {
    match network_of_text(text) {
        Some(net) => Some(net.address()),
        None => None,
    }
}

/// The addresses that a target description denotes, in order.
///
/// The description is trimmed first. With a slash in it, it is a CIDR block
/// and denotes every address of the block. Otherwise, with a hyphen in it,
/// it is a range: exactly two pieces, each an address once trimmed.
/// Otherwise it is a single address.
pub open spec fn target_addresses(s: Seq<char>) -> Result<Seq<Address>, ExpandError> {
    let text = trim(s);
    if text.contains('/') {
        match network_of_text(text) {
            Some(net) => Ok(net.addresses()),
            None => Err(ExpandError::MalformedInput),
        }
    } else if text.contains('-') {
        let tokens = split(text, '-');
        if tokens.len() != 2 {
            Err(ExpandError::MalformedInput)
        } else {
            match (address_of_text(trim(tokens[0])), address_of_text(trim(tokens[1]))) {
                (Some(start), Some(end)) => range_addresses(start, end),
                _ => Err(ExpandError::MalformedInput),
            }
        }
    } else {
        match address_of_text(text) {
            Some(a) => Ok(seq![a]),
            None => Err(ExpandError::MalformedInput),
        }
    }
}

/// Calls `ipnetwork::IpNetwork::from_str` on `text` and copies the address
/// and the prefix length out of the network it returns; `None` stands for
/// its error.
///
/// Trusted: the result is a function of the text alone, and `ipnetwork`
/// builds no network whose prefix is longer than an address of its family.
#[verifier::external_body]
fn parse_network(text: &[char]) -> (net: Option<Network>)
    ensures
        net == network_of_text(text@),
        net matches Some(n) ==> n.wf(),
{
    let text: String = text.iter().collect();
    match IpNetwork::from_str(&text) {
        Ok(IpNetwork::V4(n)) => Some(Network::V4 { addr: u32::from(n.ip()), prefix: n.prefix() }),
        Ok(IpNetwork::V6(n)) => Some(Network::V6 { addr: u128::from(n.ip()), prefix: n.prefix() }),
        Err(_) => None,
    }
}

/// Reads the address that one end of a range is written as.
fn parse_range_end(token: &[char]) -> (a: Option<Address>)
    ensures
        a == address_of_text(trim(token@)),
{
    let bounds = trim_bounds(token);
    match parse_network(slice_subrange(token, bounds.0, bounds.1)) {
        Some(net) => Some(net.ip()),
        None => None,
    }
}

/// Expands a target description into the addresses it denotes.
pub fn parse_targets(target_str: &str) -> (targets: Result<Vec<Address>, ExpandError>)
    ensures
        match target_addresses(target_str@) {
            Ok(run) => targets is Ok && targets->Ok_0@ == run,
            Err(e) => targets is Err && targets->Err_0 == e,
        },
        targets is Ok ==> ascending_addresses(targets->Ok_0@) && targets->Ok_0@.no_duplicates(),
{
    let raw = chars_of(target_str);
    let bounds = trim_bounds(raw.as_slice());
    let text = slice_subrange(raw.as_slice(), bounds.0, bounds.1);
    if contains_char(text, '/') {
        match parse_network(text) {
            Some(net) => {
                proof {
                    lemma_block_enumeration(net);
                }
                Ok(expand_network(net))
            },
            None => Err(ExpandError::MalformedInput),
        }
    } else if contains_char(text, '-') {
        let pieces = split_at_char(text, '-');
        if pieces.len() != 2 {
            return Err(ExpandError::MalformedInput);
        }
        let start = match parse_range_end(pieces[0].as_slice()) {
            Some(a) => a,
            None => {
                return Err(ExpandError::MalformedInput);
            },
        };
        let end = match parse_range_end(pieces[1].as_slice()) {
            Some(a) => a,
            None => {
                return Err(ExpandError::MalformedInput);
            },
        };
        proof {
            if range_addresses(start, end) is Ok {
                lemma_range_enumeration(start, end);
            }
        }
        expand_range(start, end)
    } else {
        match parse_network(text) {
            Some(net) => {
                let mut single: Vec<Address> = Vec::new();
                single.push(net.ip());
                Ok(single)
            },
            None => Err(ExpandError::MalformedInput),
        }
    }
}

} // verus!
