//! Network interface counters from `/proc/net/dev`.

use vstd::prelude::*;
use crate::numbers::{read_u64_or_zero, u64_or_zero};
use crate::text::{
    chars_of, find, find_chars, lines, matches_at, split_lines, split_words, string_of, trim,
    trim_chars, words,
};

verus! {

/// The counters of one interface.
#[derive(Debug)]
pub struct InterfaceEntry {
    pub interface: String,
    pub rx_bytes: u64,
    pub rx_packets: u64,
    pub rx_errors: u64,
    pub rx_dropped: u64,
    pub tx_bytes: u64,
    pub tx_packets: u64,
    pub tx_errors: u64,
    pub tx_dropped: u64,
}

/// The interfaces of `/proc/net/dev`, in file order, without the loopback.
#[derive(Debug)]
pub struct NetworkReport {
    pub interfaces: Vec<InterfaceEntry>,
}

/// The position of the first `':'` of `line`.
pub open spec fn colon(line: Seq<char>) -> Option<int> {
    find(line, seq![':'])
}

/// The interface name of a line: what precedes its first `':'`, trimmed.
pub open spec fn interface_name(line: Seq<char>) -> Seq<char> {
    trim(line.subrange(0, colon(line)->0))
}

/// The counters of a line: the whitespace-separated fields after its first
/// `':'`, each read as a `u64`, with 0 for a field that is not one.
pub open spec fn counters(line: Seq<char>) -> Seq<u64> {
    words(line.subrange(colon(line)->0 + 1, line.len() as int)).map_values(
        |f: Seq<char>| u64_or_zero(f),
    )
}

/// A line that describes an interface: it has a `':'`, and at least twelve
/// fields after it (eight receive counters, then eight transmit counters,
/// of which the first four of each are kept).
pub open spec fn is_interface_line(line: Seq<char>) -> bool {
    colon(line) is Some && counters(line).len() >= 12
}

/// `e` is what the interface line `line` says.
pub open spec fn describes(line: Seq<char>, e: InterfaceEntry) -> bool {
    let v = counters(line);
    &&& e.interface@ == interface_name(line)
    &&& e.rx_bytes == v[0]
    &&& e.rx_packets == v[1]
    &&& e.rx_errors == v[2]
    &&& e.rx_dropped == v[3]
    &&& e.tx_bytes == v[8]
    &&& e.tx_packets == v[9]
    &&& e.tx_errors == v[10]
    &&& e.tx_dropped == v[11]
}

/// Reads one line of `/proc/net/dev` (`  eth0: <rx counters> <tx counters>`):
/// `None` where the line has no `':'` or too few counters.
pub fn parse_line(line: &str) -> (res: Option<InterfaceEntry>)
    ensures
        res is Some <==> is_interface_line(line@),
        res matches Some(e) ==> describes(line@, e),
{
    let l = chars_of(line);
    entry_of(l.as_slice())
}

fn entry_of(l: &[char]) -> (res: Option<InterfaceEntry>)
    ensures
        res is Some <==> is_interface_line(l@),
        res matches Some(e) ==> describes(l@, e),
{
    let sep = vec![':'];
    assert(sep@ =~= seq![':']);
    let n = l.len();
    let c = match find_chars(l, sep.as_slice()) {
        Some(c) => c,
        None => return None,
    };
    let name = trim_chars(vstd::slice::slice_subrange(l, 0, c));
    let rest = vstd::slice::slice_subrange(l, c + 1, n);
    let fields = split_words(rest);
    let ghost v = counters(l@);
    if fields.len() < 12 {
        return None;
    }
    let mut vals: Vec<u64> = Vec::new();
    let mut k: usize = 0;
    while k < 12
        invariant
            fields@.len() == words(rest@).len() >= 12,
            forall|j: int| 0 <= j < fields@.len() ==> (#[trigger] fields@[j])@ == words(rest@)[j],
            rest@ == l@.subrange(c + 1, l@.len() as int),
            v == counters(l@),
            colon(l@) == Some(c as int),
            k <= 12,
            vals@.len() == k,
            forall|j: int| 0 <= j < k ==> vals@[j] == v[j],
        decreases 12 - k,
    {
        vals.push(read_u64_or_zero(fields[k]));
        k = k + 1;
    }
    Some(
        InterfaceEntry {
            interface: string_of(name),
            rx_bytes: vals[0],
            rx_packets: vals[1],
            rx_errors: vals[2],
            rx_dropped: vals[3],
            tx_bytes: vals[8],
            tx_packets: vals[9],
            tx_errors: vals[10],
            tx_dropped: vals[11],
        },
    )
}

/// An interface line of anything but the loopback (`lo`).
pub open spec fn is_kept(line: Seq<char>) -> bool {
    is_interface_line(line) && interface_name(line) != seq!['l', 'o']
}

/// The lines among `ls` that [`parse_net_dev`] keeps, in order.
pub open spec fn kept_lines(ls: Seq<Seq<char>>) -> Seq<Seq<char>>
    decreases ls.len(),
{
    if ls.len() == 0 {
        seq![]
    } else if is_kept(ls.last()) {
        kept_lines(ls.drop_last()).push(ls.last())
    } else {
        kept_lines(ls.drop_last())
    }
}

/// The interface lines of `/proc/net/dev` holding `content`: all lines
/// after the two header lines that [`is_kept`] accepts.
pub open spec fn interface_lines(content: Seq<char>) -> Seq<Seq<char>> {
    let ls = lines(content);
    if ls.len() <= 2 {
        seq![]
    } else {
        kept_lines(ls.subrange(2, ls.len() as int))
    }
}

pub proof fn lemma_kept_lines(ls: Seq<Seq<char>>)
    ensures
        forall|i: int| 0 <= i < kept_lines(ls).len() ==> is_kept(#[trigger] kept_lines(ls)[i]),
    decreases ls.len(),
{
    if ls.len() > 0 {
        lemma_kept_lines(ls.drop_last());
        let p = kept_lines(ls.drop_last());
        assert forall|i: int| 0 <= i < kept_lines(ls).len() implies is_kept(#[trigger] kept_lines(ls)[i]) by {
            if i < p.len() {
                assert(kept_lines(ls)[i] == p[i]);
            }
        }
    }
}

/// The loopback interface is never reported, and every reported line is an
/// interface line.
pub proof fn lemma_no_loopback(content: Seq<char>)
    ensures
        forall|i: int|
            0 <= i < interface_lines(content).len() ==> {
                &&& is_interface_line(#[trigger] interface_lines(content)[i])
                &&& interface_name(interface_lines(content)[i]) != seq!['l', 'o']
            },
{
    let ls = lines(content);
    if ls.len() > 2 {
        lemma_kept_lines(ls.subrange(2, ls.len() as int));
    }
}

/// Reads `/proc/net/dev`: one entry per interface line after the two header
/// lines, in order, leaving out lines that are not interface lines and the
/// loopback interface.
pub fn parse_net_dev(content: &str) -> (res: NetworkReport)
    ensures
        res.interfaces@.len() == interface_lines(content@).len(),
        forall|i: int|
            0 <= i < res.interfaces@.len() ==> describes(
                #[trigger] interface_lines(content@)[i],
                res.interfaces@[i],
            ),
{
    let chars = chars_of(content);
    let ls = split_lines(chars.as_slice());
    let ghost l = lines(content@);
    let mut interfaces: Vec<InterfaceEntry> = Vec::new();
    let lo = vec!['l', 'o'];
    assert(lo@ =~= seq!['l', 'o']);
    if ls.len() <= 2 {
        return NetworkReport { interfaces };
    }
    let ghost body = l.subrange(2, l.len() as int);
    let mut i: usize = 2;
    while i < ls.len()
        invariant
            ls@.len() == l.len() > 2,
            l == lines(content@),
            body == l.subrange(2, l.len() as int),
            forall|j: int| 0 <= j < l.len() ==> (#[trigger] ls@[j])@ == l[j],
            lo@ == seq!['l', 'o'],
            2 <= i <= l.len(),
            interfaces@.len() == kept_lines(body.subrange(0, i - 2)).len(),
            forall|j: int|
                0 <= j < interfaces@.len() ==> describes(
                    #[trigger] kept_lines(body.subrange(0, i - 2))[j],
                    interfaces@[j],
                ),
        decreases l.len() - i,
    {
        let line = ls[i];
        let ghost prefix = body.subrange(0, i + 1 - 2);
        assert(prefix.drop_last() =~= body.subrange(0, i - 2));
        assert(prefix.last() == line@);
        match entry_of(line) {
            Some(e) => {
                let name = e.interface.as_str();
                let name_chars = chars_of(name);
                let is_lo = name_chars.len() == 2 && matches_at(name_chars.as_slice(), lo.as_slice(), 0);
                if is_lo {
                    assert(name_chars@ =~= name_chars@.subrange(0, 2));
                    assert(!is_kept(line@));
                    assert(kept_lines(prefix) == kept_lines(prefix.drop_last()));
                } else {
                    proof {
                        if name_chars@ == seq!['l', 'o'] {
                            assert(name_chars@.subrange(0, 2) =~= name_chars@);
                        }
                    }
                    assert(is_kept(line@));
                    assert(kept_lines(prefix) == kept_lines(prefix.drop_last()).push(line@));
                    interfaces.push(e);
                }
            },
            None => {
                assert(kept_lines(prefix) == kept_lines(prefix.drop_last()));
            },
        }
        i = i + 1;
    }
    assert(body.subrange(0, l.len() - 2) =~= body);
    NetworkReport { interfaces }
}

/// The kept lines are exactly the interface lines other than `lo`, in order.
proof fn lemma_kept_is_filter(ls: Seq<Seq<char>>)
    ensures
        kept_lines(ls) == ls.filter(
            |l: Seq<char>| is_interface_line(l) && interface_name(l) != seq!['l', 'o'],
        ),
    decreases ls.len(),
{
    reveal(Seq::filter);
    if ls.len() > 0 {
        lemma_kept_is_filter(ls.drop_last());
    }
}

/// Every line after the two header lines that describes an interface is
/// reported, in file order, unless the interface is the loopback `lo`:
/// nothing else is left out, whatever its counters.
pub proof fn lemma_every_interface_reported(content: Seq<char>)
    ensures
        lines(content).len() > 2 ==> interface_lines(content) == lines(content).subrange(
            2,
            lines(content).len() as int,
        ).filter(|l: Seq<char>| is_interface_line(l) && interface_name(l) != seq!['l', 'o']),
        lines(content).len() <= 2 ==> interface_lines(content).len() == 0,
{
    let ls = lines(content);
    if ls.len() > 2 {
        lemma_kept_is_filter(ls.subrange(2, ls.len() as int));
    }
}

} // verus!
