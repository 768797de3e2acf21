//! Scan results: reading the raw lines of a scan and normalising the records
//! into the list that is shown.
//!
//! A raw line holds five fields or more, separated by colons: the in-use
//! marker, the SSID, the BSSID, the security descriptor and the signal. A
//! colon inside a field is written as a backslash and a colon. The signal is
//! a percentage: a field that does not spell a number from 0 to 100 reads as
//! 0.
//!
//! A normalised list names every SSID once. Of the records that share an SSID
//! the first in-use one stays, or the first of all where none is in use: a
//! record that is not in use is dropped even where its signal is the
//! stronger one. The in-use records come first, and each group is ordered
//! by falling signal; records of equal rank keep the order of the scan.

use crate::text::{
    chars_of, lead, lemma_pieces_nonempty, lines, number, parse_number, pieces, split_lines,
    split_pieces, text_of, texts,
};
use vstd::prelude::*;
use vstd::seq_lib::to_multiset_contains;

verus! {

/// One access point as a scan saw it.
#[derive(Debug, PartialEq, Eq)]
pub struct Network {
    /// Network name; empty for a hidden network.
    pub ssid: String,
    /// Hardware identifier of the access point; empty if unknown.
    pub bssid: String,
    /// Security descriptor; empty for an open network.
    pub security: String,
    /// Signal strength in percent; what a scan gives is at most
    /// [`MAX_SIGNAL`].
    pub signal: u8,
    /// Whether this is the connection in use.
    pub in_use: bool,
}

/// What a [`Network`] holds, as plain values.
#[verifier::ext_equal]
pub struct NetworkView {
    pub ssid: Seq<char>,
    pub bssid: Seq<char>,
    pub security: Seq<char>,
    pub signal: u8,
    pub in_use: bool,
}

impl View for Network {
    type V = NetworkView;

    open spec fn view(&self) -> NetworkView {
        NetworkView {
            ssid: self.ssid@,
            bssid: self.bssid@,
            security: self.security@,
            signal: self.signal,
            in_use: self.in_use,
        }
    }
}

impl Clone for Network {
    fn clone(&self) -> (r: Self)
        ensures
            r@ == self@,
    {
        Network {
            ssid: self.ssid.clone(),
            bssid: self.bssid.clone(),
            security: self.security.clone(),
            signal: self.signal,
            in_use: self.in_use,
        }
    }
}

/// The records held by a vector of networks.
pub open spec fn views(v: Seq<Network>) -> Seq<NetworkView> {
    Seq::new(v.len(), |i: int| v[i]@)
}

/// The strongest signal there is, in percent.
pub const MAX_SIGNAL: u8 = 100;

/// The signal that a field spells: its number where that is a percentage,
/// and 0 where the field spells no number or one above [`MAX_SIGNAL`].
pub open spec fn signal_of(field: Seq<char>) -> u8 {
    match number(field) {
        Some(n) => if n <= MAX_SIGNAL {
            n
        } else {
            0
        },
        None => 0,
    }
}

/// Whether every signal of `s` is a percentage.
pub open spec fn signals_in_range(s: Seq<NetworkView>) -> bool {
    forall|i: int| 0 <= i < s.len() ==> (#[trigger] s[i]).signal <= MAX_SIGNAL
}

/// The record that a raw line holds: `None` for a line of fewer than five
/// fields. The fields keep every character, blanks included; the record is in
/// use where the first field is a single asterisk.
pub open spec fn record_of(line: Seq<char>) -> Option<NetworkView> {
    let f = pieces(line, ':', true);
    if f.len() < 5 {
        None
    } else {
        Some(
            NetworkView {
                ssid: f[1],
                bssid: f[2],
                security: f[3],
                signal: signal_of(f[4]),
                in_use: f[0] == seq!['*'],
            },
        )
    }
}

/// The records of the lines that hold one, in the order of the lines.
pub open spec fn records_of(lines: Seq<Seq<char>>) -> Seq<NetworkView>
    decreases lines.len(),
{
    if lines.len() == 0 {
        Seq::empty()
    } else {
        let before = records_of(lines.drop_last());
        match record_of(lines.last()) {
            Some(r) => before.push(r),
            None => before,
        }
    }
}

/// Reads one raw line, given by its characters, as [`record_of`] says.
fn record(line: &Vec<char>) -> (r: Option<Network>)
    ensures
        match r {
            Some(n) => record_of(line@) == Some(n@),
            None => record_of(line@) is None,
        },
{
    let fields = split_pieces(line, ':', true);
    if fields.len() < 5 {
        return None;
    }
    let in_use = fields[0].len() == 1 && fields[0][0] == '*';
    let signal = match parse_number(&fields[4]) {
        Some(n) => if n <= MAX_SIGNAL {
            n
        } else {
            0
        },
        None => 0,
    };
    Some(
        Network {
            ssid: text_of(&fields[1]),
            bssid: text_of(&fields[2]),
            security: text_of(&fields[3]),
            signal,
            in_use,
        },
    )
}

/// Reads one raw line, as [`record_of`] says: the record that it holds, or
/// `None` where it has fewer than five fields.
pub fn parse_line(line: &str) -> (r: Option<Network>)
    ensures
        match r {
            Some(n) => record_of(line@) == Some(n@),
            None => record_of(line@) is None,
        },
{
    record(&chars_of(line))
}

/// `field` as a raw line writes it: with a backslash in front of each colon.
pub open spec fn escaped(field: Seq<char>) -> Seq<char>
    decreases field.len(),
{
    if field.len() == 0 {
        Seq::empty()
    } else if field[0] == ':' {
        seq!['\\', ':'] + escaped(field.skip(1))
    } else {
        seq![field[0]] + escaped(field.skip(1))
    }
}

/// The raw line of `fields`: each one [`escaped`], with a colon between
/// neighbours.
pub open spec fn raw_line(fields: Seq<Seq<char>>) -> Seq<char>
    decreases fields.len(),
{
    if fields.len() == 0 {
        Seq::empty()
    } else if fields.len() == 1 {
        escaped(fields[0])
    } else {
        escaped(fields[0]) + seq![':'] + raw_line(fields.skip(1))
    }
}

/// An escaped field never starts with a bare colon.
proof fn lemma_escaped_start(field: Seq<char>)
    ensures
        escaped(field).len() == 0 <==> field.len() == 0,
        field.len() > 0 ==> escaped(field)[0] != ':',
{
}

/// A raw field with escaped colons reads back as the field itself, each colon
/// literal and no backslash left over from the escaping.
pub proof fn lemma_escaped_round_trip(field: Seq<char>)
    ensures
        pieces(escaped(field), ':', true) == seq![field],
    decreases field.len(),
{
    let s = escaped(field);
    if field.len() == 0 {
        assert(field == Seq::<char>::empty());
    } else {
        let rest = field.skip(1);
        lemma_escaped_round_trip(rest);
        lemma_escaped_start(rest);
        if field[0] == ':' {
            assert(s.skip(2) == escaped(rest));
            assert(seq![':'] + rest == field);
        } else {
            assert(s.skip(1) == escaped(rest));
            assert(seq![field[0]] + rest == field);
        }
        assert(lead(seq![field[0]], seq![rest]) == seq![field]);
    }
}

/// A raw field that a colon ends, with more text behind it, reads back as the
/// field followed by what that text reads as, unless the field ends with a
/// backslash.
proof fn lemma_escaped_then(field: Seq<char>, tail: Seq<char>)
    requires
        field.len() > 0 ==> field.last() != '\\',
    ensures
        pieces(escaped(field) + seq![':'] + tail, ':', true) == seq![field] + pieces(tail, ':', true),
    decreases field.len(),
{
    let s = escaped(field) + seq![':'] + tail;
    let after = pieces(tail, ':', true);
    lemma_pieces_nonempty(tail, ':', true);
    if field.len() == 0 {
        assert(s.skip(1) == tail);
        assert(field == Seq::<char>::empty());
    } else {
        let rest = field.skip(1);
        if rest.len() > 0 {
            assert(rest.last() == field.last());
        }
        lemma_escaped_then(rest, tail);
        lemma_escaped_start(rest);
        let inner = escaped(rest) + seq![':'] + tail;
        if field[0] == ':' {
            assert(s.skip(2) == inner);
            assert(seq![':'] + rest == field);
        } else {
            assert(s.skip(1) == inner);
            assert(s[1] == inner[0]);
            assert(seq![field[0]] + rest == field);
        }
        assert(lead(seq![field[0]], seq![rest] + after) == seq![field] + after);
    }
}

/// A raw line reads back as its fields, provided that none but the last
/// ends with a backslash.
pub proof fn lemma_raw_line_round_trip(fields: Seq<Seq<char>>)
    requires
        fields.len() >= 1,
        forall|i: int|
            0 <= i < fields.len() - 1 ==> (#[trigger] fields[i]).len() == 0 || fields[i].last()
                != '\\',
    ensures
        pieces(raw_line(fields), ':', true) == fields,
    decreases fields.len(),
{
    if fields.len() == 1 {
        lemma_escaped_round_trip(fields[0]);
        assert(seq![fields[0]] == fields);
    } else {
        let rest = fields.skip(1);
        assert forall|i: int| 0 <= i < rest.len() - 1 implies (#[trigger] rest[i]).len() == 0
            || rest[i].last() != '\\' by {
            assert(rest[i] == fields[i + 1]);
        }
        lemma_raw_line_round_trip(rest);
        assert(fields[0].len() == 0 || fields[0].last() != '\\');
        lemma_escaped_then(fields[0], raw_line(rest));
        assert(seq![fields[0]] + rest == fields);
    }
}

/// Whether record `j` takes the place of record `i`: both have the same
/// name, and `j` is the one in use, or they agree in that and `j` came first.
pub open spec fn beats(recs: Seq<NetworkView>, j: int, i: int) -> bool {
    &&& recs[j].ssid == recs[i].ssid
    &&& (recs[j].in_use && !recs[i].in_use) || (recs[j].in_use == recs[i].in_use && j < i)
}

/// Whether record `i` stays: it has a name, and no record takes its place.
pub open spec fn survives(recs: Seq<NetworkView>, i: int) -> bool {
    &&& recs[i].ssid.len() > 0
    &&& forall|j: int| 0 <= j < recs.len() ==> !beats(recs, j, i)
}

/// The records among the first `n` that stay, in their order.
pub open spec fn kept_among(recs: Seq<NetworkView>, n: int) -> Seq<NetworkView>
    decreases n,
{
    if n <= 0 {
        Seq::empty()
    } else if survives(recs, n - 1) {
        kept_among(recs, n - 1).push(recs[n - 1])
    } else {
        kept_among(recs, n - 1)
    }
}

/// The records that stay, in their order.
pub open spec fn kept(recs: Seq<NetworkView>) -> Seq<NetworkView> {
    kept_among(recs, recs.len() as int)
}

/// Whether `a` has to stand before `b`: `a` is in use and `b` is not, or they
/// agree in that and `a` has the stronger signal.
pub open spec fn outranks(a: NetworkView, b: NetworkView) -> bool {
    (a.in_use && !b.in_use) || (a.in_use == b.in_use && a.signal > b.signal)
}

/// Where `r` goes into the ordered list `sorted`: in front of the records at
/// its end that `r` outranks, behind all others.
pub open spec fn slot(sorted: Seq<NetworkView>, r: NetworkView) -> int
    decreases sorted.len(),
{
    if sorted.len() > 0 && outranks(r, sorted.last()) {
        slot(sorted.drop_last(), r)
    } else {
        sorted.len() as int
    }
}

/// The records of `s` in display order: each one in turn goes to its
/// [`slot`] among those before it.
pub open spec fn ranked(s: Seq<NetworkView>) -> Seq<NetworkView>
    decreases s.len(),
{
    if s.len() == 0 {
        Seq::empty()
    } else {
        let before = ranked(s.drop_last());
        before.insert(slot(before, s.last()), s.last())
    }
}

/// The normalised list of the records `recs`.
pub open spec fn normalized(recs: Seq<NetworkView>) -> Seq<NetworkView> {
    ranked(kept(recs))
}

/// The normalised list that the raw scan text `raw` gives.
pub open spec fn scan_result(raw: Seq<char>) -> Seq<NetworkView> {
    normalized(records_of(lines(raw)))
}

/// Whether no two records of `s` have the same name, and none has no name.
pub open spec fn distinct_names(s: Seq<NetworkView>) -> bool {
    &&& forall|i: int| 0 <= i < s.len() ==> (#[trigger] s[i]).ssid.len() > 0
    &&& forall|i: int, j: int| 0 <= i < j < s.len() ==> (#[trigger] s[i]).ssid != (#[trigger] s[j]).ssid
}

/// Whether `s` is in display order: no record stands behind one that it
/// outranks.
pub open spec fn in_order(s: Seq<NetworkView>) -> bool {
    forall|i: int, j: int| 0 <= i < j < s.len() ==> !outranks(#[trigger] s[j], #[trigger] s[i])
}

/// Whether `s` is a normalised list.
pub open spec fn is_normalized(s: Seq<NetworkView>) -> bool {
    distinct_names(s) && in_order(s)
}

/// Whether some record of `s` has the name `name`.
pub open spec fn names(s: Seq<NetworkView>, name: Seq<char>) -> bool {
    exists|i: int| 0 <= i < s.len() && (#[trigger] s[i]).ssid == name
}

/// What [`slot`] gives: `r` outranks every record from there on, and not the
/// one before.
pub proof fn lemma_slot(sorted: Seq<NetworkView>, r: NetworkView)
    ensures
        0 <= slot(sorted, r) <= sorted.len(),
        forall|k: int| slot(sorted, r) <= k < sorted.len() ==> outranks(r, #[trigger] sorted[k]),
        slot(sorted, r) > 0 ==> !outranks(r, sorted[slot(sorted, r) - 1]),
    decreases sorted.len(),
{
    if sorted.len() > 0 && outranks(r, sorted.last()) {
        lemma_slot(sorted.drop_last(), r);
        let p = slot(sorted, r);
        assert forall|k: int| p <= k < sorted.len() implies outranks(r, #[trigger] sorted[k]) by {
            if k < sorted.len() - 1 {
                assert(sorted.drop_last()[k] == sorted[k]);
            }
        }
        if p > 0 {
            assert(sorted.drop_last()[p - 1] == sorted[p - 1]);
        }
    }
}

/// Ordering loses and adds nothing: [`ranked`] holds each record as often as
/// its argument does.
pub proof fn lemma_ranked_same_records(s: Seq<NetworkView>)
    ensures
        ranked(s).to_multiset() == s.to_multiset(),
        ranked(s).len() == s.len(),
    decreases s.len(),
{
    broadcast use vstd::seq_lib::group_to_multiset_ensures;

    if s.len() == 0 {
    } else {
        let before = ranked(s.drop_last());
        lemma_ranked_same_records(s.drop_last());
        lemma_slot(before, s.last());
        assert(s.drop_last().push(s.last()) == s);
    }
}

/// [`ranked`] names exactly the names of its argument.
pub proof fn lemma_ranked_same_names(s: Seq<NetworkView>, name: Seq<char>)
    ensures
        names(ranked(s), name) == names(s, name),
    decreases s.len(),
{
    if s.len() == 0 {
    } else {
        let short = s.drop_last();
        let before = ranked(short);
        let r = s.last();
        let p = slot(before, r);
        let after = before.insert(p, r);
        lemma_ranked_same_names(short, name);
        lemma_slot(before, r);
        if names(after, name) {
            let i = choose|i: int| 0 <= i < after.len() && (#[trigger] after[i]).ssid == name;
            if i == p {
                assert(s[s.len() - 1].ssid == name);
            } else {
                let k = if i < p {
                    i
                } else {
                    i - 1
                };
                assert(before[k].ssid == name);
                let m = choose|m: int| 0 <= m < short.len() && (#[trigger] short[m]).ssid == name;
                assert(s[m].ssid == name);
            }
        }
        if names(s, name) {
            let m = choose|m: int| 0 <= m < s.len() && (#[trigger] s[m]).ssid == name;
            if m == s.len() - 1 {
                assert(after[p].ssid == name);
            } else {
                assert(short[m].ssid == name);
                let k = choose|k: int| 0 <= k < before.len() && (#[trigger] before[k]).ssid == name;
                if k < p {
                    assert(after[k].ssid == name);
                } else {
                    assert(after[k + 1].ssid == name);
                }
            }
        }
    }
}

/// Ordering keeps names apart: where no two records of `s` share a name, none
/// of [`ranked`] do.
pub proof fn lemma_ranked_distinct(s: Seq<NetworkView>)
    requires
        distinct_names(s),
    ensures
        distinct_names(ranked(s)),
    decreases s.len(),
{
    if s.len() == 0 {
    } else {
        let short = s.drop_last();
        let before = ranked(short);
        let r = s.last();
        let p = slot(before, r);
        let after = before.insert(p, r);
        assert forall|i: int| 0 <= i < short.len() implies (#[trigger] short[i]).ssid.len() > 0 by {
            assert(short[i] == s[i]);
        }
        assert forall|i: int, j: int| 0 <= i < j < short.len() implies (#[trigger] short[i]).ssid != (
        #[trigger] short[j]).ssid by {
            assert(short[i] == s[i] && short[j] == s[j]);
        }
        lemma_ranked_distinct(short);
        lemma_slot(before, r);
        lemma_ranked_same_names(short, r.ssid);
        if names(short, r.ssid) {
            let m = choose|m: int| 0 <= m < short.len() && (#[trigger] short[m]).ssid == r.ssid;
            assert(s[m].ssid == s[s.len() - 1].ssid);
        }
        assert(!names(before, r.ssid));
        assert forall|i: int| 0 <= i < after.len() implies (#[trigger] after[i]).ssid.len() > 0 by {
            if i < p {
                assert(after[i] == before[i]);
            } else if i > p {
                assert(after[i] == before[i - 1]);
            } else {
                assert(after[i] == s[s.len() - 1]);
            }
        }
        assert forall|i: int, j: int| 0 <= i < j < after.len() implies (#[trigger] after[i]).ssid != (
        #[trigger] after[j]).ssid by {
            let a = if i < p {
                i
            } else {
                i - 1
            };
            let b = if j < p {
                j
            } else {
                j - 1
            };
            if i == p {
                assert(before[b].ssid != r.ssid);
            } else if j == p {
                assert(before[a].ssid != r.ssid);
            } else {
                assert(before[a].ssid != before[b].ssid);
            }
        }
    }
}

/// [`ranked`] is in display order.
pub proof fn lemma_ranked_in_order(s: Seq<NetworkView>)
    ensures
        in_order(ranked(s)),
    decreases s.len(),
{
    if s.len() == 0 {
    } else {
        let before = ranked(s.drop_last());
        let r = s.last();
        let p = slot(before, r);
        let after = before.insert(p, r);
        lemma_ranked_in_order(s.drop_last());
        lemma_slot(before, r);
        assert forall|i: int, j: int| 0 <= i < j < after.len() implies !outranks(
            #[trigger] after[j],
            #[trigger] after[i],
        ) by {
            let a = if i < p {
                i
            } else {
                i - 1
            };
            let b = if j < p {
                j
            } else {
                j - 1
            };
            if i == p {
                assert(outranks(r, before[b]));
            } else if j == p {
                if p > 0 {
                    assert(!outranks(r, before[p - 1]));
                    if a < p - 1 {
                        assert(!outranks(before[p - 1], before[a]));
                    }
                }
            } else {
                assert(!outranks(before[b], before[a]));
            }
        }
    }
}

/// Whether `x` is one of the first `n` records and [`survives`].
pub open spec fn stays_among(recs: Seq<NetworkView>, n: int, x: NetworkView) -> bool {
    exists|i: int| 0 <= i < n && #[trigger] survives(recs, i) && recs[i] == x
}

/// Each record that stays among the first `n` is one of them that
/// [`survives`], and no two that stay share a name.
pub proof fn lemma_kept_among(recs: Seq<NetworkView>, n: int)
    requires
        0 <= n <= recs.len(),
    ensures
        distinct_names(kept_among(recs, n)),
        forall|k: int|
            0 <= k < kept_among(recs, n).len() ==> stays_among(
                recs,
                n,
                #[trigger] kept_among(recs, n)[k],
            ),
    decreases n,
{
    if n > 0 {
        lemma_kept_among(recs, n - 1);
        let short = kept_among(recs, n - 1);
        let now = kept_among(recs, n);
        assert forall|k: int| 0 <= k < short.len() implies stays_among(recs, n, #[trigger] short[k]) by {
            assert(stays_among(recs, n - 1, short[k]));
            let i = choose|i: int| 0 <= i < n - 1 && #[trigger] survives(recs, i) && recs[i] == short[k];
            assert(0 <= i < n && survives(recs, i) && recs[i] == short[k]);
        }
        if survives(recs, n - 1) {
            assert(stays_among(recs, n, recs[n - 1]));
            assert forall|k: int| 0 <= k < now.len() implies stays_among(recs, n, #[trigger] now[k]) by {
                if k < short.len() {
                    assert(now[k] == short[k]);
                }
            }
            assert forall|a: int, b: int| 0 <= a < b < now.len() implies (#[trigger] now[a]).ssid != (
            #[trigger] now[b]).ssid by {
                if b == short.len() {
                    assert(stays_among(recs, n - 1, short[a]));
                    let i = choose|i: int|
                        0 <= i < n - 1 && #[trigger] survives(recs, i) && recs[i] == short[a];
                    if recs[i].ssid == recs[n - 1].ssid {
                        assert(beats(recs, i, n - 1) || beats(recs, n - 1, i));
                    }
                } else {
                    assert(short[a].ssid != short[b].ssid);
                }
            }
        }
    }
}

/// Every normalised list names each network once, has no nameless record,
/// and is in display order.
pub proof fn lemma_normalized(recs: Seq<NetworkView>)
    ensures
        is_normalized(normalized(recs)),
{
    lemma_kept_among(recs, recs.len() as int);
    lemma_ranked_distinct(kept(recs));
    lemma_ranked_in_order(kept(recs));
}

/// Every record that is read from a line has a signal that is a percentage.
pub proof fn lemma_records_in_range(lines: Seq<Seq<char>>)
    ensures
        signals_in_range(records_of(lines)),
    decreases lines.len(),
{
    if lines.len() > 0 {
        lemma_records_in_range(lines.drop_last());
    }
}

/// Normalising makes up no signal: where every signal of the records is a
/// percentage, so is every signal of their normalised list.
pub proof fn lemma_normalized_in_range(recs: Seq<NetworkView>)
    requires
        signals_in_range(recs),
    ensures
        signals_in_range(normalized(recs)),
{
    assert forall|k: int| 0 <= k < normalized(recs).len() implies (#[trigger] normalized(
        recs,
    )[k]).signal <= MAX_SIGNAL by {
        lemma_normalized_from_input(recs, k);
        let i = choose|i: int| 0 <= i < recs.len() && recs[i] == normalized(recs)[k];
        assert(recs[i].signal <= MAX_SIGNAL);
    }
}

/// Whatever the raw text of a scan, the list it gives names each network
/// once, has no nameless record, is in display order, and holds no signal
/// above [`MAX_SIGNAL`].
pub proof fn lemma_scan_result(raw: Seq<char>)
    ensures
        is_normalized(scan_result(raw)),
        signals_in_range(scan_result(raw)),
{
    lemma_normalized(records_of(lines(raw)));
    lemma_records_in_range(lines(raw));
    lemma_normalized_in_range(records_of(lines(raw)));
}

/// In a list in display order the records in use precede the others, and
/// within each group the signal never rises.
pub proof fn lemma_in_use_first(s: Seq<NetworkView>, i: int, j: int)
    requires
        in_order(s),
        0 <= i < j < s.len(),
    ensures
        s[j].in_use ==> s[i].in_use,
        s[i].in_use == s[j].in_use ==> s[i].signal >= s[j].signal,
{
    assert(!outranks(s[j], s[i]));
}

/// Ordering keeps every record: each record of `s` stands in [`ranked`].
pub proof fn lemma_ranked_holds(s: Seq<NetworkView>, i: int)
    requires
        0 <= i < s.len(),
    ensures
        ranked(s).contains(s[i]),
{
    lemma_ranked_same_records(s);
    assert(s.contains(s[i]));
    to_multiset_contains(s, s[i]);
    to_multiset_contains(ranked(s), s[i]);
}

/// Ordering is stable: of two records of which the later does not outrank
/// the earlier, the earlier stands first in [`ranked`] too.
pub proof fn lemma_ranked_stable(s: Seq<NetworkView>, a: int, b: int)
    requires
        0 <= a < b < s.len(),
        !outranks(s[b], s[a]),
    ensures
        exists|p: int, q: int|
            0 <= p < q < ranked(s).len() && #[trigger] ranked(s)[p] == s[a] && #[trigger] ranked(
                s,
            )[q] == s[b],
    decreases s.len(),
{
    let short = s.drop_last();
    let before = ranked(short);
    let r = s.last();
    let k = slot(before, r);
    let after = ranked(s);
    lemma_slot(before, r);
    lemma_ranked_same_records(short);
    assert(after == before.insert(k, r));
    if b < s.len() - 1 {
        assert(short[a] == s[a] && short[b] == s[b]);
        lemma_ranked_stable(short, a, b);
        let (p, q) = choose|p: int, q: int|
            0 <= p < q < before.len() && #[trigger] before[p] == s[a] && #[trigger] before[q]
                == s[b];
        let p_now = if p < k {
            p
        } else {
            p + 1
        };
        let q_now = if q < k {
            q
        } else {
            q + 1
        };
        assert(0 <= p_now < q_now < after.len() && after[p_now] == s[a] && after[q_now] == s[b]);
    } else {
        assert(short[a] == s[a]);
        lemma_ranked_holds(short, a);
        let p = choose|p: int| 0 <= p < before.len() && before[p] == s[a];
        if p >= k {
            assert(outranks(r, before[p]));
        }
        assert(0 <= p < k < after.len() && after[p] == s[a] && after[k] == s[b]);
    }
}

/// A record that stays among the first `n` stands in [`kept_among`].
pub proof fn lemma_kept_holds(recs: Seq<NetworkView>, n: int, i: int)
    requires
        0 <= i < n <= recs.len(),
        survives(recs, i),
    ensures
        kept_among(recs, n).contains(recs[i]),
    decreases n,
{
    let now = kept_among(recs, n);
    if i == n - 1 {
        assert(now.last() == recs[i]);
    } else {
        lemma_kept_holds(recs, n - 1, i);
        let short = kept_among(recs, n - 1);
        let k = choose|k: int| 0 <= k < short.len() && short[k] == recs[i];
        assert(now[k] == recs[i]);
    }
}

/// Among the first `n` records, a name that one of them bears has a bearer
/// whose place none of them takes.
proof fn lemma_winner(recs: Seq<NetworkView>, name: Seq<char>, n: int) -> (i: int)
    requires
        0 <= n <= recs.len(),
        exists|j: int| 0 <= j < n && (#[trigger] recs[j]).ssid == name,
    ensures
        0 <= i < n,
        recs[i].ssid == name,
        forall|j: int| 0 <= j < n ==> !beats(recs, j, i),
    decreases n,
{
    let last = n - 1;
    if exists|j: int| 0 <= j < last && (#[trigger] recs[j]).ssid == name {
        let i = lemma_winner(recs, name, last);
        if recs[last].ssid == name && recs[last].in_use && !recs[i].in_use {
            assert forall|j: int| 0 <= j < n implies !beats(recs, j, last) by {
                if j < last && beats(recs, j, last) {
                    assert(beats(recs, j, i));
                }
            }
            last
        } else {
            i
        }
    } else {
        let j = choose|j: int| 0 <= j < n && (#[trigger] recs[j]).ssid == name;
        assert(j == last);
        last
    }
}

/// A normalised list names exactly the names of its records, but for the
/// empty name: no network with a name is lost, and none is made up.
pub proof fn lemma_normalized_names(recs: Seq<NetworkView>, name: Seq<char>)
    ensures
        names(normalized(recs), name) <==> name.len() > 0 && names(recs, name),
{
    let n = recs.len() as int;
    lemma_ranked_same_names(kept(recs), name);
    lemma_kept_among(recs, n);
    if names(kept(recs), name) {
        let k = choose|k: int| 0 <= k < kept(recs).len() && (#[trigger] kept(recs)[k]).ssid == name;
        assert(stays_among(recs, n, kept(recs)[k]));
        let i = choose|i: int| 0 <= i < n && #[trigger] survives(recs, i) && recs[i] == kept(recs)[k];
        assert(recs[i].ssid == name);
    }
    if name.len() > 0 && names(recs, name) {
        let i = lemma_winner(recs, name, n);
        assert(survives(recs, i));
        lemma_kept_holds(recs, n, i);
        let k = choose|k: int| 0 <= k < kept(recs).len() && kept(recs)[k] == recs[i];
        assert(kept(recs)[k].ssid == name);
    }
}

/// Every record of a normalised list is one of the records it was made of.
pub proof fn lemma_normalized_from_input(recs: Seq<NetworkView>, k: int)
    requires
        0 <= k < normalized(recs).len(),
    ensures
        recs.contains(normalized(recs)[k]),
        stays_among(recs, recs.len() as int, normalized(recs)[k]),
{
    let n = recs.len() as int;
    let x = normalized(recs)[k];
    lemma_ranked_same_records(kept(recs));
    assert(normalized(recs).contains(x));
    to_multiset_contains(normalized(recs), x);
    to_multiset_contains(kept(recs), x);
    assert(kept(recs).contains(x));
    let m = choose|m: int| 0 <= m < kept(recs).len() && kept(recs)[m] == x;
    lemma_kept_among(recs, n);
    assert(stays_among(recs, n, kept(recs)[m]));
    let i = choose|i: int| 0 <= i < n && #[trigger] survives(recs, i) && recs[i] == x;
    assert(recs[i] == x);
}

/// Whether `a` has to stand before `b`.
fn ranks_above(a: &Network, b: &Network) -> (r: bool)
    ensures
        r == outranks(a@, b@),
{
    (a.in_use && !b.in_use) || (a.in_use == b.in_use && a.signal > b.signal)
}

/// Whether record `i` of `records` stays.
fn stays(records: &Vec<Network>, i: usize) -> (r: bool)
    requires
        i < records@.len(),
    ensures
        r == survives(views(records@), i as int),
{
    let ghost recs = views(records@);
    let me = &records[i];
    if me.ssid.as_str().is_empty() {
        return false;
    }
    let mut j: usize = 0;
    while j < records.len()
        invariant
            j <= records@.len(),
            i < records@.len(),
            recs == views(records@),
            me@ == recs[i as int],
            forall|k: int| 0 <= k < j ==> !beats(recs, k, i as int),
        decreases records@.len() - j,
    {
        let other = &records[j];
        if other.ssid == me.ssid && ((other.in_use && !me.in_use) || (other.in_use == me.in_use && j
            < i)) {
            assert(beats(recs, j as int, i as int));
            return false;
        }
        j += 1;
    }
    true
}

/// Normalises `records`: the list that [`normalized`] gives, which names
/// every network once and is in display order.
pub fn normalize(records: &Vec<Network>) -> (out: Vec<Network>)
    ensures
        views(out@) == normalized(views(records@)),
        is_normalized(views(out@)),
        signals_in_range(views(records@)) ==> signals_in_range(views(out@)),
{
    let ghost recs = views(records@);
    let mut out: Vec<Network> = Vec::new();
    let mut i: usize = 0;
    while i < records.len()
        invariant
            i <= records@.len(),
            recs == views(records@),
            views(out@) == ranked(kept_among(recs, i as int)),
        decreases records@.len() - i,
    {
        if stays(records, i) {
            let r = records[i].clone();
            let ghost sorted = views(out@);
            let ghost before = kept_among(recs, i as int);
            let mut p: usize = out.len();
            assert(sorted.take(p as int) == sorted);
            while p > 0 && ranks_above(&r, &out[p - 1])
                invariant
                    p <= out@.len(),
                    sorted == views(out@),
                    slot(sorted, r@) == slot(sorted.take(p as int), r@),
                decreases p,
            {
                assert(sorted.take(p as int).drop_last() == sorted.take(p - 1));
                p -= 1;
            }
            assert(before.push(recs[i as int]).drop_last() == before);
            out.insert(p, r);
        }
        i += 1;
    }
    proof {
        lemma_normalized(recs);
        if signals_in_range(recs) {
            lemma_normalized_in_range(recs);
        }
    }
    out
}

/// Reads the raw text of a scan, line by line, and normalises what it holds:
/// the list that [`scan_result`] gives.
pub fn get_networks(raw: &str) -> (out: Vec<Network>)
    ensures
        views(out@) == scan_result(raw@),
        is_normalized(views(out@)),
        signals_in_range(views(out@)),
{
    let chars = chars_of(raw);
    let rows = split_lines(&chars);
    let ghost all = texts(rows@);
    let mut records: Vec<Network> = Vec::new();
    let mut i: usize = 0;
    while i < rows.len()
        invariant
            i <= rows@.len(),
            all == texts(rows@),
            views(records@) == records_of(all.take(i as int)),
        decreases rows@.len() - i,
    {
        assert(all.take(i + 1).drop_last() == all.take(i as int));
        match record(&rows[i]) {
            Some(n) => {
                records.push(n);
            },
            None => {},
        }
        i += 1;
    }
    assert(all.take(i as int) == all);
    proof {
        lemma_records_in_range(all);
    }
    normalize(&records)
}

} // verus!
