//! The Wi-Fi adapters of the host: reading them from a device listing,
//! picking the one to start with, and going round them.
//!
//! A device listing holds one device per line: its name, its kind and its
//! state, separated by colons. Only devices of the kind `wifi` count.

use crate::text::{
    chars_of, eq_ignoring_case, lines, pieces, same, same_ignoring_case, spells, split_lines,
    split_pieces, strings, text_of, texts,
};
use vstd::prelude::*;

verus! {

/// The adapter that a line of a device listing names: the first field, where
/// it is not empty and the second field is `wifi`.
pub open spec fn wifi_name(line: Seq<char>) -> Option<Seq<char>> {
    let p = pieces(line, ':', false);
    if p.len() >= 2 && p[1] == "wifi"@ && p[0].len() > 0 {
        Some(p[0])
    } else {
        None
    }
}

/// The adapters that the lines name, in the order of the lines.
pub open spec fn wifi_names(lines: Seq<Seq<char>>) -> Seq<Seq<char>>
    decreases lines.len(),
{
    if lines.len() == 0 {
        Seq::empty()
    } else {
        let before = wifi_names(lines.drop_last());
        match wifi_name(lines.last()) {
            Some(name) => before.push(name),
            None => before,
        }
    }
}

/// The Wi-Fi adapters that the device listing `status` names, in its order.
pub fn get_wifi_interfaces(status: &str) -> (out: Vec<String>)
    ensures
        strings(out@) == wifi_names(lines(status@)),
{
    let chars = chars_of(status);
    let rows = split_lines(&chars);
    let ghost all = texts(rows@);
    let mut out: Vec<String> = Vec::new();
    let mut i: usize = 0;
    while i < rows.len()
        invariant
            i <= rows@.len(),
            all == texts(rows@),
            strings(out@) == wifi_names(all.take(i as int)),
        decreases rows@.len() - i,
    {
        assert(all.take(i + 1).drop_last() == all.take(i as int));
        let parts = split_pieces(&rows[i], ':', false);
        if parts.len() >= 2 {
            if spells(&parts[1], "wifi") && parts[0].len() > 0 {
                let name = text_of(&parts[0]);
                out.push(name);
            }
        }
        i += 1;
    }
    assert(all.take(i as int) == all);
    out
}

/// Whether a line of a device listing shows a Wi-Fi adapter that is connected
/// or connecting; the case of the letters of the state does not count.
pub open spec fn is_active(line: Seq<char>) -> bool {
    let p = pieces(line, ':', false);
    p.len() >= 3 && p[1] == "wifi"@ && (same_ignoring_case(p[2], "connected"@)
        || same_ignoring_case(p[2], "connecting"@))
}

/// The name in the first of the lines that [`is_active`] and names one of
/// `interfaces`, if there is such a line.
pub open spec fn first_active(lines: Seq<Seq<char>>, interfaces: Seq<Seq<char>>) -> Option<
    Seq<char>,
>
    decreases lines.len(),
{
    if lines.len() == 0 {
        None
    } else if is_active(lines[0]) && interfaces.contains(pieces(lines[0], ':', false)[0]) {
        Some(pieces(lines[0], ':', false)[0])
    } else {
        first_active(lines.skip(1), interfaces)
    }
}

/// The adapter to start with: always one of `interfaces`, and none only
/// where there is none. It is the first adapter that the listing shows
/// connected or connecting; where the listing shows none such, or could not
/// be had, it is the first of `interfaces`.
pub open spec fn default_interface(interfaces: Seq<Seq<char>>, status: Option<Seq<char>>) -> Option<
    Seq<char>,
> {
    if interfaces.len() == 0 {
        None
    } else {
        match status {
            None => Some(interfaces[0]),
            Some(text) => match first_active(lines(text), interfaces) {
                Some(name) => Some(name),
                None => Some(interfaces[0]),
            },
        }
    }
}

/// What [`first_active`] finds is one of `interfaces`.
pub proof fn lemma_first_active_known(lines: Seq<Seq<char>>, interfaces: Seq<Seq<char>>)
    ensures
        first_active(lines, interfaces) matches Some(name) ==> interfaces.contains(name),
    decreases lines.len(),
{
    if lines.len() > 0 {
        lemma_first_active_known(lines.skip(1), interfaces);
    }
}

/// The choice fails only where no adapter is known, and what is chosen is
/// one of the known adapters.
pub proof fn lemma_default_is_known(interfaces: Seq<Seq<char>>, status: Option<Seq<char>>)
    ensures
        default_interface(interfaces, status) is None <==> interfaces.len() == 0,
        default_interface(interfaces, status) matches Some(name) ==> interfaces.contains(name),
{
    if interfaces.len() > 0 {
        assert(interfaces.contains(interfaces[0]));
        match status {
            Some(text) => {
                lemma_first_active_known(lines(text), interfaces);
            },
            None => {},
        }
    }
}

/// No adapter that a device listing names has an empty name.
pub proof fn lemma_wifi_names_not_empty(lines: Seq<Seq<char>>, i: int)
    requires
        0 <= i < wifi_names(lines).len(),
    ensures
        wifi_names(lines)[i].len() > 0,
    decreases lines.len(),
{
    if lines.len() > 0 {
        let before = wifi_names(lines.drop_last());
        if i < before.len() {
            lemma_wifi_names_not_empty(lines.drop_last(), i);
        }
    }
}

/// The characters of a text that may be missing.
pub open spec fn shown(text: Option<&str>) -> Option<Seq<char>> {
    match text {
        Some(t) => Some(t@),
        None => None,
    }
}

/// Whether `name` is one of `interfaces`.
pub fn is_known(interfaces: &Vec<String>, name: &str) -> (r: bool)
    ensures
        r == strings(interfaces@).contains(name@),
{
    let ghost all = strings(interfaces@);
    let mut i: usize = 0;
    while i < interfaces.len()
        invariant
            i <= interfaces@.len(),
            all == strings(interfaces@),
            forall|k: int| 0 <= k < i ==> all[k] != name@,
        decreases interfaces@.len() - i,
    {
        assert(all[i as int] == interfaces@[i as int]@);
        if same(interfaces[i].as_str(), name) {
            return true;
        }
        i += 1;
    }
    false
}

/// Picks the adapter to start with, as [`default_interface`] says. `status`
/// is the device listing, or `None` where it could not be had. The result is
/// one of `interfaces`, and `None` only where there is none.
pub fn pick_default_interface(interfaces: &Vec<String>, status: Option<&str>) -> (r: Option<String>)
    ensures
        match r {
            Some(name) => default_interface(strings(interfaces@), shown(status)) == Some(name@),
            None => default_interface(strings(interfaces@), shown(status)) is None,
        },
        r is None <==> interfaces@.len() == 0,
        r matches Some(name) ==> strings(interfaces@).contains(name@),
{
    proof {
        lemma_default_is_known(strings(interfaces@), shown(status));
    }
    if interfaces.len() == 0 {
        return None;
    }
    let text = match status {
        Some(t) => t,
        None => {
            return Some(interfaces[0].clone());
        },
    };
    let chars = chars_of(text);
    let rows = split_lines(&chars);
    let connected = chars_of("connected");
    let connecting = chars_of("connecting");
    let ghost all = texts(rows@);
    let ghost known = strings(interfaces@);
    let mut i: usize = 0;
    assert(all.skip(0) == all);
    while i < rows.len()
        invariant
            i <= rows@.len(),
            all == texts(rows@),
            all == lines(text@),
            known == strings(interfaces@),
            interfaces@.len() > 0,
            status == Some(text),
            connected@ == "connected"@,
            connecting@ == "connecting"@,
            first_active(all, known) == first_active(all.skip(i as int), known),
            default_interface(known, shown(status)) is Some,
            default_interface(known, shown(status)) matches Some(name) ==> known.contains(name),
        decreases rows@.len() - i,
    {
        assert(all.skip(i as int).skip(1) == all.skip(i + 1));
        let parts = split_pieces(&rows[i], ':', false);
        if parts.len() >= 3 {
            if spells(&parts[1], "wifi") && (eq_ignoring_case(&parts[2], &connected)
                || eq_ignoring_case(&parts[2], &connecting)) {
                let name = text_of(&parts[0]);
                if is_known(interfaces, name.as_str()) {
                    return Some(name);
                }
            }
        }
        i += 1;
    }
    Some(interfaces[0].clone())
}

/// Whether `p` is the first place at which `name` stands in `names`.
pub open spec fn is_first_at(names: Seq<Seq<char>>, name: Seq<char>, p: int) -> bool {
    &&& 0 <= p < names.len()
    &&& names[p] == name
    &&& forall|k: int| 0 <= k < p ==> names[k] != name
}

/// The first place at which `name` stands in `names`; 0 where it stands
/// nowhere.
pub open spec fn position(names: Seq<Seq<char>>, name: Seq<char>) -> int {
    if exists|p: int| is_first_at(names, name, p) {
        choose|p: int| is_first_at(names, name, p)
    } else {
        0
    }
}

/// The place after `i` in a round of `n` places.
pub open spec fn following(i: int, n: int) -> int {
    if i + 1 >= n {
        0
    } else {
        i + 1
    }
}

/// The adapter after `current` in the round of `names`: the one that follows
/// the first place of `current`, the first one after the last. Where
/// `current` is not among them the round starts from the first, and where
/// there is none `current` stays.
pub open spec fn next_interface(names: Seq<Seq<char>>, current: Seq<char>) -> Seq<char> {
    if names.len() == 0 {
        current
    } else {
        names[following(position(names, current), names.len() as int)]
    }
}

/// `current` after `k` steps round `names`.
pub open spec fn cycled(names: Seq<Seq<char>>, current: Seq<char>, k: nat) -> Seq<char>
    decreases k,
{
    if k == 0 {
        current
    } else {
        next_interface(names, cycled(names, current, (k - 1) as nat))
    }
}

/// Whether no name stands twice in `names`.
pub open spec fn all_different(names: Seq<Seq<char>>) -> bool {
    forall|i: int, j: int| 0 <= i < j < names.len() ==> names[i] != names[j]
}

/// A name has one first place only.
pub proof fn lemma_first_place(names: Seq<Seq<char>>, name: Seq<char>, p: int)
    requires
        is_first_at(names, name, p),
    ensures
        position(names, name) == p,
{
    let q = choose|q: int| is_first_at(names, name, q);
    if q < p {
        assert(names[q] == name);
    } else if p < q {
        assert(names[p] == name);
    }
}

/// Going round keeps the order of the adapters: among different names, the
/// one at place `i` is followed by the one at place `i + 1`, and the last by
/// the first.
pub proof fn lemma_next_in_order(names: Seq<Seq<char>>, i: int)
    requires
        all_different(names),
        0 <= i < names.len(),
    ensures
        position(names, names[i]) == i,
        next_interface(names, names[i]) == names[following(i, names.len() as int)],
{
    assert(is_first_at(names, names[i], i));
    lemma_first_place(names, names[i], i);
}

/// `k` steps from place `i` in a round of different names, for `k` up to
/// their number, lead to place `i + k`, counted round.
pub proof fn lemma_cycled(names: Seq<Seq<char>>, i: int, k: nat)
    requires
        all_different(names),
        0 <= i < names.len(),
        k <= names.len(),
    ensures
        cycled(names, names[i], k) == names[if i + k < names.len() {
            i + k
        } else {
            i + k - names.len()
        }],
    decreases k,
{
    if k > 0 {
        lemma_cycled(names, i, (k - 1) as nat);
        let before: int = if i + k - 1 < names.len() {
            i + k - 1
        } else {
            i + k - 1 - names.len()
        };
        lemma_next_in_order(names, before);
    }
}

/// As many steps as there are adapters lead back to the one that the round
/// started from.
pub proof fn lemma_full_round(names: Seq<Seq<char>>, current: Seq<char>)
    requires
        all_different(names),
        names.contains(current),
    ensures
        cycled(names, current, names.len()) == current,
{
    let i = choose|i: int| 0 <= i < names.len() && names[i] == current;
    lemma_cycled(names, i, names.len());
}

/// The place of `name` among `names`, as [`position`] says.
pub fn position_of(names: &Vec<String>, name: &str) -> (p: usize)
    ensures
        p == position(strings(names@), name@),
        names@.len() > 0 ==> p < names@.len(),
{
    let ghost all = strings(names@);
    let mut i: usize = 0;
    while i < names.len()
        invariant
            i <= names@.len(),
            all == strings(names@),
            forall|k: int| 0 <= k < i ==> all[k] != name@,
        decreases names@.len() - i,
    {
        if same(names[i].as_str(), name) {
            proof {
                lemma_first_place(all, name@, i as int);
            }
            return i;
        }
        i += 1;
    }
    assert forall|p: int| !is_first_at(all, name@, p) by {}
    0
}

/// The adapter after `current` in the round of `names`, as
/// [`next_interface`] says.
pub fn cycle(names: &Vec<String>, current: &str) -> (next: String)
    ensures
        next@ == next_interface(strings(names@), current@),
{
    if names.len() == 0 {
        return current.to_owned();
    }
    let at = position_of(names, current);
    let to: usize = if at + 1 >= names.len() {
        0
    } else {
        at + 1
    };
    names[to].clone()
}

} // verus!
