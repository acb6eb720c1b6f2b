//! Which zone owns a name, and what a name is called inside its zone.
//!
//! Zones are found by comparing text: no registry and no list of public
//! suffixes is consulted.

use crate::error::{text_result, Error, ErrorView};
use crate::text::{chars_of, join, ends_with, text_eq};
use vstd::prelude::*;

verus! {

/// A dot and then `zone`: what every name below `zone` ends with.
pub open spec fn dotted(zone: Seq<char>) -> Seq<char> {
    seq!['.'] + zone
}

/// Whether `fqdn` is `zone` itself or a name below it.
pub open spec fn lies_in(fqdn: Seq<char>, zone: Seq<char>) -> bool {
    fqdn == zone || dotted(zone).is_suffix_of(fqdn)
}

/// The first of `zones`, from position `start` on, that `fqdn` lies in.
pub open spec fn first_zone_from(fqdn: Seq<char>, zones: Seq<Seq<char>>, start: int) -> Option<
    Seq<char>,
>
    decreases zones.len() - start,
{
    if start < 0 || start >= zones.len() {
        None
    } else if lies_in(fqdn, zones[start]) {
        Some(zones[start])
    } else {
        first_zone_from(fqdn, zones, start + 1)
    }
}

/// The position of the last dot in `s`, or -1 where `s` has none.
pub open spec fn last_dot(s: Seq<char>) -> int
    decreases s.len(),
{
    if s.len() == 0 {
        -1
    } else if s.last() == '.' {
        s.len() - 1
    } else {
        last_dot(s.drop_last())
    }
}

/// The last two labels of `fqdn` with the dot between them: what follows
/// the last dot but one, or all of `fqdn` where it has a single dot.
/// `None` where `fqdn` has no dot.
pub open spec fn last_two_labels(fqdn: Seq<char>) -> Option<Seq<char>> {
    let dot = last_dot(fqdn);
    if dot < 0 {
        None
    } else {
        Some(fqdn.skip(last_dot(fqdn.take(dot)) + 1))
    }
}

/// The zone that owns `fqdn`: the first zone of the allow-list that it
/// lies in; where there is no list or none of it fits, its last two
/// labels; and a refusal where it has fewer than two labels.
pub open spec fn zone_of(fqdn: Seq<char>, filter: Option<Seq<Seq<char>>>) -> Result<
    Seq<char>,
    ErrorView,
> {
    let listed = match filter {
        Some(zones) => first_zone_from(fqdn, zones, 0),
        None => None,
    };
    match listed {
        Some(zone) => Ok(zone),
        None => match last_two_labels(fqdn) {
            Some(zone) => Ok(zone),
            None => Err(ErrorView::InvalidRequest("Cannot extract zone from "@ + fqdn)),
        },
    }
}

/// What `fqdn` is called inside `zone`: nothing where it is the zone
/// itself, what stands before the dot and the zone where it lies below
/// the zone, and all of it where it lies elsewhere.
pub open spec fn relative_name(fqdn: Seq<char>, zone: Seq<char>) -> Seq<char> {
    if fqdn == zone {
        Seq::empty()
    } else if dotted(zone).is_suffix_of(fqdn) {
        fqdn.take(fqdn.len() - zone.len() - 1)
    } else {
        fqdn
    }
}

/// Whether `fqdn` is `zone` itself or a name below it.
pub fn name_lies_in(fqdn: &str, zone: &str) -> (inside: bool)
    ensures
        inside == lies_in(fqdn@, zone@),
{
    if text_eq(fqdn, zone) {
        return true;
    }
    proof {
        reveal_strlit(".");
        assert("."@ =~= seq!['.']);
    }
    let tail = join(".", zone);
    ends_with(fqdn, tail.as_str())
}

/// The position of the last dot among the first `end` characters.
fn last_dot_before(chars: &Vec<char>, end: usize) -> (found: Option<usize>)
    requires
        end <= chars.len(),
    ensures
        match found {
            Some(i) => i < end && i == last_dot(chars@.take(end as int)),
            None => last_dot(chars@.take(end as int)) == -1,
        },
{
    let mut i: usize = end;
    while i > 0
        invariant
            i <= end <= chars.len(),
            last_dot(chars@.take(end as int)) == last_dot(chars@.take(i as int)),
        decreases i,
    {
        if chars[i - 1] == '.' {
            return Some(i - 1);
        }
        assert(chars@.take(i as int).drop_last() =~= chars@.take(i - 1));
        i -= 1;
    }
    None
}

/// The zone that owns `fqdn` under the allow-list `filter`.
pub fn resolve_zone(fqdn: &str, filter: &Option<Vec<String>>) -> (zone: Result<String, Error>)
    ensures
        text_result(zone) == zone_of(fqdn@, filter.deep_view()),
{
    if let Some(zones) = filter {
        let ghost listed = zones.deep_view();
        let mut i: usize = 0;
        while i < zones.len()
            invariant
                i <= zones.len(),
                listed == zones.deep_view(),
                filter.deep_view() == Some(listed),
                first_zone_from(fqdn@, listed, 0) == first_zone_from(fqdn@, listed, i as int),
            decreases zones.len() - i,
        {
            assert(listed[i as int] == zones[i as int]@);
            if name_lies_in(fqdn, zones[i].as_str()) {
                return Ok(zones[i].clone());
            }
            i += 1;
        }
    }
    let chars = chars_of(fqdn);
    assert(chars@.take(chars.len() as int) =~= fqdn@);
    match last_dot_before(&chars, chars.len()) {
        None => Err(Error::InvalidRequest(join("Cannot extract zone from ", fqdn))),
        Some(dot) => {
            let start: usize = match last_dot_before(&chars, dot) {
                Some(previous) => previous + 1,
                None => 0,
            };
            Ok(fqdn.substring_char(start, chars.len()).to_owned())
        },
    }
}

/// What `fqdn` is called inside `zone`.
pub fn relative_name_in(fqdn: &str, zone: &str) -> (name: String)
    ensures
        name@ == relative_name(fqdn@, zone@),
{
    if text_eq(fqdn, zone) {
        return String::new();
    }
    proof {
        reveal_strlit(".");
        assert("."@ =~= seq!['.']);
    }
    let tail = join(".", zone);
    if ends_with(fqdn, tail.as_str()) {
        let length = fqdn.unicode_len();
        let kept = length - zone.unicode_len() - 1;
        fqdn.substring_char(0, kept).to_owned()
    } else {
        fqdn.to_owned()
    }
}

/// The last dot of a text is a dot, and no dot follows it.
pub proof fn lemma_last_dot_is_last(s: Seq<char>)
    ensures
        -1 <= last_dot(s) < s.len(),
        last_dot(s) >= 0 ==> s[last_dot(s)] == '.',
        forall|i: int| last_dot(s) < i < s.len() ==> s[i] != '.',
    decreases s.len(),
{
    if s.len() > 0 && s.last() != '.' {
        lemma_last_dot_is_last(s.drop_last());
        assert forall|i: int| last_dot(s) < i < s.len() implies s[i] != '.' by {
            if i < s.len() - 1 {
                assert(s.drop_last()[i] == s[i]);
            }
        }
    }
}

/// The last two labels of a name are its end, and hold one dot: the last
/// dot of the name.
pub proof fn lemma_last_two_labels_hold_one_dot(fqdn: Seq<char>)
    requires
        last_dot(fqdn) >= 0,
    ensures
        last_two_labels(fqdn) matches Some(zone) && zone.is_suffix_of(fqdn) && last_dot(zone)
            >= 0 && last_dot(zone.take(last_dot(zone))) == -1,
{
    let dot = last_dot(fqdn);
    let head = fqdn.take(dot);
    let start = last_dot(head) + 1;
    let zone = fqdn.skip(start);
    lemma_last_dot_is_last(fqdn);
    lemma_last_dot_is_last(head);
    assert(zone =~= fqdn.subrange(fqdn.len() - zone.len(), fqdn.len() as int));
    lemma_last_dot_at(zone, dot - start);
    assert(zone.take(dot - start) =~= head.skip(start));
    assert forall|i: int| 0 <= i < head.skip(start).len() implies head.skip(start)[i] != '.' by {
        assert(head.skip(start)[i] == head[i + start]);
    }
    lemma_last_dot_at(head.skip(start), -1);
}

/// The last dot of a text stands where a dot stands that no dot follows;
/// a text without a dot has none.
proof fn lemma_last_dot_at(s: Seq<char>, k: int)
    requires
        -1 <= k < s.len(),
        k >= 0 ==> s[k] == '.',
        forall|i: int| k < i < s.len() ==> s[i] != '.',
    ensures
        last_dot(s) == k,
    decreases s.len(),
{
    if s.len() > 0 && k < s.len() - 1 {
        assert forall|i: int| k < i < s.drop_last().len() implies s.drop_last()[i] != '.' by {
            assert(s.drop_last()[i] == s[i]);
        }
        lemma_last_dot_at(s.drop_last(), k);
    }
}

/// Of the zones that a name lies in, the one that the allow-list names
/// first is the one that owns it.
pub proof fn lemma_first_listed_zone_owns(fqdn: Seq<char>, zones: Seq<Seq<char>>, i: int)
    requires
        0 <= i < zones.len(),
        lies_in(fqdn, zones[i]),
        forall|j: int| 0 <= j < i ==> !lies_in(fqdn, #[trigger] zones[j]),
    ensures
        zone_of(fqdn, Some(zones)) == Ok::<Seq<char>, ErrorView>(zones[i]),
{
    lemma_first_zone_skips(fqdn, zones, 0, i);
}

/// Zones that a name does not lie in are passed over.
proof fn lemma_first_zone_skips(fqdn: Seq<char>, zones: Seq<Seq<char>>, start: int, i: int)
    requires
        0 <= start <= i < zones.len(),
        forall|j: int| start <= j < i ==> !lies_in(fqdn, #[trigger] zones[j]),
    ensures
        first_zone_from(fqdn, zones, start) == first_zone_from(fqdn, zones, i),
    decreases i - start,
{
    if start < i {
        lemma_first_zone_skips(fqdn, zones, start + 1, i);
    }
}

} // verus!
