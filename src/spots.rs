//! The directory of surf spots: names to the forecast service's spot ids, and
//! its listing as a document.
use vstd::prelude::*;
use vstd::string::*;
use vstd::view::View as _;
use crate::base::{lemma_models_push, line_break, models, plain, Span, SpanModel, View};
use crate::text::{align_left, align_right, decimal, decimal_text, left_aligned, right_aligned};

verus! {

/// The width that a spot id is padded to in a listing.
pub const SPOT_ID_LEN_MAX: usize = 5;

/// The directory that a list of entries gives: a later entry for a name
/// replaces an earlier one.
pub open spec fn spot_map(entries: Seq<(String, u16)>) -> Map<Seq<char>, u16>
    decreases entries.len(),
{
    if entries.len() == 0 {
        Map::empty()
    } else {
        spot_map(entries.drop_last()).insert(entries.last().0@, entries.last().1)
    }
}

/// Spot names and their ids.
pub struct Spots {
    spots: Vec<(String, u16)>,
}

impl Spots {
    /// The directory as a map from names to ids.
    pub closed spec fn map(self) -> Map<Seq<char>, u16> {
        spot_map(self.spots@)
    }

    /// A directory of `entries`; where a name occurs twice the later id counts.
    pub fn from_entries(entries: Vec<(String, u16)>) -> (r: Spots)
        ensures
            r.map() == spot_map(entries@),
    {
        Spots { spots: entries }
    }

    /// The id of the spot named `name`, if the directory has it.
    pub fn get_id(&self, name: &str) -> (r: Option<u16>)
        ensures
            r == if self.map().contains_key(name@) {
                Some(self.map()[name@])
            } else {
                None
            },
    {
        let ghost entries = self.spots@;
        let key = String::from_str(name);
        let mut i: usize = self.spots.len();
        assert(entries.take(i as int) =~= entries);
        while i > 0
            invariant
                i <= entries.len(),
                entries == self.spots@,
                key@ == name@,
                spot_map(entries).contains_key(name@) == spot_map(entries.take(i as int)).contains_key(
                    name@,
                ),
                spot_map(entries).contains_key(name@) ==> spot_map(entries)[name@] == spot_map(
                    entries.take(i as int),
                )[name@],
            decreases i,
        {
            let ghost t = entries.take(i as int);
            assert(t.drop_last() =~= entries.take(i - 1));
            if self.spots[i - 1].0 == key {
                return Some(self.spots[i - 1].1);
            }
            i = i - 1;
        }
        assert(spot_map(entries.take(0)) =~= Map::<Seq<char>, u16>::empty());
        None
    }
}

/// Whether `a` comes no later than `b` in the order of `String`: code point by
/// code point, a prefix first.
pub open spec fn name_le(a: Seq<char>, b: Seq<char>) -> bool
    decreases a.len(),
{
    if a.len() == 0 {
        true
    } else if b.len() == 0 {
        false
    } else if a[0] != b[0] {
        (a[0] as u32) < (b[0] as u32)
    } else {
        name_le(a.drop_first(), b.drop_first())
    }
}

/// Whether the entries are in order of name.
pub open spec fn sorted_by_name(s: Seq<(String, u16)>) -> bool {
    forall|i: int, j: int| 0 <= i < j < s.len() ==> name_le(s[i].0@, s[j].0@)
}

/// The longest name among the entries, in characters.
pub open spec fn longest_name(s: Seq<(String, u16)>) -> nat
    decreases s.len(),
{
    if s.len() == 0 {
        0
    } else {
        let m = longest_name(s.drop_last());
        if s.last().0@.len() > m {
            s.last().0@.len()
        } else {
            m
        }
    }
}

/// One entry of a listing: the name right-aligned in `w`, then the id.
pub open spec fn spot_row(e: (String, u16), w: nat) -> Seq<char> {
    right_aligned(e.0@, w) + seq![' ', ':', ' '] + left_aligned(
        decimal(e.1 as nat),
        SPOT_ID_LEN_MAX as nat,
    )
}

/// A listing: each entry on a line of its own.
pub open spec fn spot_listing(s: Seq<(String, u16)>, w: nat) -> Seq<SpanModel> {
    Seq::new(
        2 * s.len(),
        |j: int|
            if j % 2 == 0 {
                plain(spot_row(s[j / 2], w))
            } else {
                line_break()
            },
    )
}

/// Relies on `slice::sort_unstable`, whose order on `(String, u16)` is by
/// name, compared code point by code point, then by id: the same entries come
/// out, in order of name.
#[verifier::external_body]
fn sort_by_name(v: &mut Vec<(String, u16)>)
    ensures
        final(v)@.to_multiset() == old(v)@.to_multiset(),
        sorted_by_name(final(v)@),
{
    v.sort_unstable()
}

impl View {
    /// A listing of spots: sorted by name, each name right-aligned to the
    /// longest, then its id.
    pub fn spots(spots: Vec<(String, u16)>) -> (r: View)
        ensures
            exists|s: Seq<(String, u16)>|
                #![trigger sorted_by_name(s)]
                s.to_multiset() == spots@.to_multiset() && sorted_by_name(s) && models(r.spans@)
                    == spot_listing(s, longest_name(s)),
    {
        let mut spots = spots;
        sort_by_name(&mut spots);
        let ghost s = spots@;
        let n = spots.len();
        let mut width: usize = 0;
        let mut i: usize = 0;
        while i < n
            invariant
                i <= n,
                n == s.len(),
                s == spots@,
                width == longest_name(s.take(i as int)),
            decreases n - i,
        {
            assert(s.take(i + 1).drop_last() =~= s.take(i as int));
            let len = spots[i].0.as_str().unicode_len();
            if len > width {
                width = len;
            }
            i = i + 1;
        }
        assert(s.take(n as int) =~= s);
        let mut out: Vec<Span> = Vec::new();
        let mut i: usize = 0;
        while i < n
            invariant
                i <= n,
                n == s.len(),
                s == spots@,
                width == longest_name(s),
                models(out@) == spot_listing(s, width as nat).take(2 * i),
            decreases n - i,
        {
            let ghost o0 = out@;
            let mut row = align_right(spots[i].0.as_str(), width);
            row.append(" : ");
            let id = decimal_text(spots[i].1 as u64);
            let padded = align_left(id.as_str(), SPOT_ID_LEN_MAX);
            row.append(padded.as_str());
            proof {
                reveal_strlit(" : ");
            }
            assert(row@ =~= spot_row(s[i as int], width as nat));
            let line = Span::text(row);
            out.push(line);
            let ghost o1 = out@;
            let nl = Span::newline();
            out.push(nl);
            proof {
                lemma_models_push(o0, line);
                lemma_models_push(o1, nl);
                assert(spot_listing(s, width as nat).take(2 * i + 2) =~= spot_listing(
                    s,
                    width as nat,
                ).take(2 * i).push(line.model()).push(nl.model()));
            }
            i = i + 1;
        }
        assert(spot_listing(s, width as nat).take((2 * n) as int) =~= spot_listing(
            s,
            width as nat,
        ));
        View { spans: out }
    }
}

/// Whether `c` is a decimal digit.
pub open spec fn is_digit(c: char) -> bool {
    '0' <= c && c <= '9'
}

/// The number that a run of decimal digits writes.
pub open spec fn digits_value(d: Seq<char>) -> int
    decreases d.len(),
{
    if d.len() == 0 {
        0
    } else {
        digits_value(d.drop_last()) * 10 + (d.last() as u32 - '0' as u32)
    }
}

/// How `str::parse::<u16>` reads text: an optional `+`, then at least one
/// decimal digit, for a value that fits in 16 bits.
pub open spec fn parsed_u16(s: Seq<char>) -> Option<u16> {
    let d = if s.len() > 0 && s[0] == '+' {
        s.drop_first()
    } else {
        s
    };
    if d.len() > 0 && (forall|i: int| 0 <= i < d.len() ==> is_digit(#[trigger] d[i]))
        && digits_value(d) <= 0xffff {
        Some(digits_value(d) as u16)
    } else {
        None
    }
}

/// The text without its trailing slashes.
pub open spec fn trim_slashes(s: Seq<char>) -> Seq<char>
    decreases s.len(),
{
    if s.len() > 0 && s.last() == '/' {
        trim_slashes(s.drop_last())
    } else {
        s
    }
}

/// The position of the last slash, or -1 when there is none.
pub open spec fn last_slash(s: Seq<char>) -> int
    decreases s.len(),
{
    if s.len() == 0 {
        -1
    } else if s.last() == '/' {
        s.len() - 1
    } else {
        last_slash(s.drop_last())
    }
}

/// The spot id that a link to a spot's page ends with: what follows the last
/// slash, once trailing slashes are dropped, read as a 16-bit number.
pub open spec fn spot_id_of_href(href: Seq<char>) -> Option<u16> {
    let t = trim_slashes(href);
    let k = last_slash(t);
    if k < 0 {
        None
    } else {
        parsed_u16(t.skip(k + 1))
    }
}

/// Relies on `str::parse::<u16>`: an optional `+`, then one or more decimal
/// digits whose value fits in 16 bits; anything else is an error.
#[verifier::external_body]
fn parse_u16(s: &str) -> (r: Option<u16>)
    ensures
        r == parsed_u16(s@),
{
    s.parse::<u16>().ok()
}

/// The spot id that a link to a spot's page ends with, as in
/// `/Ormond-Beach-Surf-Report/4203/`.
pub fn spot_id_from_href(href: &str) -> (r: Option<u16>)
    ensures
        r == spot_id_of_href(href@),
{
    let ghost h = href@;
    let n = href.unicode_len();
    let mut end: usize = n;
    assert(h.take(n as int) =~= h);
    while end > 0 && href.get_char(end - 1) == '/'
        invariant
            end <= n,
            n == h.len(),
            h == href@,
            trim_slashes(h) == trim_slashes(h.take(end as int)),
        decreases end,
    {
        assert(h.take(end as int).drop_last() =~= h.take(end - 1));
        end = end - 1;
    }
    assert(h.take(n as int) =~= h);
    let ghost t = h.take(end as int);
    assert(trim_slashes(t) == t);
    let mut k: usize = end;
    assert(t.take(end as int) =~= t);
    while k > 0 && href.get_char(k - 1) != '/'
        invariant
            k <= end,
            end <= n,
            n == h.len(),
            h == href@,
            t == h.take(end as int),
            last_slash(t) == last_slash(t.take(k as int)),
        decreases k,
    {
        assert(t.take(k as int).drop_last() =~= t.take(k - 1));
        k = k - 1;
    }
    assert(t.take(end as int) =~= t);
    if k == 0 {
        assert(t.take(0) =~= Seq::<char>::empty());
        None
    } else {
        assert(last_slash(t.take(k as int)) == k - 1);
        let id = vstd::string::StrSliceExecFns::substring_char(href, k, end);
        assert(id@ =~= t.skip(k as int));
        parse_u16(id)
    }
}

} // verus!
