//! Conversions from the wire's time types to the plain scalars the published
//! schema exposes, and the splitting of comma-joined name lists.
use vstd::prelude::*;

use crate::text::{
    chars_of, is_space, join, leading_space, lemma_leading_space_stops, lemma_split_join,
    lemma_trailing_space_stops, lemma_trim_unchanged, split_on, trailing_space, trim, trim_chars,
};
use crate::wire::{Duration, Timestamp};

verus! {

/// Integer division rounding toward zero, as Rust's `/` does.
pub open spec fn div_toward_zero(x: int, d: int) -> int {
    if x >= 0 {
        x / d
    } else {
        -((-x) / d)
    }
}

/// Epoch seconds, or `None` when the timestamp is absent.
pub fn ts_secs(ts: Option<&Timestamp>) -> (r: Option<i64>)
    ensures
        r == (match ts {
            Some(t) => Some(t.seconds),
            None => None,
        }),
{
    match ts {
        Some(t) => Some(t.seconds),
        None => None,
    }
}

/// Whole seconds of a duration, or `None` when it is absent.
pub fn seconds(d: Option<&Duration>) -> (r: Option<i64>)
    ensures
        r == (match d {
            Some(d) => Some(d.seconds),
            None => None,
        }),
{
    match d {
        Some(d) => Some(d.seconds),
        None => None,
    }
}

/// Whole minutes, the granularity Slurm reports time limits in; the seconds
/// are divided by sixty, rounding toward zero.
pub fn minutes(d: Option<&Duration>) -> (r: Option<i64>)
    ensures
        r == (match d {
            Some(d) => Some(div_toward_zero(d.seconds as int, 60) as i64),
            None => None,
        }),
{
    match d {
        Some(d) => Some(d.seconds / 60),
        None => None,
    }
}

/// Whole seconds of a duration, zero when it is absent.
pub fn duration_secs(d: Option<&Duration>) -> (r: i64)
    ensures
        r == (match d {
            Some(d) => d.seconds,
            None => 0,
        }),
{
    match d {
        Some(d) => d.seconds,
        None => 0,
    }
}

/// The non-empty items of `items`, in order.
pub open spec fn non_empty(items: Seq<Seq<char>>) -> Seq<Seq<char>>
    decreases items.len(),
{
    if items.len() == 0 {
        Seq::empty()
    } else {
        let init = non_empty(items.drop_last());
        if items.last().len() > 0 {
            init.push(items.last())
        } else {
            init
        }
    }
}

/// The items of a comma-joined list: the pieces between commas, trimmed of
/// white space, with blank pieces dropped.
pub open spec fn csv_items(s: Seq<char>) -> Seq<Seq<char>> {
    non_empty(split_on(s, ',').map_values(|p: Seq<char>| trim(p)))
}

proof fn lemma_non_empty_push_blank(items: Seq<Seq<char>>, x: Seq<char>)
    requires
        x.len() == 0,
    ensures
        non_empty(items.push(x)) == non_empty(items),
{
    assert(items.push(x).drop_last() == items);
}

proof fn lemma_non_empty_push_item(items: Seq<Seq<char>>, x: Seq<char>)
    requires
        x.len() > 0,
    ensures
        non_empty(items.push(x)) == non_empty(items).push(x),
{
    assert(items.push(x).drop_last() == items);
}

/// Splits a comma-joined proto field back into a list.
///
/// Several proto messages flatten string lists for display convenience, but the
/// published schema exposes them as arrays. Account, group, QOS, and user names
/// cannot contain commas, so the round trip is lossless.
pub fn csv_list(s: &str) -> (r: Vec<String>)
    ensures
        r.deep_view() == csv_items(s@),
{
    let v = chars_of(s);
    let n = v.len();
    let mut out: Vec<String> = Vec::new();
    let mut cur: Vec<char> = Vec::new();
    let mut i: usize = 0;
    while i < n
        invariant
            i <= n == v.len(),
            v@ == s@,
            cur@ == split_on(v@.take(i as int), ',').last(),
            out.deep_view() == non_empty(
                split_on(v@.take(i as int), ',').drop_last().map_values(|p: Seq<char>| trim(p)),
            ),
        decreases n - i,
    {
        let ghost pre = v@.take(i as int);
        let ghost pieces = split_on(pre, ',');
        assert(v@.take(i + 1).drop_last() == pre);
        let c = v[i];
        if c == ',' {
            let t = trim_chars(&cur);
            proof {
                assert(pieces.len() >= 1) by {
                    lemma_split_on_nonempty(pre, ',');
                }
                assert(pieces.push(Seq::<char>::empty()).drop_last() == pieces);
                assert(pieces.map_values(|p: Seq<char>| trim(p)) == pieces.drop_last().map_values(
                    |p: Seq<char>| trim(p),
                ).push(trim(pieces.last())));
            }
            let ghost old_out = out.deep_view();
            if chars_of(t.as_str()).len() > 0 {
                out.push(t);
                proof {
                    lemma_non_empty_push_item(
                        pieces.drop_last().map_values(|p: Seq<char>| trim(p)),
                        trim(pieces.last()),
                    );
                    assert(out.deep_view() == old_out.push(t@));
                }
            } else {
                proof {
                    lemma_non_empty_push_blank(
                        pieces.drop_last().map_values(|p: Seq<char>| trim(p)),
                        trim(pieces.last()),
                    );
                }
            }
            cur = Vec::new();
        } else {
            cur.push(c);
            proof {
                lemma_split_on_nonempty(pre, ',');
                let next = split_on(v@.take(i + 1), ',');
                assert(next == pieces.update(pieces.len() - 1, pieces.last().push(c)));
                assert(next.drop_last() == pieces.drop_last());
            }
        }
        i = i + 1;
    }
    let ghost pieces = split_on(v@, ',');
    assert(v@.take(n as int) == v@);
    proof {
        lemma_split_on_nonempty(v@, ',');
        assert(pieces.map_values(|p: Seq<char>| trim(p)) == pieces.drop_last().map_values(
            |p: Seq<char>| trim(p),
        ).push(trim(pieces.last())));
    }
    let t = trim_chars(&cur);
    let ghost old_out = out.deep_view();
    if chars_of(t.as_str()).len() > 0 {
        out.push(t);
        proof {
            lemma_non_empty_push_item(
                pieces.drop_last().map_values(|p: Seq<char>| trim(p)),
                trim(pieces.last()),
            );
            assert(out.deep_view() == old_out.push(t@));
        }
    } else {
        proof {
            lemma_non_empty_push_blank(
                pieces.drop_last().map_values(|p: Seq<char>| trim(p)),
                trim(pieces.last()),
            );
        }
    }
    out
}

/// Splitting always yields at least one piece.
pub proof fn lemma_split_on_nonempty(s: Seq<char>, sep: char)
    ensures
        split_on(s, sep).len() >= 1,
    decreases s.len(),
{
    if s.len() > 0 {
        lemma_split_on_nonempty(s.drop_last(), sep);
    }
}


proof fn lemma_non_empty_unchanged(items: Seq<Seq<char>>)
    requires
        forall|i: int| 0 <= i < items.len() ==> (#[trigger] items[i]).len() > 0,
    ensures
        non_empty(items) == items,
    decreases items.len(),
{
    if items.len() > 0 {
        lemma_non_empty_unchanged(items.drop_last());
        assert(items.drop_last().push(items.last()) == items);
    }
}

/// Whether `name` can stand in a comma-joined list and come back unchanged:
/// not blank, without commas, and without white space at either end.
pub open spec fn list_safe(name: Seq<char>) -> bool {
    &&& name.len() > 0
    &&& !name.contains(',')
    &&& !is_space(name[0])
    &&& !is_space(name.last())
}

/// Names that are not blank, hold no comma and are trimmed survive being
/// joined with commas and split back: the round trip is lossless.
pub proof fn csv_round_trip(names: Seq<Seq<char>>)
    requires
        forall|i: int| 0 <= i < names.len() ==> list_safe(#[trigger] names[i]),
    ensures
        csv_items(join(names, seq![','])) == names,
{
    if names.len() == 0 {
        let pieces = split_on(Seq::<char>::empty(), ',');
        assert(pieces == seq![Seq::<char>::empty()]);
        let trimmed = pieces.map_values(|p: Seq<char>| trim(p));
        lemma_trim_unchanged(Seq::<char>::empty());
        assert(trimmed == seq![Seq::<char>::empty()]);
        assert(seq![Seq::<char>::empty()].drop_last() == Seq::<Seq<char>>::empty());
        assert(join(names, seq![',']) == Seq::<char>::empty());
        assert(non_empty(trimmed) == non_empty(Seq::<Seq<char>>::empty()));
    } else {
        assert forall|i: int| 0 <= i < names.len() implies !(#[trigger] names[i]).contains(',') by {
            assert(list_safe(names[i]));
        }
        lemma_split_join(names, ',');
        let trimmed = names.map_values(|p: Seq<char>| trim(p));
        assert forall|i: int| 0 <= i < names.len() implies trimmed[i] == names[i] by {
            assert(list_safe(names[i]));
            lemma_trim_unchanged(names[i]);
        }
        assert(trimmed == names);
        assert(split_on(join(names, seq![',']), ',').map_values(|p: Seq<char>| trim(p)) == trimmed);
        assert forall|i: int| 0 <= i < names.len() implies (#[trigger] names[i]).len() > 0 by {
            assert(list_safe(names[i]));
        }
        lemma_non_empty_unchanged(names);
    }
}

/// No piece of a split holds the separator.
proof fn lemma_split_pieces_lack(s: Seq<char>, sep: char)
    ensures
        forall|i: int|
            0 <= i < split_on(s, sep).len() ==> !(#[trigger] split_on(s, sep)[i]).contains(sep),
    decreases s.len(),
{
    if s.len() > 0 {
        lemma_split_pieces_lack(s.drop_last(), sep);
        lemma_split_on_nonempty(s.drop_last(), sep);
        let init = split_on(s.drop_last(), sep);
        if s.last() == sep {
            let r = init.push(Seq::<char>::empty());
            assert forall|i: int| 0 <= i < r.len() implies !(#[trigger] r[i]).contains(sep) by {
                if i < init.len() {
                    assert(r[i] == init[i]);
                } else {
                    assert(r[i] == Seq::<char>::empty());
                }
            }
        } else {
            let l = init.last().push(s.last());
            assert(!init[init.len() - 1].contains(sep));
            assert forall|k: int| 0 <= k < l.len() implies l[k] != sep by {
                if k < l.len() - 1 {
                    assert(l[k] == init.last()[k]);
                }
            }
            let r = init.update(init.len() - 1, l);
            assert forall|i: int| 0 <= i < r.len() implies !(#[trigger] r[i]).contains(sep) by {
                if i < init.len() - 1 {
                    assert(r[i] == init[i]);
                }
            }
        }
    }
}

/// A piece without commas, once trimmed, is blank or list-safe.
proof fn lemma_trimmed_piece(p: Seq<char>)
    requires
        !p.contains(','),
    ensures
        trim(p).len() > 0 ==> list_safe(trim(p)),
{
    let lead = leading_space(p);
    lemma_leading_space_stops(p);
    let t = p.skip(lead as int);
    lemma_trailing_space_stops(t);
    let r = trim(p);
    if r.len() > 0 {
        assert(r[0] == p[lead as int]);
        assert(r.last() == t[t.len() - trailing_space(t) - 1]);
        assert forall|k: int| 0 <= k < r.len() implies r[k] != ',' by {
            assert(r[k] == p[lead + k]);
        }
    }
}

/// The non-empty items of a list whose non-empty items are list-safe are
/// all list-safe.
proof fn lemma_non_empty_safe(items: Seq<Seq<char>>)
    requires
        forall|i: int| 0 <= i < items.len() ==> ((#[trigger] items[i]).len() > 0 ==> list_safe(items[i])),
    ensures
        forall|j: int| 0 <= j < non_empty(items).len() ==> list_safe(#[trigger] non_empty(items)[j]),
    decreases items.len(),
{
    if items.len() > 0 {
        let init_items = items.drop_last();
        assert forall|i: int| 0 <= i < init_items.len() implies ((#[trigger] init_items[i]).len() > 0
            ==> list_safe(init_items[i])) by {
            assert(init_items[i] == items[i]);
        }
        lemma_non_empty_safe(init_items);
        let init = non_empty(init_items);
        if items.last().len() > 0 {
            assert(list_safe(items[items.len() - 1]));
            let r = init.push(items.last());
            assert forall|j: int| 0 <= j < r.len() implies list_safe(#[trigger] r[j]) by {
                if j < init.len() {
                    assert(r[j] == init[j]);
                }
            }
        }
    }
}

/// Every item `csv_list` returns is a list-safe name: not blank, without
/// commas, and without white space at either end.
pub proof fn csv_items_are_list_safe(s: Seq<char>)
    ensures
        forall|j: int| 0 <= j < csv_items(s).len() ==> list_safe(#[trigger] csv_items(s)[j]),
{
    let pieces = split_on(s, ',');
    lemma_split_pieces_lack(s, ',');
    let items = pieces.map_values(|p: Seq<char>| trim(p));
    assert forall|i: int| 0 <= i < items.len() implies ((#[trigger] items[i]).len() > 0 ==> list_safe(
        items[i],
    )) by {
        lemma_trimmed_piece(pieces[i]);
    }
    lemma_non_empty_safe(items);
}

/// Division toward zero: the quotient's magnitude is the whole number of
/// times the divisor fits in the dividend's magnitude, and its sign is the
/// dividend's.
pub proof fn division_rounds_toward_zero(x: int, d: int)
    requires
        d > 0,
    ensures
        x >= 0 ==> d * div_toward_zero(x, d) <= x < d * (div_toward_zero(x, d) + 1),
        x < 0 ==> d * (div_toward_zero(x, d) - 1) < x <= d * div_toward_zero(x, d),
{
    if x >= 0 {
        assert(d * (x / d) <= x < d * (x / d + 1)) by (nonlinear_arith)
            requires
                d > 0,
                x >= 0,
        ;
    } else {
        let q = (-x) / d;
        assert(d * q <= -x < d * (q + 1)) by (nonlinear_arith)
            requires
                d > 0,
                -x > 0,
                q == (-x) / d,
        ;
        assert(d * (-q - 1) < x <= d * (-q)) by (nonlinear_arith)
            requires
                d * q <= -x < d * (q + 1),
        ;
    }
}

} // verus!
