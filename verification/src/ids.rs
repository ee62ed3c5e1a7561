//! Comma-separated job ID lists, as `sstat -j` and `sprio -j` take them.
use vstd::prelude::*;

use crate::text::{chars_of, decimal, digit_char, is_digit, join, lemma_decimal_digits, split_on, trim, trim_chars};
use crate::text::{lemma_split_join, lemma_trim_unchanged};
use crate::util::lemma_split_on_nonempty;

verus! {

/// Value of a run of decimal digits.
pub open spec fn digits_value(s: Seq<char>) -> nat
    decreases s.len(),
{
    if s.len() == 0 {
        0
    } else {
        digits_value(s.drop_last()) * 10 + ((s.last() as u32) - 48) as nat
    }
}

/// Whether every character of `s` is a decimal digit.
pub open spec fn all_digits(s: Seq<char>) -> bool {
    forall|i: int| 0 <= i < s.len() ==> is_digit(#[trigger] s[i])
}

/// The `u32` that `s` spells, as `str::parse::<u32>` reads it: an optional
/// `+` followed by at least one decimal digit, with a value that fits.
pub open spec fn parse_u32(s: Seq<char>) -> Option<u32> {
    let d = if s.len() > 0 && s[0] == '+' {
        s.drop_first()
    } else {
        s
    };
    if d.len() > 0 && all_digits(d) && digits_value(d) <= u32::MAX {
        Some(digits_value(d) as u32)
    } else {
        None
    }
}

/// The values of the items that parse, in order.
pub open spec fn parsed_ids(items: Seq<Seq<char>>) -> Seq<u32>
    decreases items.len(),
{
    if items.len() == 0 {
        Seq::empty()
    } else {
        let init = parsed_ids(items.drop_last());
        match parse_u32(items.last()) {
            Some(v) => init.push(v),
            None => init,
        }
    }
}

/// The job IDs of a comma-separated list: each piece trimmed of white space,
/// the pieces that are not numbers skipped.
pub open spec fn job_id_list(s: Seq<char>) -> Seq<u32> {
    parsed_ids(split_on(s, ',').map_values(|p: Seq<char>| trim(p)))
}

proof fn lemma_digits_value_step(s: Seq<char>, c: char)
    ensures
        digits_value(s.push(c)) == digits_value(s) * 10 + ((c as u32) - 48) as nat,
{
    assert(s.push(c).drop_last() == s);
}

/// Parses a `u32` from the characters `v`, as `str::parse::<u32>` does.
pub fn parse_u32_chars(v: &Vec<char>) -> (r: Option<u32>)
    ensures
        r == parse_u32(v@),
{
    let n = v.len();
    let start: usize = if n > 0 && v[0] == '+' {
        1
    } else {
        0
    };
    let ghost d = if v@.len() > 0 && v@[0] == '+' {
        v@.drop_first()
    } else {
        v@
    };
    assert(d == v@.skip(start as int));
    if start >= n {
        return None;
    }
    let mut value: u64 = 0;
    let mut i: usize = start;
    while i < n
        invariant
            start <= i <= n == v.len(),
            d == v@.skip(start as int),
            d == (if v@.len() > 0 && v@[0] == '+' {
                v@.drop_first()
            } else {
                v@
            }),
            all_digits(v@.subrange(start as int, i as int)),
            value == digits_value(v@.subrange(start as int, i as int)),
            value <= u32::MAX,
        decreases n - i,
    {
        let c = v[i];
        if !('0' <= c && c <= '9') {
            assert(d[i - start] == c);
            assert(!is_digit(d[i - start]));
            return None;
        }
        let digit = (c as u32 - 48) as u64;
        assert(v@.subrange(start as int, i + 1) == v@.subrange(start as int, i as int).push(c));
        proof {
            lemma_digits_value_step(v@.subrange(start as int, i as int), c);
        }
        if value > (u32::MAX as u64 - digit) / 10 {
            proof {
                // The value only grows as digits are appended.
                assert(d.take(i - start + 1) == v@.subrange(start as int, i + 1));
                assert(all_digits(v@.subrange(start as int, i + 1))) by {
                    assert forall|k: int| 0 <= k < i + 1 - start implies is_digit(
                        #[trigger] v@.subrange(start as int, i + 1)[k],
                    ) by {
                        if k < i - start {
                            assert(v@.subrange(start as int, i + 1)[k] == v@.subrange(
                                start as int,
                                i as int,
                            )[k]);
                        }
                    }
                }
                lemma_digits_value_prefix(d, (i - start + 1) as int);
            }
            return None;
        }
        value = value * 10 + digit;
        i = i + 1;
    }
    assert(v@.subrange(start as int, n as int) == d);
    Some(value as u32)
}

proof fn lemma_digits_value_prefix(s: Seq<char>, k: int)
    requires
        0 <= k <= s.len(),
        all_digits(s.take(k)),
    ensures
        digits_value(s.take(k)) <= digits_value(s) || !all_digits(s),
    decreases s.len() - k,
{
    if k < s.len() && all_digits(s) {
        assert(all_digits(s.take(k + 1)));
        lemma_digits_value_prefix(s, k + 1);
        lemma_digits_value_step(s.take(k), s[k]);
        assert(s.take(k + 1) == s.take(k).push(s[k]));
    } else if k == s.len() {
        assert(s.take(k) == s);
    }
}

/// The job IDs of a comma-separated list: each piece trimmed, the pieces
/// that are not numbers skipped.
pub fn parse_job_ids(s: &str) -> (r: Vec<u32>)
    ensures
        r@ == job_id_list(s@),
{
    let v = chars_of(s);
    let n = v.len();
    let mut out: Vec<u32> = Vec::new();
    let mut cur: Vec<char> = Vec::new();
    let mut i: usize = 0;
    while i < n
        invariant
            i <= n == v.len(),
            v@ == s@,
            cur@ == split_on(v@.take(i as int), ',').last(),
            out@ == parsed_ids(
                split_on(v@.take(i as int), ',').drop_last().map_values(|p: Seq<char>| trim(p)),
            ),
        decreases n - i,
    {
        let ghost pre = v@.take(i as int);
        let ghost pieces = split_on(pre, ',');
        proof {
            lemma_split_on_nonempty(pre, ',');
        }
        assert(v@.take(i + 1).drop_last() == pre);
        let c = v[i];
        if c == ',' {
            push_parsed(&mut out, &cur);
            proof {
                let items = pieces.drop_last().map_values(|p: Seq<char>| trim(p));
                assert(pieces.map_values(|p: Seq<char>| trim(p)) == items.push(trim(pieces.last())));
                assert(items.push(trim(pieces.last())).drop_last() == items);
                assert(pieces.push(Seq::<char>::empty()).drop_last() == pieces);
            }
            cur = Vec::new();
        } else {
            cur.push(c);
            proof {
                let next = split_on(v@.take(i + 1), ',');
                assert(next == pieces.update(pieces.len() - 1, pieces.last().push(c)));
                assert(next.drop_last() == pieces.drop_last());
            }
        }
        i = i + 1;
    }
    let ghost pieces = split_on(v@, ',');
    assert(v@.take(n as int) == v@);
    proof {
        lemma_split_on_nonempty(v@, ',');
        let items = pieces.drop_last().map_values(|p: Seq<char>| trim(p));
        assert(pieces.map_values(|p: Seq<char>| trim(p)) == items.push(trim(pieces.last())));
        assert(items.push(trim(pieces.last())).drop_last() == items);
    }
    push_parsed(&mut out, &cur);
    out
}

/// Appends the value of the trimmed piece `piece` when it parses.
fn push_parsed(out: &mut Vec<u32>, piece: &Vec<char>)
    ensures
        final(out)@ == (match parse_u32(trim(piece@)) {
            Some(x) => old(out)@.push(x),
            None => old(out)@,
        }),
{
    let t = trim_chars(piece);
    let tv = chars_of(t.as_str());
    match parse_u32_chars(&tv) {
        Some(x) => out.push(x),
        None => {},
    }
}


proof fn lemma_decimal_parses(n: nat)
    ensures
        all_digits(decimal(n)),
        digits_value(decimal(n)) == n,
    decreases n,
{
    lemma_decimal_digits(n);
    assert(((48 + n % 10) as char) as u32 == 48 + n % 10);
    if n >= 10 {
        lemma_decimal_parses(n / 10);
        lemma_digits_value_step(decimal(n / 10), digit_char(n % 10));
        assert(digits_value(decimal(n)) == digits_value(decimal(n / 10)) * 10 + n % 10);
        assert((n / 10) * 10 + n % 10 == n);
    } else {
        assert(((48 + n) as char) as u32 == 48 + n);
        lemma_digits_value_step(Seq::<char>::empty(), digit_char(n));
        assert(Seq::<char>::empty().push(digit_char(n)) == decimal(n));
        assert(digits_value(Seq::<char>::empty()) == 0);
    }
}

/// The decimal rendering of any `u32` parses back to it.
pub proof fn parse_u32_of_decimal(n: u32)
    ensures
        parse_u32(decimal(n as nat)) == Some(n),
{
    lemma_decimal_parses(n as nat);
    lemma_decimal_digits(n as nat);
    assert(is_digit(decimal(n as nat)[0]));
}

/// Job IDs written in decimal and joined with commas are read back as the
/// same list.
pub proof fn job_id_list_round_trip(ids: Seq<u32>)
    ensures
        job_id_list(join(ids.map_values(|n: u32| decimal(n as nat)), seq![','])) == ids,
    decreases ids.len(),
{
    let items = ids.map_values(|n: u32| decimal(n as nat));
    if ids.len() == 0 {
        assert(join(items, seq![',']) == Seq::<char>::empty());
        let pieces = split_on(Seq::<char>::empty(), ',');
        assert(pieces == seq![Seq::<char>::empty()]);
        lemma_trim_unchanged(Seq::<char>::empty());
        let trimmed = pieces.map_values(|p: Seq<char>| trim(p));
        assert(trimmed == seq![Seq::<char>::empty()]);
        assert(trimmed.drop_last() == Seq::<Seq<char>>::empty());
        assert(parse_u32(Seq::<char>::empty()) is None);
        assert(parsed_ids(trimmed) == parsed_ids(trimmed.drop_last()));
        assert(split_on(join(items, seq![',']), ',').map_values(|p: Seq<char>| trim(p)) == trimmed);
    } else {
        assert forall|i: int| 0 <= i < items.len() implies !(#[trigger] items[i]).contains(',') by {
            lemma_decimal_digits(ids[i] as nat);
            if items[i].contains(',') {
                let k = choose|k: int| 0 <= k < items[i].len() && items[i][k] == ',';
                assert(is_digit(items[i][k]));
            }
        }
        lemma_split_join(items, ',');
        let trimmed = items.map_values(|p: Seq<char>| trim(p));
        assert forall|i: int| 0 <= i < items.len() implies trimmed[i] == items[i] by {
            lemma_decimal_digits(ids[i] as nat);
            assert(is_digit(items[i][0]));
            assert(is_digit(items[i].last())) by {
                assert(items[i].last() == items[i][items[i].len() - 1]);
            }
            lemma_trim_unchanged(items[i]);
        }
        assert(trimmed == items);
        assert(split_on(join(items, seq![',']), ',').map_values(|p: Seq<char>| trim(p)) == trimmed);
        lemma_parsed_decimals(ids);
    }
}

proof fn lemma_parsed_decimals(ids: Seq<u32>)
    ensures
        parsed_ids(ids.map_values(|n: u32| decimal(n as nat))) == ids,
    decreases ids.len(),
{
    if ids.len() > 0 {
        let items = ids.map_values(|n: u32| decimal(n as nat));
        lemma_parsed_decimals(ids.drop_last());
        assert(items.drop_last() == ids.drop_last().map_values(|n: u32| decimal(n as nat)));
        parse_u32_of_decimal(ids.last());
        assert(ids.drop_last().push(ids.last()) == ids);
    }
}

} // verus!
