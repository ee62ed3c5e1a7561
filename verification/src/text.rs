//! Character-level text model: whitespace trimming, splitting, decimal
//! rendering and column padding, each stated over `Seq<char>`.
use vstd::prelude::*;

verus! {

/// Unicode `White_Space`, the set `str::trim` removes.
pub open spec fn is_space(c: char) -> bool {
    ||| ('\u{9}' <= c && c <= '\u{d}')
    ||| c == ' '
    ||| c == '\u{85}'
    ||| c == '\u{a0}'
    ||| c == '\u{1680}'
    ||| ('\u{2000}' <= c && c <= '\u{200a}')
    ||| c == '\u{2028}'
    ||| c == '\u{2029}'
    ||| c == '\u{202f}'
    ||| c == '\u{205f}'
    ||| c == '\u{3000}'
}

/// Whether `c` is Unicode white space.
pub fn char_is_space(c: char) -> (r: bool)
    ensures
        r == is_space(c),
{
    ('\u{9}' <= c && c <= '\u{d}') || c == ' ' || c == '\u{85}' || c == '\u{a0}' || c
        == '\u{1680}' || ('\u{2000}' <= c && c <= '\u{200a}') || c == '\u{2028}' || c
        == '\u{2029}' || c == '\u{202f}' || c == '\u{205f}' || c == '\u{3000}'
}

/// Number of leading white-space characters of `s`.
pub open spec fn leading_space(s: Seq<char>) -> nat
    decreases s.len(),
{
    if s.len() > 0 && is_space(s[0]) {
        1 + leading_space(s.drop_first())
    } else {
        0
    }
}

/// Number of trailing white-space characters of `s`.
pub open spec fn trailing_space(s: Seq<char>) -> nat
    decreases s.len(),
{
    if s.len() > 0 && is_space(s.last()) {
        1 + trailing_space(s.drop_last())
    } else {
        0
    }
}

/// `s` without leading and trailing white space.
pub open spec fn trim(s: Seq<char>) -> Seq<char> {
    let t = s.skip(leading_space(s) as int);
    t.take(t.len() - trailing_space(t))
}

/// The pieces of `s` between occurrences of `sep`; an empty `s` is one empty piece.
pub open spec fn split_on(s: Seq<char>, sep: char) -> Seq<Seq<char>>
    decreases s.len(),
{
    if s.len() == 0 {
        seq![Seq::<char>::empty()]
    } else {
        let init = split_on(s.drop_last(), sep);
        if s.last() == sep {
            init.push(Seq::<char>::empty())
        } else {
            init.update(init.len() - 1, init.last().push(s.last()))
        }
    }
}

/// Position of the first occurrence of `c` in `s`, if any.
pub open spec fn find_char(s: Seq<char>, c: char) -> Option<int>
    decreases s.len(),
{
    if s.len() == 0 {
        None
    } else if s[0] == c {
        Some(0)
    } else {
        match find_char(s.drop_first(), c) {
            Some(i) => Some(i + 1),
            None => None,
        }
    }
}

/// The decimal digit character for `d < 10`.
pub open spec fn digit_char(d: nat) -> char {
    (48 + d) as char
}

/// Decimal rendering of a natural number, without sign or leading zeros.
pub open spec fn decimal(n: nat) -> Seq<char>
    decreases n,
{
    if n < 10 {
        seq![digit_char(n)]
    } else {
        decimal(n / 10).push(digit_char(n % 10))
    }
}

/// Decimal rendering of an integer, with a leading `-` when negative.
pub open spec fn signed_decimal(n: int) -> Seq<char> {
    if n < 0 {
        seq!['-'] + decimal((-n) as nat)
    } else {
        decimal(n as nat)
    }
}

/// `n` spaces.
pub open spec fn spaces(n: int) -> Seq<char> {
    Seq::new(if n > 0 { n as nat } else { 0 }, |i: int| ' ')
}

/// `s` right-aligned in a column of `width` characters.
pub open spec fn align_right(s: Seq<char>, width: nat) -> Seq<char> {
    spaces(width - s.len()) + s
}

/// `s` left-aligned in a column of `width` characters.
pub open spec fn align_left(s: Seq<char>, width: nat) -> Seq<char> {
    s + spaces(width - s.len())
}

/// `s` padded on the left with zeros to `width` characters.
pub open spec fn zero_pad(s: Seq<char>, width: nat) -> Seq<char> {
    Seq::new(if width > s.len() { (width - s.len()) as nat } else { 0 }, |i: int| '0') + s
}

/// The items of `items` separated by `sep`.
pub open spec fn join(items: Seq<Seq<char>>, sep: Seq<char>) -> Seq<char>
    decreases items.len(),
{
    if items.len() == 0 {
        Seq::empty()
    } else if items.len() == 1 {
        items[0]
    } else {
        join(items.drop_last(), sep) + sep + items.last()
    }
}

/// Appends one character to a string with `String::push`. The contract
/// claims what std documents: the text gains `c` at its end.
#[verifier::external_body]
pub(crate) fn push_char(s: &mut String, c: char)
    ensures
        final(s)@ == old(s)@.push(c),
{
    s.push(c);
}

/// The characters of `s`, in order.
pub fn chars_of(s: &str) -> (v: Vec<char>)
    ensures
        v@ == s@,
{
    let mut v: Vec<char> = Vec::new();
    for c in it: s.chars()
        invariant
            it.seq() == s@,
            v@ == it.seq().take(it.index()),
    {
        v.push(c);
    }
    v
}


proof fn lemma_leading_space(s: Seq<char>, k: int)
    requires
        0 <= k <= s.len(),
        forall|i: int| 0 <= i < k ==> is_space(#[trigger] s[i]),
        k == s.len() || !is_space(s[k]),
    ensures
        leading_space(s) == k,
    decreases k,
{
    if k > 0 {
        assert forall|i: int| 0 <= i < k - 1 implies is_space(#[trigger] s.drop_first()[i]) by {
            assert(s.drop_first()[i] == s[i + 1]);
        }
        lemma_leading_space(s.drop_first(), k - 1);
    }
}

proof fn lemma_trailing_space(s: Seq<char>, k: int)
    requires
        0 <= k <= s.len(),
        forall|i: int| s.len() - k <= i < s.len() ==> is_space(#[trigger] s[i]),
        k == s.len() || !is_space(s[s.len() - k - 1]),
    ensures
        trailing_space(s) == k,
    decreases k,
{
    if k > 0 {
        assert forall|i: int|
            s.drop_last().len() - (k - 1) <= i < s.drop_last().len() implies is_space(
            #[trigger] s.drop_last()[i],
        ) by {
            assert(s.drop_last()[i] == s[i]);
        }
        lemma_trailing_space(s.drop_last(), k - 1);
    }
}

/// Leading white space stops at the text's end or at a character that is not
/// white space.
pub proof fn lemma_leading_space_stops(s: Seq<char>)
    ensures
        leading_space(s) <= s.len(),
        leading_space(s) < s.len() ==> !is_space(s[leading_space(s) as int]),
    decreases s.len(),
{
    if s.len() > 0 && is_space(s[0]) {
        lemma_leading_space_stops(s.drop_first());
        if leading_space(s) < s.len() {
            assert(s.drop_first()[leading_space(s.drop_first()) as int] == s[leading_space(s) as int]);
        }
    }
}

/// Trailing white space stops at the text's start or at a character that is
/// not white space.
pub proof fn lemma_trailing_space_stops(s: Seq<char>)
    ensures
        trailing_space(s) <= s.len(),
        trailing_space(s) < s.len() ==> !is_space(s[s.len() - trailing_space(s) - 1]),
    decreases s.len(),
{
    if s.len() > 0 && is_space(s.last()) {
        lemma_trailing_space_stops(s.drop_last());
        if trailing_space(s) < s.len() {
            assert(s.drop_last()[s.drop_last().len() - trailing_space(s.drop_last()) - 1] == s[s.len()
                - trailing_space(s) - 1]);
        }
    }
}

/// The characters `v[lo..hi]` as a string.
pub fn string_from_chars(v: &Vec<char>, lo: usize, hi: usize) -> (r: String)
    requires
        lo <= hi <= v.len(),
    ensures
        r@ == v@.subrange(lo as int, hi as int),
{
    let mut r = String::new();
    let mut i = lo;
    while i < hi
        invariant
            lo <= i <= hi <= v.len(),
            r@ == v@.subrange(lo as int, i as int),
        decreases hi - i,
    {
        push_char(&mut r, v[i]);
        assert(v@.subrange(lo as int, i + 1) == v@.subrange(lo as int, i as int).push(v@[i as int]));
        i = i + 1;
    }
    r
}

/// The characters of `v` without leading and trailing white space.
pub fn trim_chars(v: &Vec<char>) -> (r: String)
    ensures
        r@ == trim(v@),
{
    let n = v.len();
    let mut lo: usize = 0;
    while lo < n && char_is_space(v[lo])
        invariant
            lo <= n == v.len(),
            forall|i: int| 0 <= i < lo ==> is_space(#[trigger] v@[i]),
        decreases n - lo,
    {
        lo = lo + 1;
    }
    proof {
        lemma_leading_space(v@, lo as int);
    }
    let ghost t = v@.skip(lo as int);
    let mut k: usize = 0;
    while k < n - lo && char_is_space(v[n - 1 - k])
        invariant
            lo <= n == v.len(),
            k <= n - lo,
            t == v@.skip(lo as int),
            forall|i: int| t.len() - k <= i < t.len() ==> is_space(#[trigger] t[i]),
        decreases n - lo - k,
    {
        assert(t[t.len() - k - 1] == v@[n - 1 - k]);
        k = k + 1;
    }
    proof {
        if k < n - lo {
            assert(t[t.len() - k - 1] == v@[n - 1 - k]);
        }
        lemma_trailing_space(t, k as int);
        assert(t.take(t.len() - k) == v@.subrange(lo as int, (n - k) as int));
    }
    string_from_chars(v, lo, n - k)
}

/// Appends the decimal digits of `n`.
pub fn push_decimal(out: &mut String, n: u64)
    ensures
        final(out)@ == old(out)@ + decimal(n as nat),
    decreases n,
{
    if n >= 10 {
        push_decimal(out, n / 10);
    }
    let d = (n % 10) as u8;
    push_char(out, (48u8 + d) as char);
    proof {
        if n >= 10 {
            assert(old(out)@ + decimal(n as nat) == old(out)@ + decimal((n / 10) as nat) + seq![digit_char((n % 10) as nat)]);
        }
    }
}

/// The decimal rendering of `n`.
pub fn decimal_string(n: u64) -> (r: String)
    ensures
        r@ == decimal(n as nat),
{
    let mut r = String::new();
    push_decimal(&mut r, n);
    r
}

/// The decimal rendering of `n`, with a `-` sign when negative.
pub fn signed_decimal_string(n: i64) -> (r: String)
    ensures
        r@ == signed_decimal(n as int),
{
    let mut r = String::new();
    if n < 0 {
        push_char(&mut r, '-');
        let m: u64 = ((-(n + 1)) as u64) + 1;
        push_decimal(&mut r, m);
    } else {
        push_decimal(&mut r, n as u64);
    }
    r
}

/// Appends `n` spaces.
pub fn push_spaces(out: &mut String, n: usize)
    ensures
        final(out)@ == old(out)@ + spaces(n as int),
{
    let mut i: usize = 0;
    while i < n
        invariant
            i <= n,
            out@ == old(out)@ + spaces(i as int),
        decreases n - i,
    {
        push_char(out, ' ');
        assert(spaces(i + 1) == spaces(i as int).push(' '));
        i = i + 1;
    }
}

/// `s` right-aligned in a column of `width` characters.
pub fn right_aligned(s: &str, width: usize) -> (r: String)
    ensures
        r@ == align_right(s@, width as nat),
{
    let n = chars_of(s).len();
    let mut r = String::new();
    if n < width {
        push_spaces(&mut r, width - n);
    }
    r.append(s);
    r
}

/// `s` left-aligned in a column of `width` characters.
pub fn left_aligned(s: &str, width: usize) -> (r: String)
    ensures
        r@ == align_left(s@, width as nat),
{
    let n = chars_of(s).len();
    let mut r = String::from_str(s);
    if n < width {
        push_spaces(&mut r, width - n);
    }
    r
}


/// ASCII lower-casing of one character; other characters are unchanged.
pub open spec fn ascii_lower(c: char) -> char {
    if 'A' <= c && c <= 'Z' {
        ((c as u32) + 32) as char
    } else {
        c
    }
}

/// Equality of two texts with ASCII letters compared case-insensitively.
pub open spec fn eq_ignore_ascii_case(a: Seq<char>, b: Seq<char>) -> bool {
    &&& a.len() == b.len()
    &&& forall|i: int| 0 <= i < a.len() ==> ascii_lower(#[trigger] a[i]) == ascii_lower(b[i])
}

fn char_ascii_lower(c: char) -> (r: char)
    ensures
        r == ascii_lower(c),
{
    if 'A' <= c && c <= 'Z' {
        let u = c as u32 + 32;
        assert(u < 128);
        proof {
            assert((u as char) == ((c as u32) + 32) as char);
        }
        (u as u8) as char
    } else {
        c
    }
}

/// Whether `a` and `b` are the same text.
pub fn same_text(a: &str, b: &str) -> (r: bool)
    ensures
        r == (a@ == b@),
{
    let x = chars_of(a);
    let y = chars_of(b);
    if x.len() != y.len() {
        return false;
    }
    let mut i: usize = 0;
    while i < x.len()
        invariant
            i <= x.len() == y.len(),
            x@ == a@,
            y@ == b@,
            forall|j: int| 0 <= j < i ==> x@[j] == y@[j],
        decreases x.len() - i,
    {
        if x[i] != y[i] {
            return false;
        }
        i = i + 1;
    }
    assert(x@ == y@);
    true
}

/// Whether `a` and `b` are equal when ASCII letters are compared
/// case-insensitively.
pub fn same_text_ignore_ascii_case(a: &str, b: &str) -> (r: bool)
    ensures
        r == eq_ignore_ascii_case(a@, b@),
{
    let x = chars_of(a);
    let y = chars_of(b);
    if x.len() != y.len() {
        return false;
    }
    let mut i: usize = 0;
    while i < x.len()
        invariant
            i <= x.len() == y.len(),
            x@ == a@,
            y@ == b@,
            forall|j: int| 0 <= j < i ==> ascii_lower(#[trigger] x@[j]) == ascii_lower(y@[j]),
        decreases x.len() - i,
    {
        if char_ascii_lower(x[i]) != char_ascii_lower(y[i]) {
            return false;
        }
        i = i + 1;
    }
    true
}


/// Whether `c` is an ASCII decimal digit.
pub open spec fn is_digit(c: char) -> bool {
    '0' <= c && c <= '9'
}

/// A decimal rendering is a non-empty run of digits, at least two long from ten on.
pub proof fn lemma_decimal_digits(n: nat)
    ensures
        decimal(n).len() >= 1,
        n >= 10 ==> decimal(n).len() >= 2,
        forall|i: int| 0 <= i < decimal(n).len() ==> is_digit(#[trigger] decimal(n)[i]),
    decreases n,
{
    if n >= 10 {
        lemma_decimal_digits(n / 10);
        assert(((48 + n % 10) as char) as u32 == 48 + n % 10);
    } else {
        assert(((48 + n) as char) as u32 == 48 + n);
    }
}

/// Distinct numbers have distinct decimal renderings.
pub proof fn lemma_decimal_injective(a: nat, b: nat)
    ensures
        decimal(a) == decimal(b) ==> a == b,
    decreases a,
{
    if decimal(a) == decimal(b) {
        lemma_decimal_digits(a);
        lemma_decimal_digits(b);
        let da = decimal(a);
        let db = decimal(b);
        assert(((48 + a % 10) as char) as u32 == 48 + a % 10);
        assert(((48 + b % 10) as char) as u32 == 48 + b % 10);
        if a < 10 && b < 10 {
            assert(da[0] == db[0]);
        } else if a >= 10 && b >= 10 {
            assert(da.last() == db.last());
            assert(da.drop_last() == decimal(a / 10));
            assert(db.drop_last() == decimal(b / 10));
            lemma_decimal_injective(a / 10, b / 10);
        } else {
            assert(da.len() == db.len());
        }
    }
}


/// A copy of a list of strings.
pub fn copy_strings(v: &Vec<String>) -> (r: Vec<String>)
    ensures
        r.deep_view() == v.deep_view(),
{
    let mut r: Vec<String> = Vec::new();
    let mut i: usize = 0;
    while i < v.len()
        invariant
            i <= v.len(),
            r.deep_view() == v.deep_view().take(i as int),
        decreases v.len() - i,
    {
        r.push(v[i].clone());
        assert(v.deep_view().take(i + 1) == v.deep_view().take(i as int).push(v[i as int]@));
        i = i + 1;
    }
    assert(v.deep_view().take(v.len() as int) == v.deep_view());
    r
}


/// `label` followed by the decimal rendering of `n`.
pub fn labeled_number(label: &str, n: u64) -> (r: String)
    ensures
        r@ == label@ + decimal(n as nat),
{
    let mut r = String::from_str(label);
    push_decimal(&mut r, n);
    r
}

/// `label` followed by `value`.
pub fn labeled_text(label: &str, value: &str) -> (r: String)
    ensures
        r@ == label@ + value@,
{
    let mut r = String::from_str(label);
    r.append(value);
    r
}

/// The items of `items` separated by `sep`.
pub fn join_strings(items: &Vec<String>, sep: &str) -> (r: String)
    ensures
        r@ == join(items.deep_view(), sep@),
{
    let mut r = String::new();
    let mut i: usize = 0;
    while i < items.len()
        invariant
            i <= items.len(),
            r@ == join(items.deep_view().take(i as int), sep@),
        decreases items.len() - i,
    {
        assert(items.deep_view().take(i + 1).drop_last() == items.deep_view().take(i as int));
        if i > 0 {
            r.append(sep);
        } else {
            assert(items.deep_view().take(0) == Seq::<Seq<char>>::empty());
        }
        r.append(items[i].as_str());
        i = i + 1;
    }
    assert(items.deep_view().take(items.len() as int) == items.deep_view());
    r
}


/// Appends a line to a list of lines.
pub fn push_line(lines: &mut Vec<String>, l: String)
    ensures
        final(lines).deep_view() == old(lines).deep_view().push(l@),
{
    let ghost v = l@;
    lines.push(l);
    assert(lines.deep_view() =~= old(lines).deep_view().push(v));
}


/// Splitting a text with no separator in it gives the text back as the only
/// piece.
pub proof fn lemma_split_without_separator(y: Seq<char>, sep: char)
    requires
        !y.contains(sep),
    ensures
        split_on(y, sep) == seq![y],
    decreases y.len(),
{
    if y.len() > 0 {
        assert(!y.drop_last().contains(sep)) by {
            if y.drop_last().contains(sep) {
                let k = choose|k: int| 0 <= k < y.drop_last().len() && y.drop_last()[k] == sep;
                assert(y[k] == sep);
            }
        }
        lemma_split_without_separator(y.drop_last(), sep);
        assert(y.last() != sep) by {
            assert(y[y.len() - 1] == y.last());
        }
        assert(y.drop_last().push(y.last()) == y);
        assert(seq![y.drop_last()].update(0, y.drop_last().push(y.last())) == seq![y]);
    } else {
        assert(y == Seq::<char>::empty());
    }
}

/// Splitting `x`, the separator and a piece `y` without separators gives the
/// pieces of `x` followed by `y`.
pub proof fn lemma_split_after_separator(x: Seq<char>, y: Seq<char>, sep: char)
    requires
        !y.contains(sep),
    ensures
        split_on(x + seq![sep] + y, sep) == split_on(x, sep).push(y),
    decreases y.len(),
{
    let s = x + seq![sep] + y;
    if y.len() == 0 {
        assert(y == Seq::<char>::empty());
        assert(s == x.push(sep));
        assert(s.drop_last() == x);
        assert(s.last() == sep);
    } else {
        assert(!y.drop_last().contains(sep)) by {
            if y.drop_last().contains(sep) {
                let k = choose|k: int| 0 <= k < y.drop_last().len() && y.drop_last()[k] == sep;
                assert(y[k] == sep);
            }
        }
        assert(y.last() != sep) by {
            assert(y[y.len() - 1] == y.last());
        }
        lemma_split_after_separator(x, y.drop_last(), sep);
        assert(s.drop_last() == x + seq![sep] + y.drop_last());
        assert(s.last() == y.last());
        assert(y.drop_last().push(y.last()) == y);
        let init = split_on(x, sep).push(y.drop_last());
        assert(init.update(init.len() - 1, init.last().push(y.last())) == split_on(x, sep).push(y));
    }
}

/// Splitting the join of items that hold no separator gives the items back.
pub proof fn lemma_split_join(items: Seq<Seq<char>>, sep: char)
    requires
        items.len() >= 1,
        forall|i: int| 0 <= i < items.len() ==> !(#[trigger] items[i]).contains(sep),
    ensures
        split_on(join(items, seq![sep]), sep) == items,
    decreases items.len(),
{
    if items.len() == 1 {
        lemma_split_without_separator(items[0], sep);
        assert(seq![items[0]] == items);
    } else {
        lemma_split_join(items.drop_last(), sep);
        assert(!items.last().contains(sep)) by {
            assert(items[items.len() - 1] == items.last());
        }
        lemma_split_after_separator(join(items.drop_last(), seq![sep]), items.last(), sep);
        assert(items.drop_last().push(items.last()) == items);
    }
}

/// A text without white space at either end is its own trimming.
pub proof fn lemma_trim_unchanged(s: Seq<char>)
    requires
        s.len() > 0 ==> !is_space(s[0]) && !is_space(s.last()),
    ensures
        trim(s) == s,
{
    assert(leading_space(s) == 0);
    assert(s.skip(0) == s);
    assert(trailing_space(s) == 0);
    assert(s.take(s.len() as int) == s);
}


/// A join begins with the first item and ends with the last one.
pub proof fn lemma_join_ends(items: Seq<Seq<char>>, sep: Seq<char>)
    requires
        items.len() >= 1,
        items[0].len() > 0,
        items.last().len() > 0,
    ensures
        join(items, sep).len() > 0,
        join(items, sep)[0] == items[0][0],
        join(items, sep).last() == items.last().last(),
    decreases items.len(),
{
    if items.len() > 1 {
        let init = items.drop_last();
        if init.len() > 1 {
            assert(init.last() == items[items.len() - 2]);
        }
        assert(init[0] == items[0]);
        lemma_join_ends_first(init, sep);
    }
}

proof fn lemma_join_ends_first(items: Seq<Seq<char>>, sep: Seq<char>)
    requires
        items.len() >= 1,
        items[0].len() > 0,
    ensures
        join(items, sep).len() > 0,
        join(items, sep)[0] == items[0][0],
    decreases items.len(),
{
    if items.len() > 1 {
        assert(items.drop_last()[0] == items[0]);
        lemma_join_ends_first(items.drop_last(), sep);
    }
}

/// `10` to the power `k`.
pub open spec fn pow10(k: nat) -> nat
    decreases k,
{
    if k == 0 {
        1
    } else {
        10 * pow10((k - 1) as nat)
    }
}

/// A number below `10^k` has at most `k` decimal digits.
pub proof fn lemma_decimal_len(n: nat, k: nat)
    requires
        k >= 1,
        n < pow10(k),
    ensures
        decimal(n).len() <= k,
    decreases n,
{
    if n >= 10 {
        assert(pow10(1) == 10) by {
            reveal_with_fuel(pow10, 2);
        }
        assert(k >= 2);
        let k1 = (k - 1) as nat;
        assert(n < 10 * pow10(k1));
        assert(n / 10 < pow10(k1)) by (nonlinear_arith)
            requires
                n < 10 * pow10(k1),
        ;
        lemma_decimal_len(n / 10, k1);
    }
}

/// A `u32` has at most ten decimal digits.
pub proof fn lemma_decimal_len_u32(n: u32)
    ensures
        decimal(n as nat).len() <= 10,
{
    assert(pow10(10) == 10000000000) by {
        reveal_with_fuel(pow10, 11);
    }
    lemma_decimal_len(n as nat, 10);
}

/// Text no longer than the column, right-aligned, fills the column exactly
/// and ends with the text.
pub proof fn lemma_align_right_fits(s: Seq<char>, width: nat)
    requires
        s.len() <= width,
    ensures
        align_right(s, width).len() == width,
        align_right(s, width).subrange(width - s.len(), width as int) == s,
        forall|i: int| 0 <= i < width - s.len() ==> #[trigger] align_right(s, width)[i] == ' ',
{
    assert(align_right(s, width).subrange(width - s.len(), width as int) =~= s);
}

/// A join ends with its last item.
pub proof fn lemma_join_last(items: Seq<Seq<char>>, sep: Seq<char>)
    requires
        items.len() >= 1,
    ensures
        join(items, sep).len() >= items.last().len(),
        join(items, sep).subrange(join(items, sep).len() - items.last().len(), join(items, sep).len() as int)
            == items.last(),
{
    let j = join(items, sep);
    if items.len() == 1 {
        assert(j.subrange(0, j.len() as int) =~= items.last());
    } else {
        let a = join(items.drop_last(), sep) + sep;
        assert(j == a + items.last());
        assert(j.subrange(a.len() as int, j.len() as int) =~= items.last());
    }
}

/// A join begins with its first item.
pub proof fn lemma_join_first(items: Seq<Seq<char>>, sep: Seq<char>)
    requires
        items.len() >= 1,
    ensures
        join(items, sep).len() >= items[0].len(),
        join(items, sep).subrange(0, items[0].len() as int) == items[0],
    decreases items.len(),
{
    let j = join(items, sep);
    if items.len() == 1 {
        assert(j.subrange(0, j.len() as int) =~= items[0]);
    } else {
        let init = items.drop_last();
        lemma_join_first(init, sep);
        assert(init[0] == items[0]);
        let a = join(init, sep);
        assert(j == a + sep + items.last());
        assert(j.subrange(0, items[0].len() as int) =~= a.subrange(0, items[0].len() as int));
    }
}

} // verus!
