//! Text building blocks: decimal numbers, padding, centering and joining.
//!
//! Strings are described by their characters (`String@` is a `Seq<char>`); each exec
//! function here builds its result from string literals and states it exactly.
use vstd::prelude::*;

verus! {

/// `n` space characters.
pub open spec fn spaces(n: int) -> Seq<char> {
    Seq::new(n as nat, |_i: int| ' ')
}

/// The character of a decimal digit `0..=9`.
pub open spec fn digit_char(d: int) -> char {
    if d == 0 { '0' }
    else if d == 1 { '1' }
    else if d == 2 { '2' }
    else if d == 3 { '3' }
    else if d == 4 { '4' }
    else if d == 5 { '5' }
    else if d == 6 { '6' }
    else if d == 7 { '7' }
    else if d == 8 { '8' }
    else { '9' }
}

/// Decimal notation of a natural number, without leading zeros.
pub open spec fn decimal(n: nat) -> Seq<char>
    decreases n,
{
    if n < 10 {
        seq![digit_char(n as int)]
    } else {
        decimal(n / 10).push(digit_char((n % 10) as int))
    }
}

/// Decimal notation of an integer, with a leading `-` when it is negative.
pub open spec fn signed_decimal(i: int) -> Seq<char> {
    if i < 0 {
        seq!['-'] + decimal((-i) as nat)
    } else {
        decimal(i as nat)
    }
}

/// `s` aligned to the right in a field of `width` characters; never shortened.
pub open spec fn right_aligned(s: Seq<char>, width: int) -> Seq<char> {
    if s.len() < width {
        spaces(width - s.len()) + s
    } else {
        s
    }
}

/// `s` centered in a field of `width` characters: of the padding, the smaller half goes
/// to the left; never shortened.
pub open spec fn centered(s: Seq<char>, width: int) -> Seq<char> {
    if s.len() < width {
        let pad = width - s.len();
        spaces(pad / 2) + s + spaces(pad - pad / 2)
    } else {
        s
    }
}

/// The parts one after the other, with `sep` between each two neighbours.
pub open spec fn joined(parts: Seq<Seq<char>>, sep: Seq<char>) -> Seq<char>
    decreases parts.len(),
{
    if parts.len() == 0 {
        Seq::empty()
    } else if parts.len() == 1 {
        parts[0]
    } else {
        joined(parts.drop_last(), sep) + sep + parts.last()
    }
}

/// The number of digits of `n` grows only where `n` reaches a power of ten.
pub proof fn lemma_decimal_len(n: nat)
    ensures
        1 <= decimal(n).len(),
        n < 10 ==> decimal(n).len() == 1,
        10 <= n < 100 ==> decimal(n).len() == 2,
        n < 100 ==> decimal(n).len() <= 2,
        n < 1_000 ==> decimal(n).len() <= 3,
        n < 10_000 ==> decimal(n).len() <= 4,
        n < 100_000 ==> decimal(n).len() <= 5,
        n < 1_000_000 ==> decimal(n).len() <= 6,
    decreases n,
{
    if n >= 10 {
        lemma_decimal_len(n / 10);
    }
}

/// A joined text is as long as its parts and separators together.
pub proof fn lemma_joined_len(parts: Seq<Seq<char>>, sep: Seq<char>, part_len: int)
    requires
        1 <= parts.len(),
        forall|i: int| 0 <= i < parts.len() ==> #[trigger] parts[i].len() == part_len,
    ensures
        joined(parts, sep).len() == parts.len() * part_len + (parts.len() - 1) * sep.len(),
    decreases parts.len(),
{
    if parts.len() > 1 {
        let k = parts.len() - 1;
        lemma_joined_len(parts.drop_last(), sep, part_len);
        assert(parts.last().len() == part_len);
        assert(k * part_len + part_len == (k + 1) * part_len) by (nonlinear_arith);
        assert((k - 1) * sep.len() + sep.len() == k * sep.len()) by (nonlinear_arith);
        assert(parts.drop_last().len() == k);
        assert(joined(parts, sep) == joined(parts.drop_last(), sep) + sep + parts.last());
    } else {
        assert(parts[0].len() == part_len);
    }
}

/// The literal text of a decimal digit.
fn digit_str(d: u64) -> (s: &'static str)
    requires
        d < 10,
    ensures
        s@ == seq![digit_char(d as int)],
{
    if d == 0 {
        proof { reveal_strlit("0"); }
        "0"
    } else if d == 1 {
        proof { reveal_strlit("1"); }
        "1"
    } else if d == 2 {
        proof { reveal_strlit("2"); }
        "2"
    } else if d == 3 {
        proof { reveal_strlit("3"); }
        "3"
    } else if d == 4 {
        proof { reveal_strlit("4"); }
        "4"
    } else if d == 5 {
        proof { reveal_strlit("5"); }
        "5"
    } else if d == 6 {
        proof { reveal_strlit("6"); }
        "6"
    } else if d == 7 {
        proof { reveal_strlit("7"); }
        "7"
    } else if d == 8 {
        proof { reveal_strlit("8"); }
        "8"
    } else {
        proof { reveal_strlit("9"); }
        "9"
    }
}

/// A string of `n` spaces.
pub fn spaces_string(n: usize) -> (s: String)
    ensures
        s@ == spaces(n as int),
{
    let mut s = String::new();
    let mut i: usize = 0;
    while i < n
        invariant
            i <= n,
            s@ == spaces(i as int),
        decreases n - i,
    {
        proof { reveal_strlit(" "); }
        s.append(" ");
        assert(s@ =~= spaces(i + 1));
        i = i + 1;
    }
    assert(s@ =~= spaces(n as int));
    s
}

/// Decimal notation of `n`.
pub fn decimal_string(n: u64) -> (s: String)
    ensures
        s@ == decimal(n as nat),
    decreases n,
{
    if n < 10 {
        String::from_str(digit_str(n))
    } else {
        let mut s = decimal_string(n / 10);
        s.append(digit_str(n % 10));
        s
    }
}

/// Decimal notation of `i`, with a leading `-` when it is negative.
pub fn signed_decimal_string(i: i32) -> (s: String)
    ensures
        s@ == signed_decimal(i as int),
{
    if i < 0 {
        let magnitude: i64 = -(i as i64);
        proof { reveal_strlit("-"); }
        let mut s = String::from_str("-");
        let digits = decimal_string(magnitude as u64);
        s.append(digits.as_str());
        s
    } else {
        decimal_string(i as u64)
    }
}

/// `s` aligned to the right in a field of `width` characters.
pub fn right_aligned_string(s: String, width: usize) -> (r: String)
    ensures
        r@ == right_aligned(s@, width as int),
{
    let len = s.as_str().unicode_len();
    if len < width {
        let mut r = spaces_string(width - len);
        r.append(s.as_str());
        r
    } else {
        s
    }
}

/// `s` centered in a field of `width` characters.
pub fn centered_string(s: String, width: usize) -> (r: String)
    ensures
        r@ == centered(s@, width as int),
{
    let len = s.as_str().unicode_len();
    if len < width {
        let pad = width - len;
        let mut r = spaces_string(pad / 2);
        r.append(s.as_str());
        let right = spaces_string(pad - pad / 2);
        r.append(right.as_str());
        r
    } else {
        s
    }
}

/// The strings of `parts` one after the other, with `sep` between each two neighbours.
pub fn join_strings(parts: &Vec<String>, sep: &str) -> (r: String)
    ensures
        r@ == joined(parts.deep_view(), sep@),
{
    let mut r = String::new();
    let ghost all = parts.deep_view();
    let mut i: usize = 0;
    while i < parts.len()
        invariant
            i <= parts.len(),
            all == parts.deep_view(),
            r@ == joined(all.take(i as int), sep@),
        decreases parts.len() - i,
    {
        if i == 0 {
            r.append(parts[i].as_str());
            assert(all.take(1) =~= seq![all[0]]);
        } else {
            r.append(sep);
            r.append(parts[i].as_str());
            assert(all.take(i + 1).drop_last() =~= all.take(i as int));
        }
        i = i + 1;
    }
    assert(all.take(parts.len() as int) =~= all);
    r
}

} // verus!
