//! Deterministic, order-preserving local names for downloaded segments.
//!
//! Segment `index` is stored as `segment_NNNNN.ts`, the index printed in
//! decimal and zero-padded to at least five digits. The padding makes the
//! lexical sort order of the file names equal the playlist order, which the
//! later concatenation step depends on.

use vstd::prelude::*;

verus! {

/// The decimal digit character for `d` (meaningful for `d < 10`).
pub open spec fn digit_char(d: nat) -> char {
    if d == 0 {
        '0'
    } else if d == 1 {
        '1'
    } else if d == 2 {
        '2'
    } else if d == 3 {
        '3'
    } else if d == 4 {
        '4'
    } else if d == 5 {
        '5'
    } else if d == 6 {
        '6'
    } else if d == 7 {
        '7'
    } else if d == 8 {
        '8'
    } else {
        '9'
    }
}

/// The decimal digits of `n`, most significant first, no leading zeros
/// (a single `'0'` for zero).
pub open spec fn spec_decimal(n: nat) -> Seq<char>
    decreases n,
{
    if n < 10 {
        seq![digit_char(n)]
    } else {
        spec_decimal(n / 10).push(digit_char(n % 10))
    }
}

/// The decimal digits of `n`, zero-padded on the left to at least `width`
/// characters.
pub open spec fn spec_zero_padded(n: nat, width: nat) -> Seq<char> {
    let d = spec_decimal(n);
    if d.len() >= width {
        d
    } else {
        Seq::new((width - d.len()) as nat, |i: int| '0') + d
    }
}

/// The local file name of segment `index`.
pub open spec fn spec_segment_name(index: nat) -> Seq<char> {
    "segment_"@ + spec_zero_padded(index, 5) + ".ts"@
}

/// The one-character string for digit `d`.
fn digit_str(d: u64) -> (r: &'static str)
    requires
        d < 10,
    ensures
        r@ == seq![digit_char(d as nat)],
{
    proof {
        reveal_strlit("0");
        reveal_strlit("1");
        reveal_strlit("2");
        reveal_strlit("3");
        reveal_strlit("4");
        reveal_strlit("5");
        reveal_strlit("6");
        reveal_strlit("7");
        reveal_strlit("8");
        reveal_strlit("9");
    }
    let r = match d {
        0 => "0",
        1 => "1",
        2 => "2",
        3 => "3",
        4 => "4",
        5 => "5",
        6 => "6",
        7 => "7",
        8 => "8",
        _ => "9",
    };
    proof {
        assert(r@ =~= seq![digit_char(d as nat)]);
    }
    r
}

/// Prints `n` in decimal, no leading zeros.
pub fn decimal_string(n: u64) -> (r: String)
    ensures
        r@ == spec_decimal(n as nat),
    decreases n,
{
    if n < 10 {
        String::from_str(digit_str(n))
    } else {
        let mut s = decimal_string(n / 10);
        s.append(digit_str(n % 10));
        proof {
            assert(s@ =~= spec_decimal(n as nat));
        }
        s
    }
}

/// Prints `n` in decimal, zero-padded on the left to at least `width`
/// characters.
pub fn zero_padded(n: u64, width: usize) -> (r: String)
    ensures
        r@ == spec_zero_padded(n as nat, width as nat),
{
    let digits = decimal_string(n);
    let dlen = digits.as_str().unicode_len();
    if dlen >= width {
        digits
    } else {
        proof {
            reveal_strlit("0");
        }
        let mut s = String::new();
        let mut i: usize = 0;
        while i < width - dlen
            invariant
                i <= width - dlen,
                dlen < width,
                s@ =~= Seq::new(i as nat, |j: int| '0'),
            decreases width - dlen - i,
        {
            proof {
                reveal_strlit("0");
            }
            s.append("0");
            i = i + 1;
            proof {
                assert(s@ =~= Seq::new(i as nat, |j: int| '0'));
            }
        }
        s.append(digits.as_str());
        proof {
            assert(s@ =~= spec_zero_padded(n as nat, width as nat));
        }
        s
    }
}

/// The local file name of segment `index`: `segment_` + the zero-padded
/// index + `.ts`.
pub fn segment_file_name(index: u64) -> (r: String)
    ensures
        r@ == spec_segment_name(index as nat),
{
    let mut s = String::from_str("segment_");
    let pad = zero_padded(index, 5);
    s.append(pad.as_str());
    s.append(".ts");
    proof {
        assert(s@ =~= spec_segment_name(index as nat));
    }
    s
}

/// Numeric value of a digit character; 10 for any other character.
pub open spec fn digit_val(c: char) -> nat {
    if c == '0' {
        0
    } else if c == '1' {
        1
    } else if c == '2' {
        2
    } else if c == '3' {
        3
    } else if c == '4' {
        4
    } else if c == '5' {
        5
    } else if c == '6' {
        6
    } else if c == '7' {
        7
    } else if c == '8' {
        8
    } else if c == '9' {
        9
    } else {
        10
    }
}

/// Whether `c` is a decimal digit character.
pub open spec fn is_digit(c: char) -> bool {
    digit_val(c) < 10
}

/// Whether every character of `s` is a decimal digit.
pub open spec fn all_digits(s: Seq<char>) -> bool {
    forall|i: int| 0 <= i < s.len() ==> is_digit(#[trigger] s[i])
}

/// Ten to the `k`.
pub open spec fn pow10(k: nat) -> nat
    decreases k,
{
    if k == 0 {
        1
    } else {
        10 * pow10((k - 1) as nat)
    }
}

/// The number that a digit sequence denotes, most significant digit first.
pub open spec fn seq_val(s: Seq<char>) -> nat
    decreases s.len(),
{
    if s.len() == 0 {
        0
    } else {
        digit_val(s[0]) * pow10((s.len() - 1) as nat) + seq_val(s.drop_first())
    }
}

/// Strict lexicographic order on character sequences, by unicode scalar
/// value — the order in which the segment files sort.
pub open spec fn lex_lt(a: Seq<char>, b: Seq<char>) -> bool
    decreases a.len(),
{
    if b.len() == 0 {
        false
    } else if a.len() == 0 {
        true
    } else if a[0] != b[0] {
        (a[0] as u32) < (b[0] as u32)
    } else {
        lex_lt(a.drop_first(), b.drop_first())
    }
}

proof fn lemma_pow10_pos(k: nat)
    ensures
        pow10(k) >= 1,
    decreases k,
{
    if k > 0 {
        lemma_pow10_pos((k - 1) as nat);
    }
}

/// `digit_char` and `digit_val` are inverse on digits, and `digit_char`
/// is strictly increasing in the character order.
proof fn lemma_digit_char_val(d: nat)
    requires
        d < 10,
    ensures
        digit_val(digit_char(d)) == d,
        digit_char(d) as u32 == 48 + d,
{
}

/// Appending a digit multiplies the denoted number by ten.
proof fn lemma_seq_val_push(s: Seq<char>, c: char)
    ensures
        seq_val(s.push(c)) == seq_val(s) * 10 + digit_val(c),
    decreases s.len(),
{
    if s.len() == 0 {
        assert(s.push(c).len() == 1);
        assert(s.push(c).drop_first() =~= Seq::<char>::empty());
        assert(s.push(c)[0] == c);
        assert(seq_val(s.push(c)) == digit_val(c) * pow10(0nat) + seq_val(s.push(c).drop_first()));
        assert(pow10(0nat) == 1);
        assert(seq_val(s) == 0);
        assert(digit_val(c) * 1 == digit_val(c)) by (nonlinear_arith);
    } else {
        assert(s.push(c)[0] == s[0]);
        assert(s.push(c).drop_first() =~= s.drop_first().push(c));
        lemma_seq_val_push(s.drop_first(), c);
        let k = (s.len() - 1) as nat;
        assert(pow10(k + 1) == 10 * pow10(k));
        assert(digit_val(s[0]) * (10 * pow10(k)) + (seq_val(s.drop_first()) * 10 + digit_val(c))
            == (digit_val(s[0]) * pow10(k) + seq_val(s.drop_first())) * 10 + digit_val(c))
            by (nonlinear_arith);
        assert(seq_val(s.push(c)) == digit_val(s[0]) * pow10(k + 1) + seq_val(
            s.drop_first().push(c),
        ));
    }
}

/// The decimal digits of `n` denote `n`, are all digits, and there is at
/// least one of them.
proof fn lemma_decimal_val(n: nat)
    ensures
        seq_val(spec_decimal(n)) == n,
        all_digits(spec_decimal(n)),
        spec_decimal(n).len() >= 1,
    decreases n,
{
    if n < 10 {
        lemma_digit_char_val(n);
        let d = spec_decimal(n);
        assert(d == seq![digit_char(n)]);
        assert(d.len() == 1);
        assert(d[0] == digit_char(n));
        assert(d.drop_first() =~= Seq::<char>::empty());
        assert(seq_val(d.drop_first()) == 0);
        assert(pow10(0nat) == 1);
        assert(seq_val(d) == digit_val(d[0]) * pow10(0nat) + seq_val(d.drop_first()));
        assert(digit_val(digit_char(n)) * 1 == digit_val(digit_char(n))) by (nonlinear_arith);
    } else {
        lemma_decimal_val(n / 10);
        lemma_digit_char_val(n % 10);
        lemma_seq_val_push(spec_decimal(n / 10), digit_char(n % 10));
        assert((n / 10) * 10 + n % 10 == n) by {
            vstd::arithmetic::div_mod::lemma_fundamental_div_mod(n as int, 10);
        }
        assert forall|i: int| 0 <= i < spec_decimal(n).len() implies is_digit(
            #[trigger] spec_decimal(n)[i],
        ) by {
            if i < spec_decimal(n / 10).len() {
                assert(spec_decimal(n)[i] == spec_decimal(n / 10)[i]);
            }
        }
    }
}

/// A number below `pow10(k)` has at most `k` decimal digits.
proof fn lemma_decimal_len(n: nat, k: nat)
    requires
        k >= 1,
        n < pow10(k),
    ensures
        spec_decimal(n).len() <= k,
    decreases n,
{
    if n >= 10 {
        assert(k >= 2) by {
            if k == 1 {
                assert(pow10(1nat) == 10);
            }
        }
        assert(n / 10 < pow10((k - 1) as nat)) by {
            vstd::arithmetic::div_mod::lemma_multiply_divide_lt(
                n as int,
                10,
                pow10((k - 1) as nat) as int,
            );
        }
        lemma_decimal_len(n / 10, (k - 1) as nat);
    }
}

/// Leading zeros do not change the denoted number.
proof fn lemma_zeros_prefix_val(z: nat, s: Seq<char>)
    ensures
        seq_val(Seq::new(z, |i: int| '0') + s) == seq_val(s),
    decreases z,
{
    let zs = Seq::new(z, |i: int| '0') + s;
    if z == 0 {
        assert(zs =~= s);
    } else {
        assert(zs.drop_first() =~= Seq::new((z - 1) as nat, |i: int| '0') + s);
        lemma_zeros_prefix_val((z - 1) as nat, s);
        assert(zs[0] == '0');
    }
}

/// A `k`-digit sequence denotes a number below `pow10(k)`.
proof fn lemma_seq_val_bound(s: Seq<char>)
    requires
        all_digits(s),
    ensures
        seq_val(s) < pow10(s.len()),
    decreases s.len(),
{
    if s.len() == 0 {
    } else {
        assert(is_digit(s[0]));
        lemma_seq_val_bound(s.drop_first());
        let k = (s.len() - 1) as nat;
        assert(digit_val(s[0]) * pow10(k) + seq_val(s.drop_first()) < 10 * pow10(k))
            by (nonlinear_arith)
            requires
                digit_val(s[0]) <= 9,
                seq_val(s.drop_first()) < pow10(k),
                pow10(k) >= 1,
        {
            lemma_pow10_pos(k);
        }
    }
}

/// Digit sequences of equal length compare lexicographically as the numbers
/// they denote.
proof fn lemma_lex_from_val(a: Seq<char>, b: Seq<char>)
    requires
        a.len() == b.len(),
        all_digits(a),
        all_digits(b),
        seq_val(a) < seq_val(b),
    ensures
        lex_lt(a, b),
    decreases a.len(),
{
    assert(a.len() > 0);
    let k = (a.len() - 1) as nat;
    assert(is_digit(a[0]));
    assert(is_digit(b[0]));
    lemma_seq_val_bound(a.drop_first());
    lemma_seq_val_bound(b.drop_first());
    lemma_pow10_pos(k);
    if digit_val(a[0]) == digit_val(b[0]) {
        assert(a[0] == b[0]);
        assert(seq_val(a.drop_first()) < seq_val(b.drop_first()));
        assert forall|i: int| 0 <= i < a.drop_first().len() implies is_digit(
            #[trigger] a.drop_first()[i],
        ) by {
            assert(a.drop_first()[i] == a[i + 1]);
        }
        assert forall|i: int| 0 <= i < b.drop_first().len() implies is_digit(
            #[trigger] b.drop_first()[i],
        ) by {
            assert(b.drop_first()[i] == b[i + 1]);
        }
        lemma_lex_from_val(a.drop_first(), b.drop_first());
    } else if digit_val(a[0]) < digit_val(b[0]) {
        assert((a[0] as u32) < (b[0] as u32));
        assert(a[0] != b[0]);
    } else {
        assert(seq_val(a) >= seq_val(b)) by (nonlinear_arith)
            requires
                seq_val(a) == digit_val(a[0]) * pow10(k) + seq_val(a.drop_first()),
                seq_val(b) == digit_val(b[0]) * pow10(k) + seq_val(b.drop_first()),
                digit_val(a[0]) >= digit_val(b[0]) + 1,
                seq_val(b.drop_first()) < pow10(k),
        ;
        assert(false);
    }
}

/// A strict lexicographic order of equal-length sequences survives any
/// suffixes.
proof fn lemma_lex_append(a: Seq<char>, b: Seq<char>, x: Seq<char>, y: Seq<char>)
    requires
        a.len() == b.len(),
        lex_lt(a, b),
    ensures
        lex_lt(a + x, b + y),
    decreases a.len(),
{
    assert(a.len() > 0);
    assert((a + x)[0] == a[0]);
    assert((b + y)[0] == b[0]);
    if a[0] != b[0] {
    } else {
        assert((a + x).drop_first() =~= a.drop_first() + x);
        assert((b + y).drop_first() =~= b.drop_first() + y);
        lemma_lex_append(a.drop_first(), b.drop_first(), x, y);
    }
}

/// A shared prefix does not affect the lexicographic order.
proof fn lemma_lex_common_prefix(p: Seq<char>, a: Seq<char>, b: Seq<char>)
    requires
        lex_lt(a, b),
    ensures
        lex_lt(p + a, p + b),
    decreases p.len(),
{
    if p.len() == 0 {
        assert(p + a =~= a);
        assert(p + b =~= b);
    } else {
        assert((p + a)[0] == p[0]);
        assert((p + b)[0] == p[0]);
        assert((p + a).drop_first() =~= p.drop_first() + a);
        assert((p + b).drop_first() =~= p.drop_first() + b);
        lemma_lex_common_prefix(p.drop_first(), a, b);
        assert(b.len() > 0);
        assert((p + b).len() > 0);
    }
}

/// The zero-padded digits of `n < 100000` at width 5: exactly five digits
/// denoting `n`.
proof fn lemma_zero_padded_5(n: nat)
    requires
        n < 100000,
    ensures
        spec_zero_padded(n, 5).len() == 5,
        all_digits(spec_zero_padded(n, 5)),
        seq_val(spec_zero_padded(n, 5)) == n,
{
    assert(pow10(5) == 100000) by {
        assert(pow10(0nat) == 1);
        assert(pow10(1nat) == 10);
        assert(pow10(2nat) == 100);
        assert(pow10(3nat) == 1000);
        assert(pow10(4nat) == 10000);
    }
    lemma_decimal_val(n);
    lemma_decimal_len(n, 5);
    let d = spec_decimal(n);
    let p = spec_zero_padded(n, 5);
    if d.len() >= 5 {
        assert(p == d);
    } else {
        let z = (5 - d.len()) as nat;
        assert(p == Seq::new(z, |i: int| '0') + d);
        lemma_zeros_prefix_val(z, d);
        assert forall|i: int| 0 <= i < p.len() implies is_digit(#[trigger] p[i]) by {
            if i < z {
                assert(p[i] == '0');
            } else {
                assert(p[i] == d[i - z]);
            }
        }
    }
}

/// The naming contract: segment file names sort lexicographically in
/// playlist order, for any run of at most 100000 segments (beyond that the
/// five-digit padding no longer aligns the names).
pub proof fn lemma_segment_names_sorted(i: nat, j: nat)
    requires
        i < j < 100000,
    ensures
        lex_lt(spec_segment_name(i), spec_segment_name(j)),
{
    lemma_zero_padded_5(i);
    lemma_zero_padded_5(j);
    let pi = spec_zero_padded(i, 5);
    let pj = spec_zero_padded(j, 5);
    lemma_lex_from_val(pi, pj);
    lemma_lex_append(pi, pj, ".ts"@, ".ts"@);
    lemma_lex_common_prefix("segment_"@, pi + ".ts"@, pj + ".ts"@);
    assert(spec_segment_name(i) =~= "segment_"@ + (pi + ".ts"@));
    assert(spec_segment_name(j) =~= "segment_"@ + (pj + ".ts"@));
}

/// One unit of work: its playlist position, its source locator, and its
/// derived local file name. Immutable once assigned.
pub struct SegmentDescriptor {
    index: usize,
    source: String,
    file_name: String,
}

impl SegmentDescriptor {
    /// The playlist position.
    pub closed spec fn spec_index(self) -> usize {
        self.index
    }

    /// The source locator.
    pub closed spec fn spec_source(self) -> Seq<char> {
        self.source@
    }

    /// The derived local file name.
    pub closed spec fn spec_file_name(self) -> Seq<char> {
        self.file_name@
    }

    /// Builds the descriptor for playlist position `index` with source
    /// locator `source`; the local file name is derived from the index.
    pub fn new(index: usize, source: String) -> (r: SegmentDescriptor)
        ensures
            r.spec_index() == index,
            r.spec_source() == source@,
            r.spec_file_name() == spec_segment_name(index as nat),
    {
        let file_name = segment_file_name(index as u64);
        SegmentDescriptor { index, source, file_name }
    }

    /// The playlist position.
    pub fn index(&self) -> (r: usize)
        ensures
            r == self.spec_index(),
    {
        self.index
    }

    /// The source locator.
    pub fn source(&self) -> (r: &String)
        ensures
            r@ == self.spec_source(),
    {
        &self.source
    }

    /// The derived local file name.
    pub fn file_name(&self) -> (r: &String)
        ensures
            r@ == self.spec_file_name(),
    {
        &self.file_name
    }
}

} // verus!
