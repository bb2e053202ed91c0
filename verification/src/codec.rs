//! The numeric codec: renders one integer magnitude (with its sign) to text
//! under resolved radix/width/precision/case/prefix hints, writing character
//! by character into a sink with no heap use beyond one transient buffer.

use vstd::prelude::*;
use vstd::arithmetic::div_mod::lemma_div_decreases;

use crate::sink::write_chars;
use crate::sink::Writeable;

verus! {

/// The character standing for digit value `d` (`d < 36`) in the lowercase
/// or uppercase digit alphabet `0..9a..z` / `0..9A..Z`.
pub open spec fn digit_char(d: nat, upper: bool) -> char {
    if d < 10 {
        ((d + 48) as u8) as char
    } else if upper {
        ((d + 55) as u8) as char
    } else {
        ((d + 87) as u8) as char
    }
}

/// The digit value a character stands for, inverse of `digit_char` on the
/// alphabet of the matching case; other characters map to 36.
pub open spec fn char_digit(c: char, upper: bool) -> nat {
    let v = c as u32;
    if 48 <= v <= 57 {
        (v - 48) as nat
    } else if upper && 65 <= v <= 90 {
        (v - 55) as nat
    } else if !upper && 97 <= v <= 122 {
        (v - 87) as nat
    } else {
        36
    }
}

/// The digits of `mag` under `radix`, most significant first, with no
/// leading zeros; zero has no digits at all here.
pub open spec fn digits_msf(mag: nat, radix: nat, upper: bool) -> Seq<char>
    decreases mag,
    via digits_msf_decreases
{
    if mag == 0 || radix < 2 {
        Seq::empty()
    } else {
        digits_msf(mag / radix, radix, upper).push(digit_char(mag % radix, upper))
    }
}

#[via_fn]
proof fn digits_msf_decreases(mag: nat, radix: nat, upper: bool) {
    if mag > 0 && radix >= 2 {
        lemma_div_decreases(mag as int, radix as int);
    }
}

/// The natural digit string of `mag`: its digits, or a single `'0'` for zero.
pub open spec fn natural_digits(mag: nat, radix: nat, upper: bool) -> Seq<char> {
    if mag == 0 {
        seq!['0']
    } else {
        digits_msf(mag, radix, upper)
    }
}

/// A run of `n` zero characters.
pub open spec fn zero_run(n: nat) -> Seq<char> {
    Seq::new(n, |i: int| '0')
}

/// A run of `n` space characters.
pub open spec fn space_run(n: nat) -> Seq<char> {
    Seq::new(n, |i: int| ' ')
}

/// The digit portion of a rendering: the natural digits of `mag`,
/// left-filled with `'0'` up to the requested precision. Precision is a
/// minimum digit count, never a truncation.
pub open spec fn spec_digit_seq(mag: nat, radix: nat, precision: nat, upper: bool) -> Seq<char> {
    let natural = natural_digits(mag, radix, upper);
    if natural.len() >= precision {
        natural
    } else {
        zero_run((precision - natural.len()) as nat) + natural
    }
}

/// The pretty prefix: `0b`, `0o` or `0x` when the pretty hint is set and the
/// radix is 2, 8 or 16; empty otherwise.
pub open spec fn spec_prefix(pretty: bool, radix: nat) -> Seq<char> {
    if pretty && radix == 2 {
        seq!['0', 'b']
    } else if pretty && radix == 8 {
        seq!['0', 'o']
    } else if pretty && radix == 16 {
        seq!['0', 'x']
    } else {
        Seq::empty()
    }
}

/// The sign: a single `-` for a negative value, empty otherwise.
pub open spec fn spec_sign(negative: bool) -> Seq<char> {
    if negative {
        seq!['-']
    } else {
        Seq::empty()
    }
}

/// Sign, prefix and digits in reading order, before width padding.
pub open spec fn spec_content(
    negative: bool,
    mag: nat,
    pretty: bool,
    radix: nat,
    precision: nat,
    upper: bool,
) -> Seq<char> {
    spec_sign(negative) + spec_prefix(pretty, radix) + spec_digit_seq(mag, radix, precision, upper)
}

/// The full rendering of an integer with resolved hints: the content of
/// `spec_content`, left-padded with spaces up to the requested width.
/// Width never truncates and composes with sign, prefix and precision.
pub open spec fn spec_render_int(
    negative: bool,
    mag: nat,
    pretty: bool,
    radix: nat,
    width: nat,
    precision: nat,
    upper: bool,
) -> Seq<char> {
    let content = spec_content(negative, mag, pretty, radix, precision, upper);
    if content.len() >= width {
        content
    } else {
        space_run((width - content.len()) as nat) + content
    }
}

/// The magnitude of a signed value.
pub open spec fn i_abs(v: int) -> nat {
    if v < 0 {
        (-v) as nat
    } else {
        v as nat
    }
}

/// A radix hint must already have been validated to lie in 2..=36.
pub open spec fn radix_hint_ok(radix: Option<usize>) -> bool {
    radix is Some ==> 2 <= radix->0 <= 36
}

/// The radix a hint resolves to: the given one, or 10.
pub open spec fn resolved_radix(radix: Option<usize>) -> nat {
    if radix is Some {
        radix->0 as nat
    } else {
        10
    }
}

/// The width or precision a hint resolves to: the given one, or 0.
pub open spec fn resolved_count(count: Option<usize>) -> nat {
    if count is Some {
        count->0 as nat
    } else {
        0
    }
}

/// The case a hint resolves to: uppercase only when asked for.
pub open spec fn resolved_upper(case: Option<bool>) -> bool {
    case == Some(true)
}

/// Whether the pretty hint is set.
pub open spec fn resolved_pretty(pretty: Option<bool>) -> bool {
    pretty == Some(true)
}

/// The rendering of an integer under the five raw hints, as the sink
/// receives it.
pub open spec fn spec_render_hinted(
    negative: bool,
    mag: nat,
    pretty: Option<bool>,
    radix: Option<usize>,
    width: Option<usize>,
    precision: Option<usize>,
    case: Option<bool>,
) -> Seq<char> {
    spec_render_int(
        negative,
        mag,
        resolved_pretty(pretty),
        resolved_radix(radix),
        resolved_count(width),
        resolved_count(precision),
        resolved_upper(case),
    )
}

/// The numeric value of a digit string under a radix: each character taken
/// at its alphabet position.
pub open spec fn seq_val(s: Seq<char>, radix: nat, upper: bool) -> nat
    decreases s.len(),
{
    if s.len() == 0 {
        0
    } else {
        seq_val(s.drop_last(), radix, upper) * radix + char_digit(s.last(), upper)
    }
}

/// Reading a digit character back gives the digit it was written from.
pub proof fn lemma_digit_char_roundtrip(d: nat, upper: bool)
    requires
        d < 36,
    ensures
        char_digit(digit_char(d, upper), upper) == d,
{
}

/// Every character of `digits_msf` stands for a digit below the radix.
pub proof fn lemma_digits_msf_chars(mag: nat, radix: nat, upper: bool)
    requires
        2 <= radix <= 36,
    ensures
        forall|i: int|
            0 <= i < digits_msf(mag, radix, upper).len() ==> exists|d: nat|
                d < radix && #[trigger] digits_msf(mag, radix, upper)[i] == digit_char(d, upper),
    decreases mag,
{
    if mag > 0 {
        lemma_div_decreases(mag as int, radix as int);
        lemma_digits_msf_chars(mag / radix, radix, upper);
        let s = digits_msf(mag, radix, upper);
        let prefix = digits_msf(mag / radix, radix, upper);
        assert forall|i: int| 0 <= i < s.len() implies exists|d: nat|
            d < radix && #[trigger] s[i] == digit_char(d, upper) by {
            if i < prefix.len() {
                assert(s[i] == prefix[i]);
            } else {
                let d0 = mag % radix;
                assert(s[i] == digit_char(d0, upper));
            }
        }
    }
}

/// The digits of `mag` parse back to `mag` under the same radix.
pub proof fn lemma_digits_msf_roundtrip(mag: nat, radix: nat, upper: bool)
    requires
        2 <= radix <= 36,
    ensures
        seq_val(digits_msf(mag, radix, upper), radix, upper) == mag,
    decreases mag,
{
    if mag > 0 {
        lemma_div_decreases(mag as int, radix as int);
        lemma_digits_msf_roundtrip(mag / radix, radix, upper);
        let prefix = digits_msf(mag / radix, radix, upper);
        let c = digit_char(mag % radix, upper);
        assert(prefix.push(c).drop_last() =~= prefix);
        assert(prefix.push(c).last() == c);
        lemma_digit_char_roundtrip(mag % radix, upper);
        assert(seq_val(prefix.push(c), radix, upper) == (mag / radix) * radix + mag % radix);
        vstd::arithmetic::div_mod::lemma_fundamental_div_mod(mag as int, radix as int);
    }
}

/// Zero characters in front of a digit string leave its value unchanged.
pub proof fn lemma_zero_fill_val(fill: nat, s: Seq<char>, radix: nat, upper: bool)
    requires
        2 <= radix <= 36,
    ensures
        seq_val(zero_run(fill) + s, radix, upper) == seq_val(s, radix, upper),
    decreases s.len(),
{
    if s.len() == 0 {
        assert(zero_run(fill) + s =~= zero_run(fill));
        lemma_zero_run_val(fill, radix, upper);
    } else {
        assert((zero_run(fill) + s).drop_last() =~= zero_run(fill) + s.drop_last());
        assert((zero_run(fill) + s).last() == s.last());
        lemma_zero_fill_val(fill, s.drop_last(), radix, upper);
    }
}

/// A run of zeros denotes zero.
pub proof fn lemma_zero_run_val(fill: nat, radix: nat, upper: bool)
    requires
        2 <= radix <= 36,
    ensures
        seq_val(zero_run(fill), radix, upper) == 0,
    decreases fill,
{
    assert(char_digit('0', upper) == 0);
    if fill > 0 {
        assert(zero_run(fill).len() == fill);
        assert(zero_run(fill).drop_last() =~= zero_run((fill - 1) as nat));
        assert(zero_run(fill).last() == '0');
        lemma_zero_run_val((fill - 1) as nat, radix, upper);
        assert(seq_val(zero_run(fill), radix, upper) == seq_val(
            zero_run(fill).drop_last(),
            radix,
            upper,
        ) * radix + char_digit(zero_run(fill).last(), upper));
        assert(seq_val(zero_run(fill).drop_last(), radix, upper) == 0);
        assert(0 * radix + 0 == 0);
    }
}

/// The digit portion of any rendering parses back, under the radix it was
/// written with, to the magnitude it was written from, and every one of
/// its characters stands for a digit below the radix in the selected-case
/// alphabet. Width padding, sign and pretty prefix sit outside this
/// portion, as `spec_render_int` lays them out.
pub proof fn lemma_digit_seq_roundtrip(mag: nat, radix: nat, precision: nat, upper: bool)
    requires
        2 <= radix <= 36,
    ensures
        seq_val(spec_digit_seq(mag, radix, precision, upper), radix, upper) == mag,
        forall|i: int|
            0 <= i < spec_digit_seq(mag, radix, precision, upper).len() ==> exists|d: nat|
                d < radix && #[trigger] spec_digit_seq(mag, radix, precision, upper)[i]
                    == digit_char(d, upper),
{
    let natural = natural_digits(mag, radix, upper);
    let dseq = spec_digit_seq(mag, radix, precision, upper);
    assert(char_digit('0', upper) == 0);
    if mag == 0 {
        assert(natural =~= seq!['0']);
        assert(natural.len() == 1);
        assert(natural.drop_last() =~= Seq::<char>::empty());
        assert(natural.last() == '0');
        assert(seq_val(natural, radix, upper) == seq_val(natural.drop_last(), radix, upper)
            * radix + char_digit(natural.last(), upper));
        assert(seq_val(natural.drop_last(), radix, upper) == 0);
        assert(char_digit(natural.last(), upper) == 0);
        assert(0 * radix + 0 == 0);
        assert(seq_val(natural, radix, upper) == 0);
    } else {
        lemma_digits_msf_roundtrip(mag, radix, upper);
        lemma_digits_msf_chars(mag, radix, upper);
    }
    if natural.len() >= precision {
        assert(dseq == natural);
    } else {
        let fill = (precision - natural.len()) as nat;
        lemma_zero_fill_val(fill, natural, radix, upper);
    }
    assert forall|i: int| 0 <= i < dseq.len() implies exists|d: nat|
        d < radix && #[trigger] dseq[i] == digit_char(d, upper) by {
        if natural.len() >= precision {
            assert(dseq[i] == natural[i]);
            lemma_natural_digit_chars(mag, radix, upper, i);
        } else {
            let fill = (precision - natural.len()) as nat;
            if i < fill {
                assert(dseq[i] == zero_run(fill)[i]);
                assert(dseq[i] == '0');
                assert(digit_char(0, upper) == '0');
                assert(0 < radix && dseq[i] == digit_char(0, upper));
            } else {
                assert(dseq[i] == natural[i - fill]);
                lemma_natural_digit_chars(mag, radix, upper, i - fill);
            }
        }
    }
}

/// One character of the natural digit string stands for a digit below the
/// radix.
proof fn lemma_natural_digit_chars(mag: nat, radix: nat, upper: bool, i: int)
    requires
        2 <= radix <= 36,
        0 <= i < natural_digits(mag, radix, upper).len(),
    ensures
        exists|d: nat|
            d < radix && #[trigger] natural_digits(mag, radix, upper)[i] == digit_char(d, upper),
{
    let natural = natural_digits(mag, radix, upper);
    if mag == 0 {
        assert(natural[0] == '0');
        assert(digit_char(0, upper) == '0');
        assert(0 < radix && natural[i] == digit_char(0, upper));
    } else {
        lemma_digits_msf_chars(mag, radix, upper);
        assert(natural[i] == digits_msf(mag, radix, upper)[i]);
    }
}

/// Any rendering splits into width padding, sign, pretty prefix and the
/// digit portion, in that order: stripping the first three leaves exactly
/// `spec_digit_seq`, whose round trip `lemma_digit_seq_roundtrip` states.
pub proof fn lemma_render_int_decomposition(
    negative: bool,
    mag: nat,
    pretty: bool,
    radix: nat,
    width: nat,
    precision: nat,
    upper: bool,
)
    ensures
        exists|k: nat|
            spec_render_int(negative, mag, pretty, radix, width, precision, upper) == space_run(k)
                + spec_sign(negative) + spec_prefix(pretty, radix) + spec_digit_seq(
                mag,
                radix,
                precision,
                upper,
            ),
{
    let content = spec_content(negative, mag, pretty, radix, precision, upper);
    let k: nat = if content.len() >= width {
        0
    } else {
        (width - content.len()) as nat
    };
    assert(spec_render_int(negative, mag, pretty, radix, width, precision, upper) =~= space_run(k)
        + spec_sign(negative) + spec_prefix(pretty, radix) + spec_digit_seq(
        mag,
        radix,
        precision,
        upper,
    ));
}

/// The rendering of an integer is never shorter than the requested width,
/// and never shorter than its natural unpadded content of sign, prefix and
/// digits.
pub proof fn lemma_render_int_length(
    negative: bool,
    mag: nat,
    pretty: bool,
    radix: nat,
    width: nat,
    precision: nat,
    upper: bool,
)
    ensures
        spec_render_int(negative, mag, pretty, radix, width, precision, upper).len() >= width,
        spec_render_int(negative, mag, pretty, radix, width, precision, upper).len()
            >= spec_content(negative, mag, pretty, radix, precision, upper).len(),
{
}

/// The alphabet character for one digit value.
fn digit_to_char(d: usize, upper: bool) -> (c: char)
    requires
        d < 36,
    ensures
        c == digit_char(d as nat, upper),
{
    if d < 10 {
        (48 + d as u8) as char
    } else if upper {
        (55 + d as u8) as char
    } else {
        (87 + d as u8) as char
    }
}

/// Fills an empty working buffer with the natural digits of `mag`, least
/// significant first, so that its reversal reads them naturally.
fn push_digits(work: &mut Vec<char>, mag: u128, radix: u128, upper: bool)
    requires
        old(work)@.len() == 0,
        2 <= radix <= 36,
    ensures
        final(work)@.reverse() == natural_digits(mag as nat, radix as nat, upper),
{
    let ghost rn: nat = radix as nat;
    if mag == 0 {
        work.push('0');
        assert(work@.reverse() =~= seq!['0']);
    } else {
        let mut value: u128 = mag;
        while value > 0
            invariant
                2 <= radix <= 36,
                rn == radix as nat,
                digits_msf(mag as nat, rn, upper) =~= digits_msf(value as nat, rn, upper)
                    + work@.reverse(),
            decreases value,
        {
            let d: usize = (value % radix) as usize;
            let c = digit_to_char(d, upper);
            let ghost old_work = work@;
            work.push(c);
            proof {
                assert(work@.reverse() =~= seq![c] + old_work.reverse());
                assert(digits_msf(value as nat, rn, upper) == digits_msf(
                    (value as nat) / rn,
                    rn,
                    upper,
                ).push(digit_char((value as nat) % rn, upper)));
                assert(digits_msf((value as nat) / rn, rn, upper).push(c) + old_work.reverse()
                    =~= digits_msf((value as nat) / rn, rn, upper) + work@.reverse());
                lemma_div_decreases(value as int, radix as int);
            }
            value = value / radix;
        }
        assert(digits_msf(mag as nat, rn, upper) =~= work@.reverse());
    }
}

/// Zero-fills the working buffer up to the requested precision.
fn push_zero_fill(work: &mut Vec<char>, precision: usize, mag: u128, radix: u128, upper: bool)
    requires
        old(work)@.reverse() == natural_digits(mag as nat, radix as nat, upper),
    ensures
        final(work)@.reverse() == spec_digit_seq(mag as nat, radix as nat, precision as nat, upper),
{
    let ghost natural: Seq<char> = natural_digits(mag as nat, radix as nat, upper);
    assert(work@.len() == natural.len());
    while work.len() < precision
        invariant
            natural.len() <= work@.len(),
            work@.len() <= natural.len() || work@.len() <= precision as nat,
            work@.reverse() =~= zero_run((work@.len() - natural.len()) as nat) + natural,
        decreases precision - work.len(),
    {
        let ghost old_work = work@;
        work.push('0');
        proof {
            assert(work@.reverse() =~= seq!['0'] + old_work.reverse());
            assert(seq!['0'] + (zero_run((old_work.len() - natural.len()) as nat) + natural)
                =~= zero_run((work@.len() - natural.len()) as nat) + natural);
        }
    }
    assert(work@.reverse() == spec_digit_seq(mag as nat, radix as nat, precision as nat, upper))
        by {
        if natural.len() >= precision as nat {
            assert(work@.len() == natural.len());
            assert(zero_run(0) + natural =~= natural);
        } else {
            assert(work@.len() == precision as nat);
        }
    }
}

/// Appends the pretty prefix in working order, so it reads `0b`/`0o`/`0x`.
fn push_prefix(work: &mut Vec<char>, pretty: bool, radix: u128)
    requires
        2 <= radix <= 36,
    ensures
        final(work)@.reverse() == spec_prefix(pretty, radix as nat) + old(work)@.reverse(),
{
    if pretty && (radix == 2 || radix == 8 || radix == 16) {
        let marker: char = if radix == 2 {
            'b'
        } else if radix == 8 {
            'o'
        } else {
            'x'
        };
        let ghost w0 = work@;
        work.push(marker);
        work.push('0');
        proof {
            assert(work@.reverse() =~= seq!['0', marker] + w0.reverse());
            assert(seq!['0', marker] =~= spec_prefix(true, radix as nat));
        }
    } else {
        assert(spec_prefix(pretty, radix as nat) + work@.reverse() =~= work@.reverse());
    }
}

/// Appends the sign in working order, so it reads first.
fn push_sign(work: &mut Vec<char>, negative: bool)
    ensures
        final(work)@.reverse() == spec_sign(negative) + old(work)@.reverse(),
{
    if negative {
        let ghost w0 = work@;
        work.push('-');
        assert(work@.reverse() =~= seq!['-'] + w0.reverse());
    } else {
        assert(spec_sign(false) + work@.reverse() =~= work@.reverse());
    }
}

/// Reverses the working buffer into reading order, preceded by enough
/// spaces to reach the requested width.
fn reverse_with_pad(work: &Vec<char>, width: usize) -> (out: Vec<char>)
    ensures
        out@ == (if work@.len() >= width as nat {
            work@.reverse()
        } else {
            space_run((width as nat - work@.len()) as nat) + work@.reverse()
        }),
{
    let ghost content = work@.reverse();
    let content_len = work.len();
    let pad: usize = if content_len < width {
        width - content_len
    } else {
        0
    };
    let mut out: Vec<char> = Vec::new();
    let mut i: usize = 0;
    while i < pad
        invariant
            i <= pad,
            out@ =~= space_run(i as nat),
        decreases pad - i,
    {
        out.push(' ');
        i = i + 1;
        assert(out@ =~= space_run(i as nat));
    }
    let ghost padseq = space_run(pad as nat);

    let mut j: usize = work.len();
    while j > 0
        invariant
            j <= work@.len(),
            work@.len() == content.len(),
            work@.reverse() == content,
            padseq == space_run(pad as nat),
            out@ =~= padseq + content.take(content.len() - j),
        decreases j,
    {
        j = j - 1;
        let c = work[j];
        proof {
            assert(content[content.len() - j - 1] == work@.reverse()[content.len() - j - 1]);
            assert(work@.reverse()[content.len() - j - 1] == work@[j as int]);
        }
        out.push(c);
        proof {
            assert(content.take(content.len() - j) =~= content.take(content.len() - (j + 1)).push(
                content[content.len() - j - 1],
            ));
            assert(out@ =~= padseq + content.take(content.len() - j));
        }
    }
    proof {
        assert(content.take(content.len() as int) =~= content);
        assert(out@ =~= padseq + content);
        if work@.len() >= width as nat {
            assert(padseq =~= Seq::<char>::empty());
            assert(Seq::<char>::empty() + content =~= content);
            assert(out@ =~= content);
        }
    }
    out
}

/// Builds the unpadded content of a rendering in working (reversed) order.
fn build_content(
    negative: bool,
    mag: u128,
    pretty: bool,
    radix: u128,
    precision: usize,
    upper: bool,
) -> (work: Vec<char>)
    requires
        2 <= radix <= 36,
    ensures
        work@.reverse() == spec_content(
            negative,
            mag as nat,
            pretty,
            radix as nat,
            precision as nat,
            upper,
        ),
{
    let ghost rn: nat = radix as nat;
    let mut work: Vec<char> = Vec::new();
    push_digits(&mut work, mag, radix, upper);
    push_zero_fill(&mut work, precision, mag, radix, upper);
    let ghost dseq = spec_digit_seq(mag as nat, rn, precision as nat, upper);
    push_prefix(&mut work, pretty, radix);
    let ghost pref = spec_prefix(pretty, rn);
    push_sign(&mut work, negative);
    let ghost sgn = spec_sign(negative);
    proof {
        assert(work@.reverse() == sgn + (pref + dseq));
        assert(sgn + (pref + dseq) =~= sgn + pref + dseq);
    }
    work
}

/// Renders one integer, given as a sign and a magnitude, into a transient
/// buffer holding exactly the rendering in reading order.
fn render_int_chars(
    negative: bool,
    mag: u128,
    hint_pretty: Option<bool>,
    hint_radix: Option<usize>,
    hint_width: Option<usize>,
    hint_precision: Option<usize>,
    hint_case: Option<bool>,
) -> (out: Vec<char>)
    requires
        radix_hint_ok(hint_radix),
    ensures
        out@ == spec_render_hinted(
            negative,
            mag as nat,
            hint_pretty,
            hint_radix,
            hint_width,
            hint_precision,
            hint_case,
        ),
{
    let radix: u128 = match hint_radix {
        Some(r) => r as u128,
        None => 10,
    };
    let upper: bool = match hint_case {
        Some(true) => true,
        _ => false,
    };
    let pretty: bool = match hint_pretty {
        Some(true) => true,
        _ => false,
    };
    let precision: usize = match hint_precision {
        Some(p) => p,
        None => 0,
    };
    let width: usize = match hint_width {
        Some(w) => w,
        None => 0,
    };
    let work = build_content(negative, mag, pretty, radix, precision, upper);
    assert(work@.len() == work@.reverse().len());
    reverse_with_pad(&work, width)
}

/// Renders one integer, given as a sign and a magnitude, through the sink,
/// one character at a time. On success the count of written characters is
/// returned; the first failing write aborts the rendering and is
/// propagated, leaving the prefix already accepted in the sink. On a sink
/// that never fails the call is owed success.
pub fn render_integer<W: Writeable>(
    writer: &mut W,
    negative: bool,
    mag: u128,
    hint_pretty: Option<bool>,
    hint_radix: Option<usize>,
    hint_width: Option<usize>,
    hint_precision: Option<usize>,
    hint_case: Option<bool>,
) -> (r: Result<usize, usize>)
    requires
        radix_hint_ok(hint_radix),
    ensures
        ({
            let full = spec_render_hinted(
                negative,
                mag as nat,
                hint_pretty,
                hint_radix,
                hint_width,
                hint_precision,
                hint_case,
            );
            &&& r is Ok ==> final(writer).sunk() == old(writer).sunk() + full && r->Ok_0
                == full.len()
            &&& r is Err ==> exists|i: int|
                0 <= i < full.len() && final(writer).sunk() == old(writer).sunk() + full.take(i)
            &&& old(writer).never_fails() ==> r is Ok && final(writer).never_fails()
        }),
{
    let buffer = render_int_chars(
        negative,
        mag,
        hint_pretty,
        hint_radix,
        hint_width,
        hint_precision,
        hint_case,
    );
    write_chars(writer, &buffer)
}

} // verus!
