use kformat::parse_fmt_string;
use kformat::render;
use kformat::render_integer;
use kformat::Argument;
use kformat::CharBuffer;

fn rendered_string(fmt: &str, args: Vec<Argument>) -> String {
    let template = parse_fmt_string(fmt).unwrap();
    let mut buffer = CharBuffer::new();
    render(&template, &args, &mut buffer).unwrap();
    buffer.get().iter().collect()
}

#[test]
fn zero_renders_as_one_digit_without_precision() {
    assert_eq!(rendered_string("{}", vec![Argument::Int(0)]), "0");
    assert_eq!(rendered_string("{}", vec![Argument::Uint(0)]), "0");
}

#[test]
fn zero_renders_as_four_zeros_with_precision_four() {
    assert_eq!(rendered_string("{p4}", vec![Argument::Int(0)]), "0000");
    assert_eq!(rendered_string("{p4}", vec![Argument::Uint(0)]), "0000");
}

#[test]
fn digits_parse_back_under_the_chosen_radix() {
    // 123 = 2*49 + 3*7 + 4 in base 7.
    assert_eq!(rendered_string("{r7}", vec![Argument::Int(123)]), "234");
    // 255 in hexadecimal, both cases.
    assert_eq!(rendered_string("{r16}", vec![Argument::Uint(255)]), "ff");
    assert_eq!(rendered_string("{r16:u}", vec![Argument::Uint(255)]), "FF");
    // 35 is the last single digit of base 36.
    assert_eq!(rendered_string("{r36}", vec![Argument::Uint(35)]), "z");
    assert_eq!(rendered_string("{r36:u}", vec![Argument::Uint(35)]), "Z");
    // Binary round trip of an 8-bit pattern.
    assert_eq!(
        rendered_string("{b}", vec![Argument::Uint(0b10110101)]),
        "10110101"
    );
}

#[test]
fn output_is_never_shorter_than_width_or_content() {
    // Width pads to exactly the requested length.
    let out = rendered_string("{w9:p5}", vec![Argument::Int(42)]);
    assert_eq!(out.len(), 9);
    assert_eq!(out, "    00042");
    // A width smaller than the content never truncates.
    let out = rendered_string("{w2:p4}", vec![Argument::Int(7)]);
    assert_eq!(out, "0007");
    // Width counts against sign, prefix and digits together.
    let out = rendered_string("{#:w7:p4:x}", vec![Argument::Int(-3)]);
    assert_eq!(out, "-0x0003");
}

#[test]
fn pretty_prefix_appears_only_for_radix_2_8_16() {
    assert_eq!(rendered_string("{#:b}", vec![Argument::Uint(4)]), "0b100");
    assert_eq!(rendered_string("{#:o}", vec![Argument::Uint(8)]), "0o10");
    assert_eq!(rendered_string("{#:x}", vec![Argument::Uint(26)]), "0x1a");
    // Decimal and other radixes get no prefix.
    assert_eq!(rendered_string("{#}", vec![Argument::Uint(5)]), "5");
    assert_eq!(rendered_string("{#:r5}", vec![Argument::Uint(6)]), "11");
}

#[test]
fn debug_placeholders_render_integers_like_display() {
    assert_eq!(rendered_string("{?}", vec![Argument::Int(-9)]), "-9");
    assert_eq!(rendered_string("{?:x}", vec![Argument::Uint(255)]), "ff");
}

#[test]
fn extreme_values_render_correctly() {
    assert_eq!(
        rendered_string("{}", vec![Argument::Int(i128::MIN)]),
        "-170141183460469231731687303715884105728"
    );
    assert_eq!(
        rendered_string("{}", vec![Argument::Uint(u128::MAX)]),
        "340282366920938463463374607431768211455"
    );
    assert_eq!(
        rendered_string("{x}", vec![Argument::Uint(u128::MAX)]),
        "ffffffffffffffffffffffffffffffff"
    );
}

#[test]
fn render_integer_writes_through_the_sink() {
    let mut buffer = CharBuffer::new();
    let n = render_integer(
        &mut buffer,
        true,
        107,
        Some(true),
        Some(16),
        Some(9),
        Some(4),
        Some(true),
    )
    .unwrap();
    assert_eq!(n, 9);
    let out: String = buffer.get().iter().collect();
    assert_eq!(out, "  -0x006B");
}

#[test]
fn characters_and_text_ignore_hints() {
    assert_eq!(
        rendered_string("{w9:p5}", vec![Argument::Char('q')]),
        "q"
    );
    assert_eq!(
        rendered_string("{x}", vec![Argument::Text("Hi".chars().collect())]),
        "Hi"
    );
}
