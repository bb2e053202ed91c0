use kformat::parse_fmt_placeholder;
use kformat::parse_fmt_string;
use kformat::render;
use kformat::Argument;
use kformat::CharBuffer;
use kformat::CompileError;
use kformat::Method;
use kformat::RenderError;
use kformat::Segment;

fn compile_err(fmt: &str) -> CompileError {
    parse_fmt_string(fmt).unwrap_err()
}

#[test]
fn empty_placeholder_is_plain_display() {
    let d = parse_fmt_placeholder(&Vec::new()).unwrap();
    assert_eq!(d.method, Method::Display);
    assert!(!d.pretty);
    assert_eq!(d.radix, None);
    assert_eq!(d.width, None);
    assert_eq!(d.precision, None);
    assert_eq!(d.case, None);
}

#[test]
fn hint_tokens_fill_the_directive() {
    let interior: Vec<char> = "#:?:r12:w7:p3:u".chars().collect();
    let d = parse_fmt_placeholder(&interior).unwrap();
    assert_eq!(d.method, Method::Debug);
    assert!(d.pretty);
    assert_eq!(d.radix, Some(12));
    assert_eq!(d.width, Some(7));
    assert_eq!(d.precision, Some(3));
    assert_eq!(d.case, Some(true));
}

#[test]
fn hexadecimal_token_sets_radix_and_case() {
    let interior: Vec<char> = "x".chars().collect();
    let d = parse_fmt_placeholder(&interior).unwrap();
    assert_eq!(d.radix, Some(16));
    assert_eq!(d.case, Some(false));

    let interior: Vec<char> = "X".chars().collect();
    let d = parse_fmt_placeholder(&interior).unwrap();
    assert_eq!(d.radix, Some(16));
    assert_eq!(d.case, Some(true));

    // A matching case hint before `x` merges with the case `x` chooses.
    let interior: Vec<char> = "l:x".chars().collect();
    let d = parse_fmt_placeholder(&interior).unwrap();
    assert_eq!(d.radix, Some(16));
    assert_eq!(d.case, Some(false));
}

#[test]
fn unknown_hint_is_rejected() {
    assert_eq!(compile_err("{z}"), CompileError::UnknownHint);
    assert_eq!(compile_err("{}}{"), CompileError::UnterminatedPlaceholder);
    assert_eq!(compile_err("{xy}"), CompileError::UnknownHint);
    assert_eq!(compile_err("{w}"), CompileError::UnknownHint);
    assert_eq!(compile_err("{r1x}"), CompileError::UnknownHint);
    assert_eq!(compile_err("{:}"), CompileError::UnknownHint);
}

#[test]
fn duplicate_hints_are_rejected_even_with_equal_values() {
    assert_eq!(compile_err("{#:#}"), CompileError::DuplicatePretty);
    assert_eq!(compile_err("{b:b}"), CompileError::RadixConflict);
    assert_eq!(compile_err("{x:o}"), CompileError::RadixConflict);
    assert_eq!(compile_err("{r8:o}"), CompileError::RadixConflict);
    assert_eq!(compile_err("{w3:w3}"), CompileError::DuplicateWidth);
    assert_eq!(compile_err("{w3:W3}"), CompileError::DuplicateWidth);
    assert_eq!(compile_err("{p2:p2}"), CompileError::DuplicatePrecision);
    assert_eq!(compile_err("{u:u}"), CompileError::CaseConflict);
    assert_eq!(compile_err("{l:u}"), CompileError::CaseConflict);
    assert_eq!(compile_err("{u:x}"), CompileError::CaseConflict);
    assert_eq!(compile_err("{x:u}"), CompileError::CaseConflict);
}

#[test]
fn radix_value_must_lie_within_2_to_36() {
    assert_eq!(compile_err("{r0}"), CompileError::RadixOutOfRange);
    assert_eq!(compile_err("{r1}"), CompileError::RadixOutOfRange);
    assert_eq!(compile_err("{r37}"), CompileError::RadixOutOfRange);
    assert!(parse_fmt_string("{r2}").is_ok());
    assert!(parse_fmt_string("{r36}").is_ok());
}

#[test]
fn unterminated_placeholder_is_rejected() {
    assert_eq!(compile_err("{x"), CompileError::UnterminatedPlaceholder);
    assert_eq!(compile_err("a{"), CompileError::UnterminatedPlaceholder);
}

#[test]
fn trailing_escape_is_rejected() {
    assert_eq!(compile_err("abc%"), CompileError::TrailingEscape);
}

#[test]
fn empty_template_renders_nothing_and_succeeds() {
    let template = parse_fmt_string("").unwrap();
    let mut buffer = CharBuffer::new();
    let n = render(&template, &Vec::new(), &mut buffer).unwrap();
    assert_eq!(n, 0);
    assert_eq!(buffer.get().len(), 0);
}

#[test]
fn escapes_make_literals() {
    let template = parse_fmt_string("%{%}%%a").unwrap();
    let mut buffer = CharBuffer::new();
    let n = render(&template, &Vec::new(), &mut buffer).unwrap();
    assert_eq!(n, 4);
    assert_eq!(buffer.get().as_slice(), &['{', '}', '%', 'a']);
}

#[test]
fn segments_split_text_and_placeholders() {
    let template = parse_fmt_string("a{}b").unwrap();
    assert_eq!(template.segments.len(), 3);
    assert!(matches!(template.segments[0], Segment::Text(_)));
    assert!(matches!(template.segments[1], Segment::Placeholder(_)));
    assert!(matches!(template.segments[2], Segment::Text(_)));
}

#[test]
fn argument_count_mismatch_fails_exactly_when_counts_differ() {
    let template = parse_fmt_string("{} and {}").unwrap();

    let mut buffer = CharBuffer::new();
    let r = render(&template, &vec![Argument::Int(1)], &mut buffer);
    assert_eq!(
        r,
        Err(RenderError::Compile(CompileError::ArgumentCount {
            expected: 2,
            actual: 1,
        }))
    );
    assert_eq!(buffer.get().len(), 0);

    let r = render(
        &template,
        &vec![Argument::Int(1), Argument::Int(2), Argument::Int(3)],
        &mut buffer,
    );
    assert_eq!(
        r,
        Err(RenderError::Compile(CompileError::ArgumentCount {
            expected: 2,
            actual: 3,
        }))
    );

    let r = render(
        &template,
        &vec![Argument::Int(1), Argument::Int(2)],
        &mut buffer,
    );
    assert_eq!(r, Ok(7));
    assert_eq!(
        buffer.get().as_slice(),
        &['1', ' ', 'a', 'n', 'd', ' ', '2']
    );
}
