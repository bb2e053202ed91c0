use kformat::parse_fmt_string;
use kformat::render;
use kformat::Argument;
use kformat::CharBuffer;
use kformat::Writeable;

fn rendered(fmt: &str, args: Vec<Argument>) -> Vec<char> {
    let template = parse_fmt_string(fmt).unwrap();
    let mut buffer = CharBuffer::new();
    render(&template, &args, &mut buffer).unwrap();
    buffer.get().clone()
}

#[test]
fn it_works() {
    let mut buffer = CharBuffer::new();
    buffer.write('a').unwrap();
    buffer.write('b').unwrap();
    buffer.write('c').unwrap();

    assert_eq!(buffer.get().as_slice(), &['a', 'b', 'c']);
    buffer.clear();

    let empty: [char; 0] = [];
    assert_eq!(buffer.get().as_slice(), &empty);
}

#[test]
fn it_works_with_format() {
    let out = rendered(
        "{} | {} | {}",
        vec![
            Argument::Char('a'),
            Argument::Char('b'),
            Argument::Text("cd".chars().collect()),
        ],
    );

    assert_eq!(
        out.as_slice(),
        &['a', ' ', '|', ' ', 'b', ' ', '|', ' ', 'c', 'd']
    );
}

#[test]
fn test_format_ints() {
    let out = rendered("{}", vec![Argument::Int(-123)]);
    assert_eq!(out.as_slice(), &['-', '1', '2', '3']);

    let out = rendered("{}", vec![Argument::Int(-4771)]);
    assert_eq!(out.as_slice(), &['-', '4', '7', '7', '1']);

    let out = rendered("{x}", vec![Argument::Int(123)]);
    assert_eq!(out.as_slice(), &['7', 'b']);

    let out = rendered("{w5}", vec![Argument::Int(10)]);
    assert_eq!(out.as_slice(), &[' ', ' ', ' ', '1', '0']);

    let out = rendered("{w5:x}", vec![Argument::Int(10)]);
    assert_eq!(out.as_slice(), &[' ', ' ', ' ', ' ', 'a']);

    let out = rendered("{w5:X}", vec![Argument::Uint(10)]);
    assert_eq!(out.as_slice(), &[' ', ' ', ' ', ' ', 'A']);

    let out = rendered("{w10:p5}", vec![Argument::Int(107)]);
    assert_eq!(
        out.as_slice(),
        &[' ', ' ', ' ', ' ', ' ', '0', '0', '1', '0', '7']
    );

    let out = rendered("{#:w8:p4:X}", vec![Argument::Uint(107)]);
    assert_eq!(
        out.as_slice(),
        &[' ', ' ', '0', 'x', '0', '0', '6', 'B']
    );

    let out = rendered("{w6:p4:b}", vec![Argument::Int(-5)]);
    assert_eq!(out.as_slice(), &[' ', '-', '0', '1', '0', '1']);

    let out = rendered("{w6:p4:B}", vec![Argument::Int(4)]);
    assert_eq!(out.as_slice(), &[' ', ' ', '0', '1', '0', '0']);

    let out = rendered("{#:w6:p4:B}", vec![Argument::Int(4)]);
    assert_eq!(out.as_slice(), &['0', 'b', '0', '1', '0', '0']);

    let out = rendered(
        "{#:w44:p40}",
        vec![Argument::Uint(72724961945561898922996321321127181560u128)],
    );
    assert_eq!(
        out.as_slice(),
        &[
            ' ', ' ', ' ', ' ', '0', '0', '7', '2', '7', '2', '4', '9', '6', '1', '9', '4', '5',
            '5', '6', '1', '8', '9', '8', '9', '2', '2', '9', '9', '6', '3', '2', '1', '3', '2',
            '1', '1', '2', '7', '1', '8', '1', '5', '6', '0'
        ]
    );
}
