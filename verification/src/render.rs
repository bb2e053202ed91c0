//! The orchestrator: walks a compiled template, writes literal text
//! verbatim, dispatches each placeholder to the next argument with the
//! directive's hints, accumulates a running character count, and aborts on
//! the first sink failure.

use vstd::prelude::*;

use crate::codec::i_abs;
use crate::codec::spec_render_hinted;
use crate::directive::lemma_placeholder_count_first;
use crate::directive::lemma_placeholder_count_len;
use crate::directive::placeholder_count;
use crate::directive::template_wf;
use crate::directive::CompileError;
use crate::directive::Directive;
use crate::directive::FormatTemplate;
use crate::directive::Method;
use crate::directive::Segment;
use crate::directive::SpecSegment;
use crate::formattable::Debuggable;
use crate::formattable::Formattable;
use crate::sink::write_chars;
use crate::sink::Writeable;

verus! {

/// A value bound positionally to one placeholder. Characters and text
/// ignore the hints; integers render through the numeric codec. Integers
/// have no distinct debug form, and neither do characters or text here, so
/// a debug placeholder renders like a display one.
#[derive(Clone, PartialEq, Eq, Debug)]
pub enum Argument {
    Char(char),
    Text(Vec<char>),
    Int(i128),
    Uint(u128),
}

/// An argument at the specification level.
pub enum SpecArgument {
    Char(char),
    Text(Seq<char>),
    Int(i128),
    Uint(u128),
}

impl View for Argument {
    type V = SpecArgument;

    open spec fn view(&self) -> SpecArgument {
        match self {
            Argument::Char(c) => SpecArgument::Char(*c),
            Argument::Text(t) => SpecArgument::Text(t@),
            Argument::Int(v) => SpecArgument::Int(*v),
            Argument::Uint(v) => SpecArgument::Uint(*v),
        }
    }
}

/// Why a render call fails: a template-shape problem found before any
/// character was written, or an opaque sink failure that aborted it.
#[derive(Clone, Copy, PartialEq, Eq, Structural, Debug)]
pub enum RenderError {
    Compile(CompileError),
    Sink(usize),
}

/// The pretty hint a directive passes on: present only when `#` was seen.
pub open spec fn spec_pretty_hint(d: Directive) -> Option<bool> {
    if d.pretty {
        Some(true)
    } else {
        None
    }
}

/// The characters one argument renders to under one directive.
pub open spec fn spec_format_arg(arg: SpecArgument, d: Directive) -> Seq<char> {
    match arg {
        SpecArgument::Char(c) => seq![c],
        SpecArgument::Text(t) => t,
        SpecArgument::Int(v) => spec_render_hinted(
            v < 0,
            i_abs(v as int),
            spec_pretty_hint(d),
            d.radix,
            d.width,
            d.precision,
            d.case,
        ),
        SpecArgument::Uint(v) => spec_render_hinted(
            false,
            v as nat,
            spec_pretty_hint(d),
            d.radix,
            d.width,
            d.precision,
            d.case,
        ),
    }
}

/// The characters a whole template renders to against an argument list:
/// text segments verbatim, each placeholder consuming the next argument.
pub open spec fn spec_render_segments(
    segments: Seq<SpecSegment>,
    args: Seq<SpecArgument>,
) -> Seq<char>
    decreases segments.len(),
{
    if segments.len() == 0 {
        Seq::empty()
    } else {
        match segments[0] {
            SpecSegment::Text(t) => t + spec_render_segments(segments.drop_first(), args),
            SpecSegment::Placeholder(d) => spec_format_arg(args[0], d) + spec_render_segments(
                segments.drop_first(),
                args.drop_first(),
            ),
        }
    }
}

/// The argument views of an argument list.
pub open spec fn args_view(args: Seq<Argument>) -> Seq<SpecArgument> {
    args.map_values(|a: Argument| a@)
}

/// Renders one argument through the sink under one directive's method and
/// hints.
fn render_argument<W: Writeable>(writer: &mut W, arg: &Argument, dir: &Directive) -> (r: Result<
    usize,
    usize,
>)
    requires
        crate::codec::radix_hint_ok(dir.radix),
    ensures
        r is Ok ==> final(writer).sunk() == old(writer).sunk() + spec_format_arg(arg@, *dir)
            && r->Ok_0 == spec_format_arg(arg@, *dir).len(),
        r is Err ==> exists|k: int|
            0 <= k < spec_format_arg(arg@, *dir).len() && final(writer).sunk()
                == old(writer).sunk() + spec_format_arg(arg@, *dir).take(k),
        old(writer).never_fails() ==> r is Ok && final(writer).never_fails(),
{
    let hint_pretty: Option<bool> = if dir.pretty {
        Some(true)
    } else {
        None
    };
    assert(hint_pretty == spec_pretty_hint(*dir));
    match arg {
        Argument::Char(c) => {
            let r = c.write_format(
                writer,
                hint_pretty,
                dir.radix,
                dir.width,
                dir.precision,
                dir.case,
            );
            proof {
                if r is Err {
                    let full = spec_format_arg(arg@, *dir);
                    let k = choose|k: int|
                        0 <= k < full.len() && writer.sunk() == old(writer).sunk() + full.take(k);
                    assert(writer.sunk() == old(writer).sunk() + full.take(k));
                }
            }
            r
        },
        Argument::Text(t) => {
            let r = write_chars(writer, t);
            proof {
                if r is Err {
                    let full = spec_format_arg(arg@, *dir);
                    let k = choose|k: int|
                        0 <= k < full.len() && writer.sunk() == old(writer).sunk() + full.take(k);
                    assert(writer.sunk() == old(writer).sunk() + full.take(k));
                }
            }
            r
        },
        Argument::Int(v) => {
            let r = match dir.method {
                Method::Display => v.write_format(
                    writer,
                    hint_pretty,
                    dir.radix,
                    dir.width,
                    dir.precision,
                    dir.case,
                ),
                Method::Debug => v.write_debug(
                    writer,
                    hint_pretty,
                    dir.radix,
                    dir.width,
                    dir.precision,
                    dir.case,
                ),
            };
            proof {
                if r is Err {
                    let full = spec_format_arg(arg@, *dir);
                    let k = choose|k: int|
                        0 <= k < full.len() && writer.sunk() == old(writer).sunk() + full.take(k);
                    assert(writer.sunk() == old(writer).sunk() + full.take(k));
                }
            }
            r
        },
        Argument::Uint(v) => {
            let r = match dir.method {
                Method::Display => v.write_format(
                    writer,
                    hint_pretty,
                    dir.radix,
                    dir.width,
                    dir.precision,
                    dir.case,
                ),
                Method::Debug => v.write_debug(
                    writer,
                    hint_pretty,
                    dir.radix,
                    dir.width,
                    dir.precision,
                    dir.case,
                ),
            };
            proof {
                if r is Err {
                    let full = spec_format_arg(arg@, *dir);
                    let k = choose|k: int|
                        0 <= k < full.len() && writer.sunk() == old(writer).sunk() + full.take(k);
                    assert(writer.sunk() == old(writer).sunk() + full.take(k));
                }
            }
            r
        },
    }
}

/// Renders a compiled template against its arguments through the sink.
///
/// The argument count must equal the placeholder count or the call fails
/// with an argument-count error, exactly then, before any character is
/// written. With matching counts the rendering of the whole template is
/// written through the sink one character at a time and its length
/// returned; the first failing write aborts the render, leaves the prefix
/// already accepted in the sink, and surfaces the sink's error. The whole
/// rendering must fit the machine word, since the running count that is
/// returned is a `usize`.
pub fn render<W: Writeable>(
    template: &FormatTemplate,
    args: &Vec<Argument>,
    writer: &mut W,
) -> (r: Result<usize, RenderError>)
    requires
        template_wf(template@),
        spec_render_segments(template@, args_view(args@)).len() <= usize::MAX,
    ensures
        placeholder_count(template@) != args@.len() ==> r == Err::<usize, RenderError>(
            RenderError::Compile(
                CompileError::ArgumentCount {
                    expected: placeholder_count(template@) as usize,
                    actual: args@.len() as usize,
                },
            ),
        ) && final(writer).sunk() == old(writer).sunk(),
        placeholder_count(template@) == args@.len() ==> (r is Ok ==> final(writer).sunk()
            == old(writer).sunk() + spec_render_segments(template@, args_view(args@)) && r->Ok_0
            == spec_render_segments(template@, args_view(args@)).len()),
        placeholder_count(template@) == args@.len() ==> (r is Err ==> r->Err_0 is Sink
            && exists|k: int|
            0 <= k < spec_render_segments(template@, args_view(args@)).len()
                && final(writer).sunk() == old(writer).sunk() + spec_render_segments(
                template@,
                args_view(args@),
            ).take(k)),
        placeholder_count(template@) == args@.len() && old(writer).never_fails() ==> r is Ok,
        old(writer).never_fails() ==> final(writer).never_fails(),
{
    let nsegs = template.segments.len();
    proof {
        assert(template@.len() == template.segments@.len());
        lemma_placeholder_count_len(template@);
    }
    let expected = template.count_placeholders();
    if expected != args.len() {
        return Err(
            RenderError::Compile(CompileError::ArgumentCount { expected, actual: args.len() }),
        );
    }

    let ghost full = spec_render_segments(template@, args_view(args@));
    let ghost aview = args_view(args@);
    let mut total: usize = 0;
    let mut i: usize = 0;
    let mut j: usize = 0;
    let ghost mut written: Seq<char> = Seq::empty();
    proof {
        assert(template@.skip(0) =~= template@);
        assert(aview.skip(0) =~= aview);
        assert(Seq::<char>::empty() + full =~= full);
        assert(old(writer).sunk() + written =~= old(writer).sunk());
    }
    while i < nsegs
        invariant
            i <= template@.len(),
            nsegs == template@.len(),
            j <= aview.len(),
            template@.len() == template.segments@.len(),
            aview == args_view(args@),
            aview.len() == args@.len(),
            aview.len() <= usize::MAX,
            placeholder_count(template@) == args@.len(),
            template_wf(template@),
            full == spec_render_segments(template@, aview),
            full.len() <= usize::MAX,
            j + placeholder_count(template@.skip(i as int)) == aview.len(),
            full == written + spec_render_segments(template@.skip(i as int), aview.skip(j as int)),
            writer.sunk() == old(writer).sunk() + written,
            total == written.len(),
            old(writer).never_fails() ==> writer.never_fails(),
        decreases template@.len() - i,
    {
        let ghost rest = spec_render_segments(template@.skip(i as int), aview.skip(j as int));
        let ghost pre = writer.sunk();
        proof {
            assert(template@[i as int] == template.segments@[i as int]@);
            assert(template@.skip(i as int).len() > 0);
            assert(template@.skip(i as int)[0] == template@[i as int]);
            assert(template@.skip(i as int).drop_first() =~= template@.skip(i + 1));
            lemma_placeholder_count_first(template@.skip(i as int));
        }
        let step: Result<usize, usize> = match &template.segments[i] {
            Segment::Text(t) => {
                proof {
                    assert(template@[i as int] is Text);
                    assert(rest == t@ + spec_render_segments(
                        template@.skip(i + 1),
                        aview.skip(j as int),
                    ));
                }
                write_chars(writer, t)
            },
            Segment::Placeholder(dir) => {
                proof {
                    assert(template@[i as int] is Placeholder);
                    assert(placeholder_count(template@.skip(i as int)) >= 1);
                    assert(j < aview.len());
                    assert(aview.skip(j as int).drop_first() =~= aview.skip(j + 1));
                    assert(aview.skip(j as int)[0] == aview[j as int]);
                    assert(aview[j as int] == args@[j as int]@);
                    assert(rest == spec_format_arg(aview[j as int], *dir) + spec_render_segments(
                        template@.skip(i + 1),
                        aview.skip(j + 1),
                    ));
                }
                let r = render_argument(writer, &args[j], dir);
                j = j + 1;
                r
            },
        };
        match step {
            Ok(k) => {
                let ghost seg_out = if template@[i as int] is Text {
                    template@[i as int]->Text_0
                } else {
                    spec_format_arg(aview[j - 1], template@[i as int]->Placeholder_0)
                };
                proof {
                    assert(writer.sunk() == pre + seg_out);
                    assert(pre == old(writer).sunk() + written);
                    assert((old(writer).sunk() + written) + seg_out =~= old(writer).sunk() + (
                    written + seg_out));
                    assert(writer.sunk() == old(writer).sunk() + (written + seg_out));
                    assert(full == (written + seg_out) + spec_render_segments(
                        template@.skip(i + 1),
                        aview.skip(j as int),
                    )) by {
                        assert(written + (seg_out + spec_render_segments(
                            template@.skip(i + 1),
                            aview.skip(j as int),
                        )) =~= (written + seg_out) + spec_render_segments(
                            template@.skip(i + 1),
                            aview.skip(j as int),
                        ));
                    }
                    assert((written + seg_out).len() <= full.len()) by {
                        assert(full.len() == (written + seg_out).len() + spec_render_segments(
                            template@.skip(i + 1),
                            aview.skip(j as int),
                        ).len());
                    }
                    written = written + seg_out;
                }
                total = total + k;
            },
            Err(e) => {
                proof {
                    let seg_out = if template@[i as int] is Text {
                        template@[i as int]->Text_0
                    } else {
                        spec_format_arg(aview[j - 1], template@[i as int]->Placeholder_0)
                    };
                    let k = choose|k: int|
                        0 <= k < seg_out.len() && writer.sunk() == pre + seg_out.take(k);
                    assert(writer.sunk() == pre + seg_out.take(k));
                    assert(pre == old(writer).sunk() + written);
                    assert((old(writer).sunk() + written) + seg_out.take(k) =~= old(writer).sunk()
                        + (written + seg_out.take(k)));
                    assert(full.take((written.len() + seg_out.take(k).len()) as int) =~= written
                        + seg_out.take(k)) by {
                        assert(rest == seg_out + spec_render_segments(
                            template@.skip(i + 1),
                            aview.skip(j as int),
                        ));
                        assert(full == written + rest);
                    }
                    let kk: int = (written.len() + seg_out.take(k).len()) as int;
                    assert(writer.sunk() == old(writer).sunk() + full.take(kk));
                    assert(full.len() >= written.len() + seg_out.len()) by {
                        assert(rest == seg_out + spec_render_segments(
                            template@.skip(i + 1),
                            aview.skip(j as int),
                        ));
                        assert(full == written + rest);
                    }
                    assert(0 <= kk < full.len());
                }
                return Err(RenderError::Sink(e));
            },
        }
        i = i + 1;
    }
    proof {
        assert(template@.skip(template@.len() as int) =~= Seq::<SpecSegment>::empty());
        assert(written + Seq::<char>::empty() =~= written);
        assert(full == written);
    }
    Ok(total)
}

} // verus!
