//! The value capabilities: every renderable type exposes a display
//! operation taking the five placeholder hints, and types with a distinct
//! debug form additionally expose a debug operation with the identical
//! signature. For integers the two are identical.

use vstd::prelude::*;
use vstd::string::StrSliceExecFns;

use crate::codec::i_abs;
use crate::codec::radix_hint_ok;
use crate::codec::render_integer;
use crate::codec::spec_render_hinted;
use crate::sink::Writeable;

verus! {

/// A value that can be rendered in display form. `spec_format` is the exact
/// character sequence the value renders to under the given hints; a radix
/// hint reaching `write_format` must already have been validated to 2..=36.
pub trait Formattable: Sized {
    /// The characters this value renders to under the given hints.
    spec fn spec_format(
        &self,
        hint_pretty: Option<bool>,
        hint_radix: Option<usize>,
        hint_width: Option<usize>,
        hint_precision: Option<usize>,
        hint_case: Option<bool>,
    ) -> Seq<char>;

    /// Write the rendering of this value through the sink, one character at
    /// a time, counting each success; the first failing write aborts and is
    /// propagated.
    fn write_format<W: Writeable>(
        &self,
        writer: &mut W,
        hint_pretty: Option<bool>,
        hint_radix: Option<usize>,
        hint_width: Option<usize>,
        hint_precision: Option<usize>,
        hint_case: Option<bool>,
    ) -> (r: Result<usize, usize>)
        requires
            radix_hint_ok(hint_radix),
        ensures
            r is Ok ==> final(writer).sunk() == old(writer).sunk() + self.spec_format(
                hint_pretty,
                hint_radix,
                hint_width,
                hint_precision,
                hint_case,
            ),
            r is Ok ==> r->Ok_0 == self.spec_format(
                hint_pretty,
                hint_radix,
                hint_width,
                hint_precision,
                hint_case,
            ).len(),
            r is Err ==> exists|i: int|
                0 <= i < self.spec_format(
                    hint_pretty,
                    hint_radix,
                    hint_width,
                    hint_precision,
                    hint_case,
                ).len() && final(writer).sunk() == old(writer).sunk() + self.spec_format(
                    hint_pretty,
                    hint_radix,
                    hint_width,
                    hint_precision,
                    hint_case,
                ).take(i),
            old(writer).never_fails() ==> r is Ok && final(writer).never_fails(),
    ;
}

/// A value with a distinct debug rendering, selected by the `?` hint.
pub trait Debuggable: Sized {
    /// The characters this value renders to in debug form.
    spec fn spec_debug(
        &self,
        hint_pretty: Option<bool>,
        hint_radix: Option<usize>,
        hint_width: Option<usize>,
        hint_precision: Option<usize>,
        hint_case: Option<bool>,
    ) -> Seq<char>;

    /// Write the debug rendering of this value through the sink.
    fn write_debug<W: Writeable>(
        &self,
        writer: &mut W,
        hint_pretty: Option<bool>,
        hint_radix: Option<usize>,
        hint_width: Option<usize>,
        hint_precision: Option<usize>,
        hint_case: Option<bool>,
    ) -> (r: Result<usize, usize>)
        requires
            radix_hint_ok(hint_radix),
        ensures
            r is Ok ==> final(writer).sunk() == old(writer).sunk() + self.spec_debug(
                hint_pretty,
                hint_radix,
                hint_width,
                hint_precision,
                hint_case,
            ),
            r is Ok ==> r->Ok_0 == self.spec_debug(
                hint_pretty,
                hint_radix,
                hint_width,
                hint_precision,
                hint_case,
            ).len(),
            r is Err ==> exists|i: int|
                0 <= i < self.spec_debug(
                    hint_pretty,
                    hint_radix,
                    hint_width,
                    hint_precision,
                    hint_case,
                ).len() && final(writer).sunk() == old(writer).sunk() + self.spec_debug(
                    hint_pretty,
                    hint_radix,
                    hint_width,
                    hint_precision,
                    hint_case,
                ).take(i),
            old(writer).never_fails() ==> r is Ok && final(writer).never_fails(),
    ;
}

impl Formattable for char {
    open spec fn spec_format(
        &self,
        hint_pretty: Option<bool>,
        hint_radix: Option<usize>,
        hint_width: Option<usize>,
        hint_precision: Option<usize>,
        hint_case: Option<bool>,
    ) -> Seq<char> {
        seq![*self]
    }

    fn write_format<W: Writeable>(
        &self,
        writer: &mut W,
        hint_pretty: Option<bool>,
        hint_radix: Option<usize>,
        hint_width: Option<usize>,
        hint_precision: Option<usize>,
        hint_case: Option<bool>,
    ) -> (r: Result<usize, usize>) {
        match writer.write(*self) {
            Ok(_) => {
                assert(old(writer).sunk().push(*self) =~= old(writer).sunk() + seq![*self]);
                Ok(1)
            },
            Err(e) => {
                proof {
                    let full = self.spec_format(
                        hint_pretty,
                        hint_radix,
                        hint_width,
                        hint_precision,
                        hint_case,
                    );
                    assert(old(writer).sunk() + full.take(0) =~= old(writer).sunk());
                    assert(writer.sunk() == old(writer).sunk() + full.take(0));
                }
                Err(e)
            },
        }
    }
}

impl Formattable for &str {
    open spec fn spec_format(
        &self,
        hint_pretty: Option<bool>,
        hint_radix: Option<usize>,
        hint_width: Option<usize>,
        hint_precision: Option<usize>,
        hint_case: Option<bool>,
    ) -> Seq<char> {
        self@
    }

    fn write_format<W: Writeable>(
        &self,
        writer: &mut W,
        hint_pretty: Option<bool>,
        hint_radix: Option<usize>,
        hint_width: Option<usize>,
        hint_precision: Option<usize>,
        hint_case: Option<bool>,
    ) -> (r: Result<usize, usize>) {
        let n = self.unicode_len();
        let mut i: usize = 0;
        assert(old(writer).sunk() + self@.take(0) =~= old(writer).sunk());
        while i < n
            invariant
                i <= n,
                n == self@.len(),
                writer.sunk() == old(writer).sunk() + self@.take(i as int),
                old(writer).never_fails() ==> writer.never_fails(),
            decreases n - i,
        {
            let c = self.get_char(i);
            let ghost pre = writer.sunk();
            match writer.write(c) {
                Ok(_) => {
                    proof {
                        assert(self@.take(i as int).push(self@[i as int]) =~= self@.take(i + 1));
                        assert(pre.push(self@[i as int]) =~= old(writer).sunk() + self@.take(
                            i + 1,
                        ));
                    }
                },
                Err(e) => {
                    proof {
                        let full = self.spec_format(
                            hint_pretty,
                            hint_radix,
                            hint_width,
                            hint_precision,
                            hint_case,
                        );
                        assert(writer.sunk() == old(writer).sunk() + full.take(i as int));
                    }
                    return Err(e);
                },
            }
            i = i + 1;
        }
        assert(self@.take(n as int) =~= self@);
        Ok(n)
    }
}

impl Formattable for i8 {
    open spec fn spec_format(
        &self,
        hint_pretty: Option<bool>,
        hint_radix: Option<usize>,
        hint_width: Option<usize>,
        hint_precision: Option<usize>,
        hint_case: Option<bool>,
    ) -> Seq<char> {
        spec_render_hinted(
            *self < 0,
            i_abs(*self as int),
            hint_pretty,
            hint_radix,
            hint_width,
            hint_precision,
            hint_case,
        )
    }

    fn write_format<W: Writeable>(
        &self,
        writer: &mut W,
        hint_pretty: Option<bool>,
        hint_radix: Option<usize>,
        hint_width: Option<usize>,
        hint_precision: Option<usize>,
        hint_case: Option<bool>,
    ) -> (r: Result<usize, usize>) {
        let negative = *self < 0;
        let wide: i128 = *self as i128;
        let mag: u128 = if negative {
            (-wide) as u128
        } else {
            wide as u128
        };
        assert(mag as nat == i_abs(*self as int));
        let r = render_integer(
            writer,
            negative,
            mag,
            hint_pretty,
            hint_radix,
            hint_width,
            hint_precision,
            hint_case,
        );
        proof {
            let full = self.spec_format(
            hint_pretty,
            hint_radix,
            hint_width,
            hint_precision,
            hint_case,
            );
            if r is Err {
                let i = choose|i: int|
                    0 <= i < full.len() && writer.sunk() == old(writer).sunk() + full.take(i);
                assert(writer.sunk() == old(writer).sunk() + full.take(i));
            }
        }
        r
    }
}

impl Debuggable for i8 {
    open spec fn spec_debug(
        &self,
        hint_pretty: Option<bool>,
        hint_radix: Option<usize>,
        hint_width: Option<usize>,
        hint_precision: Option<usize>,
        hint_case: Option<bool>,
    ) -> Seq<char> {
        spec_render_hinted(
            *self < 0,
            i_abs(*self as int),
            hint_pretty,
            hint_radix,
            hint_width,
            hint_precision,
            hint_case,
        )
    }

    fn write_debug<W: Writeable>(
        &self,
        writer: &mut W,
        hint_pretty: Option<bool>,
        hint_radix: Option<usize>,
        hint_width: Option<usize>,
        hint_precision: Option<usize>,
        hint_case: Option<bool>,
    ) -> (r: Result<usize, usize>) {
        let r = self.write_format(
            writer,
            hint_pretty,
            hint_radix,
            hint_width,
            hint_precision,
            hint_case,
        );
        proof {
            let full = self.spec_debug(
            hint_pretty,
            hint_radix,
            hint_width,
            hint_precision,
            hint_case,
            );
            if r is Err {
                let i = choose|i: int|
                    0 <= i < full.len() && writer.sunk() == old(writer).sunk() + full.take(i);
                assert(writer.sunk() == old(writer).sunk() + full.take(i));
            }
        }
        r
    }
}

impl Formattable for u8 {
    open spec fn spec_format(
        &self,
        hint_pretty: Option<bool>,
        hint_radix: Option<usize>,
        hint_width: Option<usize>,
        hint_precision: Option<usize>,
        hint_case: Option<bool>,
    ) -> Seq<char> {
        spec_render_hinted(
            false,
            *self as nat,
            hint_pretty,
            hint_radix,
            hint_width,
            hint_precision,
            hint_case,
        )
    }

    fn write_format<W: Writeable>(
        &self,
        writer: &mut W,
        hint_pretty: Option<bool>,
        hint_radix: Option<usize>,
        hint_width: Option<usize>,
        hint_precision: Option<usize>,
        hint_case: Option<bool>,
    ) -> (r: Result<usize, usize>) {
        let mag: u128 = *self as u128;
        let r = render_integer(
            writer,
            false,
            mag,
            hint_pretty,
            hint_radix,
            hint_width,
            hint_precision,
            hint_case,
        );
        proof {
            let full = self.spec_format(
            hint_pretty,
            hint_radix,
            hint_width,
            hint_precision,
            hint_case,
            );
            assert(mag as nat == *self as nat);
            if r is Err {
                let i = choose|i: int|
                    0 <= i < full.len() && writer.sunk() == old(writer).sunk() + full.take(i);
                assert(writer.sunk() == old(writer).sunk() + full.take(i));
            }
        }
        r
    }
}

impl Debuggable for u8 {
    open spec fn spec_debug(
        &self,
        hint_pretty: Option<bool>,
        hint_radix: Option<usize>,
        hint_width: Option<usize>,
        hint_precision: Option<usize>,
        hint_case: Option<bool>,
    ) -> Seq<char> {
        spec_render_hinted(
            false,
            *self as nat,
            hint_pretty,
            hint_radix,
            hint_width,
            hint_precision,
            hint_case,
        )
    }

    fn write_debug<W: Writeable>(
        &self,
        writer: &mut W,
        hint_pretty: Option<bool>,
        hint_radix: Option<usize>,
        hint_width: Option<usize>,
        hint_precision: Option<usize>,
        hint_case: Option<bool>,
    ) -> (r: Result<usize, usize>) {
        let r = self.write_format(
            writer,
            hint_pretty,
            hint_radix,
            hint_width,
            hint_precision,
            hint_case,
        );
        proof {
            let full = self.spec_debug(
            hint_pretty,
            hint_radix,
            hint_width,
            hint_precision,
            hint_case,
            );
            if r is Err {
                let i = choose|i: int|
                    0 <= i < full.len() && writer.sunk() == old(writer).sunk() + full.take(i);
                assert(writer.sunk() == old(writer).sunk() + full.take(i));
            }
        }
        r
    }
}

impl Formattable for i16 {
    open spec fn spec_format(
        &self,
        hint_pretty: Option<bool>,
        hint_radix: Option<usize>,
        hint_width: Option<usize>,
        hint_precision: Option<usize>,
        hint_case: Option<bool>,
    ) -> Seq<char> {
        spec_render_hinted(
            *self < 0,
            i_abs(*self as int),
            hint_pretty,
            hint_radix,
            hint_width,
            hint_precision,
            hint_case,
        )
    }

    fn write_format<W: Writeable>(
        &self,
        writer: &mut W,
        hint_pretty: Option<bool>,
        hint_radix: Option<usize>,
        hint_width: Option<usize>,
        hint_precision: Option<usize>,
        hint_case: Option<bool>,
    ) -> (r: Result<usize, usize>) {
        let negative = *self < 0;
        let wide: i128 = *self as i128;
        let mag: u128 = if negative {
            (-wide) as u128
        } else {
            wide as u128
        };
        assert(mag as nat == i_abs(*self as int));
        let r = render_integer(
            writer,
            negative,
            mag,
            hint_pretty,
            hint_radix,
            hint_width,
            hint_precision,
            hint_case,
        );
        proof {
            let full = self.spec_format(
            hint_pretty,
            hint_radix,
            hint_width,
            hint_precision,
            hint_case,
            );
            if r is Err {
                let i = choose|i: int|
                    0 <= i < full.len() && writer.sunk() == old(writer).sunk() + full.take(i);
                assert(writer.sunk() == old(writer).sunk() + full.take(i));
            }
        }
        r
    }
}

impl Debuggable for i16 {
    open spec fn spec_debug(
        &self,
        hint_pretty: Option<bool>,
        hint_radix: Option<usize>,
        hint_width: Option<usize>,
        hint_precision: Option<usize>,
        hint_case: Option<bool>,
    ) -> Seq<char> {
        spec_render_hinted(
            *self < 0,
            i_abs(*self as int),
            hint_pretty,
            hint_radix,
            hint_width,
            hint_precision,
            hint_case,
        )
    }

    fn write_debug<W: Writeable>(
        &self,
        writer: &mut W,
        hint_pretty: Option<bool>,
        hint_radix: Option<usize>,
        hint_width: Option<usize>,
        hint_precision: Option<usize>,
        hint_case: Option<bool>,
    ) -> (r: Result<usize, usize>) {
        let r = self.write_format(
            writer,
            hint_pretty,
            hint_radix,
            hint_width,
            hint_precision,
            hint_case,
        );
        proof {
            let full = self.spec_debug(
            hint_pretty,
            hint_radix,
            hint_width,
            hint_precision,
            hint_case,
            );
            if r is Err {
                let i = choose|i: int|
                    0 <= i < full.len() && writer.sunk() == old(writer).sunk() + full.take(i);
                assert(writer.sunk() == old(writer).sunk() + full.take(i));
            }
        }
        r
    }
}

impl Formattable for u16 {
    open spec fn spec_format(
        &self,
        hint_pretty: Option<bool>,
        hint_radix: Option<usize>,
        hint_width: Option<usize>,
        hint_precision: Option<usize>,
        hint_case: Option<bool>,
    ) -> Seq<char> {
        spec_render_hinted(
            false,
            *self as nat,
            hint_pretty,
            hint_radix,
            hint_width,
            hint_precision,
            hint_case,
        )
    }

    fn write_format<W: Writeable>(
        &self,
        writer: &mut W,
        hint_pretty: Option<bool>,
        hint_radix: Option<usize>,
        hint_width: Option<usize>,
        hint_precision: Option<usize>,
        hint_case: Option<bool>,
    ) -> (r: Result<usize, usize>) {
        let mag: u128 = *self as u128;
        let r = render_integer(
            writer,
            false,
            mag,
            hint_pretty,
            hint_radix,
            hint_width,
            hint_precision,
            hint_case,
        );
        proof {
            let full = self.spec_format(
            hint_pretty,
            hint_radix,
            hint_width,
            hint_precision,
            hint_case,
            );
            assert(mag as nat == *self as nat);
            if r is Err {
                let i = choose|i: int|
                    0 <= i < full.len() && writer.sunk() == old(writer).sunk() + full.take(i);
                assert(writer.sunk() == old(writer).sunk() + full.take(i));
            }
        }
        r
    }
}

impl Debuggable for u16 {
    open spec fn spec_debug(
        &self,
        hint_pretty: Option<bool>,
        hint_radix: Option<usize>,
        hint_width: Option<usize>,
        hint_precision: Option<usize>,
        hint_case: Option<bool>,
    ) -> Seq<char> {
        spec_render_hinted(
            false,
            *self as nat,
            hint_pretty,
            hint_radix,
            hint_width,
            hint_precision,
            hint_case,
        )
    }

    fn write_debug<W: Writeable>(
        &self,
        writer: &mut W,
        hint_pretty: Option<bool>,
        hint_radix: Option<usize>,
        hint_width: Option<usize>,
        hint_precision: Option<usize>,
        hint_case: Option<bool>,
    ) -> (r: Result<usize, usize>) {
        let r = self.write_format(
            writer,
            hint_pretty,
            hint_radix,
            hint_width,
            hint_precision,
            hint_case,
        );
        proof {
            let full = self.spec_debug(
            hint_pretty,
            hint_radix,
            hint_width,
            hint_precision,
            hint_case,
            );
            if r is Err {
                let i = choose|i: int|
                    0 <= i < full.len() && writer.sunk() == old(writer).sunk() + full.take(i);
                assert(writer.sunk() == old(writer).sunk() + full.take(i));
            }
        }
        r
    }
}

impl Formattable for i32 {
    open spec fn spec_format(
        &self,
        hint_pretty: Option<bool>,
        hint_radix: Option<usize>,
        hint_width: Option<usize>,
        hint_precision: Option<usize>,
        hint_case: Option<bool>,
    ) -> Seq<char> {
        spec_render_hinted(
            *self < 0,
            i_abs(*self as int),
            hint_pretty,
            hint_radix,
            hint_width,
            hint_precision,
            hint_case,
        )
    }

    fn write_format<W: Writeable>(
        &self,
        writer: &mut W,
        hint_pretty: Option<bool>,
        hint_radix: Option<usize>,
        hint_width: Option<usize>,
        hint_precision: Option<usize>,
        hint_case: Option<bool>,
    ) -> (r: Result<usize, usize>) {
        let negative = *self < 0;
        let wide: i128 = *self as i128;
        let mag: u128 = if negative {
            (-wide) as u128
        } else {
            wide as u128
        };
        assert(mag as nat == i_abs(*self as int));
        let r = render_integer(
            writer,
            negative,
            mag,
            hint_pretty,
            hint_radix,
            hint_width,
            hint_precision,
            hint_case,
        );
        proof {
            let full = self.spec_format(
            hint_pretty,
            hint_radix,
            hint_width,
            hint_precision,
            hint_case,
            );
            if r is Err {
                let i = choose|i: int|
                    0 <= i < full.len() && writer.sunk() == old(writer).sunk() + full.take(i);
                assert(writer.sunk() == old(writer).sunk() + full.take(i));
            }
        }
        r
    }
}

impl Debuggable for i32 {
    open spec fn spec_debug(
        &self,
        hint_pretty: Option<bool>,
        hint_radix: Option<usize>,
        hint_width: Option<usize>,
        hint_precision: Option<usize>,
        hint_case: Option<bool>,
    ) -> Seq<char> {
        spec_render_hinted(
            *self < 0,
            i_abs(*self as int),
            hint_pretty,
            hint_radix,
            hint_width,
            hint_precision,
            hint_case,
        )
    }

    fn write_debug<W: Writeable>(
        &self,
        writer: &mut W,
        hint_pretty: Option<bool>,
        hint_radix: Option<usize>,
        hint_width: Option<usize>,
        hint_precision: Option<usize>,
        hint_case: Option<bool>,
    ) -> (r: Result<usize, usize>) {
        let r = self.write_format(
            writer,
            hint_pretty,
            hint_radix,
            hint_width,
            hint_precision,
            hint_case,
        );
        proof {
            let full = self.spec_debug(
            hint_pretty,
            hint_radix,
            hint_width,
            hint_precision,
            hint_case,
            );
            if r is Err {
                let i = choose|i: int|
                    0 <= i < full.len() && writer.sunk() == old(writer).sunk() + full.take(i);
                assert(writer.sunk() == old(writer).sunk() + full.take(i));
            }
        }
        r
    }
}

impl Formattable for u32 {
    open spec fn spec_format(
        &self,
        hint_pretty: Option<bool>,
        hint_radix: Option<usize>,
        hint_width: Option<usize>,
        hint_precision: Option<usize>,
        hint_case: Option<bool>,
    ) -> Seq<char> {
        spec_render_hinted(
            false,
            *self as nat,
            hint_pretty,
            hint_radix,
            hint_width,
            hint_precision,
            hint_case,
        )
    }

    fn write_format<W: Writeable>(
        &self,
        writer: &mut W,
        hint_pretty: Option<bool>,
        hint_radix: Option<usize>,
        hint_width: Option<usize>,
        hint_precision: Option<usize>,
        hint_case: Option<bool>,
    ) -> (r: Result<usize, usize>) {
        let mag: u128 = *self as u128;
        let r = render_integer(
            writer,
            false,
            mag,
            hint_pretty,
            hint_radix,
            hint_width,
            hint_precision,
            hint_case,
        );
        proof {
            let full = self.spec_format(
            hint_pretty,
            hint_radix,
            hint_width,
            hint_precision,
            hint_case,
            );
            assert(mag as nat == *self as nat);
            if r is Err {
                let i = choose|i: int|
                    0 <= i < full.len() && writer.sunk() == old(writer).sunk() + full.take(i);
                assert(writer.sunk() == old(writer).sunk() + full.take(i));
            }
        }
        r
    }
}

impl Debuggable for u32 {
    open spec fn spec_debug(
        &self,
        hint_pretty: Option<bool>,
        hint_radix: Option<usize>,
        hint_width: Option<usize>,
        hint_precision: Option<usize>,
        hint_case: Option<bool>,
    ) -> Seq<char> {
        spec_render_hinted(
            false,
            *self as nat,
            hint_pretty,
            hint_radix,
            hint_width,
            hint_precision,
            hint_case,
        )
    }

    fn write_debug<W: Writeable>(
        &self,
        writer: &mut W,
        hint_pretty: Option<bool>,
        hint_radix: Option<usize>,
        hint_width: Option<usize>,
        hint_precision: Option<usize>,
        hint_case: Option<bool>,
    ) -> (r: Result<usize, usize>) {
        let r = self.write_format(
            writer,
            hint_pretty,
            hint_radix,
            hint_width,
            hint_precision,
            hint_case,
        );
        proof {
            let full = self.spec_debug(
            hint_pretty,
            hint_radix,
            hint_width,
            hint_precision,
            hint_case,
            );
            if r is Err {
                let i = choose|i: int|
                    0 <= i < full.len() && writer.sunk() == old(writer).sunk() + full.take(i);
                assert(writer.sunk() == old(writer).sunk() + full.take(i));
            }
        }
        r
    }
}

impl Formattable for i64 {
    open spec fn spec_format(
        &self,
        hint_pretty: Option<bool>,
        hint_radix: Option<usize>,
        hint_width: Option<usize>,
        hint_precision: Option<usize>,
        hint_case: Option<bool>,
    ) -> Seq<char> {
        spec_render_hinted(
            *self < 0,
            i_abs(*self as int),
            hint_pretty,
            hint_radix,
            hint_width,
            hint_precision,
            hint_case,
        )
    }

    fn write_format<W: Writeable>(
        &self,
        writer: &mut W,
        hint_pretty: Option<bool>,
        hint_radix: Option<usize>,
        hint_width: Option<usize>,
        hint_precision: Option<usize>,
        hint_case: Option<bool>,
    ) -> (r: Result<usize, usize>) {
        let negative = *self < 0;
        let wide: i128 = *self as i128;
        let mag: u128 = if negative {
            (-wide) as u128
        } else {
            wide as u128
        };
        assert(mag as nat == i_abs(*self as int));
        let r = render_integer(
            writer,
            negative,
            mag,
            hint_pretty,
            hint_radix,
            hint_width,
            hint_precision,
            hint_case,
        );
        proof {
            let full = self.spec_format(
            hint_pretty,
            hint_radix,
            hint_width,
            hint_precision,
            hint_case,
            );
            if r is Err {
                let i = choose|i: int|
                    0 <= i < full.len() && writer.sunk() == old(writer).sunk() + full.take(i);
                assert(writer.sunk() == old(writer).sunk() + full.take(i));
            }
        }
        r
    }
}

impl Debuggable for i64 {
    open spec fn spec_debug(
        &self,
        hint_pretty: Option<bool>,
        hint_radix: Option<usize>,
        hint_width: Option<usize>,
        hint_precision: Option<usize>,
        hint_case: Option<bool>,
    ) -> Seq<char> {
        spec_render_hinted(
            *self < 0,
            i_abs(*self as int),
            hint_pretty,
            hint_radix,
            hint_width,
            hint_precision,
            hint_case,
        )
    }

    fn write_debug<W: Writeable>(
        &self,
        writer: &mut W,
        hint_pretty: Option<bool>,
        hint_radix: Option<usize>,
        hint_width: Option<usize>,
        hint_precision: Option<usize>,
        hint_case: Option<bool>,
    ) -> (r: Result<usize, usize>) {
        let r = self.write_format(
            writer,
            hint_pretty,
            hint_radix,
            hint_width,
            hint_precision,
            hint_case,
        );
        proof {
            let full = self.spec_debug(
            hint_pretty,
            hint_radix,
            hint_width,
            hint_precision,
            hint_case,
            );
            if r is Err {
                let i = choose|i: int|
                    0 <= i < full.len() && writer.sunk() == old(writer).sunk() + full.take(i);
                assert(writer.sunk() == old(writer).sunk() + full.take(i));
            }
        }
        r
    }
}

impl Formattable for u64 {
    open spec fn spec_format(
        &self,
        hint_pretty: Option<bool>,
        hint_radix: Option<usize>,
        hint_width: Option<usize>,
        hint_precision: Option<usize>,
        hint_case: Option<bool>,
    ) -> Seq<char> {
        spec_render_hinted(
            false,
            *self as nat,
            hint_pretty,
            hint_radix,
            hint_width,
            hint_precision,
            hint_case,
        )
    }

    fn write_format<W: Writeable>(
        &self,
        writer: &mut W,
        hint_pretty: Option<bool>,
        hint_radix: Option<usize>,
        hint_width: Option<usize>,
        hint_precision: Option<usize>,
        hint_case: Option<bool>,
    ) -> (r: Result<usize, usize>) {
        let mag: u128 = *self as u128;
        let r = render_integer(
            writer,
            false,
            mag,
            hint_pretty,
            hint_radix,
            hint_width,
            hint_precision,
            hint_case,
        );
        proof {
            let full = self.spec_format(
            hint_pretty,
            hint_radix,
            hint_width,
            hint_precision,
            hint_case,
            );
            assert(mag as nat == *self as nat);
            if r is Err {
                let i = choose|i: int|
                    0 <= i < full.len() && writer.sunk() == old(writer).sunk() + full.take(i);
                assert(writer.sunk() == old(writer).sunk() + full.take(i));
            }
        }
        r
    }
}

impl Debuggable for u64 {
    open spec fn spec_debug(
        &self,
        hint_pretty: Option<bool>,
        hint_radix: Option<usize>,
        hint_width: Option<usize>,
        hint_precision: Option<usize>,
        hint_case: Option<bool>,
    ) -> Seq<char> {
        spec_render_hinted(
            false,
            *self as nat,
            hint_pretty,
            hint_radix,
            hint_width,
            hint_precision,
            hint_case,
        )
    }

    fn write_debug<W: Writeable>(
        &self,
        writer: &mut W,
        hint_pretty: Option<bool>,
        hint_radix: Option<usize>,
        hint_width: Option<usize>,
        hint_precision: Option<usize>,
        hint_case: Option<bool>,
    ) -> (r: Result<usize, usize>) {
        let r = self.write_format(
            writer,
            hint_pretty,
            hint_radix,
            hint_width,
            hint_precision,
            hint_case,
        );
        proof {
            let full = self.spec_debug(
            hint_pretty,
            hint_radix,
            hint_width,
            hint_precision,
            hint_case,
            );
            if r is Err {
                let i = choose|i: int|
                    0 <= i < full.len() && writer.sunk() == old(writer).sunk() + full.take(i);
                assert(writer.sunk() == old(writer).sunk() + full.take(i));
            }
        }
        r
    }
}

impl Formattable for i128 {
    open spec fn spec_format(
        &self,
        hint_pretty: Option<bool>,
        hint_radix: Option<usize>,
        hint_width: Option<usize>,
        hint_precision: Option<usize>,
        hint_case: Option<bool>,
    ) -> Seq<char> {
        spec_render_hinted(
            *self < 0,
            i_abs(*self as int),
            hint_pretty,
            hint_radix,
            hint_width,
            hint_precision,
            hint_case,
        )
    }

    fn write_format<W: Writeable>(
        &self,
        writer: &mut W,
        hint_pretty: Option<bool>,
        hint_radix: Option<usize>,
        hint_width: Option<usize>,
        hint_precision: Option<usize>,
        hint_case: Option<bool>,
    ) -> (r: Result<usize, usize>) {
        let negative = *self < 0;
        let mag: u128 = if *self == i128::MIN {
            170141183460469231731687303715884105728u128
        } else if negative {
            (-*self) as u128
        } else {
            *self as u128
        };
        assert(mag as nat == i_abs(*self as int));
        let r = render_integer(
            writer,
            negative,
            mag,
            hint_pretty,
            hint_radix,
            hint_width,
            hint_precision,
            hint_case,
        );
        proof {
            let full = self.spec_format(
            hint_pretty,
            hint_radix,
            hint_width,
            hint_precision,
            hint_case,
            );
            if r is Err {
                let i = choose|i: int|
                    0 <= i < full.len() && writer.sunk() == old(writer).sunk() + full.take(i);
                assert(writer.sunk() == old(writer).sunk() + full.take(i));
            }
        }
        r
    }
}

impl Debuggable for i128 {
    open spec fn spec_debug(
        &self,
        hint_pretty: Option<bool>,
        hint_radix: Option<usize>,
        hint_width: Option<usize>,
        hint_precision: Option<usize>,
        hint_case: Option<bool>,
    ) -> Seq<char> {
        spec_render_hinted(
            *self < 0,
            i_abs(*self as int),
            hint_pretty,
            hint_radix,
            hint_width,
            hint_precision,
            hint_case,
        )
    }

    fn write_debug<W: Writeable>(
        &self,
        writer: &mut W,
        hint_pretty: Option<bool>,
        hint_radix: Option<usize>,
        hint_width: Option<usize>,
        hint_precision: Option<usize>,
        hint_case: Option<bool>,
    ) -> (r: Result<usize, usize>) {
        let r = self.write_format(
            writer,
            hint_pretty,
            hint_radix,
            hint_width,
            hint_precision,
            hint_case,
        );
        proof {
            let full = self.spec_debug(
            hint_pretty,
            hint_radix,
            hint_width,
            hint_precision,
            hint_case,
            );
            if r is Err {
                let i = choose|i: int|
                    0 <= i < full.len() && writer.sunk() == old(writer).sunk() + full.take(i);
                assert(writer.sunk() == old(writer).sunk() + full.take(i));
            }
        }
        r
    }
}

impl Formattable for u128 {
    open spec fn spec_format(
        &self,
        hint_pretty: Option<bool>,
        hint_radix: Option<usize>,
        hint_width: Option<usize>,
        hint_precision: Option<usize>,
        hint_case: Option<bool>,
    ) -> Seq<char> {
        spec_render_hinted(
            false,
            *self as nat,
            hint_pretty,
            hint_radix,
            hint_width,
            hint_precision,
            hint_case,
        )
    }

    fn write_format<W: Writeable>(
        &self,
        writer: &mut W,
        hint_pretty: Option<bool>,
        hint_radix: Option<usize>,
        hint_width: Option<usize>,
        hint_precision: Option<usize>,
        hint_case: Option<bool>,
    ) -> (r: Result<usize, usize>) {
        let mag: u128 = *self as u128;
        let r = render_integer(
            writer,
            false,
            mag,
            hint_pretty,
            hint_radix,
            hint_width,
            hint_precision,
            hint_case,
        );
        proof {
            let full = self.spec_format(
            hint_pretty,
            hint_radix,
            hint_width,
            hint_precision,
            hint_case,
            );
            assert(mag as nat == *self as nat);
            if r is Err {
                let i = choose|i: int|
                    0 <= i < full.len() && writer.sunk() == old(writer).sunk() + full.take(i);
                assert(writer.sunk() == old(writer).sunk() + full.take(i));
            }
        }
        r
    }
}

impl Debuggable for u128 {
    open spec fn spec_debug(
        &self,
        hint_pretty: Option<bool>,
        hint_radix: Option<usize>,
        hint_width: Option<usize>,
        hint_precision: Option<usize>,
        hint_case: Option<bool>,
    ) -> Seq<char> {
        spec_render_hinted(
            false,
            *self as nat,
            hint_pretty,
            hint_radix,
            hint_width,
            hint_precision,
            hint_case,
        )
    }

    fn write_debug<W: Writeable>(
        &self,
        writer: &mut W,
        hint_pretty: Option<bool>,
        hint_radix: Option<usize>,
        hint_width: Option<usize>,
        hint_precision: Option<usize>,
        hint_case: Option<bool>,
    ) -> (r: Result<usize, usize>) {
        let r = self.write_format(
            writer,
            hint_pretty,
            hint_radix,
            hint_width,
            hint_precision,
            hint_case,
        );
        proof {
            let full = self.spec_debug(
            hint_pretty,
            hint_radix,
            hint_width,
            hint_precision,
            hint_case,
            );
            if r is Err {
                let i = choose|i: int|
                    0 <= i < full.len() && writer.sunk() == old(writer).sunk() + full.take(i);
                assert(writer.sunk() == old(writer).sunk() + full.take(i));
            }
        }
        r
    }
}

impl Formattable for isize {
    open spec fn spec_format(
        &self,
        hint_pretty: Option<bool>,
        hint_radix: Option<usize>,
        hint_width: Option<usize>,
        hint_precision: Option<usize>,
        hint_case: Option<bool>,
    ) -> Seq<char> {
        spec_render_hinted(
            *self < 0,
            i_abs(*self as int),
            hint_pretty,
            hint_radix,
            hint_width,
            hint_precision,
            hint_case,
        )
    }

    fn write_format<W: Writeable>(
        &self,
        writer: &mut W,
        hint_pretty: Option<bool>,
        hint_radix: Option<usize>,
        hint_width: Option<usize>,
        hint_precision: Option<usize>,
        hint_case: Option<bool>,
    ) -> (r: Result<usize, usize>) {
        let negative = *self < 0;
        let wide: i128 = *self as i128;
        let mag: u128 = if negative {
            (-wide) as u128
        } else {
            wide as u128
        };
        assert(mag as nat == i_abs(*self as int));
        let r = render_integer(
            writer,
            negative,
            mag,
            hint_pretty,
            hint_radix,
            hint_width,
            hint_precision,
            hint_case,
        );
        proof {
            let full = self.spec_format(
            hint_pretty,
            hint_radix,
            hint_width,
            hint_precision,
            hint_case,
            );
            if r is Err {
                let i = choose|i: int|
                    0 <= i < full.len() && writer.sunk() == old(writer).sunk() + full.take(i);
                assert(writer.sunk() == old(writer).sunk() + full.take(i));
            }
        }
        r
    }
}

impl Debuggable for isize {
    open spec fn spec_debug(
        &self,
        hint_pretty: Option<bool>,
        hint_radix: Option<usize>,
        hint_width: Option<usize>,
        hint_precision: Option<usize>,
        hint_case: Option<bool>,
    ) -> Seq<char> {
        spec_render_hinted(
            *self < 0,
            i_abs(*self as int),
            hint_pretty,
            hint_radix,
            hint_width,
            hint_precision,
            hint_case,
        )
    }

    fn write_debug<W: Writeable>(
        &self,
        writer: &mut W,
        hint_pretty: Option<bool>,
        hint_radix: Option<usize>,
        hint_width: Option<usize>,
        hint_precision: Option<usize>,
        hint_case: Option<bool>,
    ) -> (r: Result<usize, usize>) {
        let r = self.write_format(
            writer,
            hint_pretty,
            hint_radix,
            hint_width,
            hint_precision,
            hint_case,
        );
        proof {
            let full = self.spec_debug(
            hint_pretty,
            hint_radix,
            hint_width,
            hint_precision,
            hint_case,
            );
            if r is Err {
                let i = choose|i: int|
                    0 <= i < full.len() && writer.sunk() == old(writer).sunk() + full.take(i);
                assert(writer.sunk() == old(writer).sunk() + full.take(i));
            }
        }
        r
    }
}

impl Formattable for usize {
    open spec fn spec_format(
        &self,
        hint_pretty: Option<bool>,
        hint_radix: Option<usize>,
        hint_width: Option<usize>,
        hint_precision: Option<usize>,
        hint_case: Option<bool>,
    ) -> Seq<char> {
        spec_render_hinted(
            false,
            *self as nat,
            hint_pretty,
            hint_radix,
            hint_width,
            hint_precision,
            hint_case,
        )
    }

    fn write_format<W: Writeable>(
        &self,
        writer: &mut W,
        hint_pretty: Option<bool>,
        hint_radix: Option<usize>,
        hint_width: Option<usize>,
        hint_precision: Option<usize>,
        hint_case: Option<bool>,
    ) -> (r: Result<usize, usize>) {
        let mag: u128 = *self as u128;
        let r = render_integer(
            writer,
            false,
            mag,
            hint_pretty,
            hint_radix,
            hint_width,
            hint_precision,
            hint_case,
        );
        proof {
            let full = self.spec_format(
            hint_pretty,
            hint_radix,
            hint_width,
            hint_precision,
            hint_case,
            );
            assert(mag as nat == *self as nat);
            if r is Err {
                let i = choose|i: int|
                    0 <= i < full.len() && writer.sunk() == old(writer).sunk() + full.take(i);
                assert(writer.sunk() == old(writer).sunk() + full.take(i));
            }
        }
        r
    }
}

impl Debuggable for usize {
    open spec fn spec_debug(
        &self,
        hint_pretty: Option<bool>,
        hint_radix: Option<usize>,
        hint_width: Option<usize>,
        hint_precision: Option<usize>,
        hint_case: Option<bool>,
    ) -> Seq<char> {
        spec_render_hinted(
            false,
            *self as nat,
            hint_pretty,
            hint_radix,
            hint_width,
            hint_precision,
            hint_case,
        )
    }

    fn write_debug<W: Writeable>(
        &self,
        writer: &mut W,
        hint_pretty: Option<bool>,
        hint_radix: Option<usize>,
        hint_width: Option<usize>,
        hint_precision: Option<usize>,
        hint_case: Option<bool>,
    ) -> (r: Result<usize, usize>) {
        let r = self.write_format(
            writer,
            hint_pretty,
            hint_radix,
            hint_width,
            hint_precision,
            hint_case,
        );
        proof {
            let full = self.spec_debug(
            hint_pretty,
            hint_radix,
            hint_width,
            hint_precision,
            hint_case,
            );
            if r is Err {
                let i = choose|i: int|
                    0 <= i < full.len() && writer.sunk() == old(writer).sunk() + full.take(i);
                assert(writer.sunk() == old(writer).sunk() + full.take(i));
            }
        }
        r
    }
}

} // verus!
