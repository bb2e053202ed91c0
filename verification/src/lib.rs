//! A formatted-output library for heapless environments: a mini
//! format-string language compiled into a sequence of typed write
//! operations, and a codec that renders integers into text under
//! radix/width/precision/case/prefix rules, writing character by
//! character into a caller-supplied sink.

pub mod codec;
pub mod compile;
pub mod directive;
pub mod formattable;
pub mod render;
pub mod sink;

pub use codec::render_integer;
pub use compile::parse_fmt_placeholder;
pub use compile::parse_fmt_string;
pub use directive::CompileError;
pub use directive::Directive;
pub use directive::FormatTemplate;
pub use directive::Method;
pub use directive::Segment;
pub use formattable::Debuggable;
pub use formattable::Formattable;
pub use render::render;
pub use render::Argument;
pub use render::RenderError;
pub use sink::write_chars;
pub use sink::CharBuffer;
pub use sink::Writeable;
