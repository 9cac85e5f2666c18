//! From log chunks to styled terminal text.
//!
//! The log itself is plain data; only here is each chunk turned into the
//! styled text the output pane draws, through the ANSI parser and the
//! style constructors of the widget toolkit.

use vstd::prelude::*;

use ansi_to_tui::IntoText;
use ratatui::style::Stylize;
use ratatui::text::Text;

use crate::runner::{ChunkModel, OutputChunk, StreamSource};

verus! {

#[verifier::external_type_specification]
#[verifier::external_body]
pub struct ExText<'a>(Text<'a>);

/// What `ansi_to_tui`'s `into_text` makes of the given bytes: their
/// styled text, or `None` for the bytes it reports an error on. The
/// result depends on the bytes alone.
pub uninterp spec fn ansi_text_of(bytes: Seq<u8>) -> Option<Text<'static>>;

/// What ratatui's `Text::raw` makes of the given characters. The result
/// depends on the characters alone.
pub uninterp spec fn raw_of(s: Seq<char>) -> Text<'static>;

/// What ratatui's `Stylize::light_green` makes of the given text.
pub uninterp spec fn green_of(t: Text<'static>) -> Text<'static>;

/// What ratatui's `Stylize::light_red` makes of the given text.
pub uninterp spec fn red_of(t: Text<'static>) -> Text<'static>;

/// What ratatui's `Stylize::light_magenta` makes of the given text.
pub uninterp spec fn magenta_of(t: Text<'static>) -> Text<'static>;

/// The styled text a log entry is drawn as, named constructor by named
/// constructor: stream bytes through the ANSI parser, standard error
/// wrapped in the highlight color; a banner as its `banner_chars` line in
/// the success or failure color; a separator as a plain newline; a notice
/// failure-colored; an echo plain.
pub open spec fn text_of_chunk(c: ChunkModel) -> Option<Text<'static>> {
    match c {
        ChunkModel::Stream { source, bytes } => match ansi_text_of(bytes) {
            Some(t) => Some(
                if source == StreamSource::Stderr {
                    magenta_of(t)
                } else {
                    t
                },
            ),
            None => None,
        },
        ChunkModel::Banner { label, success } => Some(
            if success {
                green_of(raw_of(banner_chars(label, true)))
            } else {
                red_of(raw_of(banner_chars(label, false)))
            },
        ),
        ChunkModel::Separator => Some(raw_of("\n"@)),
        ChunkModel::Notice { message } => Some(red_of(raw_of(message))),
        ChunkModel::Echo { text } => Some(raw_of(text)),
    }
}

/// The text of an outcome banner: the step's label between a fixed prefix
/// and the outcome word.
pub open spec fn banner_chars(label: Seq<char>, success: bool) -> Seq<char> {
    "=== "@ + label + (if success {
        " finished"@
    } else {
        " failed"@
    })
}

/// The banner line for a step's outcome, exactly as `banner_chars` spells
/// it.
pub fn banner_string(label: &str, success: bool) -> (r: String)
    ensures
        r@ == banner_chars(label@, success),
{
    let mut s = "=== ".to_owned();
    s.append(label);
    if success {
        s.append(" finished");
    } else {
        s.append(" failed");
    }
    proof {
        assert(s@ =~= banner_chars(label@, success));
    }
    s
}

/// Relies on `ansi_to_tui::IntoText::into_text`: parses bytes that may
/// hold ANSI escape sequences into equivalently styled text; what it
/// cannot make sense of it skips, and only a reported parse error yields
/// `None` here.
#[verifier::external_body]
fn ansi_to_styled(bytes: &[u8]) -> (r: Option<Text<'static>>)
    ensures
        r == ansi_text_of(bytes@),
{
    bytes.into_text().ok()
}

/// Relies on ratatui's `Text::raw`: unstyled text holding the given
/// string.
#[verifier::external_body]
fn raw_text(s: String) -> (r: Text<'static>)
    ensures
        r == raw_of(s@),
{
    Text::raw(s)
}

/// Relies on ratatui's `Stylize::light_green`, the success color of
/// outcome banners.
#[verifier::external_body]
fn styled_success(t: Text<'static>) -> (r: Text<'static>)
    ensures
        r == green_of(t),
{
    t.light_green()
}

/// Relies on ratatui's `Stylize::light_red`, the failure color of banners
/// and error notices.
#[verifier::external_body]
fn styled_failure(t: Text<'static>) -> (r: Text<'static>)
    ensures
        r == red_of(t),
{
    t.light_red()
}

/// Relies on ratatui's `Stylize::light_magenta`, the highlight that sets
/// standard-error chunks apart from standard output.
#[verifier::external_body]
fn styled_stderr(t: Text<'static>) -> (r: Text<'static>)
    ensures
        r == magenta_of(t),
{
    t.light_magenta()
}

/// The styled text a log chunk is drawn as, exactly as `text_of_chunk`
/// composes it: stream bytes go through the ANSI parser, with standard
/// error highlighted; a banner becomes its `banner_chars` line in the
/// success or failure color; a separator is a plain newline; a notice is
/// failure-colored; an echo is plain. Only stream bytes the ANSI parser
/// rejects yield `None` and are skipped.
pub fn chunk_to_text(chunk: &OutputChunk) -> (r: Option<Text<'static>>)
    ensures
        r == text_of_chunk(chunk@),
        !(chunk is Stream) ==> r is Some,
{
    match chunk {
        OutputChunk::Stream { source, bytes } => {
            match ansi_to_styled(bytes.as_slice()) {
                Some(t) => Some(
                    match source {
                        StreamSource::Stdout => t,
                        StreamSource::Stderr => styled_stderr(t),
                    },
                ),
                None => None,
            }
        },
        OutputChunk::Banner { label, success } => {
            let t = raw_text(banner_string(label, *success));
            Some(
                if *success {
                    styled_success(t)
                } else {
                    styled_failure(t)
                },
            )
        },
        OutputChunk::Separator => Some(raw_text("\n".to_owned())),
        OutputChunk::Notice { message } => Some(styled_failure(raw_text(message.clone()))),
        OutputChunk::Echo { text } => Some(raw_text(text.clone())),
    }
}

} // verus!
