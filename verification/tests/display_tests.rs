use cmake_runner::display::chunk_to_text;
use cmake_runner::runner::{OutputChunk, StreamSource};
use ratatui::style::{Color, Stylize};
use ratatui::text::Text;

#[test]
fn stream_chunk_parses_ansi_styling() {
    let chunk = OutputChunk::Stream {
        source: StreamSource::Stdout,
        bytes: b"\x1b[31mred\x1b[0m".to_vec(),
    };
    let text = chunk_to_text(&chunk).unwrap();
    let spans: Vec<_> = text.lines.iter().flat_map(|l| l.spans.iter()).collect();
    assert!(spans.iter().any(|s| s.content == "red" && s.style.fg == Some(Color::Red)));
}

#[test]
fn stderr_chunk_is_highlighted() {
    let chunk = OutputChunk::Stream { source: StreamSource::Stderr, bytes: b"oops".to_vec() };
    let text = chunk_to_text(&chunk).unwrap();
    assert_eq!(text, Text::raw("oops").light_magenta());
}

#[test]
fn stdout_chunk_is_not_highlighted() {
    let chunk = OutputChunk::Stream { source: StreamSource::Stdout, bytes: b"fine".to_vec() };
    let text = chunk_to_text(&chunk).unwrap();
    assert_eq!(text, Text::raw("fine"));
}

#[test]
fn banner_chunks_carry_their_outcome_styles() {
    let done = chunk_to_text(&OutputChunk::Banner { label: "Build", success: true }).unwrap();
    assert_eq!(done, Text::raw("=== Build finished").light_green());
    let failed = chunk_to_text(&OutputChunk::Banner { label: "Build", success: false }).unwrap();
    assert_eq!(failed, Text::raw("=== Build failed").light_red());
}

#[test]
fn notices_are_failure_styled() {
    let text = chunk_to_text(&OutputChunk::Notice { message: String::from("boom") }).unwrap();
    assert_eq!(text, Text::raw("boom").light_red());
}

#[test]
fn malformed_stream_bytes_do_not_fail() {
    let chunk = OutputChunk::Stream { source: StreamSource::Stdout, bytes: vec![0xff, 0xfe] };
    assert!(chunk_to_text(&chunk).is_some());
}

#[test]
fn separators_and_echoes_are_plain() {
    let sep = chunk_to_text(&OutputChunk::Separator).unwrap();
    assert_eq!(sep, Text::raw("\n"));
    let echo = chunk_to_text(&OutputChunk::Echo { text: String::from("ls") }).unwrap();
    assert_eq!(echo, Text::raw("ls"));
}
