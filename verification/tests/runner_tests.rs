use cmake_runner::action::Action;
use cmake_runner::display::banner_string;
use cmake_runner::project::Project;
use cmake_runner::runner::{
    Directive, Invocation, OutputChunk, RunnerEvent, RunnerMsg, StreamSource,
};

fn sample_project() -> Project {
    Project { target: String::from("app1"), file_name: String::from("app1_bin") }
}

fn banners(msgs: &[RunnerMsg]) -> Vec<(&'static str, bool)> {
    msgs.iter()
        .filter_map(|m| match m {
            RunnerMsg::Chunk(OutputChunk::Banner { label, success }) => Some((*label, *success)),
            _ => None,
        })
        .collect()
}

fn errors(msgs: &[RunnerMsg]) -> Vec<String> {
    msgs.iter()
        .filter_map(|m| match m {
            RunnerMsg::Error(e) => Some(e.clone()),
            _ => None,
        })
        .collect()
}

#[test]
fn build_success_emits_one_success_banner() {
    let mut inv = Invocation::new(Action::Build.plan(&sample_project()));
    let (msgs, dir) = inv.handle(RunnerEvent::Exited { success: true });
    assert_eq!(banners(&msgs), vec![("Build", true)]);
    assert!(errors(&msgs).is_empty());
    assert!(matches!(dir, Directive::Finished { failed: false }));
}

#[test]
fn build_failure_emits_one_failure_banner_and_an_error() {
    let mut inv = Invocation::new(Action::Build.plan(&sample_project()));
    let (msgs, dir) = inv.handle(RunnerEvent::Exited { success: false });
    assert_eq!(banners(&msgs), vec![("Build", false)]);
    assert_eq!(errors(&msgs), vec![String::new()]);
    assert!(matches!(dir, Directive::Finished { failed: true }));
}

#[test]
fn run_with_failing_build_stops_quietly_and_never_spawns() {
    let mut inv = Invocation::new(Action::Run.plan(&sample_project()));
    assert_eq!(inv.current_command().program, "cmake");
    let (msgs, dir) = inv.handle(RunnerEvent::Exited { success: false });
    assert_eq!(banners(&msgs), vec![("Build", false)]);
    assert!(errors(&msgs).is_empty());
    assert!(matches!(dir, Directive::Finished { failed: false }));
    // Whatever arrives afterwards, nothing more is spawned and no further
    // banner appears.
    let (late, dir2) = inv.handle(RunnerEvent::Exited { success: true });
    assert!(banners(&late).is_empty());
    assert!(matches!(dir2, Directive::Wait));
}

#[test]
fn run_failure_banner_text_matches_the_log_line() {
    let mut inv = Invocation::new(Action::Run.plan(&sample_project()));
    let (msgs, _) = inv.handle(RunnerEvent::Exited { success: false });
    let mut lines: Vec<String> = Vec::new();
    for m in &msgs {
        if let RunnerMsg::Chunk(OutputChunk::Banner { label, success }) = m {
            lines.push(banner_string(label, *success));
        }
    }
    assert_eq!(lines, vec![String::from("=== Build failed")]);
    assert!(!lines.iter().any(|l| l.contains("Run")));
}

#[test]
fn run_with_successful_build_spawns_the_binary() {
    let mut inv = Invocation::new(Action::Run.plan(&sample_project()));
    let (msgs, dir) = inv.handle(RunnerEvent::Exited { success: true });
    assert_eq!(banners(&msgs), vec![("Build", true)]);
    match dir {
        Directive::Spawn(cmd) => {
            assert_eq!(cmd.program, "build/app1_bin");
            assert!(cmd.args.is_empty());
            assert_eq!(cmd.label, "Run");
            assert!(cmd.interactive);
        },
        _ => panic!("expected a spawn directive"),
    }
    let (msgs2, dir2) = inv.handle(RunnerEvent::Exited { success: true });
    assert_eq!(banners(&msgs2), vec![("Run", true)]);
    assert!(matches!(dir2, Directive::Finished { failed: false }));
}

#[test]
fn stream_chunks_keep_bytes_and_source() {
    let mut inv = Invocation::new(Action::Build.plan(&sample_project()));
    let (m1, d1) = inv.handle(RunnerEvent::Data {
        source: StreamSource::Stdout,
        bytes: b"hello ".to_vec(),
    });
    let (m2, _) = inv.handle(RunnerEvent::Data {
        source: StreamSource::Stderr,
        bytes: b"warning!".to_vec(),
    });
    let (m3, _) = inv.handle(RunnerEvent::Data {
        source: StreamSource::Stdout,
        bytes: b"world".to_vec(),
    });
    assert!(matches!(d1, Directive::Wait));
    let all: Vec<RunnerMsg> = m1.into_iter().chain(m2).chain(m3).collect();
    assert_eq!(all.len(), 3);
    let mut out_bytes: Vec<u8> = Vec::new();
    let mut err_bytes: Vec<u8> = Vec::new();
    for m in &all {
        match m {
            RunnerMsg::Chunk(OutputChunk::Stream { source: StreamSource::Stdout, bytes }) => {
                out_bytes.extend_from_slice(bytes)
            },
            RunnerMsg::Chunk(OutputChunk::Stream { source: StreamSource::Stderr, bytes }) => {
                err_bytes.extend_from_slice(bytes)
            },
            _ => panic!("expected only stream chunks"),
        }
    }
    assert_eq!(out_bytes, b"hello world");
    assert_eq!(err_bytes, b"warning!");
}

#[test]
fn read_failure_is_surfaced_and_invocation_goes_on() {
    let mut inv = Invocation::new(Action::Build.plan(&sample_project()));
    let (msgs, dir) = inv.handle(RunnerEvent::ReadFailed {
        source: StreamSource::Stdout,
        message: String::from("broken pipe"),
    });
    assert_eq!(errors(&msgs), vec![String::from("broken pipe")]);
    assert!(banners(&msgs).is_empty());
    assert!(matches!(dir, Directive::Wait));
    let (msgs2, _) = inv.handle(RunnerEvent::Exited { success: true });
    assert_eq!(banners(&msgs2), vec![("Build", true)]);
}

#[test]
fn spawn_failure_of_single_step_reports_the_error_without_banner() {
    let mut inv = Invocation::new(Action::Build.plan(&sample_project()));
    let (msgs, dir) = inv.handle(RunnerEvent::SpawnFailed {
        message: String::from("No such file or directory"),
    });
    assert!(banners(&msgs).is_empty());
    assert_eq!(errors(&msgs), vec![String::from("No such file or directory")]);
    assert!(matches!(dir, Directive::Finished { failed: true }));
}

#[test]
fn spawn_failure_of_the_build_step_of_run_is_quiet() {
    let mut inv = Invocation::new(Action::Run.plan(&sample_project()));
    let (msgs, dir) = inv.handle(RunnerEvent::SpawnFailed {
        message: String::from("No such file or directory"),
    });
    assert!(msgs.is_empty());
    assert!(matches!(dir, Directive::Finished { failed: false }));
}

#[test]
fn banner_is_framed_by_separators() {
    let mut inv = Invocation::new(Action::Build.plan(&sample_project()));
    let (msgs, _) = inv.handle(RunnerEvent::Exited { success: true });
    assert_eq!(msgs.len(), 3);
    assert!(matches!(msgs[0], RunnerMsg::Chunk(OutputChunk::Separator)));
    assert!(matches!(msgs[1], RunnerMsg::Chunk(OutputChunk::Banner { .. })));
    assert!(matches!(msgs[2], RunnerMsg::Chunk(OutputChunk::Separator)));
}
