use crab_examples::download::{cached_progress, Download, DownloadProgress, ProgressState};
use crab_examples::generation::Generation;
use crab_examples::launcher::{exit_code, server_args, LaunchOutcome};
use crab_examples::prompt::media_prompt;

#[test]
fn lfm_models_get_chatml_framing() {
    assert_eq!(
        media_prompt("unsloth/LFM2.5-VL-1.6B-GGUF", "<__media__>", "Describe."),
        "<|im_start|>user\n<__media__>\nDescribe.<|im_end|>\n<|im_start|>assistant\n"
    );
    assert_eq!(
        media_prompt("models/gemma-4-E4B-it-Q4_K_M.gguf", "<__media__>", "Describe."),
        "<__media__>\nDescribe."
    );
}

#[test]
fn generation_samples_prompt_logits_first() {
    let mut g = Generation::new(40, 3);
    assert_eq!(g.next_sample(), Some(-1));
    assert_eq!(g.push_piece(" A"), 40);
    assert_eq!(g.next_sample(), Some(0));
    assert_eq!(g.push_piece(" cat"), 41);
    assert_eq!(g.push_piece(". "), 42);
    assert_eq!(g.next_sample(), None);
    assert_eq!(g.produced(), 3);
    assert_eq!(g.text(), " A cat. ");
    assert_eq!(g.reply(), "A cat.");
}

#[test]
fn generation_stops_at_end_of_sequence() {
    let mut g = Generation::new(0, 96);
    assert_eq!(g.push_piece("x"), 0);
    g.stop();
    assert_eq!(g.next_sample(), None);
    assert_eq!(g.text(), "x");
}

#[test]
fn generation_with_no_budget_samples_nothing() {
    let g = Generation::new(5, 0);
    assert_eq!(g.next_sample(), None);
    assert_eq!(g.reply(), "");
}

#[test]
fn download_reports() {
    let (mut d, started) = Download::start(Some(10));
    assert_eq!(started, DownloadProgress { state: ProgressState::Started, downloaded_bytes: 0, total_bytes: Some(10), path: None });
    let first = d.on_read(4).unwrap();
    assert_eq!(first.state, ProgressState::Downloading);
    assert_eq!(first.downloaded_bytes, 4);
    assert_eq!(d.on_read(6).unwrap().downloaded_bytes, 10);
    assert_eq!(d.on_read(0), None);
    assert_eq!(d.downloaded(), 10);
    let done = d.finish("/m/model.gguf");
    assert_eq!(done, DownloadProgress { state: ProgressState::Finished, downloaded_bytes: 10, total_bytes: Some(10), path: Some("/m/model.gguf".to_string()) });
}

#[test]
fn download_without_length_reports_received_total() {
    let (mut d, started) = Download::start(None);
    assert_eq!(started.total_bytes, None);
    assert_eq!(d.on_read(7).unwrap().total_bytes, None);
    assert_eq!(d.finish("p").total_bytes, Some(7));
}

#[test]
fn cached_report_and_state_names() {
    let r = cached_progress(229, "/cache/model.gguf");
    assert_eq!(r, DownloadProgress { state: ProgressState::Cached, downloaded_bytes: 229, total_bytes: Some(229), path: Some("/cache/model.gguf".to_string()) });
    assert_eq!(ProgressState::Cached.name(), "cached");
    assert_eq!(ProgressState::Started.name(), "started");
    assert_eq!(ProgressState::Downloading.name(), "downloading");
    assert_eq!(ProgressState::Finished.name(), "finished");
}

fn strings(v: &[&str]) -> Vec<String> {
    v.iter().map(|s| s.to_string()).collect()
}

#[test]
fn server_args_drop_leading_separator() {
    let extra = strings(&["--", "--host", "127.0.0.1", "--port", "8080"]);
    assert_eq!(
        server_args("/m.gguf", "/p.gguf", &extra),
        strings(&["--model", "/m.gguf", "--mmproj", "/p.gguf", "--host", "127.0.0.1", "--port", "8080"])
    );
    assert_eq!(server_args("a", "b", &vec![]), strings(&["--model", "a", "--mmproj", "b"]));
    assert_eq!(
        server_args("a", "b", &strings(&["--n-ctx", "--", "x"])),
        strings(&["--model", "a", "--mmproj", "b", "--n-ctx", "--", "x"])
    );
}

#[test]
fn launcher_exit_codes() {
    assert_eq!(exit_code(LaunchOutcome::FetchFailed), 1);
    assert_eq!(exit_code(LaunchOutcome::ServerMissing), 127);
    assert_eq!(exit_code(LaunchOutcome::SpawnFailed), 1);
    assert_eq!(exit_code(LaunchOutcome::Exited(None)), 1);
    assert_eq!(exit_code(LaunchOutcome::Exited(Some(0))), 0);
    assert_eq!(exit_code(LaunchOutcome::Exited(Some(259))), 3);
    assert_eq!(exit_code(LaunchOutcome::Exited(Some(-1))), 255);
}

#[test]
fn download_report_sequence() {
    let (mut d, started) = Download::start(None);
    let mut reports = vec![started];
    for n in [65536u64, 0, 10, 3] {
        if let Some(r) = d.on_read(n) {
            reports.push(r);
        }
    }
    reports.push(d.finish("/m/x.gguf"));
    let bytes: Vec<u64> = reports.iter().map(|r| r.downloaded_bytes).collect();
    assert_eq!(bytes, vec![0, 65536, 65546, 65549, 65549]);
    assert!(reports[..reports.len() - 1].iter().all(|r| r.path.is_none()));
    assert_eq!(reports.last().unwrap().path, Some("/m/x.gguf".to_string()));
    assert_eq!(reports.last().unwrap().total_bytes, Some(65549));
}
