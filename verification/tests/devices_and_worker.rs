use omt_audio_out::devices::{list_output_devices, resolve_device, DeviceChoice};
use omt_audio_out::output::{AudioCmd, AudioOutput, AudioOutputStatus};
use omt_audio_out::worker::{
    build_stream_for_format, wait_device_cmd, DeviceFormat, OutputWorker, StreamFormat, WaitEvent,
    WaitOutcome, WorkerAction, WorkerEvent, FAILED_OPEN_RETRY, REOPEN_POLL,
};

fn names(list: &[&str]) -> Vec<String> {
    list.iter().map(|name| name.to_string()).collect()
}

fn listed(default: Option<&str>, list: &[&str]) -> Vec<(String, bool)> {
    list_output_devices(&default.map(|name| name.to_string()), &Some(names(list)))
        .into_iter()
        .map(|device| (device.name, device.is_default))
        .collect()
}

fn run_to_running(audio: &mut AudioOutput) -> OutputWorker {
    let mut worker = OutputWorker::start(audio);
    worker.step(audio, WorkerEvent::DeviceFound);
    worker.step(audio, WorkerEvent::ConfigRead { channels: 6, rate: 96_000 });
    worker.step(audio, WorkerEvent::StreamBuilt);
    worker.step(audio, WorkerEvent::StreamStarted);
    worker
}

#[test]
fn default_device_is_first_then_names() {
    assert_eq!(
        listed(Some("m"), &["z", "b", "m", "a", "é", "B"]),
        vec![
            ("m".to_string(), true),
            ("B".to_string(), false),
            ("a".to_string(), false),
            ("b".to_string(), false),
            ("z".to_string(), false),
            ("é".to_string(), false),
        ]
    );
}

#[test]
fn names_are_ordered_as_strings_are() {
    let list = ["ab", "a", "", "abc", "b", "aé", "a\u{10000}", "a\u{ffff}", "ab"];
    let mut expected = names(&list);
    expected.sort();
    let got: Vec<String> = listed(None, &list).into_iter().map(|entry| entry.0).collect();
    assert_eq!(got, expected);
}

#[test]
fn enumeration_order_does_not_matter() {
    assert_eq!(
        listed(Some("x"), &["y", "x", "w", "x"]),
        listed(Some("x"), &["x", "w", "x", "y"])
    );
}

#[test]
fn missing_default_marks_nothing() {
    assert_eq!(listed(Some("gone"), &["a"]), vec![("a".to_string(), false)]);
    assert!(list_output_devices(&Some("a".to_string()), &None).is_empty());
}

#[test]
fn wanted_device_is_found_by_name() {
    let listing = Ok(names(&["a", "b", "b"]));
    let wanted = Some("b".to_string());
    assert_eq!(resolve_device(&wanted, &listing, false), Ok(DeviceChoice::Listed(1)));
}

#[test]
fn missing_device_falls_back_to_the_default() {
    let listing = Ok(names(&["a"]));
    let wanted = Some("b".to_string());
    assert_eq!(resolve_device(&wanted, &listing, true), Ok(DeviceChoice::HostDefault));
    assert_eq!(
        resolve_device(&wanted, &listing, false),
        Err("no default output device".to_string())
    );
    assert_eq!(resolve_device(&None, &listing, true), Ok(DeviceChoice::HostDefault));
    assert_eq!(
        resolve_device(&None, &listing, false),
        Err("no default output device".to_string())
    );
}

#[test]
fn listing_error_is_passed_on_when_a_name_is_wanted() {
    let listing = Err("host gone".to_string());
    assert_eq!(
        resolve_device(&Some("b".to_string()), &listing, true),
        Err("host gone".to_string())
    );
    assert_eq!(resolve_device(&None, &listing, true), Ok(DeviceChoice::HostDefault));
}

#[test]
fn only_three_sample_formats_are_streamed() {
    assert_eq!(build_stream_for_format(&DeviceFormat::F32), Ok(StreamFormat::F32));
    assert_eq!(build_stream_for_format(&DeviceFormat::I16), Ok(StreamFormat::I16));
    assert_eq!(build_stream_for_format(&DeviceFormat::U16), Ok(StreamFormat::U16));
    assert_eq!(
        build_stream_for_format(&DeviceFormat::Other("I24".to_string())),
        Err("unsupported sample format: I24".to_string())
    );
}

#[test]
fn selecting_a_device_mutes_and_tells_the_worker() {
    let mut audio = AudioOutput::new(true);
    audio.apply_status(AudioOutputStatus::Ready);
    let name = Some("speakers".to_string());
    assert_eq!(
        audio.set_output_device(name.clone()),
        Some(AudioCmd::SetDevice(name.clone()))
    );
    assert_eq!(audio.status(), AudioOutputStatus::Opening);
    assert_eq!(audio.selected_device_name(), name);
    assert_eq!(audio.reopen(), Some(AudioCmd::SetDevice(name.clone())));
    assert_eq!(audio.selected_device_name(), name);
    assert_eq!(audio.shutdown(), Some(AudioCmd::Shutdown));
    assert_eq!(audio.shutdown(), None);
}

#[test]
fn stub_has_nobody_to_tell() {
    let mut audio = AudioOutput::new(false);
    assert_eq!(audio.status(), AudioOutputStatus::Unavailable);
    assert_eq!(audio.set_output_device(Some("x".to_string())), None);
    assert_eq!(audio.selected_device_name(), Some("x".to_string()));
    assert_eq!(audio.status(), AudioOutputStatus::Unavailable);
}

#[test]
fn waiting_ends_with_commands_reopens_and_retries() {
    let mut audio = AudioOutput::new(true);
    let selected = Some("a".to_string());
    let set = WaitEvent::Command(AudioCmd::SetDevice(None));
    assert_eq!(
        wait_device_cmd(&mut audio, &selected, false, set),
        WaitOutcome::Select(None)
    );
    let stop = WaitEvent::Command(AudioCmd::Shutdown);
    assert_eq!(wait_device_cmd(&mut audio, &selected, true, stop), WaitOutcome::Stop);
    assert_eq!(
        wait_device_cmd(&mut audio, &selected, true, WaitEvent::Disconnected),
        WaitOutcome::Stop
    );
    assert_eq!(
        wait_device_cmd(&mut audio, &selected, false, WaitEvent::TimedOut),
        WaitOutcome::KeepWaiting
    );
    audio.stream_error();
    assert_eq!(
        wait_device_cmd(&mut audio, &selected, true, WaitEvent::TimedOut),
        WaitOutcome::Select(selected.clone())
    );
    assert_eq!(
        wait_device_cmd(&mut audio, &selected, false, WaitEvent::TimedOut),
        WaitOutcome::Select(selected.clone())
    );
    assert_eq!(
        wait_device_cmd(&mut audio, &selected, false, WaitEvent::TimedOut),
        WaitOutcome::KeepWaiting
    );
}

#[test]
fn worker_opens_step_by_step() {
    let mut audio = AudioOutput::new(true);
    let mut worker = OutputWorker::start(&mut audio);
    assert_eq!(worker.action(), WorkerAction::ResolveDevice);
    worker.step(&mut audio, WorkerEvent::DeviceFound);
    assert_eq!(worker.action(), WorkerAction::ReadConfig);
    worker.step(&mut audio, WorkerEvent::ConfigRead { channels: 6, rate: 96_000 });
    assert_eq!(audio.device_sample_rate(), 96_000);
    assert_eq!(worker.action(), WorkerAction::BuildStream);
    worker.step(&mut audio, WorkerEvent::StreamBuilt);
    assert_eq!(worker.action(), WorkerAction::StartStream);
    assert_eq!(audio.status(), AudioOutputStatus::Opening);
    worker.step(&mut audio, WorkerEvent::StreamStarted);
    assert_eq!(worker.action(), WorkerAction::Wait(REOPEN_POLL));
    assert_eq!(audio.status(), AudioOutputStatus::Ready);
    worker.step(&mut audio, WorkerEvent::Waited(WaitEvent::TimedOut));
    assert_eq!(worker.action(), WorkerAction::Wait(REOPEN_POLL));
}

#[test]
fn failed_open_is_retried() {
    let mut audio = AudioOutput::new(true);
    let mut worker = OutputWorker::start(&mut audio);
    worker.step(&mut audio, WorkerEvent::Failed);
    assert_eq!(audio.status(), AudioOutputStatus::Unavailable);
    assert_eq!(worker.action(), WorkerAction::Wait(FAILED_OPEN_RETRY));
    worker.step(&mut audio, WorkerEvent::Waited(WaitEvent::TimedOut));
    assert_eq!(worker.action(), WorkerAction::ResolveDevice);
    assert_eq!(audio.status(), AudioOutputStatus::Opening);
    worker.step(&mut audio, WorkerEvent::DeviceFound);
    worker.step(&mut audio, WorkerEvent::Failed);
    let name = Some("other".to_string());
    let set = WaitEvent::Command(AudioCmd::SetDevice(name.clone()));
    worker.step(&mut audio, WorkerEvent::Waited(set));
    assert_eq!(worker.selected(), name);
    assert_eq!(audio.selected_device_name(), name);
}

#[test]
fn stream_that_does_not_start_is_closed_first() {
    let mut audio = AudioOutput::new(true);
    let mut worker = OutputWorker::start(&mut audio);
    worker.step(&mut audio, WorkerEvent::DeviceFound);
    worker.step(&mut audio, WorkerEvent::ConfigRead { channels: 2, rate: 48_000 });
    worker.step(&mut audio, WorkerEvent::StreamBuilt);
    worker.step(&mut audio, WorkerEvent::Failed);
    assert_eq!(worker.action(), WorkerAction::CloseStream);
    assert_eq!(audio.status(), AudioOutputStatus::Opening);
    worker.step(&mut audio, WorkerEvent::StreamClosed);
    assert_eq!(audio.status(), AudioOutputStatus::Unavailable);
    assert_eq!(worker.action(), WorkerAction::Wait(FAILED_OPEN_RETRY));
}

#[test]
fn stream_error_leads_to_a_new_stream() {
    let mut audio = AudioOutput::new(true);
    let mut worker = run_to_running(&mut audio);
    audio.stream_error();
    worker.step(&mut audio, WorkerEvent::Waited(WaitEvent::TimedOut));
    assert_eq!(worker.action(), WorkerAction::CloseStream);
    worker.step(&mut audio, WorkerEvent::StreamClosed);
    assert_eq!(worker.action(), WorkerAction::ResolveDevice);
    assert!(!audio.take_reopen_request());
}

#[test]
fn shutdown_ends_the_worker() {
    let mut audio = AudioOutput::new(true);
    let mut worker = run_to_running(&mut audio);
    let stop = WaitEvent::Command(AudioCmd::Shutdown);
    worker.step(&mut audio, WorkerEvent::Waited(stop));
    assert_eq!(worker.action(), WorkerAction::CloseStream);
    worker.step(&mut audio, WorkerEvent::StreamClosed);
    assert_eq!(worker.action(), WorkerAction::Finish);
    assert_eq!(audio.status(), AudioOutputStatus::Unavailable);

    let mut idle = AudioOutput::new(true);
    let mut retrying = OutputWorker::start(&mut idle);
    retrying.step(&mut idle, WorkerEvent::Failed);
    retrying.step(&mut idle, WorkerEvent::Waited(WaitEvent::Disconnected));
    assert_eq!(retrying.action(), WorkerAction::Finish);
}
