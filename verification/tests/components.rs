use xcbars::components::clock::get_refresh_rate;
use xcbars::components::network_usage::{
    bytes_per_second, get_bytes, get_prefix, DeviceStatus, Direction, NetworkUsage, Scale,
};
use xcbars::components::pipe::{Pipe, PipeAction, PipeEvent, PipePhase};
use xcbars::components::text::Text;
use xcbars::components::window_title::WindowTitleState;
use xcbars::error::Error;
use xcbars::string_component::StringComponentStateInfo;
use std::time::Duration;

#[test]
fn scale_base() {
    assert_eq!(Scale::Decimal.base(), 1000);
    assert_eq!(Scale::Binary.base(), 1024);
}

#[test]
fn prefixes() {
    assert_eq!(get_prefix(Scale::Decimal, 0), "B/s");
    assert_eq!(get_prefix(Scale::Binary, 0), "B/s");
    assert_eq!(get_prefix(Scale::Decimal, 1), "kb/s");
    assert_eq!(get_prefix(Scale::Decimal, 2), "Mb/s");
    assert_eq!(get_prefix(Scale::Decimal, 3), "Gb/s");
    assert_eq!(get_prefix(Scale::Decimal, 4), "Tb/s");
    assert_eq!(get_prefix(Scale::Binary, 1), "KiB/s");
    assert_eq!(get_prefix(Scale::Binary, 2), "MiB/s");
    assert_eq!(get_prefix(Scale::Binary, 3), "GiB/s");
    assert_eq!(get_prefix(Scale::Binary, 4), "TiB/s");
    assert_eq!(get_prefix(Scale::Decimal, 5), "X/s");
    assert_eq!(get_prefix(Scale::Binary, 255), "X/s");
}

fn devices() -> Vec<DeviceStatus> {
    vec![
        DeviceStatus { interface: "lo".to_string(), receive_bytes: 1, transmit_bytes: 2 },
        DeviceStatus { interface: "eth0".to_string(), receive_bytes: 300, transmit_bytes: 40 },
        DeviceStatus { interface: "eth0".to_string(), receive_bytes: 5, transmit_bytes: 6 },
    ]
}

#[test]
fn bytes_of_the_first_device_of_that_name() {
    assert_eq!(get_bytes(&devices(), &"eth0".to_string(), Direction::Incoming), Some(300));
    assert_eq!(get_bytes(&devices(), &"eth0".to_string(), Direction::Outgoing), Some(40));
    assert_eq!(get_bytes(&devices(), &"lo".to_string(), Direction::Outgoing), Some(2));
}

#[test]
fn no_bytes_of_an_unknown_device() {
    assert_eq!(get_bytes(&devices(), &"wlan0".to_string(), Direction::Incoming), None);
    assert_eq!(get_bytes(&Vec::new(), &"lo".to_string(), Direction::Incoming), None);
}

#[test]
fn rate_is_the_difference_over_the_sample() {
    assert_eq!(bytes_per_second(1000, 4000, 1), Some(3000));
    assert_eq!(bytes_per_second(1000, 4001, 2), Some(1500));
    assert_eq!(bytes_per_second(7, 7, 3), Some(0));
    assert_eq!(bytes_per_second(0, u64::MAX, 1), Some(u64::MAX));
}

#[test]
fn no_rate_without_a_sample_or_with_a_counter_gone_backwards() {
    assert_eq!(bytes_per_second(1000, 4000, 0), None);
    assert_eq!(bytes_per_second(4000, 1000, 1), None);
}

#[test]
fn network_usage_defaults() {
    let usage = NetworkUsage::default();
    assert_eq!(usage.interface, "eth0");
    assert_eq!(usage.direction, Direction::Incoming);
    assert_eq!(usage.scale, Scale::Binary);
    assert_eq!(usage.percision, 3);
    assert_eq!(usage.refresh_frequency, Duration::from_secs(10));
    assert_eq!(usage.sample_duration, Duration::from_secs(1));
}

#[test]
fn network_usage_init_needs_the_interface() {
    let mut usage = NetworkUsage::default();
    assert_eq!(usage.init(&devices()), Ok(()));
    usage.interface = "wlan0".to_string();
    assert_eq!(usage.init(&devices()), Err(Error::NoSuchInterface));
}

#[test]
fn pipe_defaults() {
    let pipe = Pipe::default();
    assert_eq!(pipe.command, "true");
    assert!(pipe.args.is_empty());
    assert_eq!(pipe.refresh_rate, None);
    assert!(!pipe.repeats());
}

fn repeating() -> Pipe {
    Pipe {
        command: "date".to_string(),
        args: Vec::new(),
        refresh_rate: Some(Duration::from_secs(1)),
    }
}

#[test]
fn pipe_run_once_yields_every_line_and_ends_with_the_command() {
    let pipe = Pipe::default();
    assert_eq!(
        pipe.poll(PipePhase::Command, PipeEvent::Line("a".to_string())),
        (PipePhase::Command, PipeAction::Emit { line: "a".to_string(), sleep: false })
    );
    assert_eq!(
        pipe.poll(PipePhase::Command, PipeEvent::CommandDone),
        (PipePhase::Command, PipeAction::End)
    );
}

#[test]
fn repeating_pipe_sleeps_after_the_first_line() {
    let pipe = repeating();
    assert_eq!(
        pipe.poll(PipePhase::Command, PipeEvent::Line("a".to_string())),
        (PipePhase::Sleep, PipeAction::Emit { line: "a".to_string(), sleep: true })
    );
    assert_eq!(
        pipe.poll(PipePhase::Sleep, PipeEvent::SleepDone),
        (PipePhase::Command, PipeAction::Run)
    );
}

#[test]
fn repeating_pipe_sleeps_after_a_command_without_output() {
    let pipe = repeating();
    assert_eq!(
        pipe.poll(PipePhase::Command, PipeEvent::CommandDone),
        (PipePhase::Sleep, PipeAction::Sleep)
    );
}

#[test]
fn pipe_waits_and_fails_in_either_phase() {
    let pipe = repeating();
    for phase in [PipePhase::Command, PipePhase::Sleep] {
        assert_eq!(pipe.poll(phase, PipeEvent::NotReady), (phase, PipeAction::Wait));
        assert_eq!(pipe.poll(phase, PipeEvent::Failed), (phase, PipeAction::Fail));
    }
}

#[test]
fn text_shows_its_text() {
    let text = Text { text: "hello".to_string() };
    assert_eq!(text.update(), Some("hello".to_string()));
}

#[test]
fn clock_refreshes_every_second_if_the_format_shows_seconds() {
    assert_eq!(get_refresh_rate(15), 1);
    assert_eq!(get_refresh_rate(0), 60);
    assert_eq!(get_refresh_rate(-1), 1);
}

#[test]
fn window_title_needs_both_atoms() {
    assert_eq!(
        WindowTitleState::create(340, 39),
        Ok(WindowTitleState { active_window: 340, wm_name: 39 })
    );
    assert_eq!(WindowTitleState::create(0, 39), Err(Error::UnsupportedProperties));
    assert_eq!(WindowTitleState::create(340, 0), Err(Error::UnsupportedProperties));
}

#[test]
fn window_title_changes_with_the_active_window_only() {
    let state = WindowTitleState::create(340, 39).unwrap();
    assert!(state.concerns(340));
    assert!(!state.concerns(39));
    assert_eq!(state.update(340, Some("editor".to_string())), Some("editor".to_string()));
    assert_eq!(state.update(340, None), Some(String::new()));
    assert_eq!(state.update(39, Some("editor".to_string())), None);
}

#[test]
fn string_component_keeps_the_last_text() {
    let mut info = StringComponentStateInfo::create(7u8);
    assert_eq!(info.current, "");
    assert!(info.update(Some("one".to_string())));
    assert_eq!(info.current, "one");
    assert!(!info.update(None));
    assert_eq!(info.current, "one");
    assert_eq!(info.state, 7);
    assert_eq!(info.render(20, 14336, 11264), 5);
}

#[test]
fn error_descriptions() {
    assert_eq!(Error::from(3), Error::XcbGenericError(3));
    assert_eq!(Error::XcbGenericError(3).description(), "xcb error");
    assert_eq!(Error::ItemError.description(), "item error");
    assert_eq!(Error::NoSuchInterface.description(), "No such network interface");
    assert_eq!(
        Error::UnsupportedProperties.description(),
        "The required EWMH properties are not supported."
    );
    assert_eq!(Error::BarOffScreen.description(), "The bar does not fit on the screen");
    assert_eq!(
        Error::BarTooSmall.description(),
        "The bar is too small for its components"
    );
}
