use nimbus::classify::File;
use nimbus::command::{CommandEnum, ReasonEnum};
use nimbus::event::{Attribute, CreateKind, EventKind, ModifyKind, NormalizeError, Notification};
use nimbus::monitor::{create_directory_map, step, Monitor, MonitorSignal, MonitorState, Observation, Outcome};
use nimbus::setup::{Config, Course};

#[test]
fn each_course_has_its_directory_under_the_term() {
    let mut config = Config::default();
    config.base_path = "/Users/me/School".to_string();
    config.current_term = "2A".to_string();
    config.courses = vec![
        Course { name: "CS246".to_string(), description: String::new() },
        Course { name: "MATH239".to_string(), description: String::new() },
        Course { name: "CS246".to_string(), description: "twice".to_string() },
    ];
    let map = create_directory_map(&config);
    assert_eq!(map.get("CS246"), Some(&"/Users/me/School/2A/CS246".to_string()));
    assert_eq!(map.get("MATH239"), Some(&"/Users/me/School/2A/MATH239".to_string()));
    assert_eq!(map.get("ECE105"), None);
    assert_eq!(map.get(""), None);
}

#[test]
fn directories_follow_the_rules_of_joining_paths() {
    let mut config = Config::default();
    config.base_path = "/base/".to_string();
    config.current_term = "1B".to_string();
    config.courses = vec![
        Course { name: "CS246".to_string(), description: String::new() },
        Course { name: "/rooted".to_string(), description: String::new() },
    ];
    let map = create_directory_map(&config);
    assert_eq!(map.get("CS246"), Some(&"/base/1B/CS246".to_string()));
    assert_eq!(map.get("/rooted"), Some(&"/rooted".to_string()));
}

#[test]
fn a_matched_file_is_moved_to_the_directory_of_its_course() {
    let mut config = Config::default();
    config.base_path = "/Users/me/School".to_string();
    config.current_term = "2A".to_string();
    config.courses = vec![Course { name: "CS246".to_string(), description: "...".to_string() }];
    let monitor = Monitor::new(config);
    let file = File {
        name: "CS246_assignment1.pdf".to_string(),
        url: "https://learn.uwaterloo.ca/d2l/le/content/CS246_assignment.pdf".to_string(),
        path: "/Users/me/Downloads/CS246_assignment1.pdf".to_string(),
    };
    let command = monitor.plan(&file);
    assert_eq!(command.file_path, Some("/Users/me/Downloads/CS246_assignment1.pdf".to_string()));
    assert_eq!(command.command, CommandEnum::Move);
    assert_eq!(command.destination, Some("/Users/me/School/2A/CS246".to_string()));
    assert_eq!(command.reason, Some(ReasonEnum::CourseCode));
    assert!(command.is_well_formed());
}

#[test]
fn an_unmatched_file_is_left_to_a_manual_decision() {
    let mut config = Config::default();
    config.base_path = "/Users/me/School".to_string();
    config.current_term = "2A".to_string();
    config.courses = vec![Course { name: "MATH239".to_string(), description: "...".to_string() }];
    let monitor = Monitor::new(config);
    let file = File {
        name: "CS246_assignment1.pdf".to_string(),
        url: "https://learn.uwaterloo.ca/d2l/le/content/CS246_assignment.pdf".to_string(),
        path: "/Users/me/Downloads/CS246_assignment1.pdf".to_string(),
    };
    let command = monitor.plan(&file);
    assert_eq!(command.file_path, Some("/Users/me/Downloads/CS246_assignment1.pdf".to_string()));
    assert_eq!(command.command, CommandEnum::Indeterminate);
    assert_eq!(command.destination, None);
    assert_eq!(command.reason, None);
    assert!(command.is_well_formed());
}

#[test]
fn dispatch_appends_one_command_for_a_candidate() {
    let mut config = Config::default();
    config.base_path = "/School".to_string();
    config.current_term = "2A".to_string();
    config.courses = vec![Course { name: "CS246".to_string(), description: "...".to_string() }];
    let monitor = Monitor::new(config);
    let value = plist::Value::Array(vec![plist::Value::String(
        "https://learn.uwaterloo.ca/d2l/le/content/CS246_assignment.pdf".to_string(),
    )]);
    let mut bytes: Vec<u8> = Vec::new();
    value.to_writer_binary(&mut bytes).unwrap();
    let event = Notification {
        kind: EventKind::Create(CreateKind::File),
        path: Some("/Downloads/CS246_assignment1.pdf".to_string()),
    };
    match monitor.dispatch(&event, &Attribute::Present(bytes)) {
        Outcome::Append(command) => {
            assert_eq!(command.file_path, Some("/Downloads/CS246_assignment1.pdf".to_string()));
            assert_eq!(command.command, CommandEnum::Move);
            assert_eq!(command.destination, Some("/School/2A/CS246".to_string()));
            assert_eq!(command.reason, Some(ReasonEnum::CourseCode));
        }
        other => panic!("expected a command, got {:?}", other),
    }
}

#[test]
fn dispatch_appends_nothing_without_an_attribute() {
    let mut config = Config::default();
    config.courses = vec![Course { name: "CS246".to_string(), description: "...".to_string() }];
    let monitor = Monitor::new(config);
    let event = Notification {
        kind: EventKind::Create(CreateKind::File),
        path: Some("/Downloads/CS246_assignment1.pdf".to_string()),
    };
    assert!(matches!(monitor.dispatch(&event, &Attribute::Absent), Outcome::Ignored));
}

#[test]
fn a_dropped_change_does_not_stop_the_batch() {
    let mut config = Config::default();
    config.base_path = "/School".to_string();
    config.current_term = "3B".to_string();
    config.courses = vec![Course { name: "CS246".to_string(), description: "...".to_string() }];
    let monitor = Monitor::new(config);
    let mut good: Vec<u8> = Vec::new();
    plist::Value::Array(vec![plist::Value::String("https://example.org/x".to_string())])
        .to_writer_binary(&mut good)
        .unwrap();
    let batch = vec![
        Observation {
            event: Notification { kind: EventKind::Create(CreateKind::File), path: Some("/d/one.pdf".to_string()) },
            attribute: Attribute::Present(b"garbage".to_vec()),
        },
        Observation {
            event: Notification { kind: EventKind::Remove, path: Some("/d/gone.pdf".to_string()) },
            attribute: Attribute::Absent,
        },
        Observation {
            event: Notification { kind: EventKind::Modify(ModifyKind::Any), path: None },
            attribute: Attribute::Absent,
        },
        Observation {
            event: Notification { kind: EventKind::Modify(ModifyKind::Any), path: Some("/d/CS246 notes.pdf".to_string()) },
            attribute: Attribute::Present(good.clone()),
        },
        Observation {
            event: Notification { kind: EventKind::Create(CreateKind::File), path: Some("/d/other.pdf".to_string()) },
            attribute: Attribute::Present(good),
        },
        Observation {
            event: Notification { kind: EventKind::Create(CreateKind::File), path: Some("/d/locked.pdf".to_string()) },
            attribute: Attribute::Unreadable,
        },
    ];
    let outcomes = monitor.dispatch_batch(&batch);
    assert_eq!(outcomes.len(), 6);
    assert!(matches!(outcomes[0], Outcome::Dropped(NormalizeError::DecodeFailed)));
    assert!(matches!(outcomes[1], Outcome::Ignored));
    assert!(matches!(outcomes[2], Outcome::Dropped(NormalizeError::InvalidPath)));
    assert!(matches!(&outcomes[3], Outcome::Append(c) if c.command == CommandEnum::Move
        && c.destination == Some("/School/3B/CS246".to_string())
        && c.file_path == Some("/d/CS246 notes.pdf".to_string())));
    assert!(matches!(&outcomes[4], Outcome::Append(c) if c.command == CommandEnum::Indeterminate
        && c.destination.is_none() && c.reason.is_none()
        && c.file_path == Some("/d/other.pdf".to_string())));
    assert!(matches!(outcomes[5], Outcome::Dropped(NormalizeError::AttributeUnreadable)));
    assert!(monitor.dispatch_batch(&Vec::new()).is_empty());
}

#[test]
fn the_monitor_moves_between_its_states() {
    assert_eq!(step(MonitorState::Idle, MonitorSignal::WatchEstablished), MonitorState::Watching);
    assert_eq!(step(MonitorState::Idle, MonitorSignal::WatchFailed), MonitorState::Stopped);
    assert_eq!(step(MonitorState::Watching, MonitorSignal::BatchDelivered), MonitorState::Dispatching);
    assert_eq!(step(MonitorState::Dispatching, MonitorSignal::BatchHandled), MonitorState::Watching);
}

#[test]
fn a_signal_that_does_not_fit_changes_nothing() {
    let signals = [
        MonitorSignal::WatchEstablished,
        MonitorSignal::WatchFailed,
        MonitorSignal::BatchDelivered,
        MonitorSignal::BatchHandled,
    ];
    for signal in signals {
        assert_eq!(step(MonitorState::Stopped, signal), MonitorState::Stopped);
    }
    assert_eq!(step(MonitorState::Idle, MonitorSignal::BatchDelivered), MonitorState::Idle);
    assert_eq!(step(MonitorState::Idle, MonitorSignal::BatchHandled), MonitorState::Idle);
    assert_eq!(step(MonitorState::Watching, MonitorSignal::WatchFailed), MonitorState::Watching);
    assert_eq!(step(MonitorState::Watching, MonitorSignal::WatchEstablished), MonitorState::Watching);
    assert_eq!(step(MonitorState::Watching, MonitorSignal::BatchHandled), MonitorState::Watching);
    assert_eq!(step(MonitorState::Dispatching, MonitorSignal::WatchFailed), MonitorState::Dispatching);
    assert_eq!(step(MonitorState::Dispatching, MonitorSignal::BatchDelivered), MonitorState::Dispatching);
}
