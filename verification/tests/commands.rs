use nimbus::cli::{Commands, Nimbus};
use nimbus::command::{copy_text, Command, CommandEnum, ReasonEnum};

#[test]
fn a_move_names_the_file_and_the_place() {
    let command = Command::relocate("/d/a.pdf".to_string(), "/s/CS246".to_string(), ReasonEnum::Chatgpt);
    assert_eq!(command.file_path, Some("/d/a.pdf".to_string()));
    assert_eq!(command.command, CommandEnum::Move);
    assert_eq!(command.destination, Some("/s/CS246".to_string()));
    assert_eq!(command.reason, Some(ReasonEnum::Chatgpt));
    assert!(command.is_well_formed());
}

#[test]
fn an_indeterminate_command_names_the_file_only() {
    let command = Command::indeterminate("/d/a.pdf".to_string());
    assert_eq!(command.file_path, Some("/d/a.pdf".to_string()));
    assert_eq!(command.command, CommandEnum::Indeterminate);
    assert_eq!(command.destination, None);
    assert_eq!(command.reason, None);
    assert!(command.is_well_formed());
}

#[test]
fn commands_that_lack_a_part_are_not_well_formed() {
    let no_place = Command { file_path: Some("/d/a".to_string()), command: CommandEnum::Move, destination: None, reason: None };
    assert!(!no_place.is_well_formed());
    let no_file = Command { file_path: None, command: CommandEnum::Move, destination: Some("/s".to_string()), reason: None };
    assert!(!no_file.is_well_formed());
    let placed = Command { file_path: None, command: CommandEnum::Indeterminate, destination: Some("/s".to_string()), reason: None };
    assert!(!placed.is_well_formed());
    let reasoned = Command { file_path: None, command: CommandEnum::Indeterminate, destination: None, reason: Some(ReasonEnum::CourseCode) };
    assert!(!reasoned.is_well_formed());
    let skip = Command { file_path: None, command: CommandEnum::Skip, destination: None, reason: None };
    assert!(skip.is_well_formed());
}

#[test]
fn a_copy_holds_the_same() {
    let command = Command::relocate("/d/a.pdf".to_string(), "/s/CS246".to_string(), ReasonEnum::CourseCode);
    let copy = command.duplicate();
    assert_eq!(copy.file_path, command.file_path);
    assert_eq!(copy.command, command.command);
    assert_eq!(copy.destination, command.destination);
    assert_eq!(copy.reason, command.reason);
    let cloned = command.clone();
    assert_eq!(cloned.file_path, command.file_path);
    assert_eq!(copy_text(&None), None);
    assert_eq!(copy_text(&Some("x".to_string())), Some("x".to_string()));
}

#[test]
fn the_command_line_names_one_of_three_things() {
    let line = Nimbus { command: Commands::Review };
    assert_eq!(line.command, Commands::Review);
    assert_ne!(Commands::Config, Commands::Start);
}
