use explain::arg_parse::arg_parse::{parse_args, parse_section_arg, ExplainArgs};
use explain::man_parse::man_section::ManSection;

fn strings(args: &[&str]) -> Vec<String> {
    args.iter().map(|arg| arg.to_string()).collect()
}

#[test]
fn section_arguments_name_a_section() {
    assert_eq!(parse_section_arg("-s=name"), Some(ManSection::Name));
    assert_eq!(
        parse_section_arg("--section=SYNOPSIS"),
        Some(ManSection::Synopsis)
    );
    assert_eq!(parse_section_arg("-s=bugs"), Some(ManSection::Unknown));
    assert_eq!(parse_section_arg("-s="), Some(ManSection::Unknown));
    assert_eq!(parse_section_arg("-s"), None);
    assert_eq!(parse_section_arg("--section"), None);
    assert_eq!(parse_section_arg("name"), None);
}

#[test]
fn options_come_before_the_command() {
    let args = parse_args(strings(&["explain", "-d", "-s=name", "ls", "-l", "-d"]));

    assert!(args.debug);
    assert!(!args.help);
    assert_eq!(args.section, Some(ManSection::Name));
    assert_eq!(args.command_name, "ls");
    assert_eq!(args.command_args, strings(&["-l", "-d"]));
}

#[test]
fn long_options_are_known() {
    let args = parse_args(strings(&[
        "explain",
        "--help",
        "--debug",
        "--section=options",
        "--other",
        "tar",
    ]));

    assert!(args.debug);
    assert!(args.help);
    assert_eq!(args.section, Some(ManSection::Options));
    assert_eq!(args.command_name, "tar");
    assert!(args.command_args.is_empty());
}

#[test]
fn later_section_replaces_earlier() {
    let args = parse_args(strings(&["explain", "-s=name", "-s=options", "ls"]));

    assert_eq!(args.section, Some(ManSection::Options));
}

#[test]
fn without_a_command_the_name_is_empty() {
    let args = parse_args(strings(&["explain", "-h"]));
    assert!(args.help);
    assert_eq!(args.command_name, "");
    assert!(args.command_args.is_empty());

    let args = parse_args(strings(&["explain"]));
    assert!(!args.help);
    assert_eq!(args.command_name, "");

    let args = parse_args(Vec::new());
    assert_eq!(args.command_name, "");
}

#[test]
fn default_arguments_ask_for_nothing() {
    let args = ExplainArgs::default();

    assert_eq!(args.command_name, "");
    assert!(args.command_args.is_empty());
    assert!(!args.debug);
    assert!(!args.help);
    assert_eq!(args.section, None);
}
