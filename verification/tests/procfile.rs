use procdash::procfile::{parse, parse_nonempty, ConfigError};

#[test]
fn one_process() {
    let procfile = "web: node a.js --option-1 --option-2";
    let parsed = parse(procfile).unwrap();

    let process = parsed.get(0).unwrap();

    assert_eq!("node", process.command);
    assert_eq!(vec!["a.js", "--option-1", "--option-2"], process.options)
}

#[test]
fn multiple_process() {
    let procfile = "\
web: py b.py --my-option
worker: gcc c.c
        ";

    let parsed = parse(procfile).unwrap();

    let web = parsed.get(0).unwrap();
    let worker = parsed.get(1).unwrap();

    assert_eq!("py", web.command);
    assert_eq!("gcc", worker.command);
    assert_eq!(vec!["b.py", "--my-option"], web.options);
    assert_eq!(vec!["c.c"], worker.options);
}

#[test]
fn no_process() {
    let procfile = "";
    let parsed = parse(procfile).unwrap();

    assert!(parsed.is_empty());
}

#[test]
fn invalid_process() {
    let procfile = "hedhehiidhodhidhiodiedhidwhio";
    let parsed = parse(procfile).unwrap();

    assert!(parsed.is_empty());
}

#[test]
fn test_display() {
    let procfile = "web: node index.mjs --verbose";
    let parsed = parse(procfile).unwrap();
    let web_process = parsed.get(0).unwrap();

    assert_eq!("node index.mjs --verbose", web_process.to_string());
}

#[test]
fn parses_names_in_order() {
    let parsed = parse("worker: gcc c.c\nweb: py b.py --x").unwrap();
    assert_eq!(2, parsed.len());
    assert_eq!("worker", parsed[0].name);
    assert_eq!("web", parsed[1].name);
}

#[test]
fn name_allows_digits_and_underscore() {
    let parsed = parse("web_2: node a.js").unwrap();
    assert_eq!(1, parsed.len());
    assert_eq!("web_2", parsed[0].name);
}

#[test]
fn line_without_tail_is_skipped() {
    assert!(parse("web:").unwrap().is_empty());
}

#[test]
fn line_with_leading_space_is_skipped() {
    assert!(parse(" web: node a.js").unwrap().is_empty());
}

#[test]
fn blank_tail_gives_empty_command() {
    let parsed = parse("web:   ").unwrap();
    assert_eq!(1, parsed.len());
    assert_eq!("", parsed[0].command);
    assert!(parsed[0].options.is_empty());
}

#[test]
fn first_colon_delimits() {
    let parsed = parse("a:b: x").unwrap();
    assert_eq!(1, parsed.len());
    assert_eq!("a", parsed[0].name);
    assert_eq!("b:", parsed[0].command);
    assert_eq!(vec!["x"], parsed[0].options);
}

#[test]
fn repeated_spaces_give_empty_tokens() {
    let parsed = parse("web: node  a.js").unwrap();
    assert_eq!("node", parsed[0].command);
    assert_eq!(vec!["", "a.js"], parsed[0].options);
}

#[test]
fn unicode_whitespace_is_trimmed() {
    let parsed = parse("web: node\u{a0}").unwrap();
    assert_eq!(1, parsed.len());
    assert_eq!("node", parsed[0].command);
    assert!(parsed[0].options.is_empty());
    let parsed = parse("web:\u{3000}node a.js\u{2028}").unwrap();
    assert_eq!("node", parsed[0].command);
    assert_eq!(vec!["a.js"], parsed[0].options);
}

#[test]
fn carriage_return_is_trimmed() {
    let parsed = parse("web: node a.js\r\nworker: gcc c.c").unwrap();
    assert_eq!(2, parsed.len());
    assert_eq!(vec!["a.js"], parsed[0].options);
}

#[test]
fn display_without_options_has_trailing_space() {
    let parsed = parse("web: node").unwrap();
    assert_eq!("node ", parsed[0].to_string());
}

#[test]
fn display_round_trip() {
    let line = "web: node a.js --flag";
    let parsed = parse(line).unwrap();
    assert_eq!("node a.js --flag", parsed[0].to_string());
}

#[test]
fn nonempty_required() {
    assert_eq!(Err(ConfigError::NoProcesses), parse_nonempty("").map(|v| v.len()));
    assert_eq!(
        Err(ConfigError::NoProcesses),
        parse_nonempty("not a declaration").map(|v| v.len())
    );
    assert_eq!(Ok(1), parse_nonempty("web: node a.js").map(|v| v.len()));
}
