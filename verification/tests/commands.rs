use sams::args::{AskArgs, CloneArgs, GlobalArgs, InitArgs, JsonSchemaArgs, SyncArgs};
use sams::commands::ask::{
    ask, parse_input, prompt_for, AskAction, AskError, AskEvent, AskState, ParseError, Prompt,
};
use sams::commands::clone::clone;
use sams::commands::init::{
    default_config, git_outcome, init, init_git_repo, write_config, InitError,
};
use sams::commands::install::{
    failure_text, install, run_task, InstallAction, InstallEvent, InstallState, TaskError,
};
use sams::commands::link::{link, process_entry, walker as link_walker, Link};
use sams::commands::render::{render, walker as render_walker, Rendered};
use sams::commands::sync::{sync, Stage, SyncAction, SyncEvent, SyncState};
use sams::config::{
    default_answer_file, default_data_type, default_exclude, default_link_suffix,
    default_parameters, default_respect_gitignore, default_shell, default_tasks,
    default_template_suffix, default_workdir, Config, DataType, Parameter, Task, Value,
};
use sams::context::{read_context, AnswerMap};
use sams::template::TemplateError;
use sams::walk::Found;

fn found(path: &str, is_dir: bool) -> Found {
    Found { path: path.to_string(), is_dir }
}

fn global() -> GlobalArgs {
    GlobalArgs::default()
}

fn questions() -> Config {
    let mut config = Config::default();
    config.parameters = vec![
        Parameter::Select {
            name: "age".to_string(),
            description: Some("Select your age".to_string()),
            options: vec![Value::Integer(18), Value::Integer(25), Value::Integer(30)],
        },
        Parameter::Text {
            name: "name".to_string(),
            description: None,
            default: Some("me".to_string()),
            placeholder: Some("your name".to_string()),
            data_type: DataType::Str,
        },
        Parameter::Text {
            name: "count".to_string(),
            description: Some("How many".to_string()),
            default: None,
            placeholder: None,
            data_type: DataType::Int,
        },
    ];
    config
}

#[test]
fn test_parse_input() {
    assert_eq!(parse_input("42", DataType::Int).unwrap(), Value::Integer(42));
    assert_eq!(
        parse_input("1.23", DataType::Float).unwrap(),
        Value::Float(1.23f64.to_string())
    );
    assert_eq!(parse_input("hello", DataType::Str).unwrap(), Value::String("hello".into()));
}

#[test]
fn text_that_cannot_be_read_is_an_error_with_the_text() {
    let error = parse_input("4x2", DataType::Int).unwrap_err();
    assert_eq!(error, ParseError { input: "4x2".to_string(), data_type: DataType::Int });
    assert_eq!(error.message(), "Failed to parse '4x2' as integer");
    let error = parse_input("one", DataType::Float).unwrap_err();
    assert_eq!(error, ParseError { input: "one".to_string(), data_type: DataType::Float });
    assert_eq!(error.message(), "Failed to parse 'one' as float");
    assert!(parse_input("", DataType::Int).is_err());
    assert!(parse_input("", DataType::Float).is_err());
    assert_eq!(parse_input("", DataType::Str), Ok(Value::String(String::new())));
    assert_eq!(parse_input(" 42", DataType::Str), Ok(Value::String(" 42".to_string())));
    assert_eq!(parse_input("-17", DataType::Int), Ok(Value::Integer(-17)));
    assert_eq!(parse_input("1e3", DataType::Float), Ok(Value::Float("1e3".to_string())));
}

#[test]
fn the_usual_configuration() {
    let config = Config::default();
    assert_eq!(config.answer_file, ".sams-answers.toml");
    assert!(config.exclude.is_empty());
    assert_eq!(config.template_suffix, "tpl");
    assert_eq!(config.link_suffix, "ln");
    assert!(config.respect_gitignore);
    assert!(config.parameters.is_empty());
    assert!(config.tasks.is_empty());
    assert_eq!(default_answer_file(), ".sams-answers.toml");
    assert!(default_exclude().is_empty());
    assert_eq!(default_template_suffix(), "tpl");
    assert_eq!(default_link_suffix(), "ln");
    assert!(default_respect_gitignore());
    assert!(default_parameters().is_empty());
    assert!(default_tasks().is_empty());
    assert_eq!(default_data_type(), DataType::Str);
    assert_eq!(default_workdir(), ".");
    assert_eq!(default_shell(), "sh");
    let task = Task::new("setup.sh".to_string());
    assert_eq!(task.script, "setup.sh");
    assert_eq!(task.name, None);
    assert_eq!(task.workdir, ".");
    assert_eq!(task.shell, "sh");
    assert_eq!(task.label(), "setup.sh");
}

#[test]
fn the_usual_arguments() {
    assert_eq!(GlobalArgs::default().config_path, "sams.toml");
    assert_eq!(GlobalArgs::default().root, ".");
    assert!(!SyncArgs::default().ask);
    assert!(!AskArgs::default().force);
    assert_eq!(JsonSchemaArgs::default().file, "sams.schema.json");
    let init = InitArgs::default();
    assert_eq!((init.dir.as_str(), init.file.as_str(), init.no_git, init.force), (".", "sams.toml", false, false));
    let clone = CloneArgs::new("https://example.org/dots.git".to_string());
    assert_eq!(clone.url, "https://example.org/dots.git");
    assert_eq!(clone.dest, "~/.config");
}

#[test]
fn prompts_show_the_parameter() {
    let config = questions();
    assert_eq!(
        prompt_for(&config.parameters[0]),
        Prompt::Select {
            message: "Select your age".to_string(),
            options: vec!["18".to_string(), "25".to_string(), "30".to_string()],
        }
    );
    assert_eq!(
        prompt_for(&config.parameters[1]),
        Prompt::Text {
            message: "name".to_string(),
            default: Some("me".to_string()),
            placeholder: Some("your name".to_string()),
        }
    );
    assert_eq!(config.parameters[0].name(), "age");
    assert_eq!(config.parameters[0].message(), "Select your age");
    assert_eq!(config.parameters[1].message(), "name");
}

#[test]
fn asking_is_skipped_when_the_answers_are_there() {
    let config = questions();
    let (state, action) = ask(
        &AskArgs { force: false },
        &global(),
        &config,
        AskState::Idle,
        AskEvent::Start { answer_file_exists: true },
    );
    assert!(matches!(state, AskState::Done));
    assert!(matches!(action, AskAction::Skip));
}

#[test]
fn asking_goes_through_the_parameters_in_order() {
    let config = questions();
    let args = AskArgs { force: true };
    let root = GlobalArgs { config_path: "sams.toml".to_string(), root: "/home/me".to_string() };
    let (state, action) =
        ask(&args, &root, &config, AskState::Idle, AskEvent::Start { answer_file_exists: true });
    match action {
        AskAction::Prompt(prompt) => assert_eq!(prompt, prompt_for(&config.parameters[0])),
        other => panic!("unexpected {:?}", other),
    }
    let (state, action) = ask(&args, &root, &config, state, AskEvent::Chosen(1));
    match action {
        AskAction::Prompt(prompt) => assert_eq!(prompt, prompt_for(&config.parameters[1])),
        other => panic!("unexpected {:?}", other),
    }
    let (state, action) = ask(&args, &root, &config, state, AskEvent::Entered("app".to_string()));
    match action {
        AskAction::Prompt(prompt) => assert_eq!(prompt, prompt_for(&config.parameters[2])),
        other => panic!("unexpected {:?}", other),
    }
    let (state, action) = ask(&args, &root, &config, state, AskEvent::Entered("-3".to_string()));
    assert!(matches!(state, AskState::Writing));
    match action {
        AskAction::Write { path, answers } => {
            assert_eq!(path, "/home/me/.sams-answers.toml");
            assert_eq!(answers.len(), 3);
            assert_eq!(answers.get("age"), Some(&Value::Integer(25)));
            assert_eq!(answers.get("name"), Some(&Value::String("app".to_string())));
            assert_eq!(answers.get("count"), Some(&Value::Integer(-3)));
        }
        other => panic!("unexpected {:?}", other),
    }
    let (state, action) = ask(&args, &root, &config, state, AskEvent::Written);
    assert!(matches!(state, AskState::Done));
    assert!(matches!(action, AskAction::Finish));
}

#[test]
fn asking_without_parameters_writes_no_answers() {
    let (state, action) = ask(
        &AskArgs { force: false },
        &global(),
        &Config::default(),
        AskState::Idle,
        AskEvent::Start { answer_file_exists: false },
    );
    assert!(matches!(state, AskState::Writing));
    match action {
        AskAction::Write { path, answers } => {
            assert_eq!(path, "./.sams-answers.toml");
            assert_eq!(answers.len(), 0);
        }
        other => panic!("unexpected {:?}", other),
    }
}

#[test]
fn asking_ends_on_text_that_cannot_be_read() {
    let mut config = Config::default();
    config.parameters = vec![Parameter::Text {
        name: "count".to_string(),
        description: None,
        default: None,
        placeholder: None,
        data_type: DataType::Int,
    }];
    let args = AskArgs::default();
    let (state, _) =
        ask(&args, &global(), &config, AskState::Idle, AskEvent::Start { answer_file_exists: false });
    let (state, action) = ask(&args, &global(), &config, state, AskEvent::Entered("many".to_string()));
    assert!(matches!(state, AskState::Failed));
    match action {
        AskAction::Fail(error) => assert_eq!(
            error,
            AskError::Parse(ParseError { input: "many".to_string(), data_type: DataType::Int })
        ),
        other => panic!("unexpected {:?}", other),
    }
}

#[test]
fn asking_ends_on_what_does_not_fit() {
    let config = questions();
    let args = AskArgs::default();
    let start = || ask(&args, &global(), &config, AskState::Idle, AskEvent::Start { answer_file_exists: false }).0;
    for event in [AskEvent::Chosen(3), AskEvent::Entered("x".to_string()), AskEvent::Written, AskEvent::Start { answer_file_exists: false }] {
        let (state, action) = ask(&args, &global(), &config, start(), event);
        assert!(matches!(state, AskState::Failed));
        assert!(matches!(action, AskAction::Fail(AskError::Unexpected)));
    }
    let (state, action) = ask(&args, &global(), &config, start(), AskEvent::Failure("cancelled".to_string()));
    assert!(matches!(state, AskState::Failed));
    match action {
        AskAction::Fail(error) => assert_eq!(error, AskError::Prompt("cancelled".to_string())),
        other => panic!("unexpected {:?}", other),
    }
    let (state, action) = ask(&args, &global(), &config, AskState::Writing, AskEvent::Failure("disk full".to_string()));
    assert!(matches!(state, AskState::Failed));
    match action {
        AskAction::Fail(error) => assert_eq!(error, AskError::Write("disk full".to_string())),
        other => panic!("unexpected {:?}", other),
    }
    let (state, action) = ask(&args, &global(), &config, AskState::Done, AskEvent::Written);
    assert!(matches!(state, AskState::Failed));
    assert!(matches!(action, AskAction::Fail(AskError::Unexpected)));
}

#[test]
fn a_name_asked_twice_keeps_the_last_answer() {
    let mut config = Config::default();
    let text = |name: &str| Parameter::Text {
        name: name.to_string(),
        description: None,
        default: None,
        placeholder: None,
        data_type: DataType::Str,
    };
    config.parameters = vec![text("x"), text("x")];
    let args = AskArgs::default();
    let (state, _) = ask(&args, &global(), &config, AskState::Idle, AskEvent::Start { answer_file_exists: false });
    let (state, _) = ask(&args, &global(), &config, state, AskEvent::Entered("first".to_string()));
    let (_, action) = ask(&args, &global(), &config, state, AskEvent::Entered("second".to_string()));
    match action {
        AskAction::Write { answers, .. } => {
            assert_eq!(answers.len(), 1);
            assert_eq!(answers.get("x"), Some(&Value::String("second".to_string())));
        }
        other => panic!("unexpected {:?}", other),
    }
}

fn two_tasks() -> Config {
    let mut config = Config::default();
    config.tasks = vec![
        Task {
            script: "first.sh".to_string(),
            name: Some("first".to_string()),
            workdir: "scripts".to_string(),
            shell: "bash".to_string(),
        },
        Task::new("second.sh".to_string()),
    ];
    config
}

#[test]
fn tasks_run_in_order() {
    let config = two_tasks();
    let root = GlobalArgs { config_path: "sams.toml".to_string(), root: "/dots".to_string() };
    let (state, action) = install(&config, &root, InstallState::Idle, InstallEvent::Start);
    assert_eq!(state, InstallState::Running { index: 0 });
    match action {
        InstallAction::Run(command) => {
            assert_eq!(command.shell, "bash");
            assert_eq!(command.script, "first.sh");
            assert_eq!(command.workdir, "/dots/scripts");
            assert_eq!(command.label, "first");
            assert_eq!((command.position, command.total), (0, 2));
            assert_eq!(command, run_task(&config.tasks[0], "/dots", 0, 2));
        }
        other => panic!("unexpected {:?}", other),
    }
    let ended = InstallEvent::Exited { success: true, status: "exit status: 0".to_string(), stderr: String::new() };
    let (state, action) = install(&config, &root, state, ended);
    assert_eq!(state, InstallState::Running { index: 1 });
    match action {
        InstallAction::Run(command) => {
            assert_eq!(command.shell, "sh");
            assert_eq!(command.script, "second.sh");
            assert_eq!(command.workdir, "/dots/.");
            assert_eq!(command.label, "second.sh");
            assert_eq!((command.position, command.total), (1, 2));
        }
        other => panic!("unexpected {:?}", other),
    }
    let ended = InstallEvent::Exited { success: true, status: "exit status: 0".to_string(), stderr: String::new() };
    let (state, action) = install(&config, &root, state, ended);
    assert_eq!(state, InstallState::Done);
    assert_eq!(action, InstallAction::Finish);
    let (state, action) = install(&config, &root, state, InstallEvent::Start);
    assert_eq!(state, InstallState::Done);
    assert_eq!(action, InstallAction::Nothing);
}

#[test]
fn a_failed_task_ends_installing() {
    let config = two_tasks();
    let (state, _) = install(&config, &global(), InstallState::Idle, InstallEvent::Start);
    let ended = InstallEvent::Exited {
        success: false,
        status: "exit status: 2".to_string(),
        stderr: "first.sh: line 3: nope: command not found\n".to_string(),
    };
    let (state, action) = install(&config, &global(), state, ended);
    assert_eq!(state, InstallState::Failed { index: 0 });
    let error = TaskError {
        task: "first".to_string(),
        cause: "Command failed with status: exit status: 2\nfirst.sh: line 3: nope: command not found\n"
            .to_string(),
    };
    assert_eq!(
        error.message(),
        "Failed to execute task: first: Command failed with status: exit status: 2\nfirst.sh: line 3: nope: command not found\n"
    );
    assert_eq!(action, InstallAction::Fail(error));
    for event in [
        InstallEvent::Start,
        InstallEvent::Exited { success: true, status: String::new(), stderr: String::new() },
        InstallEvent::Broken { cause: String::new() },
    ] {
        let (next, action) = install(&config, &global(), state, event);
        assert_eq!(next, InstallState::Failed { index: 0 });
        assert_eq!(action, InstallAction::Nothing);
    }
}

#[test]
fn what_a_failed_task_wrote_is_told() {
    assert_eq!(failure_text("exit status: 1", ""), "Command failed with status: exit status: 1");
    assert_eq!(
        failure_text("exit status: 1", "boom"),
        "Command failed with status: exit status: 1\nboom"
    );
    assert_eq!(
        failure_text("signal: 9 (SIGKILL)", "a\nb\n"),
        "Command failed with status: signal: 9 (SIGKILL)\na\nb\n"
    );
    assert_eq!(failure_text("", " "), "Command failed with status: \n ");
}

#[test]
fn what_a_task_wrote_does_not_matter_when_it_ended_well() {
    let config = two_tasks();
    let ended = InstallEvent::Exited {
        success: true,
        status: "exit status: 0".to_string(),
        stderr: "warning: deprecated\n".to_string(),
    };
    let (state, action) = install(&config, &global(), InstallState::Running { index: 0 }, ended);
    assert_eq!(state, InstallState::Running { index: 1 });
    assert!(matches!(action, InstallAction::Run(_)));
}

#[test]
fn a_task_that_cannot_be_started_ends_installing() {
    let config = two_tasks();
    let state = InstallState::Running { index: 1 };
    let broken = InstallEvent::Broken { cause: "No such file or directory".to_string() };
    let (state, action) = install(&config, &global(), state, broken);
    assert_eq!(state, InstallState::Failed { index: 1 });
    assert_eq!(
        action,
        InstallAction::Fail(TaskError {
            task: "second.sh".to_string(),
            cause: "Failed to start command: No such file or directory".to_string(),
        })
    );
}

#[test]
fn installing_nothing_is_over_at_once() {
    let (state, action) =
        install(&Config::default(), &global(), InstallState::Idle, InstallEvent::Start);
    assert_eq!(state, InstallState::Done);
    assert_eq!(action, InstallAction::Finish);
    let stale = InstallState::Running { index: 5 };
    let ended = InstallEvent::Exited { success: true, status: String::new(), stderr: String::new() };
    let (state, action) = install(&Config::default(), &global(), stale, ended);
    assert_eq!(state, stale);
    assert_eq!(action, InstallAction::Nothing);
}

#[test]
fn a_sync_runs_the_stages_in_order() {
    let args = SyncArgs { ask: true };
    let run = |stage| SyncAction::Run { stage, ask: AskArgs { force: false } };
    let (state, action) = sync(&args, SyncState::Idle, SyncEvent::Start);
    assert_eq!((&state, action), (&SyncState::Running(Stage::Asking), run(Stage::Asking)));
    let (state, action) = sync(&args, state, SyncEvent::Finished);
    assert_eq!((&state, action), (&SyncState::Running(Stage::Linking), run(Stage::Linking)));
    let (state, action) = sync(&args, state, SyncEvent::Finished);
    assert_eq!((&state, action), (&SyncState::Running(Stage::Rendering), run(Stage::Rendering)));
    let (state, action) = sync(&args, state, SyncEvent::Finished);
    assert_eq!((&state, action), (&SyncState::Running(Stage::Installing), run(Stage::Installing)));
    let (state, action) = sync(&args, state, SyncEvent::Finished);
    assert_eq!((&state, action), (&SyncState::Done, SyncAction::Finish));
    let (state, action) = sync(&args, state, SyncEvent::Finished);
    assert_eq!((&state, action), (&SyncState::Done, SyncAction::Nothing));
}

#[test]
fn a_failed_stage_ends_the_sync() {
    let args = SyncArgs::default();
    for stage in [Stage::Asking, Stage::Linking, Stage::Rendering, Stage::Installing] {
        let (state, action) =
            sync(&args, SyncState::Running(stage), SyncEvent::Failure("broken".to_string()));
        assert_eq!(state, SyncState::Failed { stage, cause: "broken".to_string() });
        assert_eq!(action, SyncAction::Abort);
        for event in [SyncEvent::Start, SyncEvent::Finished, SyncEvent::Failure("x".to_string())] {
            let (next, action) =
                sync(&args, SyncState::Failed { stage, cause: "broken".to_string() }, event);
            assert_eq!(next, SyncState::Failed { stage, cause: "broken".to_string() });
            assert_eq!(action, SyncAction::Nothing);
        }
    }
    assert_eq!(Stage::Asking.next(), Some(Stage::Linking));
    assert_eq!(Stage::Installing.next(), None);
    assert_eq!(Stage::Rendering.name(), "render");
}

#[test]
fn two_tasks_the_first_fails_the_second_never_starts() {
    let config = two_tasks();
    let args = SyncArgs::default();
    let (state, _) = sync(&args, SyncState::Running(Stage::Rendering), SyncEvent::Finished);
    assert_eq!(state, SyncState::Running(Stage::Installing));
    let (tasks, _) = install(&config, &global(), InstallState::Idle, InstallEvent::Start);
    let ended = InstallEvent::Exited {
        success: false,
        status: "exit status: 2".to_string(),
        stderr: String::new(),
    };
    let (tasks, action) = install(&config, &global(), tasks, ended);
    let error = match action {
        InstallAction::Fail(error) => error,
        other => panic!("unexpected {:?}", other),
    };
    assert_eq!(error.task, "first");
    assert_eq!(error.cause, "Command failed with status: exit status: 2");
    let ended = InstallEvent::Exited { success: true, status: String::new(), stderr: String::new() };
    assert_eq!(install(&config, &global(), tasks, ended).1, InstallAction::Nothing);
    let (state, action) = sync(&args, state, SyncEvent::Failure(error.message()));
    assert_eq!(action, SyncAction::Abort);
    assert_eq!(
        state,
        SyncState::Failed { stage: Stage::Installing, cause: error.message() }
    );
}

#[test]
fn a_template_file_is_rendered_beside_itself() {
    let mut config = Config::default();
    config.template_suffix = "tpl".to_string();
    let walker = render_walker(&config, &global()).unwrap();
    assert!(walker.admits("a.txt.tpl", false));
    let mut answers = AnswerMap::new();
    answers.insert("x".to_string(), Value::String("v".to_string()));
    assert_eq!(
        render("./a.txt.tpl", "{{x}}", &answers),
        Ok(Rendered { destination: "./a.txt".to_string(), text: "v".to_string() })
    );
}

#[test]
fn test_template_rendering_and_exclusion() {
    let mut config = Config::default();
    config.template_suffix = "tera".to_string();
    config.answer_file = "answers.toml".to_string();
    config.exclude = vec!["excluded_dir/".to_string()];
    let answers = read_context(r#"key = "testvalue""#).unwrap();
    let root = GlobalArgs { config_path: "config.toml".to_string(), root: "/tmp/x".to_string() };

    let walker = render_walker(&config, &root).unwrap();
    let entries = vec![
        found("config.toml", false),
        found("answers.toml", false),
        found("test1.txt.tera", false),
        found("test2.txt", false),
        found("excluded_dir", true),
        found("excluded_dir/file.tera", false),
    ];
    assert_eq!(walker.select(&entries), vec!["/tmp/x/test1.txt.tera".to_string()]);

    let rendered = render("/tmp/x/test1.txt.tera", "key={{ key }}", &answers).unwrap();
    assert_eq!(rendered.destination, "/tmp/x/test1.txt");
    assert_eq!(rendered.text, "key=testvalue");
    assert!(!walker.admits("test2.txt", false));
    assert!(
        !walker.admits("excluded_dir/file.tera", false),
        "Excluded directory should not be processed"
    );
    assert!(!walker.admits("excluded_dir", true));
}

#[test]
fn test_error_handling() {
    let result = read_context("invalid = toml here");
    assert!(result.is_err(), "Should error on invalid TOML");

    let answers = read_context(r#"key = "value""#).unwrap();
    let result = render("invalid.tera", "{{ invalid syntax }}", &answers);
    assert!(result.is_err(), "Should error on invalid template syntax");
}

#[test]
fn a_link_file_is_linked_from_its_rendered_path() {
    let mut answers = AnswerMap::new();
    answers.insert("name".to_string(), Value::String("app".to_string()));
    let expected = Link {
        source: "{{name}}.conf.ln".to_string(),
        destination: "app.conf".to_string(),
    };
    assert_eq!(process_entry("{{name}}.conf.ln", &answers), Ok(expected));
    assert_eq!(
        process_entry("{{name}}.conf.ln", &answers),
        process_entry("{{name}}.conf.ln", &answers)
    );
    assert_eq!(
        process_entry("{{other}}.conf.ln", &answers),
        Err(TemplateError::Undefined { name: "other".to_string() })
    );
}

#[test]
fn links_are_planned_until_one_fails() {
    let mut config = Config::default();
    config.link_suffix = "ln".to_string();
    let walker = link_walker(&config, &global()).unwrap();
    let mut answers = AnswerMap::new();
    answers.insert("name".to_string(), Value::String("app".to_string()));
    answers.insert("home".to_string(), Value::String("/home/me".to_string()));
    let entries = vec![
        found("{{name}}.conf.ln", false),
        found("plain.txt", false),
        found("sub", true),
        found("sub/{{ home }}.ln", false),
        found(".git/x.ln", false),
    ];
    let plan = link(&walker, &answers, &entries);
    assert_eq!(plan.failure, None);
    assert_eq!(
        plan.links,
        vec![
            Link { source: "./{{name}}.conf.ln".to_string(), destination: "./app.conf".to_string() },
            Link { source: "./sub/{{ home }}.ln".to_string(), destination: "./sub//home/me".to_string() },
        ]
    );

    let entries = vec![
        found("a.ln", false),
        found("{{missing}}.ln", false),
        found("b.ln", false),
    ];
    let plan = link(&walker, &answers, &entries);
    assert_eq!(plan.links, vec![Link { source: "./a.ln".to_string(), destination: "./a".to_string() }]);
    let failure = plan.failure.unwrap();
    assert_eq!(failure.source, "./{{missing}}.ln");
    assert_eq!(failure.error, TemplateError::Undefined { name: "missing".to_string() });
}

#[test]
fn test_init_creates_config_and_git_repo_based_on_no_git() {
    let cases = vec![
        (true, false), // no_git=true: expect no .git
        (false, true), // no_git=false: expect .git
    ];

    for (no_git, expect_git) in cases {
        let args = InitArgs {
            dir: "/tmp/dir".to_string(),
            file: "config.toml".to_string(),
            no_git,
            force: false,
        };

        let plan = init(&args);
        let result = write_config(&plan.config_path, false, plan.force);
        assert!(result.is_ok(), "no_git={} should succeed", no_git);
        assert_eq!(plan.config_path, "/tmp/dir/config.toml");
        assert_eq!(plan.config, default_config());

        assert_eq!(
            plan.git_dir.is_some() && init_git_repo(false),
            expect_git,
            "git repo existence check failed for no_git={}",
            no_git
        );
        if expect_git {
            assert_eq!(plan.git_dir, Some("/tmp/dir/.git".to_string()));
        }
    }
}

#[test]
fn test_force_flag_behavior() {
    let cases = vec![
        (false, false, false), // force=false: expect error and no overwrite
        (true, true, true),    // force=true: expect success and overwrite
    ];

    for (force, expect_success, _expect_content_changed) in cases {
        let args = InitArgs {
            dir: "/tmp/dir".to_string(),
            file: "config.toml".to_string(),
            no_git: true,
            force,
        };
        let plan = init(&args);
        let result = write_config(&plan.config_path, true, plan.force);
        assert_eq!(
            result.is_ok(),
            expect_success,
            "force={} should result in success={}",
            force,
            expect_success
        );
    }
}

#[test]
fn initializing() {
    let config = default_config();
    assert_eq!(config.parameters.len(), 1);
    assert_eq!(
        config.parameters[0],
        Parameter::Text {
            name: "user".to_string(),
            description: Some("Enter username".to_string()),
            default: None,
            placeholder: Some("username".to_string()),
            data_type: DataType::Str,
        }
    );
    assert_eq!(config.answer_file, ".sams-answers.toml");
    assert!(init_git_repo(false));
    assert!(!init_git_repo(true));
    assert_eq!(git_outcome(true), Ok(()));
    assert_eq!(git_outcome(false), Err(InitError::Git));
    assert_eq!(InitError::Git.message(), "Failed to initialize Git repository");
    let error = write_config("dir/sams.toml", true, false).unwrap_err();
    assert_eq!(error, InitError::AlreadyExists { path: "dir/sams.toml".to_string() });
    assert_eq!(error.message(), "File already exists: dir/sams.toml");
    assert_eq!(write_config("dir/sams.toml", false, false), Ok(()));
    assert_eq!(write_config("dir/sams.toml", true, true), Ok(()));
}

#[test]
fn cloning() {
    let args = CloneArgs { url: "https://example.org/dots.git".to_string(), dest: "/home/me/dots".to_string() };
    let plan = clone(&args, &global());
    assert_eq!(plan.git, vec!["clone", "https://example.org/dots.git", "/home/me/dots"]);
    assert!(plan.sync.ask);
    assert_eq!(plan.global.root, "/home/me/dots");
    assert_eq!(plan.global.config_path, "sams.toml");
}
