use self_esp::cli::commands::{
    upload_target, Command, Flash, Load, Run, TargetError, UploadTarget, Watch,
};
use self_esp::hermes::commands::Command as HermesCommand;
use self_esp::hermes::configure::Configure;

fn strings(v: &[&str]) -> Vec<String> {
    v.iter().map(|s| s.to_string()).collect()
}

fn target(run: Run) -> Result<UploadTarget, TargetError> {
    match run {
        Run::Load(t) | Run::Watch(t) => t,
        _ => panic!("expected a load or watch run"),
    }
}

#[test]
fn known_command_names() {
    assert!(Command::is_known("flash"));
    assert!(Command::is_known("load"));
    assert!(!Command::is_known("watch"));
    assert!(!Command::is_known("Flash"));
    assert!(HermesCommand::is_known("watch"));
    assert!(HermesCommand::is_known("configure"));
    assert!(!HermesCommand::is_known("monitor"));
}

#[test]
fn cmd_from_str_picks_the_command() {
    assert!(matches!(Command::cmd_from_str("flash", vec![]), Command::Flash(_)));
    assert!(matches!(Command::cmd_from_str("load", vec![]), Command::Load(_)));
    assert!(matches!(HermesCommand::cmd_from_str("flash", vec![]), HermesCommand::Flash(_)));
    assert!(matches!(HermesCommand::cmd_from_str("load", vec![]), HermesCommand::Load(_)));
    assert!(matches!(HermesCommand::cmd_from_str("watch", vec![]), HermesCommand::Watch(_)));
    assert!(matches!(
        HermesCommand::cmd_from_str("configure", vec![]),
        HermesCommand::Configure(_)
    ));
}

#[test]
fn from_args_skips_program_and_command() {
    assert!(Command::from_args(strings(&["cli"])).is_none());
    assert!(Command::from_args(vec![]).is_none());
    let c = Command::from_args(strings(&["cli", "load", "main.ego", "http://10.0.0.2"])).unwrap();
    match target(c.exec()) {
        Ok(t) => {
            assert_eq!(t.path, "main.ego");
            assert_eq!(t.module_name, "main.ego");
            assert_eq!(t.host, "http://10.0.0.2");
        },
        Err(_) => panic!("expected a target"),
    }
    let c = HermesCommand::from_args(strings(&["hermes", "watch", "src/app.ego", "h"])).unwrap();
    match target(c.exec()) {
        Ok(t) => {
            assert_eq!(t.path, "src/app.ego");
            assert_eq!(t.module_name, "app.ego");
            assert_eq!(t.host, "h");
        },
        Err(_) => panic!("expected a target"),
    }
}

#[test]
fn exec_decides_the_run() {
    assert!(matches!(Command::Flash(Flash::new(vec![])).exec(), Run::Flash));
    assert!(matches!(
        HermesCommand::Configure(Configure::new(vec![])).exec(),
        Run::Configure
    ));
    assert!(matches!(
        target(Command::Load(Load::new(strings(&["only-a-path"]))).exec()),
        Err(TargetError::MissingArguments)
    ));
    assert!(matches!(
        target(HermesCommand::Watch(Watch::new(strings(&["dir/..", "h"]))).exec()),
        Err(TargetError::NoFileName)
    ));
}

#[test]
fn upload_targets() {
    assert!(matches!(upload_target(&vec![]), Err(TargetError::MissingArguments)));
    assert!(matches!(upload_target(&strings(&["/", "h"])), Err(TargetError::NoFileName)));
    let t = upload_target(&strings(&["./a/b.ego", "host", "extra"])).ok().unwrap();
    assert_eq!((t.path.as_str(), t.module_name.as_str(), t.host.as_str()), ("./a/b.ego", "b.ego", "host"));
    let l = Load::new(strings(&["x.ego"]));
    assert!(matches!(l.target(), Err(TargetError::MissingArguments)));
    let w = Watch::new(strings(&["x.ego", "h"]));
    assert!(w.target().is_ok());
}
