use plumber::pipeline::ParseError;
use plumber::runner::{pipeline_names, plan, plan_batch, plumber_files, Skipped};
use plumber::utils::{IoFailure, PlumberFile, PlumberFileConfig, PlumberFileError};

fn names(list: &[&str]) -> Vec<String> {
    list.iter().map(|n| n.to_string()).collect()
}

fn file(name: &str, text: &str) -> PlumberFile {
    let config =
        PlumberFileConfig { exec_text: text.to_string(), run: None, metadata: None, extra: None };
    let file_name = format!("{}.plumb", name);
    PlumberFile::new(format!("/etc/plumber/{}", file_name), Some(file_name.as_str()), config).unwrap()
}

#[test]
fn run_takes_the_files_that_end_in_plumb() {
    let listing = names(&["a.plumb", "notes.txt", "B.PLUMB", "c.plumb", ".plumb", "d.plumb.bak"]);
    assert_eq!(plumber_files(&listing, false), names(&["a.plumb", "c.plumb"]));
    assert_eq!(plumber_files(&listing, true), names(&["a.plumb", "B.PLUMB", "c.plumb"]));
    assert_eq!(plumber_files(&Vec::new(), true), Vec::<String>::new());
}

#[test]
fn stop_names_pipelines_by_the_stems_of_their_files() {
    let listing = names(&["a.plumb", "notes.txt", "B.PLUMB", "c.d.plumb", "README"]);
    assert_eq!(pipeline_names(&listing), names(&["a", "B", "c.d"]));
    assert_eq!(pipeline_names(&names(&["x.txt"])), Vec::<String>::new());
}

#[test]
fn one_file_is_planned_by_itself() {
    let pipeline = plan(Ok(file("backup", "tar c . | gzip"))).unwrap();
    assert_eq!(pipeline.get_name(), "backup");
    assert_eq!(pipeline.commands().len(), 2);
    assert!(matches!(
        plan(Ok(file("bad", "a | | b"))),
        Err(Skipped::Parse(ParseError::MissingCommand))
    ));
    assert!(matches!(plan(Ok(file("blank", "  "))), Err(Skipped::Parse(ParseError::Empty))));
    assert!(matches!(
        plan(Err(PlumberFileError::NotFound)),
        Err(Skipped::Load(PlumberFileError::NotFound))
    ));
}

#[test]
fn a_malformed_file_does_not_hold_back_the_others() {
    let unreadable = "exec = ".parse::<toml::Table>().unwrap_err();
    let plans = plan_batch(vec![
        Ok(file("first", "cat a | sort")),
        Err(PlumberFileError::from(unreadable)),
        Ok(file("second", "ls")),
    ]);
    assert_eq!(plans.len(), 3);
    assert_eq!(plans[0].as_ref().unwrap().get_name(), "first");
    assert!(matches!(plans[1], Err(Skipped::Load(PlumberFileError::TomlError(_)))));
    assert_eq!(plans[2].as_ref().unwrap().get_name(), "second");
    let started: Vec<String> = plans.iter().filter_map(|p| p.as_ref().ok()).map(|p| p.get_name()).collect();
    assert_eq!(started, names(&["first", "second"]));
}

#[test]
fn a_file_with_a_bad_text_is_passed_over() {
    let plans = plan_batch(vec![
        Ok(file("first", "cat a | sort")),
        Ok(file("broken", "cat a | | sort")),
        Err(PlumberFileError::from(IoFailure::Other("busy".to_string()))),
        Ok(file("second", "ls")),
    ]);
    assert_eq!(plans.len(), 4);
    assert!(plans[0].is_ok());
    assert!(matches!(plans[1], Err(Skipped::Parse(ParseError::MissingCommand))));
    assert!(matches!(plans[2], Err(Skipped::Load(PlumberFileError::IoError(_)))));
    assert!(plans[3].is_ok());
}

#[test]
fn an_empty_batch_plans_nothing() {
    assert!(plan_batch(Vec::new()).is_empty());
}
