use companion::requests::{get_current_task, mark_current_task_complete, NO_ACTIVE_TASK};
use companion::task_format::FormatError;

const FILE: &str = "- [ ] Clean the kitchen\n- [ ] Buy dragon food\n- [x] Feed the dragon\n";

#[test]
fn current_task_is_the_active_one() {
    assert_eq!(get_current_task(FILE), Ok("Clean the kitchen".to_string()));
}

#[test]
fn current_task_of_a_finished_list_is_the_placeholder() {
    assert_eq!(NO_ACTIVE_TASK, "-");
    assert_eq!(get_current_task(""), Ok("-".to_string()));
    assert_eq!(get_current_task("- [x] a\n\n- [x] b\n"), Ok("-".to_string()));
}

#[test]
fn current_task_of_a_malformed_file_is_an_error() {
    assert_eq!(get_current_task("- [ ] a\ndo the dishes\n"), Err(FormatError));
}

#[test]
fn completing_writes_the_file_anew() {
    let once = mark_current_task_complete(FILE).unwrap();
    assert_eq!(once, "- [x] Clean the kitchen\n- [ ] Buy dragon food\n- [x] Feed the dragon\n");
    assert_eq!(get_current_task(&once), Ok("Buy dragon food".to_string()));
    let twice = mark_current_task_complete(&once).unwrap();
    assert_eq!(twice, "- [x] Clean the kitchen\n- [x] Buy dragon food\n- [x] Feed the dragon\n");
    assert_eq!(get_current_task(&twice), Ok("-".to_string()));
    let thrice = mark_current_task_complete(&twice).unwrap();
    assert_eq!(thrice, twice);
}

#[test]
fn completing_drops_blank_lines() {
    let text = "\n- [x] a\n\n- [ ] b\r\n   \n";
    assert_eq!(mark_current_task_complete(text), Ok("- [x] a\n- [x] b\n".to_string()));
}

#[test]
fn completing_a_malformed_file_is_an_error() {
    assert_eq!(mark_current_task_complete("do the dishes"), Err(FormatError));
    assert_eq!(mark_current_task_complete("- [ ] a\n- [x]b\n"), Err(FormatError));
}
