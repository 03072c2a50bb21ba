//! Watching a folder.

use yandex_mail::watch::{
    change_event, stop_watching_error, watch_error, watch_folder, WatchPhase, ANSWER_SECONDS,
    LOGOUT_SECONDS, RETRY_SECONDS,
};

fn run(worked: &[bool]) -> WatchPhase {
    worked.iter().fold(watch_folder(), |phase, worked| phase.next(*worked))
}

#[test]
fn a_change_is_reported_and_the_watch_goes_on() {
    assert_eq!(run(&[true, true, true, true]), WatchPhase::Listen);
    assert_eq!(run(&[true, true, true, true, true, false]), WatchPhase::Report);
    assert_eq!(run(&[true, true, true, true, true, true, true]), WatchPhase::Connect);
    assert_eq!(run(&[true, true, true, true, false, true]), WatchPhase::Connect);
}

#[test]
fn a_failed_connection_is_tried_again() {
    assert_eq!(run(&[false]), WatchPhase::Pause);
    assert_eq!(run(&[false, false]), WatchPhase::Connect);
}

#[test]
fn the_watch_stops_where_nothing_can_be_announced() {
    assert_eq!(run(&[true, false]), WatchPhase::Logout);
    assert_eq!(run(&[true, false, false]), WatchPhase::Stop);
    assert_eq!(run(&[true, true, false]), WatchPhase::Logout);
    assert_eq!(run(&[true, true, true, false]), WatchPhase::Stop);
    assert_eq!(run(&[true, true, true, false, true]), WatchPhase::Stop);
}

#[test]
fn the_names_and_times_of_the_watch() {
    assert_eq!(change_event(), "mail-changed");
    assert_eq!(watch_error(), "Не удалось запустить ожидание писем");
    assert_eq!(stop_watching_error(), "Не удалось остановить ожидание писем");
    assert_eq!((RETRY_SECONDS, ANSWER_SECONDS, LOGOUT_SECONDS), (3, 30, 2));
}
