use sigconsole::lifecycle::event_for_reason;
use sigconsole::lifecycle::Controller;
use sigconsole::lifecycle::Directive;
use sigconsole::lifecycle::Event;
use sigconsole::lifecycle::Phase;
use sigconsole::lifecycle::Step;
use sigconsole::lifecycle::PROCESS_ATTACH;
use sigconsole::lifecycle::PROCESS_DETACH;
use sigconsole::lifecycle::STEPS;

fn attached() -> Controller {
    let mut c = Controller::new();
    assert_eq!(c.handle(Event::Attach), Directive::Acquire(Step::Console));
    assert_eq!(c.handle(Event::Acquired), Directive::Acquire(Step::Interpreter));
    assert_eq!(c.handle(Event::Acquired), Directive::Acquire(Step::Bridge));
    assert_eq!(c.handle(Event::Acquired), Directive::Acquire(Step::Session));
    assert_eq!(c.phase(), Phase::Attaching);
    assert_eq!(c.handle(Event::Acquired), Directive::Idle);
    c
}

#[test]
fn starts_detached() {
    let c = Controller::new();
    assert_eq!(c.phase(), Phase::Detached);
    assert_eq!(c.acquired(), 0);
}

#[test]
fn attach_acquires_each_step_in_order() {
    let c = attached();
    assert_eq!(c.phase(), Phase::Attached);
    assert_eq!(c.acquired(), STEPS);
    assert_eq!(STEPS, 4);
}

#[test]
fn detach_releases_everything_latest_first() {
    let mut c = attached();
    assert_eq!(
        c.handle(Event::Detach),
        Directive::Release(vec![Step::Session, Step::Bridge, Step::Interpreter, Step::Console])
    );
    assert_eq!(c.phase(), Phase::Detached);
    assert_eq!(c.acquired(), 0);
}

#[test]
fn console_failure_leaves_nothing_to_release() {
    let mut c = Controller::new();
    assert_eq!(c.handle(Event::Attach), Directive::Acquire(Step::Console));
    assert_eq!(c.phase(), Phase::Attaching);
    assert_eq!(c.handle(Event::Failed), Directive::Release(vec![]));
    assert_eq!(c.phase(), Phase::Detached);
}

#[test]
fn interpreter_failure_releases_the_console() {
    let mut c = Controller::new();
    c.handle(Event::Attach);
    assert_eq!(c.handle(Event::Acquired), Directive::Acquire(Step::Interpreter));
    assert_eq!(c.acquired(), 1);
    assert_eq!(c.handle(Event::Failed), Directive::Release(vec![Step::Console]));
    assert_eq!(c.phase(), Phase::Detached);
    assert_eq!(c.acquired(), 0);
}

#[test]
fn session_failure_releases_what_came_before() {
    let mut c = Controller::new();
    c.handle(Event::Attach);
    c.handle(Event::Acquired);
    c.handle(Event::Acquired);
    assert_eq!(c.handle(Event::Acquired), Directive::Acquire(Step::Session));
    assert_eq!(
        c.handle(Event::Failed),
        Directive::Release(vec![Step::Bridge, Step::Interpreter, Step::Console])
    );
    assert_eq!(c.phase(), Phase::Detached);
}

#[test]
fn detach_while_attaching_releases_what_is_held() {
    let mut c = Controller::new();
    c.handle(Event::Attach);
    c.handle(Event::Acquired);
    c.handle(Event::Acquired);
    assert_eq!(
        c.handle(Event::Detach),
        Directive::Release(vec![Step::Interpreter, Step::Console])
    );
    assert_eq!(c.phase(), Phase::Detached);
}

#[test]
fn second_attach_is_ignored() {
    let mut c = attached();
    assert_eq!(c.handle(Event::Attach), Directive::Idle);
    assert_eq!(c.phase(), Phase::Attached);
    let mut c = Controller::new();
    c.handle(Event::Attach);
    c.handle(Event::Acquired);
    assert_eq!(c.handle(Event::Attach), Directive::Idle);
    assert_eq!(c.phase(), Phase::Attaching);
    assert_eq!(c.acquired(), 1);
}

#[test]
fn stray_events_change_nothing() {
    let mut c = Controller::new();
    assert_eq!(c.handle(Event::Detach), Directive::Idle);
    assert_eq!(c.handle(Event::Acquired), Directive::Idle);
    assert_eq!(c.handle(Event::Failed), Directive::Idle);
    assert_eq!(c.phase(), Phase::Detached);
    let mut c = attached();
    assert_eq!(c.handle(Event::Acquired), Directive::Idle);
    assert_eq!(c.handle(Event::Failed), Directive::Idle);
    assert_eq!(c.phase(), Phase::Attached);
    assert_eq!(c.acquired(), 4);
}

#[test]
fn reattach_starts_from_the_first_step() {
    let mut c = attached();
    c.handle(Event::Detach);
    assert_eq!(c.handle(Event::Attach), Directive::Acquire(Step::Console));
    assert_eq!(c.phase(), Phase::Attaching);
    assert_eq!(c.acquired(), 0);
    assert_eq!(c.handle(Event::Acquired), Directive::Acquire(Step::Interpreter));
}

#[test]
fn reason_codes_map_to_events() {
    assert_eq!(PROCESS_ATTACH, 1);
    assert_eq!(PROCESS_DETACH, 0);
    assert_eq!(event_for_reason(1), Some(Event::Attach));
    assert_eq!(event_for_reason(0), Some(Event::Detach));
    assert_eq!(event_for_reason(2), None);
    assert_eq!(event_for_reason(3), None);
    assert_eq!(event_for_reason(u32::MAX), None);
}

#[test]
fn notify_heeds_process_reasons_only() {
    let mut c = Controller::new();
    assert_eq!(c.notify(2), Directive::Idle);
    assert_eq!(c.notify(3), Directive::Idle);
    assert_eq!(c.phase(), Phase::Detached);
    assert_eq!(c.notify(PROCESS_ATTACH), Directive::Acquire(Step::Console));
    assert_eq!(c.phase(), Phase::Attaching);
    assert_eq!(c.notify(2), Directive::Idle);
    assert_eq!(c.phase(), Phase::Attaching);
    assert_eq!(c.notify(PROCESS_DETACH), Directive::Release(vec![]));
    assert_eq!(c.phase(), Phase::Detached);
}
