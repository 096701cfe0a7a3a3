use std::cell::RefCell;

use neatnik::notify::{NotificationEvent, Notifier};

struct RecordingNotifier {
    events: RefCell<Vec<NotificationEvent>>,
}

impl Notifier for RecordingNotifier {
    fn notify(&self, event: NotificationEvent) {
        self.events.borrow_mut().push(event);
    }
}

#[test]
fn notifier_trait_can_be_implemented_and_dispatched() {
    let notifier = RecordingNotifier { events: RefCell::new(Vec::new()) };
    notifier.notify(NotificationEvent::JobFailed {
        job_name: "daily-logs".to_string(),
        reason: "disk full".to_string(),
    });
    assert_eq!(notifier.events.borrow().len(), 1);
}
