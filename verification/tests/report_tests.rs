use songbook::i18n::I18n;
use songbook::report::handle_report;
use songbook::report::i64_dec_string;
use songbook::report::new_report_filename;
use songbook::report::report_filename;
use songbook::report::u64_dec_string;
use songbook::report::ConversationStateTracker;
use songbook::report::ReportContent;
use songbook::report::ReportSave;

fn english() -> I18n {
    I18n::new(String::from("en"), Vec::new())
}

#[test]
fn voice_report_is_saved_and_resolves() {
    let i18n = english();
    let outcome = handle_report(ReportContent::Voice, &i18n);
    assert_eq!(outcome.reply, i18n.report.success_msg);
    assert!(outcome.resolved);
    assert_eq!(outcome.save, ReportSave::Voice);
}

#[test]
fn text_report_is_saved_with_trailing_newline() {
    let i18n = english();
    let outcome = handle_report(ReportContent::Text(String::from("wrong chord")), &i18n);
    assert_eq!(outcome.reply, i18n.report.success_msg);
    assert!(outcome.resolved);
    assert_eq!(outcome.save, ReportSave::Text(String::from("wrong chord\n")));
}

#[test]
fn cancel_resolves_without_saving() {
    let i18n = english();
    let outcome = handle_report(ReportContent::Text(String::from("/cancel")), &i18n);
    assert_eq!(outcome.reply, i18n.report.cancel_msg);
    assert!(outcome.resolved);
    assert_eq!(outcome.save, ReportSave::Nothing);
}

#[test]
fn other_content_keeps_the_user_pending() {
    let i18n = english();
    let outcome = handle_report(ReportContent::Other, &i18n);
    assert_eq!(outcome.reply, i18n.report.error_msg);
    assert!(!outcome.resolved);
    assert_eq!(outcome.save, ReportSave::Nothing);
}

#[test]
fn image_then_cancel_leaves_the_report_flow() {
    let i18n = english();
    let mut tracker = ConversationStateTracker::new();
    tracker.mark_pending(7);
    assert!(tracker.is_pending(7));

    let image = handle_report(ReportContent::Other, &i18n);
    assert!(!image.resolved);
    assert!(tracker.is_pending(7));

    let cancel = handle_report(ReportContent::Text(String::from("/cancel")), &i18n);
    assert!(cancel.resolved);
    assert_eq!(cancel.reply, i18n.report.cancel_msg);
    tracker.resolve(7);
    assert!(!tracker.is_pending(7));
}

#[test]
fn tracker_keeps_one_entry_per_user() {
    let mut tracker = ConversationStateTracker::new();
    tracker.mark_pending(1);
    tracker.mark_pending(1);
    tracker.mark_pending(2);
    assert!(tracker.is_pending(1));
    assert!(tracker.is_pending(2));
    assert!(!tracker.is_pending(3));
    tracker.resolve(1);
    assert!(!tracker.is_pending(1));
    assert!(tracker.is_pending(2));
    tracker.resolve(3);
    assert!(tracker.is_pending(2));
}

#[test]
fn decimal_rendering_matches_to_string() {
    assert_eq!(u64_dec_string(0), "0");
    assert_eq!(u64_dec_string(7), "7");
    assert_eq!(u64_dec_string(1234567890), "1234567890");
    assert_eq!(i64_dec_string(-42), "-42");
    assert_eq!(i64_dec_string(i64::MIN), "-9223372036854775808");
    assert_eq!(i64_dec_string(i64::MAX), "9223372036854775807");
}

#[test]
fn report_filename_is_path_stamp_and_extension() {
    let path = String::from("/var/reports");
    assert_eq!(report_filename(&path, 123, false), "/var/reports/123.txt");
    assert_eq!(report_filename(&path, -5, true), "/var/reports/-5.ogg");
}

#[test]
fn fresh_report_filename_has_the_right_shape() {
    let path = String::from("reports");
    let name = new_report_filename(&path, false);
    assert!(name.starts_with("reports/"));
    assert!(name.ends_with(".txt"));
}
