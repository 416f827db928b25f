use std::collections::HashMap;
use timely::comment::{read_comments, Comment, CommentRead, CreateComment, EditComment, NewComment};
use timely::duration::OptionalDurationInSeconds;
use timely::error::TrackerError;
use timely::filters::{DateFilter, FilterOption, QuickFilter, TagFilter};
use timely::history::TaskWorkHistory;
use timely::lifecycle::Task;
use timely::settings::{NotificationSetting, UpdateUserSettings, UserSetting, UserSettingRead};
use timely::status::Status;
use timely::tags::Tag;
use timely::task::{apply_edit, read_history, read_task, CreateTask, EditTask, NewTask, TaskWorkHistoryRead};
use timely::timestamp::{OptionalUnixTimestamp, UnixTimestamp};
use timely::upsert::{UpsertAddable, Upsertable};

#[test]
fn not_found_names_the_task() {
    assert_eq!(TrackerError::NotFound(42).message(), "Task with id '42' not found.");
    assert_eq!(TrackerError::NotFound(0).message(), "Task with id '0' not found.");
    assert_eq!(TrackerError::NotFound(-7).message(), "Task with id '-7' not found.");
    assert_eq!(TrackerError::NotFound(1200).message(), "Task with id '1200' not found.");
    assert_eq!(
        TrackerError::NotFound(i64::MIN).message(),
        "Task with id '-9223372036854775808' not found."
    );
}

#[test]
fn other_errors_have_their_text() {
    assert_eq!(
        TrackerError::InvalidRequest.message(),
        "The search criteria must have at least one tag and one bucket"
    );
    assert_eq!(TrackerError::LedgerInvariantViolation(3).message(), "The task already has an open work interval");
}

fn setting() -> UserSetting {
    UserSetting {
        id: 1,
        page_size: 10,
        home_page: String::from("/tasks"),
        color_scheme: String::from("light"),
        button_variant: String::from("filled"),
        gradient_to: String::from("blue"),
        gradient_from: String::from("cyan"),
        gradient_degrees: 90,
        navbar_opened: true,
    }
}

#[test]
fn update_keeps_the_id_of_the_settings() {
    let update = UpdateUserSettings {
        home_page: String::from("/metrics"),
        page_size: 25,
        color_scheme: String::from("dark"),
        button_variant: String::from("outline"),
        gradient_to: String::from("red"),
        gradient_from: String::from("pink"),
        gradient_degrees: 45,
        navbar_opened: false,
        notification_settings: vec![NotificationSetting {
            id: 3,
            user_setting_id: 1,
            name: String::from("due"),
            enabled: true,
        }],
    };
    let updated = setting().with_update(update);
    assert_eq!(updated.id, 1);
    assert_eq!(updated.page_size, 25);
    assert_eq!(updated.home_page, "/metrics");
    assert_eq!(updated.color_scheme, "dark");
    assert_eq!(updated.button_variant, "outline");
    assert_eq!(updated.gradient_to, "red");
    assert_eq!(updated.gradient_from, "pink");
    assert_eq!(updated.gradient_degrees, 45);
    assert!(!updated.navbar_opened);
}

#[test]
fn settings_are_shown_and_stored() {
    let read = UserSettingRead::from_setting(setting());
    assert_eq!(read.id, 1);
    assert_eq!(read.home_page, "/tasks");
    assert_eq!(read.gradient_degrees, 90);
    assert!(read.notification_settings.is_empty());
    let stored = UserSetting::from(read);
    assert_eq!(stored.id, 1);
    assert_eq!(stored.page_size, 10);
    assert_eq!(stored.gradient_from, "cyan");
    assert!(stored.navbar_opened);
}

#[test]
fn comments_are_created_shown_and_edited() {
    let new = NewComment::at(CreateComment { task_id: 4, message: String::from("hello") }, UnixTimestamp(77));
    assert_eq!(new.task_id, 4);
    assert_eq!(new.message, "hello");
    assert_eq!(new.created, UnixTimestamp(77));
    assert_eq!(new.modified, None);
    let before = UnixTimestamp::now();
    let created = NewComment::create(CreateComment { task_id: 4, message: String::from("hello") });
    assert!(created.created.0 >= before.0);
    assert_eq!(created.modified, None);
    let comment = Comment {
        id: 9,
        task_id: 4,
        message: String::from("hello"),
        created: UnixTimestamp(77),
        modified: OptionalUnixTimestamp(None),
    };
    let shown = read_comments(&vec![comment.clone()]);
    assert_eq!(shown.len(), 1);
    assert_eq!(shown[0].id, 9);
    assert_eq!(shown[0].message, "hello");
    assert_eq!(shown[0].created, UnixTimestamp(77));
    let one = CommentRead::from(comment.clone());
    assert_eq!(one.task_id, 4);
    assert_eq!(one.modified, OptionalUnixTimestamp(None));
    let edited = comment.with_edit(EditComment { id: 9, message: String::from("bye") }, UnixTimestamp(99));
    assert_eq!(edited.id, 9);
    assert_eq!(edited.message, "bye");
    assert_eq!(edited.created, UnixTimestamp(77));
    assert_eq!(edited.modified, OptionalUnixTimestamp(Some(99)));
}

#[test]
fn date_filter_needs_both_bounds() {
    let both = DateFilter { start: Some(UnixTimestamp(1)), end: Some(UnixTimestamp(5)) };
    assert_eq!(both.bounds(), Some((UnixTimestamp(1), UnixTimestamp(5))));
    assert_eq!(DateFilter { start: None, end: Some(UnixTimestamp(5)) }.bounds(), None);
    assert_eq!(DateFilter { start: Some(UnixTimestamp(1)), end: None }.bounds(), None);
    let tagged = QuickFilter::Tagged(TagFilter { tags: vec![String::from("a")], tag_filter: FilterOption::All });
    assert!(matches!(tagged, QuickFilter::Tagged(_)));
}

fn task(status: Status) -> Task {
    Task {
        id: 3,
        title: String::from("write"),
        description: String::from("the report"),
        status,
        scheduled_start_date: OptionalUnixTimestamp(Some(10)),
        scheduled_complete_date: OptionalUnixTimestamp(None),
        estimated_duration: OptionalDurationInSeconds(Some(600)),
    }
}

#[test]
fn task_is_shown_with_what_its_intervals_give() {
    let history = vec![
        TaskWorkHistory { id: 2, task_id: 3, start_date: UnixTimestamp(200), end_date: OptionalUnixTimestamp(Some(260)) },
        TaskWorkHistory { id: 1, task_id: 3, start_date: UnixTimestamp(100), end_date: OptionalUnixTimestamp(Some(130)) },
        TaskWorkHistory { id: 3, task_id: 3, start_date: UnixTimestamp(300), end_date: OptionalUnixTimestamp(None) },
    ];
    let now = UnixTimestamp(350);
    let read = read_task(task(Status::Done), &vec![], vec![Tag { id: 1, value: String::from("x") }], &history, now);
    assert_eq!(read.id, 3);
    assert_eq!(read.title, "write");
    assert_eq!(read.description, "the report");
    assert_eq!(read.status, Status::Done);
    assert_eq!(read.scheduled_start_date, Some(UnixTimestamp(10)));
    assert_eq!(read.scheduled_complete_date, None);
    assert_eq!(read.estimated_duration, Some(600));
    assert_eq!(read.elapsed_duration, 60 + 30 + 50);
    assert_eq!(read.actual_start_date, Some(UnixTimestamp(100)));
    assert_eq!(read.actual_complete_date, Some(UnixTimestamp(350)));
    assert_eq!(read.tags.len(), 1);
    assert!(read.comments.is_empty());
    assert_eq!(
        read.work_history,
        vec![
            TaskWorkHistoryRead { id: 2, task_id: 3, start_date: UnixTimestamp(200), end_date: UnixTimestamp(260), elapsed_duration: 60 },
            TaskWorkHistoryRead { id: 1, task_id: 3, start_date: UnixTimestamp(100), end_date: UnixTimestamp(130), elapsed_duration: 30 },
            TaskWorkHistoryRead { id: 3, task_id: 3, start_date: UnixTimestamp(300), end_date: UnixTimestamp(350), elapsed_duration: 50 },
        ]
    );
    assert_eq!(read_history(&history, now), read.work_history);
    let paused = read_task(task(Status::Paused), &vec![], vec![], &history, now);
    assert_eq!(paused.actual_complete_date, None);
    let fresh = read_task(task(Status::Todo), &vec![], vec![], &vec![], now);
    assert_eq!(fresh.actual_start_date, None);
    assert_eq!(fresh.elapsed_duration, 0);
}

#[test]
fn edit_keeps_id_and_status() {
    let edit = EditTask {
        id: 3,
        title: String::from("rewrite"),
        description: String::from("all of it"),
        status: Status::Done,
        scheduled_start_date: None,
        scheduled_complete_date: Some(UnixTimestamp(500)),
        estimated_duration: None,
    };
    let edited = apply_edit(task(Status::Paused), edit);
    assert_eq!(edited.id, 3);
    assert_eq!(edited.status, Status::Paused);
    assert_eq!(edited.title, "rewrite");
    assert_eq!(edited.description, "all of it");
    assert_eq!(edited.scheduled_start_date, OptionalUnixTimestamp(None));
    assert_eq!(edited.scheduled_complete_date, OptionalUnixTimestamp(Some(500)));
    assert_eq!(edited.estimated_duration, OptionalDurationInSeconds(None));
}

#[test]
fn created_task_is_stored_without_its_tags() {
    let new = NewTask::from_create(CreateTask {
        title: String::from("write"),
        description: String::from("the report"),
        status: Status::Todo,
        scheduled_start_date: Some(UnixTimestamp(10)),
        scheduled_complete_date: None,
        estimated_duration: Some(60),
        tags: Some(vec![Tag { id: 1, value: String::from("x") }]),
    });
    assert_eq!(new.title, "write");
    assert_eq!(new.description, "the report");
    assert_eq!(new.status, Status::Todo);
    assert_eq!(new.scheduled_start_date, OptionalUnixTimestamp(Some(10)));
    assert_eq!(new.scheduled_complete_date, OptionalUnixTimestamp(None));
    assert_eq!(new.estimated_duration, Some(60));
}

#[test]
fn upsert_replaces_and_upsert_add_sums() {
    let mut names: HashMap<i64, &str> = HashMap::new();
    names.upsert(1, "one");
    names.upsert(2, "two");
    names.upsert(1, "uno");
    assert_eq!(names.len(), 2);
    assert_eq!(names[&1], "uno");
    assert_eq!(names[&2], "two");
    let mut sums: HashMap<i64, u128> = HashMap::new();
    sums.upsert_add(1, 30);
    sums.upsert_add(2, 5);
    sums.upsert_add(1, 12);
    sums.upsert_add(3, 0);
    assert_eq!(sums.len(), 3);
    assert_eq!(sums[&1], 42);
    assert_eq!(sums[&2], 5);
    assert_eq!(sums[&3], 0);
}
