use tokio_playground::basics::{
    fn_plain, fut_generic_own, my_fn, my_fn_squared, received_message, ErrorA, ErrorB,
};
use tokio_playground::requests::{
    add_three, download_jobs, download_request, fold_add, spawned_message, task_greeting,
    task_numbers, unfold_step,
};

#[test]
fn chained_values() {
    assert_eq!(my_fn(), 100);
    assert_eq!(my_fn_squared(my_fn()), 10000);
    assert_eq!(fn_plain(100), 50);
    assert_eq!(my_fn_squared(fn_plain(my_fn())), 2500);
    assert_eq!(my_fn_squared(65535), 4294836225);
}

#[test]
fn generic_min_picks_smaller() {
    assert_eq!(fut_generic_own("Sampdoria", "Juventus"), "Juventus");
    assert_eq!(fut_generic_own(3, 5), 3);
    assert_eq!(fut_generic_own(5, 5), 5);
}

#[test]
fn received_message_text() {
    assert_eq!(received_message("str with lifetime"), "received == str with lifetime");
}

#[test]
fn error_texts() {
    let a = ErrorA::default();
    let b = ErrorB::default();
    assert_eq!(a.to_message(), "ErrorA!");
    assert_eq!(b.to_message(), "ErrorB!");
    assert_eq!(a.description(), "Description for ErrorA");
    assert_eq!(b.description(), "Description for ErrorB");
    assert_eq!(a, ErrorA {});
}

#[test]
fn download_request_text() {
    assert_eq!(
        download_request("httpbin.org", "/json"),
        "GET /json HTTP/1.1\r\nHost: httpbin.org:80\r\nConnection: close\r\n\r\n"
    );
}

#[test]
fn download_jobs_groups_of_three() {
    let args: Vec<String> = ["prog", "a", "b", "c", "h1", "p1", "f1", "h2", "p2", "f2", "h3", "p3"]
        .iter()
        .map(|s| s.to_string())
        .collect();
    let jobs = download_jobs(&args);
    assert_eq!(
        jobs,
        vec![
            ("h1".to_string(), "p1".to_string(), "f1".to_string()),
            ("h2".to_string(), "p2".to_string(), "f2".to_string()),
        ]
    );
    let few: Vec<String> = vec!["prog".to_string(), "x".to_string()];
    assert!(download_jobs(&few).is_empty());
}

#[test]
fn task_numbers_match_flat_map() {
    let expected: Vec<(usize, i32)> =
        (0..4).flat_map(|x| x * 100..x * 110).enumerate().collect();
    assert_eq!(task_numbers(), expected);
    assert_eq!(task_numbers().len(), 60);
    assert_eq!(task_numbers()[0], (0, 100));
    assert_eq!(task_numbers()[59], (59, 329));
}

#[test]
fn spawned_task_texts() {
    assert_eq!(spawned_message(3), "Message 3 from spawned task");
    assert_eq!(spawned_message(10), "Message 10 from spawned task");
    assert_eq!(task_greeting(0), "Hello from task 0");
}

#[test]
fn unfold_yields_doubles() {
    let mut state = 0;
    let mut out = Vec::new();
    while let Some((y, next)) = unfold_step(state) {
        out.push(y);
        state = next;
    }
    assert_eq!(out, vec![0, 2, 4]);
    assert_eq!(state, 3);
    assert_eq!(unfold_step(-4), Some((-8, -3)));
}

#[test]
fn numerals_of_large_values() {
    assert_eq!(spawned_message(0), "Message 0 from spawned task");
    assert_eq!(spawned_message(18446744073709551615), "Message 18446744073709551615 from spawned task");
    assert_eq!(task_greeting(1000), "Hello from task 1000");
}

#[test]
fn fold_and_chain_arithmetic() {
    assert_eq!((0..6).fold(0, fold_add), 15);
    assert_eq!(add_three(1), 4);
}
