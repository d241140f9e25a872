use file_explorer::counters::IndexCounters;

#[test]
fn one_file_through_the_queue() {
    let mut c = IndexCounters::new();
    c.enqueued(true);
    c.enqueued(false);
    assert_eq!(c.queue_len, 1);
    c.started();
    assert_eq!(c.active, 1);
    c.finished();
    assert_eq!((c.queue_len, c.active, c.completed), (0, 0, 1));
    c.finished();
    assert_eq!(c.queue_len, 0);
    assert_eq!(c.active, usize::MAX);
    assert_eq!(c.completed, 2);
}
