use check_mailcow::check_queue::check_queue_items;
use check_mailcow::check_queue::queue_url;
use check_mailcow::check_queue::QueueItem;

#[test]
fn check_queue_items_returns_ok_when_queue_items_is_empty() {
    let queue_items: Vec<QueueItem> = vec![];
    let result = check_queue_items(queue_items);
    assert!(result.is_ok());
}

#[test]
fn check_queue_items_returns_err_when_queue_items_is_not_empty() {
    let queue_items: Vec<QueueItem> = vec![QueueItem {
        queue_name: "test".to_string(),
        queue_id: "test".to_string(),
        arrival_time: 0,
        message_size: 0,
        forced_expire: false,
        sender: "test".to_string(),
        recipients: vec!["test".to_string()],
    }];
    let result = check_queue_items(queue_items);
    assert!(result.is_err());
}

#[test]
fn check_queue_items_returns_expected_output_when_queue_items_is_not_empty() {
    let queue_items: Vec<QueueItem> = vec![
        QueueItem {
            queue_name: "queue name1".to_string(),
            queue_id: "queue ID1".to_string(),
            arrival_time: 1,
            message_size: 2,
            forced_expire: false,
            sender: "me".to_string(),
            recipients: vec!["test".to_string(), "test2".to_string()],
        },
        QueueItem {
            queue_name: "queue name2".to_string(),
            queue_id: "queue ID2".to_string(),
            arrival_time: 1234235236,
            message_size: 5,
            forced_expire: true,
            sender: "someone".to_string(),
            recipients: vec!["test3".to_string(), "test4".to_string()],
        },
    ];
    let result = check_queue_items(queue_items);
    let expected = "Outbound message queue is not empty:\n\n\
        ID: queue ID1\n\
        ├─Sender: me\n\
        ├─Arrival time: 01/01/1970 12:00:01AM\n\
        ├─Message size: 2\n\
        ├─Queue type: queue name1\n\
        ├─Forced expire? false\n\
        ├─Message:\n\
        ├────test\n\
        ├────test2\n\
        \n\
        ID: queue ID2\n\
        ├─Sender: someone\n\
        ├─Arrival time: 02/10/2009  3:07:16AM\n\
        ├─Message size: 5\n\
        ├─Queue type: queue name2\n\
        ├─Forced expire? true\n\
        ├─Message:\n\
        ├────test3\n\
        ├────test4\n\
        \n";
    assert_eq!(result.unwrap_err().to_text(), expected);
}

#[test]
fn queue_item_recipient_entries_are_split_into_report_lines() {
    let item = QueueItem {
        queue_name: "deferred".to_string(),
        queue_id: "AB12".to_string(),
        arrival_time: 0,
        message_size: 7,
        forced_expire: false,
        sender: "a@b".to_string(),
        recipients: vec!["c@d  host[1.2.3.4] said: 450 try again later".to_string()],
    };
    let rendered = item.render();
    let expected = "ID: AB12\n\
        ├─Sender: a@b\n\
        ├─Arrival time: 01/01/1970 12:00:00AM\n\
        ├─Message size: 7\n\
        ├─Queue type: deferred\n\
        ├─Forced expire? false\n\
        ├─Message:\n\
        ├────c@d\n\
        ├────host[1.2.3.4] said: \n\
        ├────450 try again later\n";
    assert_eq!(rendered, expected);
}

#[test]
fn queue_item_out_of_range_arrival_time_is_shown_as_seconds() {
    let item = QueueItem {
        queue_name: "active".to_string(),
        queue_id: "Z9".to_string(),
        arrival_time: i64::MIN,
        message_size: 0,
        forced_expire: false,
        sender: "x".to_string(),
        recipients: vec![],
    };
    let rendered = item.render();
    assert!(rendered.contains("├─Arrival time: -9223372036854775808\n"));
}

#[test]
fn arrival_times_at_the_edge_of_the_date_range_are_still_dates() {
    let mut item = QueueItem {
        queue_name: "q".to_string(),
        queue_id: "i".to_string(),
        arrival_time: 8210266876799,
        message_size: 0,
        forced_expire: false,
        sender: "s".to_string(),
        recipients: vec![],
    };
    assert!(item
        .render()
        .contains("├─Arrival time: 12/31/+262142 11:59:59PM\n"));
    item.arrival_time = 8210266876800;
    assert!(item.render().contains("├─Arrival time: 8210266876800\n"));
    item.arrival_time = -8334601228800;
    assert!(item
        .render()
        .contains("├─Arrival time: 01/01/-262143 12:00:00AM\n"));
    item.arrival_time = -8334601228801;
    assert!(item.render().contains("├─Arrival time: -8334601228801\n"));
}

#[test]
fn queue_url_appends_the_endpoint() {
    assert_eq!(
        queue_url("https://mail.example.com"),
        "https://mail.example.com/api/v1/get/mailq/all"
    );
}
