use check_mailcow::check_postfix_rejections::check_rejections;
use check_mailcow::check_postfix_rejections::postfix_logs_url;
use check_mailcow::check_postfix_rejections::LogMessage;

#[test]
fn test_ssl_rejections() {
    let log_message = LogMessage {
        message: "NOQUEUE: reject: RCPT from smtp.example.com[1.2.3.4]: 550 5.7.1 Session encryption is required; from=<noreply@example.com> to=<me@mydomain.com> proto=ESMTP helo=<smtp.example.com>".to_string(),
        time: "0".to_string()
    };
    let result = check_rejections(vec![log_message], false);
    assert!(result.is_err());
}

#[test]
fn test_no_ssl_rejections() {
    let log_message = LogMessage {
        message: "NOQUEUE: reject: RCPT from smtp.example.com[1.2.3.4]: 550 5.1.1 Authentication failed".to_string(),
        time: "0".to_string()
    };
    let result = check_rejections(vec![log_message], false);
    assert!(result.is_ok());
}

#[test]
fn test_multiple_messages_without_error() {
    let messages = vec![
        LogMessage {
            message: "NOQUEUE: reject: RCPT from smtp.example.com[1.2.3.4]: 550 5.1.1 Authentication failed".to_string(),
            time: "0".to_string()
        },
        LogMessage {
            message: "some random message".to_string(),
            time: "0".to_string()
        },
    ];
    let result = check_rejections(messages, false);
    assert!(result.is_ok());
}

#[test]
fn test_multiple_messages_with_error() {
    let messages = vec![
        LogMessage {
            message: "NOQUEUE: reject: RCPT from smtp.example.com[1.2.3.4]: 550 5.1.1 Authentication failed".to_string(),
            time: "0".to_string()
        },
        LogMessage {
            message: "NOQUEUE: reject: RCPT from smtp.example.com[1.2.3.4]: 550 5.7.1 Session encryption is required; from=<noreply@example.com> to=<me@mydomain.com> proto=ESMTP helo=<smtp.example.com>".to_string(),
            time: "0".to_string()
        },
    ];
    let result = check_rejections(messages, false);
    assert!(result.is_err());
}

#[test]
fn test_multiple_messages_with_multiple_errors() {
    let messages = vec![
        LogMessage {
            message: "NOQUEUE: reject: RCPT from smtp.example.com[1.2.3.4]: 550 5.1.1 Authentication failed".to_string(),
            time: "0".to_string()
        },
        LogMessage {
            message: "NOQUEUE: reject: RCPT from smtp.example.com[1.2.3.4]: 550 5.7.1 Session encryption is required; from=<noreply@example.com> to=<me@mydomain.com> proto=ESMTP helo=<smtp.example.com>".to_string(),
            time: "0".to_string()
        },
        LogMessage {
            message: "NOQUEUE: reject: RCPT from smtp.example.com[1.2.3.4]: 550 5.7.1 Session encryption is required; from=<noreply@example.com> to=<me@mydomain.com> proto=ESMTP helo=<smtp.example.com>".to_string(),
            time: "0".to_string()
        },
    ];
    let result = check_rejections(messages, false);
    assert!(result.is_err());
}

#[test]
fn rejection_report_lists_each_offending_message() {
    let messages = vec![
        LogMessage {
            message: "ok line".to_string(),
            time: "0".to_string(),
        },
        LogMessage {
            message: "first: 550 5.7.1 Session encryption is required".to_string(),
            time: "1".to_string(),
        },
        LogMessage {
            message: "second: 550 5.7.1 Session encryption is required".to_string(),
            time: "2".to_string(),
        },
    ];
    let result = check_rejections(messages, false);
    let expected = "SSL rejections were found:\n\
        first: 550 5.7.1 Session encryption is required\n\
        second: 550 5.7.1 Session encryption is required";
    assert_eq!(result.unwrap_err().to_text(), expected);
}

#[test]
fn verbose_run_on_an_empty_log_succeeds() {
    let result = check_rejections(vec![], true);
    assert!(result.is_ok());
}

#[test]
fn verbose_run_reports_the_rejection_all_the_same() {
    let messages = vec![LogMessage {
        message: "550 5.7.1 Session encryption is required".to_string(),
        time: "not a timestamp".to_string(),
    }];
    let result = check_rejections(messages, true);
    assert!(result.is_err());
}

#[test]
fn postfix_logs_url_appends_the_endpoint_and_count() {
    assert_eq!(
        postfix_logs_url("https://mail.example.com", 1000),
        "https://mail.example.com/api/v1/get/logs/postfix/1000"
    );
}
