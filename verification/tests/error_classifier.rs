use proxy_core::error_classifier::{classify_error_flags, classify_stream_error};

#[test]
fn test_classify_timeout_error() {
    let url = "http://example.com";
    let client = reqwest::Client::builder()
        .timeout(std::time::Duration::from_millis(1))
        .build()
        .unwrap();

    let rt = tokio::runtime::Runtime::new().unwrap();
    let error = rt.block_on(async { client.get(url).send().await.unwrap_err() });

    if error.is_timeout() {
        let (error_type, message) = classify_stream_error(&error);
        assert_eq!(error_type, "timeout_error");
        assert!(message.contains("超时"));
        assert!(message.contains("网络"));
    }
}

#[test]
fn test_error_message_format() {
    let url = "http://invalid-domain-that-does-not-exist-12345.com";
    let client = reqwest::Client::new();

    let rt = tokio::runtime::Runtime::new().unwrap();
    let error = rt.block_on(async { client.get(url).send().await.unwrap_err() });

    let (error_type, message) = classify_stream_error(&error);

    assert!(
        error_type == "timeout_error"
            || error_type == "connection_error"
            || error_type == "decode_error"
            || error_type == "stream_error"
            || error_type == "unknown_error"
    );

    assert!(!message.is_empty());
}

#[test]
fn test_all_error_types_have_chinese_messages() {
    let test_cases = vec![
        ("timeout_error", "超时"),
        ("connection_error", "连接"),
        ("decode_error", "网络连接不稳定"),
        ("stream_error", "数据流"),
    ];

    for (expected_type, expected_keyword) in test_cases {
        match expected_type {
            "timeout_error" => {
                let msg = "请求超时,请检查网络连接";
                assert!(msg.contains(expected_keyword));
            }
            "connection_error" => {
                let msg = "无法连接到服务器,请检查网络或代理设置";
                assert!(msg.contains(expected_keyword));
            }
            "decode_error" => {
                let msg = "网络连接不稳定,数据传输中断。建议: 1) 检查网络连接 2) 更换代理节点 3) 稍后重试";
                assert!(msg.contains(expected_keyword));
            }
            "stream_error" => {
                let msg = "数据流传输错误,请稍后重试";
                assert!(msg.contains(expected_keyword));
            }
            _ => {}
        }
    }
}

#[test]
fn classifier_flags_order_and_messages() {
    let (k, m) = classify_error_flags(true, true, true, true, "x");
    assert_eq!(k, "timeout_error");
    assert_eq!(m, "请求超时,请检查网络连接");
    let (k, m) = classify_error_flags(false, true, false, false, "x");
    assert_eq!(k, "connection_error");
    assert_eq!(m, "无法连接到服务器,请检查网络或代理设置");
    let (k, _) = classify_error_flags(false, false, true, false, "x");
    assert_eq!(k, "decode_error");
    let (k, m) = classify_error_flags(false, false, false, true, "x");
    assert_eq!(k, "stream_error");
    assert_eq!(m, "数据流传输错误,请稍后重试");
    let (k, m) = classify_error_flags(false, false, false, false, "boom");
    assert_eq!(k, "unknown_error");
    assert_eq!(m, "发生未知错误。错误详情: boom");
}
