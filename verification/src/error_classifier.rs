//! Classification of low-level stream errors into a stable kind and a
//! user-facing message.
use vstd::prelude::*;

use crate::outside::reqwest_error_text;

verus! {

/// The kind and fixed message for an error with these flags, checked in the
/// order timeout, connect, decode, body; anything else is unknown and keeps
/// the error's own words.
pub open spec fn error_kind_name(
    timeout: bool,
    connect: bool,
    decode: bool,
    body: bool,
) -> Seq<char> {
    if timeout {
        "timeout_error"@
    } else if connect {
        "connection_error"@
    } else if decode {
        "decode_error"@
    } else if body {
        "stream_error"@
    } else {
        "unknown_error"@
    }
}

/// The fixed user-facing message of each known kind.
pub open spec fn error_kind_message(
    timeout: bool,
    connect: bool,
    decode: bool,
    body: bool,
    detail: Seq<char>,
) -> Seq<char> {
    if timeout {
        "请求超时,请检查网络连接"@
    } else if connect {
        "无法连接到服务器,请检查网络或代理设置"@
    } else if decode {
        "网络连接不稳定,数据传输中断。建议: 1) 检查网络连接 2) 更换代理节点 3) 稍后重试"@
    } else if body {
        "数据流传输错误,请稍后重试"@
    } else {
        "发生未知错误。错误详情: "@ + detail
    }
}

/// Maps an error's flags to its kind and user-facing message.
pub fn classify_error_flags(timeout: bool, connect: bool, decode: bool, body: bool, detail: &str) -> (r:
    (String, String))
    ensures
        r.0@ == error_kind_name(timeout, connect, decode, body),
        r.1@ == error_kind_message(timeout, connect, decode, body, detail@),
{
    if timeout {
        (String::from_str("timeout_error"), String::from_str("请求超时,请检查网络连接"))
    } else if connect {
        (
            String::from_str("connection_error"),
            String::from_str("无法连接到服务器,请检查网络或代理设置"),
        )
    } else if decode {
        (
            String::from_str("decode_error"),
            String::from_str(
                "网络连接不稳定,数据传输中断。建议: 1) 检查网络连接 2) 更换代理节点 3) 稍后重试",
            ),
        )
    } else if body {
        (String::from_str("stream_error"), String::from_str("数据流传输错误,请稍后重试"))
    } else {
        (
            String::from_str("unknown_error"),
            String::from_str("发生未知错误。错误详情: ").concat(detail),
        )
    }
}

/// Classifies a streaming error of the HTTP client into a stable kind and a
/// user-facing message. Whatever the client reports, the result is one of
/// the five kinds with its fixed message (the unknown kind carries the
/// error's own words).
pub fn classify_stream_error(error: &reqwest::Error) -> (r: (String, String))
    ensures
        exists|t: bool, c: bool, d: bool, b: bool, detail: Seq<char>|
            {
                &&& r.0@ == error_kind_name(t, c, d, b)
                &&& r.1@ == #[trigger] error_kind_message(t, c, d, b, detail)
            },
{
    let timeout = error.is_timeout();
    let connect = error.is_connect();
    let decode = error.is_decode();
    let body = error.is_body();
    let detail = reqwest_error_text(error);
    let r = classify_error_flags(timeout, connect, decode, body, detail.as_str());
    proof {
        assert(r.0@ == error_kind_name(timeout, connect, decode, body) && r.1@
            == error_kind_message(timeout, connect, decode, body, detail@));
    }
    r
}

} // verus!
