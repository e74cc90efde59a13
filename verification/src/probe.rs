use crate::link::{describe, host_of, port_of, url_host, url_parses, url_port};
use crate::number::{decimal_digits, push_decimal};
use crate::scheduler::is_success_status;
use crate::text::{
    contains, has_prefix, has_substring, push_str, starts_with, string_from_chars, to_chars,
};
use vstd::prelude::*;

verus! {

/// The URL under which a proxy is reached: the given one where it names the
/// scheme `http` or `https`, else the given one as the rest of an `http`
/// URL.
pub open spec fn proxy_address(proxy_url: Seq<char>) -> Seq<char> {
    if has_prefix(proxy_url, "http://"@) || has_prefix(proxy_url, "https://"@) {
        proxy_url
    } else {
        "http://"@ + proxy_url
    }
}

/// Where a proxy is to be tried.
#[derive(Debug, Clone)]
pub struct ProbeTarget {
    /// The URL of the proxy.
    pub address: String,
    pub host: String,
    pub port: u16,
}

/// Whether a proxy can be tried at all: its address is an absolute URL with
/// a host.
pub open spec fn can_probe(proxy_url: Seq<char>) -> bool {
    url_parses(proxy_address(proxy_url)) && url_host(proxy_address(proxy_url)) is Some
}

/// How the attempt to connect to a proxy ended.
#[derive(Debug, Clone)]
pub enum ConnectOutcome {
    Connected,
    /// The connection failed, with this message.
    Failed(String),
    TimedOut,
}

/// How the request through a proxy ended.
#[derive(Debug, Clone)]
pub enum RequestOutcome {
    /// A response came, with this status and this body.
    Response(u16, String),
    /// The request or the reading of the body failed, with this message.
    Failed(String),
    TimedOut,
}

/// The words in the body of the page that is requested through a proxy, by
/// which the page is known.
pub open spec fn page_mark() -> Seq<char> {
    "百度一下"@
}

/// Whether a request through a proxy shows that the proxy works: the
/// response reports success and its body is the page that was asked for.
pub open spec fn proxy_works(outcome: RequestOutcome) -> bool {
    outcome matches RequestOutcome::Response(status, body) && is_success_status(status)
        && has_substring(body@, page_mark())
}

/// Why a request through a proxy shows that it does not work.
pub open spec fn request_complaint(outcome: RequestOutcome) -> Seq<char> {
    match outcome {
        RequestOutcome::Response(status, body) => if is_success_status(status) {
            "代理响应格式异常"@
        } else {
            "代理响应错误: "@ + decimal_digits(status as nat)
        },
        RequestOutcome::Failed(message) => "代理HTTP请求失败: "@ + message@,
        RequestOutcome::TimedOut => "代理HTTP请求超时"@,
    }
}

/// Why a failed attempt to connect shows that a proxy does not work.
pub open spec fn connect_complaint(outcome: ConnectOutcome) -> Seq<char> {
    match outcome {
        ConnectOutcome::Connected => Seq::empty(),
        ConnectOutcome::Failed(message) => "代理服务器不可达: "@ + message@,
        ConnectOutcome::TimedOut => "代理服务器连接超时"@,
    }
}

/// The URL under which a proxy is reached.
pub fn proxy_endpoint(proxy_url: &str) -> (address: String)
    ensures
        address@ == proxy_address(proxy_url@),
{
    let chars = to_chars(proxy_url);
    if starts_with(chars.as_slice(), "http://") || starts_with(chars.as_slice(), "https://") {
        proxy_url.to_owned()
    } else {
        let mut text: Vec<char> = Vec::new();
        push_str(&mut text, "http://");
        push_str(&mut text, proxy_url);
        assert(text@ =~= "http://"@ + proxy_url@);
        string_from_chars(text.as_slice())
    }
}

/// Tells where the proxy `proxy_url` is to be tried: at the host of its
/// address, and at the port that the address names or else at port 80. An
/// address that is no URL, or has no host, is refused with a message.
pub fn plan_probe(proxy_url: &str) -> (r: Result<ProbeTarget, String>)
    ensures
        r is Ok <==> can_probe(proxy_url@),
        r matches Ok(t) ==> {
            &&& t.address@ == proxy_address(proxy_url@)
            &&& Some(t.host@) == url_host(proxy_address(proxy_url@))
            &&& t.port == match url_port(proxy_address(proxy_url@)) {
                Some(p) => p,
                None => 80,
            }
        },
{
    let address = proxy_endpoint(proxy_url);
    let host = match host_of(address.as_str()) {
        Ok(Some(host)) => host,
        Ok(None) => {
            return Err("代理URL缺少主机名".to_owned());
        },
        Err(e) => {
            let mut text: Vec<char> = Vec::new();
            push_str(&mut text, "代理URL解析失败: ");
            push_str(&mut text, describe(&e).as_str());
            return Err(string_from_chars(text.as_slice()));
        },
    };
    let port = match port_of(address.as_str()) {
        Some(p) => p,
        None => 80,
    };
    Ok(ProbeTarget { address, host, port })
}

/// Takes in how the attempt to connect to a proxy ended: the request through
/// it follows only where the connection was made.
pub fn after_connect(outcome: &ConnectOutcome) -> (r: Result<(), String>)
    ensures
        r is Ok <==> *outcome is Connected,
        r matches Err(m) ==> m@ == connect_complaint(*outcome),
{
    match outcome {
        ConnectOutcome::Connected => Ok(()),
        ConnectOutcome::Failed(message) => {
            let mut text: Vec<char> = Vec::new();
            push_str(&mut text, "代理服务器不可达: ");
            push_str(&mut text, message.as_str());
            assert(text@ =~= connect_complaint(*outcome));
            Err(string_from_chars(text.as_slice()))
        },
        ConnectOutcome::TimedOut => Err("代理服务器连接超时".to_owned()),
    }
}

/// Takes in how the request through a proxy ended and tells whether the
/// proxy works.
pub fn is_proxy_valid(outcome: &RequestOutcome) -> (r: Result<(), String>)
    ensures
        r is Ok <==> proxy_works(*outcome),
        r matches Err(m) ==> m@ == request_complaint(*outcome),
{
    match outcome {
        RequestOutcome::Response(status, body) => {
            if 200 <= *status && *status < 300 {
                let chars = to_chars(body.as_str());
                if contains(chars.as_slice(), "百度一下") {
                    Ok(())
                } else {
                    Err("代理响应格式异常".to_owned())
                }
            } else {
                let mut text: Vec<char> = Vec::new();
                push_str(&mut text, "代理响应错误: ");
                push_decimal(&mut text, *status as u64);
                assert(text@ =~= request_complaint(*outcome));
                Err(string_from_chars(text.as_slice()))
            }
        },
        RequestOutcome::Failed(message) => {
            let mut text: Vec<char> = Vec::new();
            push_str(&mut text, "代理HTTP请求失败: ");
            push_str(&mut text, message.as_str());
            assert(text@ =~= request_complaint(*outcome));
            Err(string_from_chars(text.as_slice()))
        },
        RequestOutcome::TimedOut => Err("代理HTTP请求超时".to_owned()),
    }
}

} // verus!
