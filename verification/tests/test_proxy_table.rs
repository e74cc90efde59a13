use rust_m3u8::error::ErrorKind;
use rust_m3u8::probe::{
    after_connect, is_proxy_valid, plan_probe, proxy_endpoint, ConnectOutcome, RequestOutcome,
};
use rust_m3u8::proxy::{read_proxy_arg, ProxyConfig};
use rust_m3u8::utils::proxy::Proxies;

fn table() -> ProxyConfig {
    ProxyConfig::from_args(&vec![
        "10,http://proxy1.example.com:8080".to_string(),
        "15,http://proxy2.example.com:8080".to_string(),
        "20,http://proxy3.example.com:8080".to_string(),
    ])
    .unwrap()
}

#[test]
fn draw_falls_to_the_entry_whose_stretch_holds_it() {
    let config = table();
    for draw in 0..10 {
        assert_eq!(config.select_by_draw(draw), Some("http://proxy1.example.com:8080"));
    }
    for draw in 10..25 {
        assert_eq!(config.select_by_draw(draw), Some("http://proxy2.example.com:8080"));
    }
    for draw in 25..45 {
        assert_eq!(config.select_by_draw(draw), Some("http://proxy3.example.com:8080"));
    }
    assert_eq!(config.select_by_draw(45), None);
    assert_eq!(config.select_by_draw(u32::MAX), None);
}

#[test]
fn draws_follow_the_weights() {
    let config = table();
    let mut counts = [0usize; 3];
    let draws = 10_000;
    for _ in 0..draws {
        match config.get_random_proxy().unwrap() {
            "http://proxy1.example.com:8080" => counts[0] += 1,
            "http://proxy2.example.com:8080" => counts[1] += 1,
            "http://proxy3.example.com:8080" => counts[2] += 1,
            other => panic!("an endpoint that is not in the table: {}", other),
        }
    }
    let expected = [10.0 / 45.0, 15.0 / 45.0, 20.0 / 45.0];
    for i in 0..3 {
        let frequency = counts[i] as f64 / draws as f64;
        assert!((frequency - expected[i]).abs() < 0.03);
    }
}

#[test]
fn empty_table_gives_no_proxy() {
    let config = ProxyConfig::new();
    assert_eq!(config.len(), 0);
    assert_eq!(config.get_random_proxy(), None);
    assert_eq!(config.select_by_draw(0), None);
}

#[test]
fn entries_without_weight_or_beyond_the_range_are_refused() {
    let mut config = ProxyConfig::new();
    assert!(!config.add_proxy("http://a".to_string(), 0));
    assert!(config.add_proxy("http://a".to_string(), u32::MAX - 1));
    assert!(!config.add_proxy("http://b".to_string(), 2));
    assert!(config.add_proxy("http://b".to_string(), 1));
    assert!(!config.add_proxy("http://c".to_string(), 1));
    assert_eq!(config.len(), 2);
    assert_eq!(config.select_by_draw(u32::MAX - 2), Some("http://a"));
    assert_eq!(config.select_by_draw(u32::MAX - 1), Some("http://b"));
}

#[test]
fn arguments_have_a_weight_and_an_endpoint() {
    let p = read_proxy_arg(" 10,http://proxy:8080 \n").unwrap();
    assert_eq!((p.url.as_str(), p.weight), ("http://proxy:8080", 10));
    assert_eq!(read_proxy_arg("10,").unwrap().url, "");
    for malformed in ["invalid_format", "", "0,http://p", "x,http://p", "-1,http://p", "1,2,3", "4294967296,http://p", "1 ,http://p"] {
        assert!(read_proxy_arg(malformed).is_none());
        let e = ProxyConfig::from_args(&vec!["1,http://ok".to_string(), malformed.to_string()]).err().unwrap();
        assert_eq!(e.error_kind(), ErrorKind::ConfigError);
    }
}

#[test]
fn no_arguments_are_an_empty_error() {
    assert_eq!(ProxyConfig::from_args(&vec![]).err().unwrap().error_kind(), ErrorKind::EmptyError);
}

#[test]
fn weights_beyond_the_range_are_a_configuration_error() {
    let args = vec!["4294967295,http://a".to_string(), "1,http://b".to_string()];
    assert_eq!(ProxyConfig::from_args(&args).err().unwrap().error_kind(), ErrorKind::ConfigError);
    let list = vec![("http://a".to_string(), u32::MAX), ("http://b".to_string(), 1)];
    assert_eq!(Proxies::parse(&list).err().unwrap().error_kind(), ErrorKind::ConfigError);
}

#[test]
fn proxies_leave_out_entries_without_weight() {
    let list = vec![
        ("http://zero".to_string(), 0),
        ("http://one".to_string(), 1),
        ("http://none".to_string(), 0),
        ("http://three".to_string(), 3),
    ];
    let proxies = Proxies::parse(&list).unwrap();
    assert_eq!(proxies.len(), 2);
    assert_eq!(proxies.select_by_draw(0), Some("http://one"));
    assert_eq!(proxies.select_by_draw(1), Some("http://three"));
    assert_eq!(proxies.select_by_draw(3), Some("http://three"));
    assert_eq!(proxies.select_by_draw(4), None);
    for _ in 0..50 {
        let picked = proxies.select().unwrap();
        assert!(picked == "http://one" || picked == "http://three");
    }
}

#[test]
fn proxies_without_usable_entries_are_an_empty_error() {
    assert_eq!(Proxies::parse(&vec![]).err().unwrap().error_kind(), ErrorKind::EmptyError);
    let list = vec![("http://zero".to_string(), 0)];
    assert_eq!(Proxies::parse(&list).err().unwrap().error_kind(), ErrorKind::EmptyError);
}

#[test]
fn proxy_address_gets_a_scheme_where_it_has_none() {
    assert_eq!(proxy_endpoint("127.0.0.1:9090"), "http://127.0.0.1:9090");
    assert_eq!(proxy_endpoint("http://p:1"), "http://p:1");
    assert_eq!(proxy_endpoint("https://p:1"), "https://p:1");
    assert_eq!(proxy_endpoint("socks5://p:1"), "http://socks5://p:1");
}

#[test]
fn probe_goes_to_host_and_port_of_the_address() {
    let target = plan_probe("127.0.0.1:9090").unwrap();
    assert_eq!(target.address, "http://127.0.0.1:9090");
    assert_eq!(target.host, "127.0.0.1");
    assert_eq!(target.port, 9090);
    let target = plan_probe("https://Proxy.Example.com").unwrap();
    assert_eq!(target.host, "proxy.example.com");
    assert_eq!(target.port, 80);
    let target = plan_probe("http://proxy.example.com:80").unwrap();
    assert_eq!(target.port, 80);
    assert!(plan_probe("http://").is_err());
    assert!(plan_probe("host:notaport").is_err());
}

#[test]
fn connection_must_be_made_before_the_request() {
    assert_eq!(after_connect(&ConnectOutcome::Connected), Ok(()));
    assert_eq!(
        after_connect(&ConnectOutcome::Failed("refused".to_string())),
        Err("代理服务器不可达: refused".to_string())
    );
    assert_eq!(after_connect(&ConnectOutcome::TimedOut), Err("代理服务器连接超时".to_string()));
}

#[test]
fn proxy_works_where_the_page_comes_through() {
    let page = "<title>百度一下，你就知道</title>".to_string();
    assert_eq!(is_proxy_valid(&RequestOutcome::Response(200, page.clone())), Ok(()));
    assert_eq!(
        is_proxy_valid(&RequestOutcome::Response(200, "<html></html>".to_string())),
        Err("代理响应格式异常".to_string())
    );
    assert_eq!(
        is_proxy_valid(&RequestOutcome::Response(407, page)),
        Err("代理响应错误: 407".to_string())
    );
    assert_eq!(
        is_proxy_valid(&RequestOutcome::Failed("reset".to_string())),
        Err("代理HTTP请求失败: reset".to_string())
    );
    assert_eq!(is_proxy_valid(&RequestOutcome::TimedOut), Err("代理HTTP请求超时".to_string()));
}

#[test]
fn only_working_proxies_are_kept() {
    let config = table();
    assert_eq!(config.endpoint(1), Some("http://proxy2.example.com:8080"));
    assert_eq!(config.endpoint(3), None);
    let kept = config.keep_working(&vec![true, false, true]).unwrap();
    assert_eq!(kept.len(), 2);
    assert_eq!(kept.endpoint(0), Some("http://proxy1.example.com:8080"));
    assert_eq!(kept.endpoint(1), Some("http://proxy3.example.com:8080"));
    assert_eq!(kept.select_by_draw(9), Some("http://proxy1.example.com:8080"));
    assert_eq!(kept.select_by_draw(10), Some("http://proxy3.example.com:8080"));
    assert_eq!(kept.select_by_draw(30), None);
    assert_eq!(config.keep_working(&vec![false, true]).unwrap().len(), 1);
    assert_eq!(config.keep_working(&vec![true, true, true, true]).unwrap().len(), 3);
    assert_eq!(config.keep_working(&vec![]).err().unwrap().error_kind(), ErrorKind::EmptyError);
    assert_eq!(
        config.keep_working(&vec![false, false, false]).err().unwrap().error_kind(),
        ErrorKind::EmptyError
    );
}
