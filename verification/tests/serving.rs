use interop_tests::browser::{
    driver_command, LaunchEvent, LaunchStep, ServeEvent, ServeStep, BROWSER_TIMEOUT,
    DRIVER_ARGUMENT, DRIVER_READY, DRIVER_URL, HOME_URL, SERVE_HOST, SERVE_PORT,
};
use interop_tests::page::{
    get_index, get_static_file, render_index, routes, static_answer, Page, ENDPOINT_PLACEHOLDER,
    NOT_FOUND,
};
use interop_tests::text::{contains, replace};
use libp2p::multiaddr::Multiaddr;

#[test]
fn text_is_searched() {
    assert!(contains("abc", ""));
    assert!(contains("", ""));
    assert!(contains("abc", "abc"));
    assert!(contains("xabcx", "abc"));
    assert!(contains("aab", "ab"));
    assert!(!contains("abc", "abcd"));
    assert!(!contains("acb", "ab"));
    assert!(!contains("", "a"));
    assert!(contains("grün", "ün"));
}

#[test]
fn text_is_replaced() {
    assert_eq!(replace("a-b-c", "-", "+"), "a+b+c");
    assert_eq!(replace("aaa", "aa", "b"), "ba");
    assert_eq!(replace("abab", "ab", ""), "");
    assert_eq!(replace("abab", "ab", "abab"), "abababab");
    assert_eq!(replace("", "x", "y"), "");
    assert_eq!(replace("nothing", "x", "y"), "nothing");
    assert_eq!(replace("größe", "ö", "oe"), "groesse".replace("sse", "ße"));
}

#[test]
fn placeholder_is_replaced_everywhere() {
    let template = "<a>__LIBP2P_ENDPOINT__</a><b>__LIBP2P_ENDPOINT__</b>";
    assert_eq!(render_index(template, "/ip4/1.2.3.4"), "<a>/ip4/1.2.3.4</a><b>/ip4/1.2.3.4</b>");
    assert_eq!(render_index("<p>plain</p>", "/ip4/1.2.3.4"), "<p>plain</p>");
    assert_eq!(render_index("___LIBP2P_ENDPOINT__", "x"), "_x");
    assert_eq!(ENDPOINT_PLACEHOLDER, "__LIBP2P_ENDPOINT__");
}

#[test]
fn index_names_the_endpoint() {
    let endpoint: Multiaddr = "/ip4/127.0.0.1/udp/4001/webrtc-direct".parse().unwrap();
    let page = get_index(Some(b"run('__LIBP2P_ENDPOINT__')"), &endpoint);
    assert_eq!(page, Ok("run('/ip4/127.0.0.1/udp/4001/webrtc-direct')".to_string()));
    assert_eq!(get_index(None, &endpoint), Err(NOT_FOUND));
    assert_eq!(NOT_FOUND, 404);
}

#[test]
fn static_files_have_their_media_type() {
    let file = |path| get_static_file(Some(vec![1, 2]), path);
    assert_eq!(file("app.wasm"), Ok(("application/wasm".to_string(), vec![1, 2])));
    assert_eq!(file("style.css"), Ok(("text/css".to_string(), vec![1, 2])));
    assert_eq!(file("README"), Ok(("application/octet-stream".to_string(), vec![1, 2])));
    assert_eq!(get_static_file(None, "app.wasm"), Err(404));
}

#[test]
fn media_type_is_guessed_past_a_colon() {
    assert_eq!(get_static_file(Some(vec![7]), "ab:c.html"), Ok(("text/html".to_string(), vec![7])));
    assert_eq!(get_static_file(Some(vec![7]), "/pkg/app.js").unwrap().1, vec![7]);
    assert_eq!(get_static_file(None, "ab:c.html"), Err(404));
}

#[test]
fn media_type_ignores_content() {
    for path in ["app.wasm", "style.css", "README", ".html", "a.b.css", "ab:c.html"] {
        let (one, _) = get_static_file(Some(vec![]), path).unwrap();
        let (other, body) = get_static_file(Some(b"<html></html>".to_vec()), path).unwrap();
        assert_eq!(one, other);
        assert_eq!(body, b"<html></html>");
    }
}

#[test]
fn filled_page_does_not_hold_the_placeholder() {
    let page = "__LIBP2P__LIBP2P_ENDPOINT___ENDPOINT__ ___LIBP2P_ENDPOINT____LIBP2P_ENDPOINT__";
    let endpoint: Multiaddr = "/ip4/10.0.0.1/udp/7/webrtc-direct/certhash/\
        uEiDDq4_xNyDorZBH3TlGazyJdOWSwvo4PUo5YHFMrvDE8g/p2p/\
        QmYyQSo1c1Ym7orWxLYvCrM2EmxFTANf8wXmmE7DWjhx5N"
        .parse()
        .unwrap();
    let html = get_index(Some(page.as_bytes()), &endpoint).unwrap();
    let text = endpoint.to_string();
    assert!(text.starts_with('/'));
    assert_eq!(html, format!("__LIBP2P{text}_ENDPOINT__ _{text}{text}"));
    assert!(!contains(&html, "__LIBP2P_ENDPOINT__"));
}

#[test]
fn text_that_ends_like_a_pattern_can_bring_it_back() {
    assert_eq!(replace("abcbc", "abc", "/a"), "/abc");
    assert_eq!(replace("abcbc", "abc", "/x"), "/xbc");
}

#[test]
fn static_answer_keeps_what_it_is_given() {
    let html = || "text/html".to_string();
    assert_eq!(static_answer(Some(vec![3]), html()), Ok(("text/html".to_string(), vec![3])));
    assert_eq!(static_answer(None, html()), Err(404));
}

#[test]
fn routes_lead_to_pages() {
    assert_eq!(
        routes(),
        [("/", Page::Index), ("/index.html", Page::Index), ("/:path", Page::StaticFile)]
    );
}

#[test]
fn driver_and_page_are_where_they_are_looked_for() {
    assert_eq!(driver_command(true), "chromedriver.cmd");
    assert_eq!(driver_command(false), "chromedriver");
    assert_eq!(DRIVER_ARGUMENT, "--port=45782");
    assert!(DRIVER_URL.ends_with(&DRIVER_ARGUMENT["--port=".len()..]));
    let [a, b, c, d] = SERVE_HOST;
    assert_eq!(HOME_URL, format!("http://{a}.{b}.{c}.{d}:{SERVE_PORT}/"));
    assert_eq!(HOME_URL, "http://127.0.0.1:8080/");
    assert_eq!(BROWSER_TIMEOUT, 15);
    assert_eq!(DRIVER_READY, "ChromeDriver was started successfully");
}

#[test]
fn launch_goes_step_by_step() {
    let order = [
        LaunchStep::SpawnDriver,
        LaunchStep::TakeStdout,
        LaunchStep::ReadLine,
        LaunchStep::SetHeadless,
        LaunchStep::SetDisableDevShmUsage,
        LaunchStep::SetNoSandbox,
        LaunchStep::CreateDriver,
        LaunchStep::Navigate,
        LaunchStep::Ready,
    ];
    for pair in order.windows(2) {
        let event = if pair[0] == LaunchStep::ReadLine {
            LaunchEvent::EndOfOutput
        } else {
            LaunchEvent::Done
        };
        assert_eq!(pair[0].next(event), Ok(pair[1]));
    }
    assert_eq!(LaunchStep::Ready.next(LaunchEvent::Done), Ok(LaunchStep::Ready));
}

#[test]
fn launch_reads_until_the_driver_is_ready() {
    let read = |line: &str| LaunchStep::ReadLine.next(LaunchEvent::Line(line.to_string()));
    assert_eq!(read("Starting ChromeDriver 120"), Ok(LaunchStep::ReadLine));
    assert_eq!(read(""), Ok(LaunchStep::ReadLine));
    assert_eq!(read("ChromeDriver was started successfully."), Ok(LaunchStep::SetHeadless));
    assert_eq!(LaunchStep::ReadLine.next(LaunchEvent::Done), Ok(LaunchStep::ReadLine));
    let ready = LaunchEvent::Line(DRIVER_READY.to_string());
    assert_eq!(LaunchStep::SpawnDriver.next(ready), Ok(LaunchStep::SpawnDriver));
    assert_eq!(LaunchStep::Navigate.next(LaunchEvent::EndOfOutput), Ok(LaunchStep::Navigate));
}

#[test]
fn launch_reports_failures() {
    let fail = |step: LaunchStep| step.next(LaunchEvent::Failed("why".to_string()));
    let report = |text: &str| Err(text.to_string());
    assert_eq!(fail(LaunchStep::SpawnDriver), report("why"));
    assert_eq!(fail(LaunchStep::TakeStdout), report("No stdout found for webdriver"));
    assert_eq!(fail(LaunchStep::ReadLine), report("why"));
    assert_eq!(fail(LaunchStep::SetHeadless), report("Failed to set headless"));
    assert_eq!(
        fail(LaunchStep::SetDisableDevShmUsage),
        report("Failed to set disable_dev_shm_usage")
    );
    assert_eq!(fail(LaunchStep::SetNoSandbox), report("Failed to set no_sandbox"));
    assert_eq!(fail(LaunchStep::CreateDriver), report("Failed to create web driver: why"));
    assert_eq!(fail(LaunchStep::Navigate), report("Failed to navigate to test service: why"));
}

#[test]
fn serving_closes_what_it_opened() {
    let failed = || ServeEvent::Failed("why".to_string());
    assert_eq!(ServeStep::OpenBrowser.next(ServeEvent::Done), Ok(ServeStep::AwaitShutdown));
    assert_eq!(ServeStep::AwaitShutdown.next(ServeEvent::Done), Ok(ServeStep::QuitDriver));
    assert_eq!(ServeStep::AwaitShutdown.next(ServeEvent::TimedOut), Ok(ServeStep::QuitDriver));
    assert_eq!(ServeStep::AwaitShutdown.next(failed()), Ok(ServeStep::QuitDriver));
    assert_eq!(ServeStep::QuitDriver.next(ServeEvent::Done), Ok(ServeStep::KillDriver));
    assert_eq!(ServeStep::QuitDriver.next(failed()), Err("why".to_string()));
    assert_eq!(ServeStep::KillDriver.next(ServeEvent::Done), Ok(ServeStep::Closed));
    assert_eq!(ServeStep::KillDriver.next(failed()), Err("why".to_string()));
    assert_eq!(ServeStep::Closed.next(ServeEvent::Done), Ok(ServeStep::Closed));
    assert_eq!(ServeStep::QuitDriver.next(ServeEvent::TimedOut), Ok(ServeStep::QuitDriver));
}
