use rzem_ai_inference::client::api::{
    chat_url, generate_url, get_file_url, health_url, job_url, queue_url, status_meaning, Request,
    StatusMeaning,
};
use rzem_ai_inference::client::ClientConfig;

#[test]
fn websocket_address_follows_the_server_address() {
    let c = ClientConfig::new("http://192.168.1.100:8080".to_string());
    assert_eq!(c.ws_url, "ws://192.168.1.100:8080");
    assert_eq!(c.api_base(), "http://192.168.1.100:8080/api/v1");
    assert_eq!(c.ws_url(), "ws://192.168.1.100:8080/api/v1/ws");
    let s = ClientConfig::new("https://host".to_string());
    assert_eq!(s.ws_url, "wss://host");
}

#[test]
fn endpoint_addresses() {
    let c = ClientConfig::new("http://h:1".to_string());
    assert_eq!(health_url(&c), "http://h:1/api/v1/health");
    assert_eq!(generate_url(&c), "http://h:1/api/v1/generate");
    assert_eq!(queue_url(&c), "http://h:1/api/v1/queue");
    assert_eq!(job_url(&c, "j1"), "http://h:1/api/v1/queue/j1");
    assert_eq!(get_file_url(&c, "a.png"), "http://h:1/api/v1/files/a.png");
    assert_eq!(chat_url(&c), "http://h:1/api/v1/chat/refine");
}

#[test]
fn statuses_by_request() {
    assert_eq!(status_meaning(Request::GetJob, 404), StatusMeaning::Special);
    assert_eq!(status_meaning(Request::Health, 404), StatusMeaning::Failure);
    assert_eq!(status_meaning(Request::CancelJob, 400), StatusMeaning::Special);
    assert_eq!(status_meaning(Request::CancelJob, 204), StatusMeaning::Success);
    assert_eq!(status_meaning(Request::DownloadFile, 500), StatusMeaning::Failure);
    assert_eq!(status_meaning(Request::Submit, 299), StatusMeaning::Success);
    assert_eq!(status_meaning(Request::Submit, 300), StatusMeaning::Failure);
}
