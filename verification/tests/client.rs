use nvw::client::{task_path, task_result_path, tasks_path, ApiClient, ClientError};

const ID: u128 = 0x550e_8400_e29b_41d4_a716_4466_5544_0000;

#[test]
fn base_url_is_kept_as_parsed() {
    let c = ApiClient::new("http://localhost:3000", "k88936").unwrap();
    assert_eq!(c.base_url(), "http://localhost:3000/");
    assert_eq!(c.token(), "k88936");
    let c = ApiClient::new("HTTP://Example.COM:80/api/", "t").unwrap();
    assert_eq!(c.base_url(), "http://example.com/api/");
}

#[test]
fn unparsable_base_url_is_refused() {
    assert_eq!(ApiClient::new("localhost:3000", "t").unwrap().base_url(), "localhost:3000");
    assert_eq!(ApiClient::new("not a url", "t").err(), Some(ClientError::InvalidBaseUrl));
    assert_eq!(ApiClient::new("", "t").err(), Some(ClientError::InvalidBaseUrl));
    assert_eq!(ApiClient::new("http://[::1", "t").err(), Some(ClientError::InvalidBaseUrl));
    assert_eq!(ClientError::InvalidBaseUrl.message(), "Invalid base URL");
    assert_eq!(ClientError::InvalidUrlPath.message(), "Invalid URL path");
}

#[test]
fn request_urls_join_paths_onto_the_base() {
    let c = ApiClient::new("http://localhost:3000", "t").unwrap();
    assert_eq!(c.url(&tasks_path()).unwrap(), "http://localhost:3000/v1/tasks");
    assert_eq!(
        c.url(&task_path(ID)).unwrap(),
        "http://localhost:3000/v1/tasks/550e8400-e29b-41d4-a716-446655440000"
    );
    let nested = ApiClient::new("http://host/base/", "t").unwrap();
    assert_eq!(nested.url("v1/tasks").unwrap(), "http://host/base/v1/tasks");
    let file = ApiClient::new("http://host/base", "t").unwrap();
    assert_eq!(file.url("v1/tasks").unwrap(), "http://host/v1/tasks");
    let opaque = ApiClient::new("mailto:someone@example.com", "t").unwrap();
    assert_eq!(opaque.url("v1/tasks").err(), Some(ClientError::InvalidUrlPath));
}

#[test]
fn task_paths_and_credentials() {
    assert_eq!(tasks_path(), "v1/tasks");
    assert_eq!(task_path(ID), "v1/tasks/550e8400-e29b-41d4-a716-446655440000");
    assert_eq!(task_result_path(0), "v1/tasks/00000000-0000-0000-0000-000000000000/result");
    let c = ApiClient::new("http://localhost:3000", "k88936").unwrap();
    assert_eq!(c.authorization(), "Bearer k88936");
}
