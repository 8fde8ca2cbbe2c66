use depot_downloader::cdn::client::{CdnClient, CdnError};
use depot_downloader::cdn::download::{DownloadTask, MAX_CONCURRENT_DOWNLOADS};
use depot_downloader::cdn::server::{CdnServer, CdnServerPool};

fn server(host: &str, weight: u32) -> CdnServer {
    CdnServer::new(host.to_string(), 80, false).with_weight(weight)
}

#[test]
fn server_urls() {
    let s = CdnServer::new("cdn.example.com".to_string(), 443, true);
    assert_eq!(s.weight, 1);
    assert!(s.proxy_server.is_none());
    assert_eq!(s.url(), "https://cdn.example.com:443");
    assert_eq!(s.base_url(), "https://cdn.example.com:443");
    assert_eq!(
        s.depot_url(731, 42),
        "https://cdn.example.com:443/depot/731/manifest/42/chunk"
    );
    assert_eq!(
        s.manifest_url(731, 42),
        "https://cdn.example.com:443/depot/731/manifest/42/blob"
    );
    assert_eq!(
        s.chunk_url(731, "deadbeef"),
        "https://cdn.example.com:443/depot/731/chunk/deadbeef_001"
    );
    let plain = CdnServer::new("h".to_string(), 80, false);
    assert_eq!(plain.url(), "http://h:80");
}

#[test]
fn server_builders() {
    let s = CdnServer::new("h".to_string(), 1, false)
        .with_weight(7)
        .with_proxy("proxy:8080".to_string());
    assert_eq!(s.weight, 7);
    assert_eq!(s.proxy_server.as_deref(), Some("proxy:8080"));
    assert_eq!(s.port, 1);
}

#[test]
fn pool_hands_out_servers_in_turn() {
    let mut pool = CdnServerPool::new(vec![server("a", 1), server("b", 1), server("c", 1)]);
    let order: Vec<String> = (0..7).map(|_| pool.get_server().unwrap().host.clone()).collect();
    assert_eq!(order, vec!["a", "b", "c", "a", "b", "c", "a"]);
}

#[test]
fn empty_pool_has_nothing_to_hand_out() {
    let mut pool = CdnServerPool::new(vec![]);
    assert!(pool.get_server().is_none());
    assert!(pool.get_server_by_weight().is_none());
    assert_eq!(pool.server_count(), 0);
    assert_eq!(pool.total_weight(), 0);
}

#[test]
fn pool_add_and_remove_servers() {
    let mut pool = CdnServerPool::new(vec![server("a", 1)]);
    pool.add_server(server("b", 1));
    pool.add_server(server("a", 2));
    assert_eq!(pool.server_count(), 3);
    pool.remove_server("a");
    assert_eq!(pool.server_count(), 1);
    assert_eq!(pool.get_server().unwrap().host, "b");
    pool.remove_server("nobody");
    assert_eq!(pool.server_count(), 1);
}

#[test]
fn select_by_weight_picks_by_running_sum() {
    let pool = CdnServerPool::new(vec![server("a", 2), server("b", 0), server("c", 3)]);
    assert_eq!(pool.total_weight(), 5);
    let picks: Vec<String> = (0..5).map(|x| pool.select_by_weight(x).unwrap().host.clone()).collect();
    assert_eq!(picks, vec!["a", "a", "c", "c", "c"]);
    // A draw past the total falls back to the first server.
    assert_eq!(pool.select_by_weight(5).unwrap().host, "a");
}

#[test]
fn weighted_pick_never_gives_a_server_of_weight_zero() {
    let mut pool = CdnServerPool::new(vec![server("zero", 0), server("one", 1), server("z2", 0)]);
    for _ in 0..50 {
        assert_eq!(pool.get_server_by_weight().unwrap().host, "one");
    }
}

#[test]
fn weighted_pick_with_all_weights_zero_goes_in_turn() {
    let mut pool = CdnServerPool::new(vec![server("a", 0), server("b", 0)]);
    assert_eq!(pool.get_server_by_weight().unwrap().host, "a");
    assert_eq!(pool.get_server_by_weight().unwrap().host, "b");
    assert_eq!(pool.get_server_by_weight().unwrap().host, "a");
}

#[test]
fn client_default_servers() {
    let client = CdnClient::new();
    assert_eq!(client.get_server_count(), 0);
    let list = client.fetch_server_list();
    let hosts: Vec<&str> = list.iter().map(|s| s.host.as_str()).collect();
    assert_eq!(
        hosts,
        vec!["valve1.steamcontent.com", "valve2.steamcontent.com", "valve3.steamcontent.com"]
    );
    assert!(list.iter().all(|s| s.port == 80 && !s.https && s.weight == 100));
}

#[test]
fn client_urls_go_round_the_servers() {
    let mut client = CdnClient::new();
    assert_eq!(client.next_chunk_url(1, "c"), Err(CdnError::NoServers));
    assert_eq!(client.next_manifest_url(1, 2), Err(CdnError::NoServers));
    assert!(client.get_server().is_none());
    client.set_servers(vec![server("a", 1)]);
    client.add_server(server("b", 1));
    client.set_auth_token("a", "t1".to_string());
    assert_eq!(client.get_server_count(), 2);
    assert_eq!(client.next_manifest_url(5, 6).unwrap(), "http://a:80/depot/5/manifest/6/blob");
    assert_eq!(client.next_chunk_url(5, "ab").unwrap(), "http://b:80/depot/5/chunk/ab_001");
    assert_eq!(client.get_server().unwrap().host, "a");
}

#[test]
fn download_task_holds_its_fields() {
    let t = DownloadTask {
        url: "http://a/x".to_string(),
        output_path: "/tmp/x".to_string(),
        file_name: "x".to_string(),
        file_size: 10,
    };
    assert_eq!(t.file_size, 10);
    assert_eq!(t.file_name, "x");
    assert_eq!(MAX_CONCURRENT_DOWNLOADS, 8);
}

#[test]
fn content_answers_by_status() {
    assert_eq!(CdnClient::body_from_response(200, vec![1, 2]), Ok(vec![1, 2]));
    assert_eq!(CdnClient::body_from_response(299, vec![]), Ok(vec![]));
    assert_eq!(CdnClient::body_from_response(404, vec![1]), Err(CdnError::HttpStatus(404)));
    assert_eq!(CdnClient::body_from_response(100, vec![1]), Err(CdnError::HttpStatus(100)));
}

#[test]
fn weighted_pick_works_whatever_the_turn() {
    let mut pool = CdnServerPool::new(vec![server("a", 1), server("b", 1)]);
    assert_eq!(pool.get_server().unwrap().host, "a");
    pool.remove_server("b");
    // The turn now points past the one server left; the weighted pick does
    // not read it.
    assert_eq!(pool.get_server_by_weight().unwrap().host, "a");
}
