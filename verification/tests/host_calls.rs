use rayslash_module_host::cache::{
    finish_cache_get, plan_cache_get, plan_cache_put, valid_cache_key, CacheRead,
};
use rayslash_module_host::compiler::{
    check_module_size, compile_module, temporary_file_name, CompileError,
};
use rayslash_module_host::host_error::HostError;
use rayslash_module_host::http::{
    build_http_request, is_reserved_header_name, method_text, method_named, prepare_http_request,
    select_response_headers, HttpMethod, HttpRequest, NetworkGrants, OutboundRequest,
};
use rayslash_module_host::runtime::wt;
use rayslash_module_host::startup::check_memory_limit;

#[test]
fn cache_keys_are_bounded_names() {
    assert!(valid_cache_key("a"));
    assert!(valid_cache_key("A-z_0.9"));
    assert!(valid_cache_key(&"k".repeat(128)));
    assert!(!valid_cache_key(&"k".repeat(129)));
    assert!(!valid_cache_key(""));
    assert!(!valid_cache_key("sp ace"));
    assert!(!valid_cache_key("ключ"));
    assert!(!valid_cache_key("a\\b"));
    assert!(!valid_cache_key("."));
    assert!(!valid_cache_key(".."));
    assert!(valid_cache_key("..."));
    assert!(valid_cache_key(".a"));
    assert!(valid_cache_key("a.."));
}

#[test]
fn cache_reads_give_back_stored_values() {
    assert_eq!(plan_cache_get("rates").unwrap(), "rates");
    assert_eq!(plan_cache_get("../x").unwrap_err(), HostError::InvalidCacheKey);
    assert_eq!(HostError::InvalidCacheKey.message(), "invalid cache key");
    let write = plan_cache_put("rates", vec![1, 2, 3]).unwrap();
    assert_eq!(write.target, "rates");
    assert_eq!(write.temporary, ".rates.tmp");
    assert_eq!(write.value, vec![1, 2, 3]);
    assert_eq!(finish_cache_get(CacheRead::Found(write.value)).unwrap(), Some(vec![1, 2, 3]));
    assert_eq!(finish_cache_get(CacheRead::NotFound).unwrap(), None);
    assert_eq!(finish_cache_get(CacheRead::Failed).unwrap_err(), HostError::CacheReadFailed);
    assert_eq!(
        finish_cache_get(CacheRead::Found(vec![0; 1024 * 1024 + 1])).unwrap_err(),
        HostError::CachedValueTooLarge
    );
    assert_eq!(HostError::CachedValueTooLarge.message(), "cached value exceeds limit");
    assert_eq!(HostError::CacheReadFailed.message(), "cache read failed");
}

#[test]
fn cache_writes_are_bounded() {
    assert!(plan_cache_put("k", vec![0; 1024 * 1024]).is_ok());
    assert_eq!(
        plan_cache_put("k", vec![0; 1024 * 1024 + 1]).err().unwrap(),
        HostError::InvalidCacheWrite
    );
    assert_eq!(plan_cache_put("a/b", Vec::new()).err().unwrap(), HostError::InvalidCacheWrite);
    assert_eq!(HostError::InvalidCacheWrite.message(), "invalid cache write");
    assert_eq!(HostError::CacheDirectoryUnavailable.message(), "cache directory unavailable");
    assert_eq!(HostError::CacheWriteFailed.message(), "cache write failed");
}

fn request(method: &str, url: &str, headers: &[(&str, &str)], body: usize) -> HttpRequest {
    HttpRequest {
        method: method.to_string(),
        url: url.to_string(),
        headers: headers.iter().map(|(n, v)| (n.to_string(), v.to_string())).collect(),
        body: vec![0; body],
    }
}

fn grants() -> NetworkGrants {
    NetworkGrants::new(vec!["https://api.example.com".to_string()])
}

#[test]
fn granted_requests_go_out_unchanged() {
    let out = prepare_http_request(
        &grants(),
        request("get", "https://api.example.com/v1?x=1", &[("Accept", "text/plain")], 3),
    )
    .unwrap();
    assert_eq!(out.method, HttpMethod::Get);
    assert_eq!(out.url, "https://api.example.com/v1?x=1");
    assert_eq!(out.headers, vec![("Accept".to_string(), "text/plain".to_string())]);
    assert_eq!(out.body, vec![0, 0, 0]);
    let out = prepare_http_request(&grants(), request("PoSt", "https://api.example.com", &[], 0)).unwrap();
    assert_eq!(out.method, HttpMethod::Post);
}

#[test]
fn requests_are_refused_in_order() {
    let g = grants();
    let refused = |r: HttpRequest| prepare_http_request(&g, r).err().unwrap();
    assert_eq!(
        refused(request("GET", "http://x", &[], 2 * 1024 * 1024 + 1)),
        HostError::HttpRequestTooLarge
    );
    let many: Vec<(&str, &str)> = (0..33).map(|_| ("X-A", "1")).collect();
    assert_eq!(refused(request("GET", "https://api.example.com", &many, 0)), HostError::HttpRequestTooLarge);
    assert_eq!(refused(request("GET", "http://api.example.com", &[], 0)), HostError::NotHttps);
    assert_eq!(refused(request("GET", "https://other.example.com/", &[], 0)), HostError::OriginNotGranted);
    assert_eq!(refused(request("GET", "https://api.example.com:443/", &[], 0)), HostError::OriginNotGranted);
    assert_eq!(refused(request("PUT", "https://api.example.com/", &[], 0)), HostError::MethodNotGranted);
    assert_eq!(
        refused(request("GET", "https://api.example.com/", &[("Accept", "*"), ("COOKIE", "a=b")], 0)),
        HostError::ForbiddenHeader
    );
    assert_eq!(HostError::HttpRequestTooLarge.message(), "HTTP request exceeds limits");
    assert_eq!(HostError::NotHttps.message(), "only absolute HTTPS URLs are allowed");
    assert_eq!(HostError::OriginNotGranted.message(), "network origin was not granted");
    assert_eq!(HostError::MethodNotGranted.message(), "HTTP method was not granted");
    assert_eq!(HostError::ForbiddenHeader.message(), "forbidden HTTP header");
    assert_eq!(HostError::InvalidHttpRequest.message(), "invalid HTTP request");
    assert_eq!(HostError::HttpRequestFailed.message(), "HTTP request failed");
    assert_eq!(HostError::HttpResponseTooLarge.message(), "HTTP response exceeds limits");
}

#[test]
fn methods_and_headers_ignore_ascii_case() {
    assert_eq!(method_named("Get"), Some(HttpMethod::Get));
    assert_eq!(method_named("post"), Some(HttpMethod::Post));
    assert_eq!(method_named("GETS"), None);
    assert_eq!(method_named(""), None);
    for name in ["Authorization", "cookie", "Proxy-Authorization", "HOST", "Connection"] {
        assert!(is_reserved_header_name(name));
    }
    assert!(!is_reserved_header_name("Content-Type"));
    assert!(!is_reserved_header_name("hosts"));
}

#[test]
fn response_headers_keep_text_values_up_to_the_limit() {
    let headers: Vec<(String, Option<String>)> = (0..70)
        .map(|i| (format!("h{i}"), if i % 2 == 0 { Some(format!("v{i}")) } else { None }))
        .collect();
    let kept = select_response_headers(headers);
    assert_eq!(kept.len(), 35);
    assert_eq!(kept[1], ("h2".to_string(), "v2".to_string()));
    let headers: Vec<(String, Option<String>)> =
        (0..70).map(|i| (format!("h{i}"), Some(String::new()))).collect();
    let kept = select_response_headers(headers);
    assert_eq!(kept.len(), 64);
    assert_eq!(kept[63].0, "h63");
}

#[test]
fn memory_limits_are_bounded() {
    assert!(check_memory_limit(0).is_err());
    assert!(check_memory_limit(1).is_ok());
    assert!(check_memory_limit(256).is_ok());
    let error = check_memory_limit(257).err().unwrap();
    assert_eq!(error.message(), "memory limit must be between 1 and 256 MiB");
}

#[test]
fn compiled_modules_are_bounded_and_written_aside() {
    assert!(check_module_size(64 * 1024 * 1024).is_ok());
    assert_eq!(check_module_size(64 * 1024 * 1024 + 1).unwrap_err(), CompileError::ModuleTooLarge);
    assert_eq!(
        CompileError::ModuleTooLarge.message(),
        "module exceeds the 64 MiB compiler input limit"
    );
    assert_eq!(temporary_file_name(Some("app.cwasm"), 4021), ".app.cwasm.4021.tmp");
    assert_eq!(temporary_file_name(None, 0), ".module.0.tmp");
    assert_eq!(temporary_file_name(Some("x"), u32::MAX), ".x.4294967295.tmp");
}

#[test]
fn runtime_errors_keep_their_message() {
    assert_eq!(wt(Ok::<u8, wasmtime::Error>(5)).unwrap(), 5);
    let error = wt(Err::<u8, wasmtime::Error>(wasmtime::Error::msg("fuel exhausted"))).unwrap_err();
    assert_eq!(error.to_string(), "fuel exhausted");
}

#[test]
fn modules_are_compiled_within_the_limit() {
    let too_large = vec![0u8; 64 * 1024 * 1024 + 1];
    assert_eq!(compile_module(&too_large).unwrap_err(), CompileError::ModuleTooLarge);
    let error = compile_module(b"not a component").unwrap_err();
    assert!(matches!(error, CompileError::PrecompileFailed(_)));
    assert!(error.message().starts_with("failed to precompile module component: "));
    let artifact = compile_module(b"(component)").unwrap();
    assert!(!artifact.is_empty());
}

#[test]
fn outbound_requests_carry_the_host_user_agent() {
    let built = build_http_request(OutboundRequest {
        method: HttpMethod::Post,
        url: "https://api.example.com/v1".to_string(),
        headers: vec![("Accept".to_string(), "text/plain".to_string())],
        body: vec![7, 8],
    })
    .unwrap();
    assert_eq!(built.method, HttpMethod::Post);
    assert_eq!(method_text(built.method), "POST");
    assert_eq!(built.url, "https://api.example.com/v1");
    assert_eq!(
        built.headers,
        vec![
            ("Accept".to_string(), "text/plain".to_string()),
            ("User-Agent".to_string(), "rayslash-module-host/1".to_string()),
        ]
    );
    assert_eq!(built.body, vec![7, 8]);
    let bad = build_http_request(OutboundRequest {
        method: HttpMethod::Get,
        url: "https://api.example.com/".to_string(),
        headers: vec![("Bad Name".to_string(), "x".to_string())],
        body: Vec::new(),
    });
    assert_eq!(bad.err().unwrap(), HostError::InvalidHttpRequest);
    let bad_value = build_http_request(OutboundRequest {
        method: HttpMethod::Get,
        url: "https://api.example.com/".to_string(),
        headers: vec![("X-Ok".to_string(), "line\nbreak".to_string())],
        body: Vec::new(),
    });
    assert_eq!(bad_value.err().unwrap(), HostError::InvalidHttpRequest);
}
