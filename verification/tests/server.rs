use std::sync::Arc;

use tokio_util::sync::CancellationToken;

use foxglove_webtransport::c_api::{
    build_server, error_code, server_port, stop_server, ErrorCode, FoxgloveWebTransportServer,
    FoxgloveWebTransportServerOptions,
};
use foxglove_webtransport::channel::{AllChannels, ChannelDescriptor, SinkChannelFilter};
use foxglove_webtransport::context::Context;
use foxglove_webtransport::error::FoxgloveError;
use foxglove_webtransport::server::{
    accept_step, bind_address, compile_patterns, invalid_bind_address, invalid_tls_identity,
    keep_compiled, AcceptAction, AcceptEvent, ServerHandle, ServerOptions, SocketAddress,
    TlsIdentity,
};
use foxglove_webtransport::webtransport_server::{WebTransportServer, WebTransportServerHandle};

fn identity() -> TlsIdentity {
    TlsIdentity { cert_path: String::from("cert.pem"), key_path: String::from("key.pem") }
}

fn options<F: SinkChannelFilter>(server: WebTransportServer<F>) -> ServerOptions<F> {
    match server.into_options() {
        Ok((options, _)) => options,
        Err(error) => panic!("{error:?}"),
    }
}

#[test]
fn default_options() {
    let options: ServerOptions<AllChannels> = ServerOptions::default();
    assert_eq!(options.host, "0.0.0.0");
    assert_eq!(options.port, 8766);
    assert_eq!(options.tls.cert_path, "");
    assert_eq!(options.tls.key_path, "");
    assert_eq!(options.compression_level, 1);
    assert_eq!(options.message_backlog_size, 1024);
    assert_eq!(options.max_datagram_size, 1200);
    assert!(options.datagram_topic_patterns.is_empty());
    assert!(options.channel_filter.is_none());
}

#[test]
fn builder_defaults() {
    let (options, context) = WebTransportServer::new().tls(identity()).into_options().ok().unwrap();
    assert_eq!(options.host, "0.0.0.0");
    assert_eq!(options.port, 8766);
    assert_eq!(options.tls.cert_path, "cert.pem");
    assert_eq!(options.tls.key_path, "key.pem");
    assert_eq!(options.compression_level, 1);
    assert_eq!(options.message_backlog_size, 1024);
    assert_eq!(options.max_datagram_size, 1200);
    assert!(options.datagram_topic_patterns.is_empty());
    assert!(options.channel_filter.is_none());
    assert_eq!(context.id(), 0);
}

#[test]
fn builder_settings() {
    let (options, context) = WebTransportServer::new()
        .bind("127.0.0.1", 0)
        .tls(identity().clone())
        .compression_level(7)
        .message_backlog_size(3)
        .max_datagram_size(500)
        .datagram_topics(vec![String::from("a"), String::from("b")])
        .context(&Context::new(9))
        .channel_filter_fn(|c: &ChannelDescriptor| c.topic() == "x")
        .into_options()
        .ok()
        .unwrap();
    assert_eq!(options.host, "127.0.0.1");
    assert_eq!(options.port, 0);
    assert_eq!(options.compression_level, 7);
    assert_eq!(options.message_backlog_size, 3);
    assert_eq!(options.max_datagram_size, 500);
    assert_eq!(options.datagram_topic_patterns, vec!["a", "b"]);
    assert_eq!(context.id(), 9);
    let filter = options.channel_filter.unwrap();
    assert!(filter.should_subscribe(&ChannelDescriptor::new(1, String::from("x"))));
    assert!(!filter.should_subscribe(&ChannelDescriptor::new(1, String::from("y"))));
}

#[test]
fn the_compression_level_is_kept_in_range() {
    for (level, kept) in [(-5, 1), (0, 1), (1, 1), (19, 19), (20, 19), (i32::MAX, 19), (i32::MIN, 1)] {
        let server = WebTransportServer::new().tls(identity()).compression_level(level);
        assert_eq!(options(server).compression_level, kept);
    }
}

#[test]
fn the_last_setting_wins() {
    let server = WebTransportServer::new()
        .compression_level(9)
        .compression_level(2)
        .bind("a", 1)
        .bind("b", 2)
        .tls(identity())
        .datagram_topics(vec![String::from("x")])
        .datagram_topics(vec![])
        .channel_filter(Arc::new(AllChannels));
    let options = options(server);
    assert_eq!(options.compression_level, 2);
    assert_eq!((options.host.as_str(), options.port), ("b", 2));
    assert!(options.datagram_topic_patterns.is_empty());
    assert!(options.channel_filter.is_some());
}

#[test]
fn without_tls_there_is_no_server() {
    match WebTransportServer::new().into_options() {
        Err(FoxgloveError::ValueError(text)) => {
            assert_eq!(text, "TLS identity is required for WebTransport (QUIC mandates TLS 1.3)")
        }
        _ => panic!("should be refused"),
    }
}

#[test]
fn addresses_to_bind_to() {
    assert_eq!(bind_address("0.0.0.0", 8766), "0.0.0.0:8766");
    assert_eq!(bind_address("::1", 0), "::1:0");
    assert_eq!(bind_address("", 65535), ":65535");
}

#[test]
fn errors_of_starting() {
    match invalid_bind_address("bad") {
        FoxgloveError::ValueError(text) => assert_eq!(text, "Invalid bind address: bad"),
        _ => panic!("should be a value error"),
    }
    match invalid_tls_identity("no file") {
        FoxgloveError::ValueError(text) => assert_eq!(text, "Failed to load TLS identity: no file"),
        _ => panic!("should be a value error"),
    }
}

#[test]
fn texts_that_are_no_patterns_are_passed_over() {
    let texts = vec![String::from("a+"), String::from("(b"), String::from("[0-9]")];
    let (compiled, rejected) = compile_patterns(&texts);
    let kept: Vec<&str> = compiled.iter().map(|p| p.as_str()).collect();
    assert_eq!(kept, vec!["a+", "[0-9]"]);
    assert_eq!(rejected, vec!["(b"]);
    let (mut kept, mut rejected) = (Vec::new(), Vec::new());
    keep_compiled(&mut kept, &mut rejected, &String::from("("), None);
    assert_eq!((kept.len(), rejected.len()), (0, 1));
    keep_compiled(&mut kept, &mut rejected, &String::from("a"), regex::Regex::new("a").ok());
    assert_eq!((kept.len(), rejected.len()), (1, 1));
}

#[test]
fn accept_loop_steps() {
    assert_eq!(accept_step(AcceptEvent::Cancelled), AcceptAction::Stop);
    assert_eq!(accept_step(AcceptEvent::ConnectionFailed), AcceptAction::Accept);
    assert_eq!(accept_step(AcceptEvent::SessionFailed), AcceptAction::Accept);
    assert_eq!(accept_step(AcceptEvent::Connected), AcceptAction::OpenSession);
}

fn handle(port: u16) -> (WebTransportServerHandle, CancellationToken) {
    let token = CancellationToken::new();
    let addr = SocketAddress { ip: String::from("127.0.0.1"), port };
    let inner = ServerHandle::new(addr, token.clone());
    assert_eq!(inner.port(), port);
    assert_eq!(inner.addr().ip, "127.0.0.1");
    (WebTransportServerHandle::new(inner), token)
}

#[test]
fn stopping_cancels() {
    let (mut handle, token) = handle(4433);
    assert_eq!(handle.port(), 4433);
    assert!(!token.is_cancelled());
    handle.stop();
    assert!(token.is_cancelled());
    assert_eq!(handle.port(), 4433);
}

#[test]
fn ports_of_c_servers() {
    let (handle, _token) = handle(4433);
    let mut server = FoxgloveWebTransportServer::new(handle);
    assert_eq!(server_port(Some(&server)), 4433);
    assert!(server.as_ref().is_some());
    assert!(server.take().is_some());
    assert_eq!(server_port(Some(&server)), 0);
    assert!(server.as_ref().is_none());
    assert!(server.take().is_none());
    assert_eq!(server_port(None), 0);
}

#[test]
fn stopping_c_servers() {
    let (handle, token) = handle(1);
    let (code, stopped) = stop_server(Some(FoxgloveWebTransportServer::new(handle)));
    assert_eq!(code, ErrorCode::Success);
    assert_eq!(stopped.unwrap().port(), 1);
    assert!(token.is_cancelled());
    assert_eq!(stop_server(None).0, ErrorCode::ValueError);
    let (handle, token) = self::handle(2);
    let mut closed = FoxgloveWebTransportServer::new(handle);
    closed.take();
    assert_eq!(stop_server(Some(closed)).0, ErrorCode::SinkClosed);
    assert!(!token.is_cancelled());
}

fn c_options() -> FoxgloveWebTransportServerOptions<AllChannels> {
    FoxgloveWebTransportServerOptions {
        context: None,
        host: Vec::new(),
        port: 0,
        tls_cert_path: b"cert".to_vec(),
        tls_key_path: b"key".to_vec(),
        compression_level: 0,
        message_backlog_size: 0,
        max_datagram_size: 0,
        datagram_topic_patterns: Vec::new(),
        sink_channel_filter: None,
    }
}

fn bad() -> Vec<u8> {
    vec![b'a', 0xff]
}

const BAD: &str = "invalid utf-8 sequence of 1 bytes from index 1";

#[test]
fn c_options_have_defaults() {
    let (options, context) = build_server(c_options()).ok().unwrap().into_options().ok().unwrap();
    assert_eq!(options.host, "0.0.0.0");
    assert_eq!(options.port, 0);
    assert_eq!(options.tls.cert_path, "cert");
    assert_eq!(options.tls.key_path, "key");
    assert_eq!(options.compression_level, 1);
    assert_eq!(options.message_backlog_size, 1024);
    assert_eq!(options.max_datagram_size, 1200);
    assert!(options.datagram_topic_patterns.is_empty());
    assert!(options.channel_filter.is_none());
    assert_eq!(context.id(), 0);
}

#[test]
fn c_options_are_taken_over() {
    let built = build_server(FoxgloveWebTransportServerOptions {
        context: Some(Context::new(4)),
        host: b"::1".to_vec(),
        port: 9,
        compression_level: 25,
        message_backlog_size: 5,
        max_datagram_size: 6,
        datagram_topic_patterns: vec![b"a".to_vec(), "\u{e9}".as_bytes().to_vec()],
        sink_channel_filter: Some(Arc::new(AllChannels)),
        ..c_options()
    });
    let (options, context) = built.ok().unwrap().into_options().ok().unwrap();
    assert_eq!(options.host, "::1");
    assert_eq!(options.port, 9);
    assert_eq!(options.compression_level, 19);
    assert_eq!(options.message_backlog_size, 5);
    assert_eq!(options.max_datagram_size, 6);
    assert_eq!(options.datagram_topic_patterns, vec!["a", "\u{e9}"]);
    assert!(options.channel_filter.is_some());
    assert_eq!(context.id(), 4);
}

fn refusal(options: FoxgloveWebTransportServerOptions<AllChannels>) -> (ErrorCode, String) {
    match build_server(options) {
        Ok(_) => panic!("should be refused"),
        Err(error) => {
            let code = error_code(&error);
            match error {
                FoxgloveError::ValueError(text) | FoxgloveError::Utf8Error(text) => (code, text),
                _ => panic!("should have a text"),
            }
        }
    }
}

#[test]
fn c_options_that_are_refused() {
    let utf8 = |text: &str| (ErrorCode::Utf8Error, format!("{text}{BAD}"));
    assert_eq!(
        refusal(FoxgloveWebTransportServerOptions { host: bad(), tls_cert_path: bad(), ..c_options() }),
        utf8("host is invalid: ")
    );
    assert_eq!(
        refusal(FoxgloveWebTransportServerOptions {
            tls_cert_path: bad(),
            tls_key_path: bad(),
            ..c_options()
        }),
        utf8("tls_cert_path is invalid: ")
    );
    assert_eq!(
        refusal(FoxgloveWebTransportServerOptions { tls_key_path: bad(), ..c_options() }),
        utf8("tls_key_path is invalid: ")
    );
    assert_eq!(
        refusal(FoxgloveWebTransportServerOptions {
            datagram_topic_patterns: vec![b"a".to_vec(), bad(), vec![0xfe]],
            ..c_options()
        }),
        utf8("datagram topic pattern is invalid: ")
    );
    let required = (
        ErrorCode::ValueError,
        String::from("TLS certificate and key paths are required for WebTransport"),
    );
    assert_eq!(
        refusal(FoxgloveWebTransportServerOptions {
            tls_cert_path: Vec::new(),
            datagram_topic_patterns: vec![bad()],
            ..c_options()
        }),
        required
    );
    assert_eq!(
        refusal(FoxgloveWebTransportServerOptions { tls_key_path: Vec::new(), ..c_options() }),
        required
    );
}

#[test]
fn codes_of_errors() {
    assert_eq!(error_code(&FoxgloveError::SinkClosed), ErrorCode::SinkClosed);
    assert_eq!(error_code(&FoxgloveError::Unspecified(String::new())), ErrorCode::Unspecified);
    assert_eq!(error_code(&FoxgloveError::ValueError(String::new())), ErrorCode::ValueError);
    assert_eq!(error_code(&FoxgloveError::Utf8Error(String::new())), ErrorCode::Utf8Error);
}
