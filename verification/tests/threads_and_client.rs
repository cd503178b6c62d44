use ps5::error::{Errno, Error, SceError};
use ps5::http::{init_step, request_args, Client, Exchange, ExchangePhase, InitAction, Response, SceCall};
use ps5::thread::{create_step, cvt_pthread, join_result, Builder, CreateAction, CreateCall};

#[test]
fn pthread_codes() {
    assert!(cvt_pthread(0).is_ok());
    assert_eq!(cvt_pthread(11).unwrap_err(), Error::Os(Errno(11)));
    assert_eq!(join_result(0, Some(5)).unwrap(), 5);
    assert_eq!(join_result(3, Some(5)).unwrap_err(), Error::Os(Errno(3)));
    assert_eq!(join_result::<u8>(0, None).unwrap_err(), Error::Os(Errno(22)));
}

#[test]
fn builder_settings() {
    assert_eq!(Builder::new().requested_stack_size(), None);
    assert_eq!(Builder::new().stack_size(65536).requested_stack_size(), Some(65536));
}

#[test]
fn thread_creation_without_stack_size() {
    assert_eq!(create_step(None, &vec![]), CreateAction::Call(CreateCall::Create { with_attr: false }));
    assert_eq!(create_step(None, &vec![11]), CreateAction::Finish(11));
}

#[test]
fn thread_creation_with_stack_size() {
    let s = Some(4096);
    assert_eq!(create_step(s, &vec![]), CreateAction::Call(CreateCall::AttrInit));
    assert_eq!(create_step(s, &vec![12]), CreateAction::Finish(12));
    assert_eq!(create_step(s, &vec![0]), CreateAction::Call(CreateCall::SetStackSize(4096)));
    assert_eq!(create_step(s, &vec![0, 22]), CreateAction::Call(CreateCall::AttrDestroy));
    assert_eq!(create_step(s, &vec![0, 22, 0]), CreateAction::Finish(22));
    assert_eq!(create_step(s, &vec![0, 0]), CreateAction::Call(CreateCall::Create { with_attr: true }));
    assert_eq!(create_step(s, &vec![0, 0, 35]), CreateAction::Call(CreateCall::AttrDestroy));
    assert_eq!(create_step(s, &vec![0, 0, 35, 0]), CreateAction::Finish(35));
}

fn release_of(a: InitAction) -> (Vec<SceCall>, Error) {
    match a {
        InitAction::Fail { release, error } => (release, error),
        other => panic!("expected a failure, got {:?}", other),
    }
}

#[test]
fn client_init_chain() {
    assert!(matches!(init_step("ps5", &vec![]), InitAction::Call(SceCall::NetInit)));
    assert!(matches!(init_step("ps5", &vec![0]), InitAction::Call(SceCall::NetPoolCreate)));
    assert!(matches!(init_step("ps5", &vec![0, 7]), InitAction::Call(SceCall::SslInit)));
    assert!(matches!(
        init_step("ps5", &vec![0, 7, 8]),
        InitAction::Call(SceCall::Http2Init { net_mem_id: 7, ssl_ctx_id: 8 })
    ));
    match init_step("ps5", &vec![0, 7, 8, 9]) {
        InitAction::CreateTemplate { lib_ctx_id, agent } => {
            assert_eq!(lib_ctx_id, 9);
            assert_eq!(agent, b"ps5\0".to_vec());
        }
        other => panic!("expected the template call, got {:?}", other),
    }
    match init_step("ps5", &vec![0, 7, 8, 9, 10]) {
        InitAction::Ready(c) => {
            assert_eq!(c, Client { net_mem_id: 7, ssl_ctx_id: 8, lib_ctx_id: 9, tmpl_id: 10 });
            assert_eq!(
                c.teardown(),
                vec![
                    SceCall::DeleteTemplate(10),
                    SceCall::Http2Term(9),
                    SceCall::SslTerm(8),
                    SceCall::NetPoolDestroy(7)
                ]
            );
        }
        other => panic!("expected a client, got {:?}", other),
    }
}

#[test]
fn client_refuses_nul_agent_before_any_call() {
    let nul = Error::InvalidInput("string contains an interior NUL byte");
    assert_eq!(release_of(init_step("ps5\0agent", &vec![])), (vec![], nul));
    assert_eq!(release_of(init_step("\0", &vec![])), (vec![], nul));
    assert!(matches!(init_step("", &vec![]), InitAction::Call(SceCall::NetInit)));
}

#[test]
fn client_init_unwinds_in_reverse() {
    assert_eq!(release_of(init_step("ps5", &vec![-1])), (vec![], Error::sce("sceNetInit", -1)));
    assert_eq!(release_of(init_step("ps5", &vec![0, -2])), (vec![], Error::sce("sceNetPoolCreate", -2)));
    assert_eq!(
        release_of(init_step("ps5", &vec![0, 7, -3])),
        (vec![SceCall::NetPoolDestroy(7)], Error::sce("sceSslInit", -3))
    );
    assert_eq!(
        release_of(init_step("ps5", &vec![0, 7, 8, -4])),
        (vec![SceCall::SslTerm(8), SceCall::NetPoolDestroy(7)], Error::sce("sceHttp2Init", -4))
    );
    assert_eq!(
        release_of(init_step("ps5", &vec![0, 7, 8, 9, -5])),
        (
            vec![SceCall::Http2Term(9), SceCall::SslTerm(8), SceCall::NetPoolDestroy(7)],
            Error::sce("sceHttp2CreateTemplate", -5)
        )
    );
}

#[test]
fn request_arguments() {
    let (m, u, n) = request_args("GET", "http://a/", b"xyz").unwrap();
    assert_eq!(m, b"GET\0".to_vec());
    assert_eq!(u, b"http://a/\0".to_vec());
    assert_eq!(n, 3);
    assert!(request_args("G\0", "u", b"").is_err());
    assert!(request_args("G", "u\0", b"").is_err());
}

#[test]
fn exchange_success() {
    let mut x = Exchange::start(4).unwrap();
    assert_eq!(x.req_id(), 4);
    assert_eq!(x.phase(), ExchangePhase::Send);
    x.on_send(0);
    assert_eq!(x.phase(), ExchangePhase::Status);
    x.on_status(0, 200);
    assert_eq!(x.phase(), ExchangePhase::Read);
    x.on_read(3, b"abcdef");
    x.on_read(2, b"gh");
    x.on_read(0, b"");
    assert_eq!(x.phase(), ExchangePhase::Delete);
    let r: Response = x.finish(0).unwrap();
    assert_eq!(r.status(), 200);
    assert_eq!(r.into_body(), b"abcgh".to_vec());
}

#[test]
fn exchange_failures() {
    assert_eq!(
        Exchange::start(-9).unwrap_err(),
        Error::Sce(SceError { op: "sceHttp2CreateRequestWithURL", code: -9 })
    );
    let mut x = Exchange::start(1).unwrap();
    x.on_send(-7);
    assert_eq!(x.phase(), ExchangePhase::Delete);
    assert_eq!(x.finish(-1).unwrap_err(), Error::sce("sceHttp2SendRequest", -7));
    let mut x = Exchange::start(1).unwrap();
    x.on_send(0);
    x.on_status(-8, 0);
    assert_eq!(x.finish(0).unwrap_err(), Error::sce("sceHttp2GetStatusCode", -8));
    let mut x = Exchange::start(1).unwrap();
    x.on_send(0);
    x.on_status(0, 70000);
    x.on_read(-6, b"");
    assert_eq!(x.finish(0).unwrap_err(), Error::sce("sceHttp2ReadData", -6));
    let mut x = Exchange::start(1).unwrap();
    x.on_send(0);
    x.on_status(0, 70000);
    x.on_read(0, b"");
    assert_eq!(x.finish(-5).unwrap_err(), Error::sce("sceHttp2DeleteRequest", -5));
    let mut x = Exchange::start(1).unwrap();
    x.on_send(0);
    x.on_status(0, 65536 + 404);
    x.on_read(0, b"");
    assert_eq!(x.finish(0).unwrap().status, 404);
}
