use qotd::{
    broker_step, serve_step, udp_step, AllowedCategories, BrokerAction, BrokerEvent, Cli, LogLevel,
    QuoteCategory, ServeAction, ServeEvent, UdpStep, UDP_PAYLOAD_LIMIT,
};

fn options() -> Cli {
    Cli {
        all: false,
        categories: None,
        dir: String::from("data"),
        host: String::from("127.0.0.1"),
        log_file: None,
        offensive: false,
        port: 17,
        quiet: false,
        verbosity: 0,
    }
}

#[test]
fn category_choices() {
    assert_eq!(AllowedCategories::Decorous.as_category_vec(), vec![QuoteCategory::Decorous]);
    assert_eq!(AllowedCategories::Offensive.as_category_vec(), vec![QuoteCategory::Offensive]);
    assert_eq!(
        AllowedCategories::All.as_category_vec(),
        vec![QuoteCategory::Decorous, QuoteCategory::Offensive]
    );
    assert_eq!(AllowedCategories::default(), AllowedCategories::Decorous);
}

#[test]
fn options_choose_categories() {
    let mut c = options();
    assert_eq!(c.allowed_categories(), vec![QuoteCategory::Decorous]);
    c.offensive = true;
    assert_eq!(c.allowed_categories(), vec![QuoteCategory::Offensive]);
    c.all = true;
    assert_eq!(c.allowed_categories(), vec![QuoteCategory::Decorous, QuoteCategory::Offensive]);
    c.categories = Some(AllowedCategories::Decorous);
    assert_eq!(c.allowed_categories(), vec![QuoteCategory::Decorous]);
}

#[test]
fn options_choose_log_level() {
    let mut c = options();
    assert_eq!(c.verbosity(), LogLevel::Warn);
    c.quiet = true;
    assert_eq!(c.verbosity(), LogLevel::Error);
    c.verbosity = 1;
    assert_eq!(c.verbosity(), LogLevel::Info);
    c.verbosity = 2;
    assert_eq!(c.verbosity(), LogLevel::Debug);
    c.verbosity = 3;
    assert_eq!(c.verbosity(), LogLevel::Trace);
    c.verbosity = 200;
    assert_eq!(c.verbosity(), LogLevel::Trace);
}

#[test]
fn udp_reply_below_limit() {
    assert_eq!(UDP_PAYLOAD_LIMIT, 512);
    assert_eq!(udp_step(&[]), UdpStep::Send);
    assert_eq!(udp_step(&vec![b'x'; 511]), UdpStep::Send);
    assert_eq!(udp_step(&vec![b'x'; 512]), UdpStep::Retry);
    assert_eq!(udp_step(&vec![b'x'; 4000]), UdpStep::Retry);
}

#[test]
fn accept_loop_decisions() {
    assert_eq!(serve_step(true, ServeEvent::TcpAccepted), ServeAction::HandleTcp);
    assert_eq!(serve_step(true, ServeEvent::UdpReceived), ServeAction::HandleUdp);
    assert_eq!(serve_step(true, ServeEvent::TcpAcceptFailed), ServeAction::Fail);
    assert_eq!(serve_step(true, ServeEvent::UdpReceiveFailed), ServeAction::Fail);
    assert_eq!(serve_step(false, ServeEvent::TcpAccepted), ServeAction::ShutDown);
    assert_eq!(serve_step(false, ServeEvent::UdpReceived), ServeAction::ShutDown);
}

#[test]
fn broker_decisions() {
    assert_eq!(broker_step(BrokerEvent::QuoteReady), BrokerAction::AwaitRequest);
    assert_eq!(broker_step(BrokerEvent::Request), BrokerAction::DeliverAndRead);
    assert_eq!(broker_step(BrokerEvent::QuoteFailed), BrokerAction::Stop);
    assert_eq!(broker_step(BrokerEvent::QueueClosed), BrokerAction::Stop);
}
