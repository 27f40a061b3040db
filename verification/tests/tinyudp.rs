use masterstat::tinyudp::{Event, Exchange, Options, Progress, Step, TinyudpError};
use std::io::{Error, ErrorKind};
use std::time::Duration;

fn options(buffer_size: usize) -> Options {
    Options {
        timeout: Duration::from_millis(200),
        buffer_size,
    }
}

fn awaiting(step: Step, buffer_size: usize) -> Exchange {
    Exchange {
        awaiting: step,
        options: options(buffer_size),
    }
}

fn next(progress: Progress) -> Exchange {
    match progress {
        Progress::Next(exchange) => exchange,
        Progress::Done(_) => panic!("the exchange ended early"),
    }
}

fn done(progress: Progress) -> Result<Vec<u8>, TinyudpError> {
    match progress {
        Progress::Next(_) => panic!("the exchange went on"),
        Progress::Done(result) => result,
    }
}

#[test]
fn an_exchange_binds_sends_and_receives() {
    let exchange = Exchange::new(options(32 * 1024));
    assert_eq!(exchange.awaiting, Step::Bind);
    assert_eq!(exchange.options.buffer_size, 32 * 1024);
    assert_eq!(exchange.options.timeout, Duration::from_millis(200));

    let exchange = next(exchange.advance(Event::Bound));
    assert_eq!(exchange.awaiting, Step::Send);
    assert_eq!(exchange.options.buffer_size, 32 * 1024);
    assert_eq!(exchange.options.timeout, Duration::from_millis(200));

    let exchange = next(exchange.advance(Event::Sent));
    assert_eq!(exchange.awaiting, Step::Receive);
    assert_eq!(exchange.options.buffer_size, 32 * 1024);
    assert_eq!(exchange.options.timeout, Duration::from_millis(200));

    let mut buffer = exchange.receive_buffer();
    assert_eq!(buffer, vec![0u8; 32 * 1024]);
    buffer[..5].copy_from_slice(b"hello");
    let reply = done(exchange.advance(Event::Received {
        buffer,
        bytes_read: 5,
    }));
    assert_eq!(reply.unwrap(), b"hello".to_vec());
}

#[test]
fn the_receive_buffer_has_the_size_of_the_options() {
    assert_eq!(awaiting(Step::Receive, 0).receive_buffer(), Vec::<u8>::new());
    assert_eq!(awaiting(Step::Receive, 3).receive_buffer(), vec![0u8; 3]);
    assert_eq!(awaiting(Step::Receive, 65536).receive_buffer().len(), 65536);
}

#[test]
fn a_failed_bind_is_bind_failed() {
    let cause = Error::new(ErrorKind::AddrInUse, "no port");
    let result = done(awaiting(Step::Bind, 8).advance(Event::Failed(cause)));
    match result {
        Err(TinyudpError::BindFailed(cause)) => {
            assert_eq!(cause.kind(), ErrorKind::AddrInUse);
            assert_eq!(cause.to_string(), "no port");
        }
        _ => panic!("expected BindFailed"),
    }
}

#[test]
fn a_failed_send_is_send_failed() {
    let cause = Error::new(ErrorKind::NotFound, "failed to lookup address");
    let result = done(awaiting(Step::Send, 8).advance(Event::Failed(cause)));
    match result {
        Err(TinyudpError::SendFailed(cause)) => {
            assert_eq!(cause.kind(), ErrorKind::NotFound);
            assert_eq!(cause.to_string(), "failed to lookup address");
        }
        _ => panic!("expected SendFailed"),
    }
}

#[test]
fn a_failed_receive_is_receive_failed() {
    let cause = Error::new(ErrorKind::ConnectionReset, "reset");
    let result = done(awaiting(Step::Receive, 8).advance(Event::Failed(cause)));
    match result {
        Err(TinyudpError::ReceiveFailed(cause)) => {
            assert_eq!(cause.kind(), ErrorKind::ConnectionReset);
            assert_eq!(cause.to_string(), "reset");
        }
        _ => panic!("expected ReceiveFailed"),
    }
}

#[test]
fn a_passed_deadline_is_timeout_reached() {
    let result = done(awaiting(Step::Receive, 8).advance(Event::TimedOut));
    assert!(matches!(result, Err(TinyudpError::TimeoutReached)));
}

#[test]
fn the_reply_is_what_was_read() {
    let buffer = vec![1, 2, 3, 4, 0, 0, 0, 0];
    let reply = done(awaiting(Step::Receive, 8).advance(Event::Received {
        buffer: buffer.clone(),
        bytes_read: 4,
    }));
    assert_eq!(reply.unwrap(), vec![1, 2, 3, 4]);

    let reply = done(awaiting(Step::Receive, 8).advance(Event::Received {
        buffer: buffer.clone(),
        bytes_read: 0,
    }));
    assert_eq!(reply.unwrap(), Vec::<u8>::new());

    let reply = done(awaiting(Step::Receive, 8).advance(Event::Received {
        buffer: buffer.clone(),
        bytes_read: 8,
    }));
    assert_eq!(reply.unwrap(), buffer);
}

#[test]
fn the_reply_is_cut_to_the_buffer() {
    let buffer = vec![1, 2, 3, 4, 5, 6, 7, 8];
    let reply = done(awaiting(Step::Receive, 8).advance(Event::Received {
        buffer: buffer.clone(),
        bytes_read: 1000,
    }));
    assert_eq!(reply.unwrap(), buffer);

    let reply = done(awaiting(Step::Receive, 3).advance(Event::Received {
        buffer: buffer.clone(),
        bytes_read: 6,
    }));
    assert_eq!(reply.unwrap(), vec![1, 2, 3]);

    let reply = done(awaiting(Step::Receive, 0).advance(Event::Received {
        buffer,
        bytes_read: 6,
    }));
    assert_eq!(reply.unwrap(), Vec::<u8>::new());
}

#[test]
fn events_of_another_step_change_nothing() {
    let exchange = next(awaiting(Step::Bind, 8).advance(Event::Sent));
    assert_eq!(exchange.awaiting, Step::Bind);
    let exchange = next(exchange.advance(Event::TimedOut));
    assert_eq!(exchange.awaiting, Step::Bind);
    let exchange = next(exchange.advance(Event::Received {
        buffer: vec![1, 2, 3],
        bytes_read: 3,
    }));
    assert_eq!(exchange.awaiting, Step::Bind);
    assert_eq!(exchange.options.buffer_size, 8);

    let exchange = next(awaiting(Step::Send, 8).advance(Event::Bound));
    assert_eq!(exchange.awaiting, Step::Send);
    let exchange = next(exchange.advance(Event::TimedOut));
    assert_eq!(exchange.awaiting, Step::Send);
    let exchange = next(exchange.advance(Event::Received {
        buffer: vec![1, 2, 3],
        bytes_read: 3,
    }));
    assert_eq!(exchange.awaiting, Step::Send);

    let exchange = next(awaiting(Step::Receive, 8).advance(Event::Bound));
    assert_eq!(exchange.awaiting, Step::Receive);
    let exchange = next(exchange.advance(Event::Sent));
    assert_eq!(exchange.awaiting, Step::Receive);
    assert_eq!(exchange.options.timeout, Duration::from_millis(200));
}

#[test]
fn transport_errors_in_words() {
    let cause = || Error::new(ErrorKind::Other, "the cause");
    assert_eq!(
        TinyudpError::BindFailed(cause()).to_string(),
        "failed to bind socket: the cause"
    );
    assert_eq!(
        TinyudpError::SendFailed(cause()).to_string(),
        "failed to send message: the cause"
    );
    assert_eq!(
        TinyudpError::ReceiveFailed(cause()).to_string(),
        "failed to receive message: the cause"
    );
    assert_eq!(
        TinyudpError::TimeoutReached.to_string(),
        "timeout reached while waiting for response"
    );
}
