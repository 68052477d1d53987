use trust_80::console::{console_request, ConsoleRequest};

fn sent(line: &str) -> (String, String, String) {
    match console_request(line) {
        ConsoleRequest::Send(a, b, c) => (a, b, c),
        ConsoleRequest::Reply(t) => panic!("reply {t}"),
    }
}

fn reply(line: &str) -> String {
    match console_request(line) {
        ConsoleRequest::Reply(t) => t,
        ConsoleRequest::Send(..) => panic!("sent"),
    }
}

#[test]
fn console_lines_become_commands() {
    assert_eq!(sent("tape game.cas\n"), ("tape".into(), "game.cas".into(), "".into()));
    assert_eq!(sent("d 0x0000"), ("d".into(), "0x0000".into(), "".into()));
    assert_eq!(sent("m 0x4000"), ("m".into(), "0x4000".into(), "".into()));
    assert_eq!(sent("m 0x4000 0x12 junk"), ("m".into(), "0x4000".into(), "0x12".into()));
    assert_eq!(sent("reset now"), ("reset".into(), "".into(), "".into()));
    assert_eq!(sent("b 0x0002"), ("b".into(), "0x0002".into(), "".into()));
    assert_eq!(sent("b"), ("b".into(), "".into(), "".into()));
    assert_eq!(sent("j 0x1234 x"), ("j".into(), "0x1234".into(), "".into()));
    assert_eq!(sent("f 0x0002"), ("f".into(), "0x0002".into(), "".into()));
}

#[test]
fn missing_arguments_are_reported() {
    assert_eq!(reply("tape\n"), "No tape filename !");
    assert_eq!(reply("  d  "), "No address !");
}
