use cracked_md::cli::{Command, Error, ProgramConfig};
use cracked_md::http::args::ProgramArgs;
use cracked_md::http::error::ErrorKind;
use cracked_md::http::request::HttpRequest;
use cracked_md::numbers::{parse_ipv4, parse_port};

fn words(ws: &[&str]) -> Vec<String> {
    ws.iter().map(|w| w.to_string()).collect()
}

fn message(e: Error) -> String {
    match e {
        Error::CommandLineArgsParse(m) => m,
        other => panic!("unexpected error {:?}", other),
    }
}

#[test]
fn no_command_generates() {
    assert_eq!(
        Command::from_args(&words(&["gravel"])),
        Ok(Command::Generate { force: true })
    );
    assert_eq!(
        Command::from_args(&words(&["gravel", "build"])),
        Ok(Command::Generate { force: true })
    );
    assert_eq!(
        message(Command::from_args(&words(&["gravel", "build", "x"])).unwrap_err()),
        "Unexpected argument: `x`"
    );
}

#[test]
fn serve_reads_address_and_port() {
    assert_eq!(
        Command::from_args(&words(&["gravel", "serve"])),
        Ok(Command::Serve { addr: [0, 0, 0, 0], port: 8080 })
    );
    assert_eq!(
        Command::from_args(&words(&["gravel", "serve", "-a", "127.0.0.1", "-p", "+80"])),
        Ok(Command::Serve { addr: [127, 0, 0, 1], port: 80 })
    );
    assert_eq!(
        message(Command::from_args(&words(&["gravel", "serve", "-a"])).unwrap_err()),
        "Missing argument after `-a`. Expected IPv4 address."
    );
    assert_eq!(
        message(Command::from_args(&words(&["gravel", "serve", "-p", "65536"])).unwrap_err()),
        "Parsing TCP port failed"
    );
    assert_eq!(
        message(Command::from_args(&words(&["gravel", "serve", "-a", "1.2.3"])).unwrap_err()),
        "Parsing IP address failed"
    );
    assert_eq!(
        message(Command::from_args(&words(&["gravel", "serve", "-x"])).unwrap_err()),
        "Unknown argument: `-x`"
    );
}

#[test]
fn init_takes_no_argument() {
    assert_eq!(Command::from_args(&words(&["gravel", "init"])), Ok(Command::Init));
    assert_eq!(
        message(Command::from_args(&words(&["gravel", "init", "now"])).unwrap_err()),
        "Unexpected argument: `now`"
    );
}

#[test]
fn config_defaults() {
    let c = ProgramConfig::new(&words(&["gravel", "init"])).unwrap();
    assert_eq!(c.command, Command::Init);
    assert_eq!(c.indir, "./pebbles");
    assert_eq!(c.outdir, "./site");
    assert!(c.verbose);
}

#[test]
fn ports() {
    assert_eq!(parse_port("8080"), Some(8080));
    assert_eq!(parse_port("0065535"), Some(65535));
    assert_eq!(parse_port("65536"), None);
    assert_eq!(parse_port("+"), None);
    assert_eq!(parse_port(""), None);
    assert_eq!(parse_port("-1"), None);
    assert_eq!(parse_port("8o"), None);
}

#[test]
fn ipv4_addresses() {
    assert_eq!(parse_ipv4("192.168.0.255"), Some([192, 168, 0, 255]));
    assert_eq!(parse_ipv4("0.0.0.0"), Some([0, 0, 0, 0]));
    assert_eq!(parse_ipv4("256.0.0.1"), None);
    assert_eq!(parse_ipv4("01.2.3.4"), None);
    assert_eq!(parse_ipv4("1.2.3.4.5"), None);
    assert_eq!(parse_ipv4("1..3.4"), None);
    assert_eq!(parse_ipv4("1.2.3.1000"), None);
}

#[test]
fn server_program_args() {
    let d = ProgramArgs::from_args(&words(&["stdsrv"])).unwrap();
    assert_eq!(d, ProgramArgs::default_args());
    assert_eq!(d.addr, "0.0.0.0:8080");
    let a = ProgramArgs::from_args(&words(&["stdsrv", "-i", "pages", "-g", "-f", "-v", "-a", "127.0.0.1:80", "out"])).unwrap();
    assert_eq!(a.indir, "pages");
    assert_eq!(a.outdir, "out");
    assert_eq!(a.addr, "127.0.0.1:80");
    assert!(a.generate && a.force && a.verbose);
    let e = ProgramArgs::from_args(&words(&["stdsrv", "-i"])).unwrap_err();
    assert_eq!(e.kind(), ErrorKind::CommandLineArgsParse);
    assert_eq!(e.message(), "CommandLineArgsParse: Expected input directory after option `-i`");
}

#[test]
fn request_read_line_by_line() {
    let mut req = HttpRequest::from_request_line("GET /docs/index.html HTTP/1.1\r\n").unwrap();
    assert_eq!(req.path, "docs/index.html");
    assert_eq!(req.version, "HTTP/1.1");
    assert!(req.add_header_line("Host: localhost\r\n"));
    assert!(req.add_header_line("no colon here\r\n"));
    assert!(!req.add_header_line("\r\n"));
    assert!(!req.add_header_line(""));
    assert_eq!(req.headers.len(), 1);
    assert_eq!(req.headers.get("Host").unwrap(), "localhost\r\n");
    assert_eq!(
        req.to_text(),
        "GET docs/index.html HTTP/1.1\nHost: localhost\r\n\r\n"
    );
    assert!(HttpRequest::from_request_line("POST / HTTP/1.1\r\n").is_err());
}
