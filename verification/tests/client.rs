use udp_socket_service::client::{help, starts_with, Client, ReplAction};
use udp_socket_service::config::Config;

fn create_config() -> Config {
    Config {
        name: "udp-service".to_string(),
        version: "0.4.0".to_string(),
        host: "127.0.0.1".to_string(),
        port: 28400,
        logging_config: "config/rolling.yaml".to_string(),
        data_file: None,
    }
}

#[test]
fn show_help() {
    let text = help(true);
    assert!(text.contains("Version"));
    let text = help(false);
    println!("{}", text);
}

#[test]
fn create_addr() {
    let client = Client::new(create_config());
    let addr = client.server_address();
    println!("addr: {}", addr);
    assert_eq!(addr, "127.0.0.1:28400");
}

#[test]
fn copy() {
    let config = create_config();
    assert!(!config.name.is_empty());
    let conf = config.copy();
    assert_eq!(config.name, conf.name);
    assert_eq!(config, conf);
}

#[test]
fn help_texts_are_exact() {
    assert_eq!(
        help(true),
        "UDP Client REPL Version: 0.4.0.\n\nEnter 'quit' to exit, 'help' for a list of commands."
    );
    let text = help(false);
    assert!(text.starts_with("UDP Client REPL Version: 0.4.0.\n\nCommands\n get key -> value\n"));
    assert!(text.ends_with(" now_ns -> nano-seconds\n status -> uptime\n"));
    assert_eq!(text.lines().count(), 14);
}

#[test]
fn the_client_decides_by_the_start_of_the_line() {
    assert_eq!(Client::decide("quit\n"), ReplAction::Quit);
    assert_eq!(Client::decide("quitting"), ReplAction::Quit);
    assert_eq!(Client::decide("help me"), ReplAction::Help);
    assert_eq!(Client::decide(" quit"), ReplAction::Send(b" quit".to_vec()));
    assert_eq!(Client::decide("get k\n"), ReplAction::Send(b"get k\n".to_vec()));
    assert_eq!(Client::decide(""), ReplAction::Send(Vec::new()));
}

#[test]
fn starts_with_compares_characters() {
    assert!(starts_with("h\u{e9}llo", "h\u{e9}"));
    assert!(!starts_with("h\u{e9}", "h\u{e9}llo"));
    assert!(starts_with("anything", ""));
}

#[test]
fn prompts_count_the_lines() {
    let mut client = Client::new(create_config());
    assert_eq!(client.next_prompt(" >"), "1 > ");
    assert_eq!(client.next_prompt(" >"), "2 > ");
}

#[test]
fn client_new() {
    let client = Client::new(create_config());
    println!("{:?}", client);

    assert!(true);
}

fn mock_reader(ln: usize, prompt: &str) -> String {
    println!("{}", prompt);

    match ln {
        1 => "quit".to_string(),
        _ => "quit".to_string(),
    }
}

#[test]
fn start_repl() {
    let reader = mock_reader;
    assert_eq!(reader(1, "anything"), "quit");
    assert_eq!(reader(9, "> "), "quit");

    let mut client = Client::new(create_config());
    let prompt = client.next_prompt(" >");
    assert_eq!(Client::decide(&reader(1, &prompt)), ReplAction::Quit);
}
