use hacklet::command::{
    CommandError, Commands, CommissionCommand, Hacklet, OffCommand, OnCommand, ReadCommand,
};
use hacklet::command::{parse_network, parse_socket};
use hacklet::session::Operation;

#[test]
fn test_turn_on_socket() {
    let args = Hacklet {
        debug: false,
        command: Commands::On(OnCommand {
            network: "0x0010".to_string(),
            socket: "1".to_string(),
        }),
    };
    assert!(!args.debug);
    assert_eq!(
        args.command.operation(),
        Ok(Operation::Switch { network_id: 0x0010, channel_id: 1, on: true })
    );
}

#[test]
fn test_turn_off_socket() {
    let args = Hacklet {
        debug: false,
        command: Commands::Off(OffCommand {
            network: "0x0010".to_string(),
            socket: "0".to_string(),
        }),
    };
    assert_eq!(
        args.command.operation(),
        Ok(Operation::Switch { network_id: 0x0010, channel_id: 0, on: false })
    );
}

#[test]
fn test_read_socket() {
    let args = Hacklet {
        debug: false,
        command: Commands::Read(ReadCommand {
            network: "0x0010".to_string(),
            socket: "1".to_string(),
        }),
    };
    assert_eq!(
        args.command.operation(),
        Ok(Operation::ReadSamples { network_id: 0x0010, channel_id: 1 })
    );
}

#[test]
fn test_commission_device() {
    let args = Hacklet { debug: false, command: Commands::Commission(CommissionCommand {}) };
    assert_eq!(args.command.operation(), Ok(Operation::Commission));
}

#[test]
fn network_ids_are_hexadecimal() {
    assert_eq!(parse_network("0x0010"), Some(16));
    assert_eq!(parse_network("0xFFFF"), Some(0xFFFF));
    assert_eq!(parse_network("0xbeef"), Some(0xBEEF));
    assert_eq!(parse_network("0x00000001"), Some(1));
    assert_eq!(parse_network("0x10000"), None);
    assert_eq!(parse_network("0x"), None);
    assert_eq!(parse_network("0xg1"), None);
    assert_eq!(parse_network("0X1f"), Some(0x1F));
    assert_eq!(parse_network("1234"), None);
    assert_eq!(parse_network("zz10"), None);
    assert_eq!(parse_network("0y10"), None);
    assert_eq!(parse_network("1"), None);
    assert_eq!(parse_network(""), None);
}

#[test]
fn socket_ids_are_decimal() {
    assert_eq!(parse_socket("0"), Some(0));
    assert_eq!(parse_socket("65535"), Some(65535));
    assert_eq!(parse_socket("65536"), None);
    assert_eq!(parse_socket("1a"), None);
    assert_eq!(parse_socket("-1"), None);
    assert_eq!(parse_socket(""), None);
}

#[test]
fn malformed_arguments_are_reported() {
    let bad_network = Commands::On(OnCommand { network: "0xZZ".to_string(), socket: "1".to_string() });
    assert_eq!(bad_network.operation(), Err(CommandError::MalformedNetwork));
    let bad_socket = Commands::Read(ReadCommand { network: "0x10".to_string(), socket: "x".to_string() });
    assert_eq!(bad_socket.operation(), Err(CommandError::MalformedSocket));
}

#[test]
fn network_without_hex_prefix_is_rejected() {
    let cmd = Commands::On(OnCommand { network: "1234".to_string(), socket: "1".to_string() });
    assert_eq!(cmd.operation(), Err(CommandError::MalformedNetwork));
    let cmd = Commands::Off(OffCommand { network: "zz10".to_string(), socket: "1".to_string() });
    assert_eq!(cmd.operation(), Err(CommandError::MalformedNetwork));
}
