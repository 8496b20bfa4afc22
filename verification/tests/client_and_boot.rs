use homework_scheme::boot::{
    args_envs_auxv_pointee_size, environment_variables, fork_role, retry_sync_read, ForkRole,
};
use homework_scheme::cli::{parse_command, shown_value, write_payload, Command, CommandError};

fn args(list: &[&str]) -> Vec<String> {
    list.iter().map(|s| s.to_string()).collect()
}

#[test]
fn commands_parse() {
    assert_eq!(parse_command(&args(&["cli"])), Err(CommandError::MissingCommand));
    assert_eq!(parse_command(&args(&["cli", "read"])), Ok(Command::Read));
    assert_eq!(parse_command(&args(&["cli", "write", "42"])), Ok(Command::Write { value: 42 }));
    assert_eq!(parse_command(&args(&["cli", "write", "+7"])), Ok(Command::Write { value: 7 }));
    assert_eq!(parse_command(&args(&["cli", "write"])), Err(CommandError::MissingValue));
    assert_eq!(parse_command(&args(&["cli", "write", "-1"])), Err(CommandError::NotANumber));
    assert_eq!(parse_command(&args(&["cli", "write", "1x"])), Err(CommandError::NotANumber));
    assert_eq!(parse_command(&args(&["cli", "slot", "3"])), Ok(Command::Slot { slot: 3 }));
    assert_eq!(parse_command(&args(&["cli", "slot"])), Err(CommandError::MissingSlot));
    assert_eq!(
        parse_command(&args(&["cli", "slot", "18446744073709551616"])),
        Err(CommandError::NotANumber)
    );
    assert_eq!(parse_command(&args(&["cli", "erase"])), Err(CommandError::Unrecognized));
}

#[test]
fn client_bytes() {
    assert_eq!(write_payload(258), 258usize.to_ne_bytes().to_vec());
    assert_eq!(shown_value([1, 2, 0, 0]), 513);
    assert_eq!(shown_value([0xff, 0xff, 0xff, 0xff]), u32::MAX);
}

#[test]
fn environment_keeps_non_initfs_lines() {
    let env = b"PATH=/bin\n\nINITFS_X=1\nHOME=/\nINITFS\n";
    let vars = environment_variables(env);
    assert_eq!(vars, vec![b"PATH=/bin".to_vec(), b"HOME=/".to_vec(), b"INITFS".to_vec()]);
    assert_eq!(environment_variables(b""), Vec::<Vec<u8>>::new());
    assert_eq!(environment_variables(b"A=1"), vec![b"A=1".to_vec()]);
}

#[test]
fn pointee_size_counts_terminators() {
    let envs = vec![b"A=1".to_vec(), b"BB=22".to_vec()];
    let size = args_envs_auxv_pointee_size(b"/scheme/initfs/bin/init", &envs, b"/scheme/initfs", b"initfs");
    assert_eq!(size, Some(23 + 1 + 2 + 8 + 14 + 1 + 6 + 1));
    assert_eq!(args_envs_auxv_pointee_size(b"", &Vec::new(), b"", b""), Some(3));
}

#[test]
fn fork_roles() {
    assert_eq!(fork_role(Ok(0)), ForkRole::Child);
    assert_eq!(fork_role(Ok(12)), ForkRole::Parent { child: 12 });
    assert_eq!(fork_role(Err(11)), ForkRole::Failed { errno: 11 });
    assert!(retry_sync_read(Err(syscall::error::EINTR)));
    assert!(!retry_sync_read(Err(syscall::error::EBADF)));
    assert!(!retry_sync_read(Ok(0)));
}
