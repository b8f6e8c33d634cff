use polymix_update::command::Command;
use std::str::FromStr;

#[test]
fn test_from_str_case_insensitive() {
    assert_eq!(Command::from_str_case_insensitive("Upload"), Ok(Command::Upload));
    assert_eq!(Command::from_str_case_insensitive("upload"), Ok(Command::Upload));
    assert_eq!(Command::from_str_case_insensitive("Download"), Ok(Command::Download));
    assert_eq!(Command::from_str_case_insensitive("download"), Ok(Command::Download));
    assert_eq!(Command::from_str_case_insensitive("List"), Ok(Command::List));
    assert_eq!(Command::from_str_case_insensitive("list"), Ok(Command::List));
    assert_eq!(Command::from_str_case_insensitive("invalid"), Err(()));
}

#[test]
fn test_from_str_trait_dispatch() {
    assert_eq!(Command::from_str("UPLOAD"), Ok(Command::Upload));
    assert_eq!("dOwNlOaD".parse::<Command>(), Ok(Command::Download));
    assert_eq!("LIST".parse::<Command>(), Ok(Command::List));
    assert_eq!("".parse::<Command>(), Err(()));
    assert_eq!("listing".parse::<Command>(), Err(()));
}
