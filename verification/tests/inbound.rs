use birthday_bot::command::{parse_command, Command};
use birthday_bot::webhook::{classify_route, decode_body, BodyError, Route};

#[test]
fn bare_commands_parse() {
    assert!(matches!(parse_command("/help", "bday_bot"), Command::Help));
    assert!(matches!(parse_command("/start", "bday_bot"), Command::Start));
    match parse_command("/register 15.03", "bday_bot") {
        Command::Register(arg) => assert_eq!(arg, "15.03"),
        other => panic!("expected a register command, got {:?}", other),
    }
}

#[test]
fn mentioned_commands_parse_for_this_bot_only() {
    assert!(matches!(parse_command("/help@bday_bot", "bday_bot"), Command::Help));
    assert!(matches!(parse_command("/help@other_bot", "bday_bot"), Command::Unrecognized));
    match parse_command("/register@bday_bot 29.2", "bday_bot") {
        Command::Register(arg) => assert_eq!(arg, "29.2"),
        other => panic!("expected a register command, got {:?}", other),
    }
}

#[test]
fn extra_spaces_are_ignored() {
    assert!(matches!(parse_command("  /start  ", "bday_bot"), Command::Start));
    match parse_command(" /register   15.03 ", "bday_bot") {
        Command::Register(arg) => assert_eq!(arg, "15.03"),
        other => panic!("expected a register command, got {:?}", other),
    }
}

#[test]
fn wrong_argument_counts_are_unrecognized() {
    assert!(matches!(parse_command("/register", "bday_bot"), Command::Unrecognized));
    assert!(matches!(parse_command("/register 15.03 junk", "bday_bot"), Command::Unrecognized));
    assert!(matches!(parse_command("/help 15.03", "bday_bot"), Command::Unrecognized));
}

#[test]
fn other_text_is_unrecognized() {
    assert!(matches!(parse_command("", "bday_bot"), Command::Unrecognized));
    assert!(matches!(parse_command("   ", "bday_bot"), Command::Unrecognized));
    assert!(matches!(parse_command("hello there", "bday_bot"), Command::Unrecognized));
    assert!(matches!(parse_command("register 15.03", "bday_bot"), Command::Unrecognized));
}

#[test]
fn routes_classify_against_the_secret() {
    let secret = "s3cr3t";
    assert_eq!(classify_route("/", secret), Route::Hi);
    assert_eq!(classify_route("$/greet", secret), Route::Greet);
    assert_eq!(classify_route("/hook/s3cr3t", secret), Route::Webhook);
    assert_eq!(classify_route("/install-webhook/s3cr3t", secret), Route::InstallWebhook);
    assert_eq!(classify_route("/hook/wrong", secret), Route::Unknown);
    assert_eq!(classify_route("/hook/", secret), Route::Unknown);
    assert_eq!(classify_route("/greet", secret), Route::Unknown);
    assert_eq!(classify_route("", secret), Route::Unknown);
}

#[test]
fn absent_body_decodes_empty() {
    assert_eq!(decode_body(None, false).unwrap(), Vec::<u8>::new());
    assert_eq!(decode_body(None, true).unwrap(), Vec::<u8>::new());
}

#[test]
fn plain_body_passes_through_as_bytes() {
    let bytes = decode_body(Some("{\"a\":1}".to_string()), false).unwrap();
    assert_eq!(bytes, b"{\"a\":1}".to_vec());
}

#[test]
fn base64_body_is_decoded() {
    let bytes = decode_body(Some("aGk=".to_string()), true).unwrap();
    assert_eq!(bytes, b"hi".to_vec());
}

#[test]
fn invalid_base64_is_rejected() {
    let err = decode_body(Some("!!!".to_string()), true).unwrap_err();
    assert_eq!(err, BodyError::InvalidBase64);
}
