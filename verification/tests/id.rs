//! The identification string.

use ssh_packet::arch::id::{Id, ParseError};
use ssh_packet::{Error, ErrorKind};

fn parses(text: &str) -> Id {
    Id::from_str(text).expect(text)
}

fn rejects(text: &str) {
    match Id::from_str(text) {
        Err(ParseError::Format(kept)) => assert_eq!(kept, text),
        other => panic!("{text:?} was not refused: {other:?}"),
    }
}

#[test]
fn it_parses_valid() {
    parses("SSH-2.0-billsSSH_3.6.3q3");
    parses("SSH-1.99-billsSSH_3.6.3q3");
    parses("SSH-2.0-billsSSH_3.6.3q3 with-comment");
    parses("SSH-2.0-billsSSH_3.6.3q3 utf∞-comment");
    parses("SSH-2.0-billsSSH_3.6.3q3 ");
}

#[test]
fn it_rejects_invalid() {
    rejects("");
    rejects("FOO-2.0-billsSSH_3.6.3q3");
    rejects("-2.0-billsSSH_3.6.3q3");
    rejects("SSH--billsSSH_3.6.3q3");
    rejects("SSH-2.0-");
}

#[test]
fn it_rejects_what_has_too_few_parts() {
    rejects("SSH");
    rejects("SSH-2.0");
    rejects("SSH 2.0-billsSSH");
    rejects("ssh-2.0-billsSSH");
    rejects(" SSH-2.0-billsSSH");
    rejects("SSH-2.0 -billsSSH");
}

#[test]
fn it_reparses_consistently() {
    for id in [
        Id::v2("billsSSH_3.6.3q3", None),
        Id::v2("billsSSH_utf∞", None),
        Id::v2("billsSSH_3.6.3q3", Some("with-comment")),
        Id::v2("billsSSH_3.6.3q3", Some("utf∞-comment")),
        Id::v2("billsSSH_3.6.3q3", Some("")),
    ] {
        assert_eq!(id, Id::from_str(&id.to_string()).unwrap());
    }
}

#[test]
fn it_cuts_the_text_into_its_parts() {
    let id = parses("SSH-1.99-Open-SSH_9.6 first second");
    assert_eq!(id.protoversion, "1.99");
    assert_eq!(id.softwareversion, "Open-SSH_9.6");
    assert_eq!(id.comments.as_deref(), Some("first second"));
    let id = parses("SSH-2.0-billsSSH_3.6.3q3");
    assert_eq!(id.protoversion, "2.0");
    assert_eq!(id.softwareversion, "billsSSH_3.6.3q3");
    assert_eq!(id.comments, None);
    let id = parses("SSH-2.0-x ");
    assert_eq!(id.comments.as_deref(), Some(""));
}

#[test]
fn it_writes_the_parts_in_their_order() {
    assert_eq!(Id::v2("billsSSH_3.6.3q3", None).to_string(), "SSH-2.0-billsSSH_3.6.3q3");
    assert_eq!(
        Id::v2("billsSSH_3.6.3q3", Some("with-comment")).to_string(),
        "SSH-2.0-billsSSH_3.6.3q3 with-comment"
    );
    assert_eq!(Id::v2("x", Some("")).to_string(), "SSH-2.0-x ");
    let id = Id {
        protoversion: "1.99".to_string(),
        softwareversion: "y".to_string(),
        comments: None,
    };
    assert_eq!(id.to_string(), "SSH-1.99-y");
}

#[test]
fn a_misformatted_identifier_is_a_bad_identifier() {
    let error = Error::from(Id::from_str("FOO-2.0-x").unwrap_err());
    assert_eq!(error.kind(), ErrorKind::BadIdentifier);
    assert_eq!(error, Error::BadIdentifier("FOO-2.0-x".to_string()));
}
