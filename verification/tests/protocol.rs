use git_remote_s3::error::Error;
use git_remote_s3::protocol::{parse_command, Command};

fn malformed(line: &str) -> Result<Command, Error> {
    Err(Error::MalformedCommand { line: line.to_string() })
}

#[test]
fn capabilities_is_a_command() {
    assert_eq!(parse_command("capabilities\n"), Ok(Command::Capabilities));
    assert_eq!(parse_command("capabilities"), Ok(Command::Capabilities));
    assert_eq!(parse_command("capabilities ignored words\n"), Ok(Command::Capabilities));
    assert_eq!(parse_command("\tcapabilities\r\n"), Ok(Command::Capabilities));
}

#[test]
fn list_with_and_without_for_push() {
    assert_eq!(parse_command("list\n"), Ok(Command::List { for_push: false }));
    assert_eq!(parse_command("list for-push\n"), Ok(Command::List { for_push: true }));
    assert_eq!(parse_command("list for-pull\n"), Ok(Command::List { for_push: false }));
    assert_eq!(parse_command("list  for-push\n"), Ok(Command::List { for_push: false }));
    assert_eq!(parse_command("list x for-push\n"), Ok(Command::List { for_push: false }));
}

#[test]
fn fetch_takes_sha_and_name() {
    assert_eq!(
        parse_command("fetch 4b825dc642cb6eb9a060e54bf8d69288fbee4904 refs/heads/main\n"),
        Ok(Command::Fetch {
            sha: "4b825dc642cb6eb9a060e54bf8d69288fbee4904".to_string(),
            name: "refs/heads/main".to_string(),
        })
    );
    assert_eq!(
        parse_command("fetch abc refs/heads/main and more\n"),
        Ok(Command::Fetch { sha: "abc".to_string(), name: "refs/heads/main".to_string() })
    );
    assert_eq!(
        parse_command("fetch  name\n"),
        Ok(Command::Fetch { sha: "".to_string(), name: "name".to_string() })
    );
}

#[test]
fn fetch_without_both_arguments_is_malformed() {
    assert_eq!(parse_command("fetch\n"), malformed("fetch\n"));
    assert_eq!(parse_command("fetch abc\n"), malformed("fetch abc\n"));
    assert_eq!(parse_command("fetch abc"), malformed("fetch abc"));
}

#[test]
fn push_takes_source_and_destination() {
    assert_eq!(
        parse_command("push refs/heads/main:refs/heads/main\n"),
        Ok(Command::Push {
            src: "refs/heads/main".to_string(),
            dst: "refs/heads/main".to_string(),
            force: false,
        })
    );
    assert_eq!(
        parse_command("push +refs/heads/a:refs/heads/b\n"),
        Ok(Command::Push {
            src: "refs/heads/a".to_string(),
            dst: "refs/heads/b".to_string(),
            force: true,
        })
    );
    assert_eq!(
        parse_command("push ++a:b:c extra\n"),
        Ok(Command::Push { src: "+a".to_string(), dst: "b".to_string(), force: true })
    );
    assert_eq!(
        parse_command("push a:\n"),
        Ok(Command::Push { src: "a".to_string(), dst: "".to_string(), force: false })
    );
    assert_eq!(
        parse_command("push +:b\n"),
        Ok(Command::Push { src: "".to_string(), dst: "b".to_string(), force: true })
    );
}

#[test]
fn push_without_colon_is_malformed() {
    assert_eq!(
        parse_command("push refs/heads/main\n"),
        malformed("push refs/heads/main\n")
    );
    assert_eq!(parse_command("push +main\n"), malformed("push +main\n"));
}

#[test]
fn push_without_source_is_malformed() {
    assert_eq!(parse_command("push\n"), malformed("push\n"));
    assert_eq!(parse_command("push :dst\n"), malformed("push :dst\n"));
    assert_eq!(parse_command("push  a:b\n"), malformed("push  a:b\n"));
    assert_eq!(parse_command("push \n"), malformed("push \n"));
}

#[test]
fn anything_else_ends_the_session() {
    assert_eq!(parse_command(""), Ok(Command::Exit));
    assert_eq!(parse_command("\n"), Ok(Command::Exit));
    assert_eq!(parse_command("   \n"), Ok(Command::Exit));
    assert_eq!(parse_command("option verbosity 1\n"), Ok(Command::Exit));
    assert_eq!(parse_command("Capabilities\n"), Ok(Command::Exit));
    assert_eq!(parse_command("fetcher a b\n"), Ok(Command::Exit));
    assert_eq!(parse_command(" list\n"), Ok(Command::Exit));
    assert_eq!(parse_command("pushé a:b\n"), Ok(Command::Exit));
}
