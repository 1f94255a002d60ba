use mcp_ssh_sessions::codec::{encode_request, escape_command};

/// What the remote shell does to the text between the double quotes.
fn shell_unescape(s: &str) -> String {
    let chars: Vec<char> = s.chars().collect();
    let mut out = String::new();
    let mut i = 0;
    while i < chars.len() {
        if chars[i] == '\\' && i + 1 < chars.len() && "\\\"$`".contains(chars[i + 1]) {
            out.push(chars[i + 1]);
            i += 2;
        } else {
            out.push(chars[i]);
            i += 1;
        }
    }
    out
}

#[test]
fn escapes_each_special_character() {
    assert_eq!(escape_command("\\"), "\\\\");
    assert_eq!(escape_command("\""), "\\\"");
    assert_eq!(escape_command("$"), "\\$");
    assert_eq!(escape_command("`"), "\\`");
    assert_eq!(escape_command("plain text"), "plain text");
    assert_eq!(escape_command(""), "");
}

#[test]
fn escaping_matches_replacements_in_order() {
    let cmd = "echo \"$HOME\" `whoami` \\n done";
    let expected = cmd
        .replace('\\', "\\\\")
        .replace('"', "\\\"")
        .replace('$', "\\$")
        .replace('`', "\\`");
    assert_eq!(escape_command(cmd), expected);
}

#[test]
fn round_trip_of_all_special_characters() {
    let cmd = "printf \"%s\\n\" $USER `date` literal-text";
    let line = encode_request(cmd, false);
    assert!(line.starts_with("run \""));
    assert!(line.ends_with('"'));
    let inner = &line["run \"".len()..line.len() - 1];
    assert_eq!(shell_unescape(inner), cmd);
}

#[test]
fn encode_plain_and_elevated() {
    assert_eq!(encode_request("ls -la", false), "run \"ls -la\"");
    assert_eq!(encode_request("echo $x", true), "sudo_run \"echo \\$x\"");
}
