use archmie::escape::escape_apple;
use archmie::escape::escape_backslashes;
use archmie::escape::escape_posix;

#[test]
fn posix_escape_quotes_each_double_quote() {
    assert_eq!(escape_posix("echo \"hi\""), "echo \\\"hi\\\"");
    assert_eq!(escape_posix("\""), "\\\"");
    assert_eq!(escape_posix("\"\""), "\\\"\\\"");
}

#[test]
fn posix_escape_leaves_other_text_alone() {
    assert_eq!(escape_posix("sudo pacman -Syu"), "sudo pacman -Syu");
    assert_eq!(escape_posix(""), "");
    assert_eq!(escape_posix("a\\b"), "a\\b");
    assert_eq!(escape_posix("echo $HOME `ls`"), "echo $HOME `ls`");
}

#[test]
fn apple_escape_backslashes_then_quotes() {
    assert_eq!(escape_apple("a\\b"), "a\\\\b");
    assert_eq!(escape_apple("say \"hi\""), "say \\\"hi\\\"");
    assert_eq!(escape_apple("\\\""), "\\\\\\\"");
    assert_eq!(escape_apple(""), "");
}

#[test]
fn apple_escape_round_trips_by_unescaping_in_reverse_order() {
    let original = "echo \"a\\b\" \"c\"";
    let escaped = escape_apple(original);
    // Undo the quote escaping first, then the backslash escaping.
    let unquoted = escaped.replace("\\\"", "\"");
    let unescaped = unquoted.replace("\\\\", "\\");
    assert_eq!(unescaped, original);
}

#[test]
fn backslash_escape_doubles_each_backslash() {
    assert_eq!(escape_backslashes("a\\b\\"), "a\\\\b\\\\");
    assert_eq!(escape_backslashes("plain"), "plain");
}
