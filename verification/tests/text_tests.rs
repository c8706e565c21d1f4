use config_installer::platform::dir_name_from;
use config_installer::platform::get_dir_name;
use config_installer::platform::hook_binary_name;
use config_installer::platform::installed_command;
use config_installer::platform::Platform;
use config_installer::text::after_last;
use config_installer::text::contains;
use config_installer::text::has_prefix;
use config_installer::text::has_suffix;
use config_installer::text::split_words;
use config_installer::text::strip_trailing;
use config_installer::text::to_chars;
use config_installer::text::trim;

#[test]
fn searching() {
    assert!(contains("hello world", "lo w"));
    assert!(contains("abc", ""));
    assert!(contains("", ""));
    assert!(!contains("abc", "abcd"));
    assert!(!contains("abc", "ca"));
    assert!(contains("äöü", "öü"));
    assert!(has_prefix("https://x", "https://"));
    assert!(!has_prefix("http://x", "https://"));
    assert!(has_suffix("a.md", ".md"));
    assert!(!has_suffix("md", ".md"));
    assert_eq!(to_chars("aß"), vec!['a', 'ß']);
}

#[test]
fn trimming_and_splitting() {
    assert_eq!(trim("  a b \n"), "a b");
    assert_eq!(trim("\u{2003}x\u{a0}"), "x");
    assert_eq!(trim(" \t "), "");
    assert_eq!(trim(""), "");
    assert_eq!(split_words("  one\ttwo \n three"), vec!["one", "two", "three"]);
    assert!(split_words(" \n").is_empty());
    assert_eq!(strip_trailing("a.git.git", ".git"), "a");
    assert_eq!(strip_trailing(".git", ".git"), "");
    assert_eq!(strip_trailing("a.gi", ".git"), "a.gi");
    assert_eq!(strip_trailing("abc", ""), "abc");
    assert_eq!(after_last("a/b/c", "/"), "c");
    assert_eq!(after_last("abc", "/"), "abc");
    assert_eq!(after_last("a//", "/"), "");
    assert_eq!(after_last("xaaay", "aa"), "y");
}

#[test]
fn directory_names() {
    assert_eq!(get_dir_name("/home/user/project"), "project");
    assert_eq!(get_dir_name("project"), "project");
    assert_eq!(get_dir_name("/"), "/");
    assert_eq!(get_dir_name(""), "");
    assert_eq!(dir_name_from("/a/b", Some("b".to_string())), "b");
    assert_eq!(dir_name_from("/a/..", None), "/a/..");
}

#[test]
fn hook_binaries_and_commands() {
    assert_eq!(hook_binary_name(Some("guide_linux".to_string()), "guide", Platform::MacOs), "guide_linux");
    assert_eq!(hook_binary_name(None, "guide", Platform::Windows), "guide.exe");
    assert_eq!(hook_binary_name(None, "guide", Platform::MacOs), "guide_macos");
    assert_eq!(hook_binary_name(None, "guide", Platform::Linux), "guide_linux");
    assert_eq!(installed_command("~/.tool", "/home/u/.tool", "hooks", "guide", Platform::Linux), "~/.tool/hooks/guide");
    let windows = installed_command("~/.tool", "base", "hooks", "guide.exe", Platform::Windows);
    assert!(windows.starts_with("base") && windows.ends_with("guide.exe") && windows.contains("hooks"));
}
