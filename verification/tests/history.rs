use agc::config::EnvVars;
use agc::history::{History, Selection, parse_usize};

fn history(lines: &str) -> History {
    History::from_contents("/tmp/h".into(), Some(lines.into()))
}

#[test]
fn load_keeps_nonempty_lines() {
    let h = history("/a\n\n/b\r\n/c");
    assert_eq!(h.entries(), vec!["/a", "/b", "/c"]);
    assert!(History::from_contents("/tmp/h".into(), None).entries().is_empty());
}

#[test]
fn add_moves_or_inserts_at_front() {
    let mut h = history("/a\n/b\n/c\n");
    h.add("/c".into());
    assert_eq!(h.entries(), vec!["/c", "/a", "/b"]);
    h.add("/d".into());
    assert_eq!(h.entries(), vec!["/d", "/c", "/a", "/b"]);
    h.add("/d".into());
    assert_eq!(h.entries(), vec!["/d", "/c", "/a", "/b"]);
    assert_eq!(h.file_contents(), "/d\n/c\n/a\n/b\n");
}

#[test]
fn filter_is_case_insensitive_substring() {
    let h = history("/home/u/Projects/AGC\n/home/u/other\n/srv/agc-tools\n");
    assert_eq!(h.filter("agc"), vec!["/home/u/Projects/AGC", "/srv/agc-tools"]);
    assert!(h.filter("none").is_empty());
}

#[test]
fn history_path_prefers_xdg_data_then_home() {
    let mut env = EnvVars::empty();
    assert_eq!(History::resolve_path(&env), ".agc_history");
    env.home = Some("/home/u".into());
    assert_eq!(History::resolve_path(&env), "/home/u/.local/share/agc/history");
    env.xdg_data_home = Some("/data".into());
    assert_eq!(History::resolve_path(&env), "/data/agc/history");
    env.windows = true;
    assert_eq!(History::resolve_path(&env), ".agc_history");
}

#[test]
fn selection_and_numbered_choice() {
    let opts: Vec<String> = vec!["/a".into(), "/b".into()];
    assert!(matches!(History::select_fzf(&[]), Selection::Nothing));
    assert!(matches!(History::select_fzf(&opts[..1]), Selection::Single(ref s) if s == "/a"));
    assert!(matches!(History::select_fzf(&opts), Selection::Ask));
    assert_eq!(History::pick_by_number(&opts, " 2\n").as_deref(), Some("/b"));
    assert_eq!(History::pick_by_number(&opts, "+1").as_deref(), Some("/a"));
    assert!(History::pick_by_number(&opts, "0").is_none());
    assert!(History::pick_by_number(&opts, "3").is_none());
    assert!(History::pick_by_number(&opts, "x").is_none());
    assert_eq!(History::fzf_choice(" /b \n").as_deref(), Some("/b"));
    assert!(History::fzf_choice("\n").is_none());
    assert_eq!(History::menu_lines(&opts), vec!["\n匹配到多个目录，请选择：", "  1. /a", "  2. /b"]);
    assert_eq!(History::menu_prompt(2), "输入序号 (1-2): ");
}

#[test]
fn parse_usize_matches_std() {
    for s in ["0", "42", "+7", "", "+", "-1", "1a", "18446744073709551615", "18446744073709551616"] {
        assert_eq!(parse_usize(s), s.parse::<usize>().ok(), "{s}");
    }
}

#[test]
fn saved_history_reads_back() {
    let mut h = History::from_contents("/tmp/h".into(), None);
    h.add("/srv/a".into());
    h.add("/home/u/b c".into());
    h.add("/srv/a".into());
    let again = History::from_contents("/tmp/h".into(), Some(h.file_contents()));
    assert_eq!(again.entries(), h.entries());
    assert_eq!(again.entries(), vec!["/srv/a", "/home/u/b c"]);
}
