use colored::Colorize;
use fun_cli::music::{minutes_and_seconds, progress_bar, MusicHandler, PlaybackStep, MUSIC_SEARCH_PREFIX};

#[test]
fn test_colored_print() {
    println!("blue:{}-red:{}:on_bright_green:{}", "hello world".blue(), "hello world".red(), "hello world".on_bright_green());
    println!("green bold:{},bright_red italic:{}", "hello world".green().bold(), "italic".bright_red().italic());
}

#[test]
fn new_keeps_its_arguments() {
    let h = MusicHandler::new("富士山下".to_string(), true, false);
    assert_eq!(h.name, "富士山下");
    assert!(h.play);
    assert!(!h.loop_play);
}

#[test]
fn search_url_encodes_utf8_name() {
    let h = MusicHandler::new("富士山下".to_string(), true, true);
    assert_eq!(
        h.search_url(),
        "https://api.bakaomg.cn/v1/music/netease/search?keyword=%E5%AF%8C%E5%A3%AB%E5%B1%B1%E4%B8%8B"
    );
}

#[test]
fn search_url_matches_template_replacement() {
    let template = "https://api.bakaomg.cn/v1/music/netease/search?keyword={keyword}";
    let h = MusicHandler::new("Hello World & co.".to_string(), false, false);
    let encoded = "Hello+World+%26+co.";
    assert_eq!(h.search_url(), template.replace("{keyword}", encoded));
    assert_eq!(h.search_url(), format!("{}{}", MUSIC_SEARCH_PREFIX, encoded));
}

#[test]
fn search_url_keeps_unreserved_bytes() {
    let h = MusicHandler::new("aZ09*-._".to_string(), false, false);
    assert_eq!(h.search_url(), format!("{}aZ09*-._", MUSIC_SEARCH_PREFIX));
    let empty = MusicHandler::new(String::new(), false, false);
    assert_eq!(empty.search_url(), MUSIC_SEARCH_PREFIX);
}

#[test]
fn playback_steps() {
    let once = MusicHandler::new("x".to_string(), true, false);
    let looping = MusicHandler::new("x".to_string(), true, true);
    assert_eq!(once.next_playback_step(false), PlaybackStep::Continue);
    assert_eq!(looping.next_playback_step(false), PlaybackStep::Continue);
    assert_eq!(once.next_playback_step(true), PlaybackStep::Finish);
    assert_eq!(looping.next_playback_step(true), PlaybackStep::Restart);
}

#[test]
fn finish_words() {
    assert_eq!(MusicHandler::new("x".to_string(), false, false).finish_word(), "分析完成");
    assert_eq!(MusicHandler::new("x".to_string(), true, false).finish_word(), "播放完成");
}

#[test]
fn progress_bar_shapes() {
    assert_eq!(progress_bar(0), " ".repeat(50));
    assert_eq!(progress_bar(50), "=".repeat(50));
    let bar = progress_bar(3);
    assert_eq!(bar, format!("==={}", " ".repeat(47)));
    assert_eq!(bar.chars().count(), 50);
}

#[test]
fn minutes_and_seconds_split() {
    assert_eq!(minutes_and_seconds(0), (0, 0));
    assert_eq!(minutes_and_seconds(59), (0, 59));
    assert_eq!(minutes_and_seconds(125), (2, 5));
    let (m, s) = minutes_and_seconds(3725);
    assert_eq!(m * 60 + s, 3725);
}
