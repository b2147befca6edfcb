use sunny::error::CommandError;
use sunny::queue::Placement;
use sunny::session::Session;
use sunny::track::Track;

fn track(url: &str) -> Track {
    Track::new(String::from(url), 7)
}

fn urls(s: &Session) -> Vec<String> {
    let mut out = Vec::new();
    let mut pos = 1;
    while let Some(t) = s.track_at(pos) {
        out.push(t.url.clone());
        pos += 1;
    }
    out
}

fn playing_url(s: &Session) -> Option<String> {
    s.now_playing().map(|t| t.url.clone())
}

#[test]
fn enqueue_grows_length_by_one() {
    let mut s = Session::new(1, 2, 3);
    let (len, started) = s.enqueue(track("https://a"), Placement::Back);
    assert_eq!(len, 1);
    assert_eq!(started.map(|t| t.url), Some(String::from("https://a")));
    let (len, started) = s.enqueue(track("https://b"), Placement::Back);
    assert_eq!(len, 2);
    assert!(started.is_none());
    let (len, started) = s.enqueue(track("https://c"), Placement::Front);
    assert_eq!(len, 3);
    assert!(started.is_none());
}

#[test]
fn enqueue_front_never_displaces_playing_head() {
    let mut s = Session::new(1, 2, 3);
    s.enqueue(track("https://a"), Placement::Back);
    s.enqueue(track("https://b"), Placement::Back);
    s.enqueue(track("https://n"), Placement::Front);
    assert_eq!(urls(&s), vec!["https://a", "https://n", "https://b"]);
    assert_eq!(playing_url(&s), Some(String::from("https://a")));
}

#[test]
fn enqueue_front_into_empty_starts_playback() {
    let mut s = Session::new(1, 2, 3);
    let (len, started) = s.enqueue(track("https://a"), Placement::Front);
    assert_eq!(len, 1);
    assert_eq!(started.map(|t| t.url), Some(String::from("https://a")));
    assert_eq!(playing_url(&s), Some(String::from("https://a")));
}

#[test]
fn remove_first_advances_with_one_play_start() {
    let mut s = Session::new(1, 2, 3);
    s.enqueue(track("https://a"), Placement::Back);
    s.enqueue(track("https://b"), Placement::Back);
    s.enqueue(track("https://c"), Placement::Back);
    let (removed, directive) = s.remove_at(1).unwrap();
    assert_eq!(removed.url, "https://a");
    assert_eq!(urls(&s), vec!["https://b", "https://c"]);
    assert_eq!(playing_url(&s), Some(String::from("https://b")));
    assert!(directive.stop_current);
    // exactly one play-start: the directive carries one track to start
    assert_eq!(directive.start.map(|t| t.url), Some(String::from("https://b")));
}

#[test]
fn remove_later_position_keeps_playback_untouched() {
    let mut s = Session::new(1, 2, 3);
    s.enqueue(track("https://a"), Placement::Back);
    s.enqueue(track("https://b"), Placement::Back);
    let (removed, directive) = s.remove_at(2).unwrap();
    assert_eq!(removed.url, "https://b");
    assert!(!directive.stop_current);
    assert!(directive.start.is_none());
    assert_eq!(playing_url(&s), Some(String::from("https://a")));
}

#[test]
fn remove_out_of_range_positions_fail() {
    let mut s = Session::new(1, 2, 3);
    s.enqueue(track("https://a"), Placement::Back);
    assert_eq!(s.remove_at(0).unwrap_err(), CommandError::PositionOutOfRange);
    assert_eq!(s.remove_at(2).unwrap_err(), CommandError::PositionOutOfRange);
    assert_eq!(urls(&s), vec!["https://a"]);
}

#[test]
fn skip_last_track_goes_idle_with_length_zero() {
    let mut s = Session::new(1, 2, 3);
    s.enqueue(track("https://a"), Placement::Back);
    let (remaining, directive) = s.skip().unwrap();
    assert_eq!(remaining, 0);
    assert!(directive.stop_current);
    assert!(directive.start.is_none());
    assert!(s.now_playing().is_none());
    assert_eq!(urls(&s), Vec::<String>::new());
}

#[test]
fn skip_from_idle_is_invalid() {
    let mut s = Session::new(1, 2, 3);
    assert_eq!(s.skip().unwrap_err(), CommandError::InvalidState);
}

#[test]
fn swap_is_pure_reorder_and_playback_follows_head() {
    let mut s = Session::new(1, 2, 3);
    s.enqueue(track("https://a"), Placement::Back);
    s.enqueue(track("https://b"), Placement::Back);
    s.enqueue(track("https://c"), Placement::Back);
    let (moved_a, moved_b) = s.swap(1, 3).unwrap();
    assert_eq!(moved_a.url, "https://a");
    assert_eq!(moved_b.url, "https://c");
    assert_eq!(urls(&s), vec!["https://c", "https://b", "https://a"]);
    // no transport directive exists for swap: the stream is not restarted,
    // and the player now references the new head
    assert_eq!(playing_url(&s), Some(String::from("https://c")));
}

#[test]
fn swap_twice_restores_order() {
    let mut s = Session::new(1, 2, 3);
    s.enqueue(track("https://a"), Placement::Back);
    s.enqueue(track("https://b"), Placement::Back);
    s.enqueue(track("https://c"), Placement::Back);
    s.enqueue(track("https://d"), Placement::Back);
    let before = urls(&s);
    s.swap(2, 4).unwrap();
    s.swap(2, 4).unwrap();
    assert_eq!(urls(&s), before);
    assert_eq!(playing_url(&s), Some(String::from("https://a")));
}

#[test]
fn swap_rejects_equal_and_out_of_range_positions() {
    let mut s = Session::new(1, 2, 3);
    s.enqueue(track("https://a"), Placement::Back);
    s.enqueue(track("https://b"), Placement::Back);
    assert_eq!(s.swap(2, 2).unwrap_err(), CommandError::InvalidArgument);
    assert_eq!(s.swap(1, 3).unwrap_err(), CommandError::PositionOutOfRange);
    assert_eq!(urls(&s), vec!["https://a", "https://b"]);
}

#[test]
fn shuffle_keeps_head_and_tail_contents() {
    let mut s = Session::new(1, 2, 3);
    s.enqueue(track("https://a"), Placement::Back);
    s.enqueue(track("https://b"), Placement::Back);
    s.enqueue(track("https://c"), Placement::Back);
    s.enqueue(track("https://d"), Placement::Back);
    let picks: Vec<Vec<u64>> = vec![vec![0, 0], vec![2, 1], vec![17, 3], vec![1, 0]];
    for p in picks {
        s.shuffle(&p);
        let now = urls(&s);
        assert_eq!(now[0], "https://a");
        let mut tail: Vec<String> = now[1..].to_vec();
        tail.sort();
        assert_eq!(tail, vec!["https://b", "https://c", "https://d"]);
        assert_eq!(playing_url(&s), Some(String::from("https://a")));
    }
}

#[test]
fn shuffle_outcome_is_pinned_by_the_picks() {
    let mut s = Session::new(1, 2, 3);
    s.enqueue(track("https://a"), Placement::Back);
    s.enqueue(track("https://b"), Placement::Back);
    s.enqueue(track("https://c"), Placement::Back);
    s.enqueue(track("https://d"), Placement::Back);
    // first step swaps index 3 with 1 + 0 % 3 = 1, second swaps index 2
    // with 1 + 0 % 2 = 1
    s.shuffle(&vec![0, 0]);
    assert_eq!(urls(&s), vec!["https://a", "https://c", "https://d", "https://b"]);
}

#[test]
fn pause_resume_and_stop_transitions() {
    let mut s = Session::new(1, 2, 3);
    assert_eq!(s.pause().unwrap_err(), CommandError::InvalidState);
    s.enqueue(track("https://a"), Placement::Back);
    assert!(s.player.is_playing());
    assert_eq!(s.resume().unwrap_err(), CommandError::InvalidState);
    s.pause().unwrap();
    assert!(s.player.is_paused());
    assert_eq!(s.pause().unwrap_err(), CommandError::InvalidState);
    s.resume().unwrap();
    assert!(s.player.is_playing());
    let directive = s.stop();
    assert!(directive.stop_current);
    assert!(directive.start.is_none());
    assert!(s.now_playing().is_none());
    assert_eq!(s.queue_len(), 0);
    // stop from idle asks nothing of the transport
    let directive = s.stop();
    assert!(!directive.stop_current);
}

#[test]
fn two_commands_serialize_to_one_of_two_orders() {
    // the same racing pair in both grant orders: each order is a valid
    // sequential execution and leaves a consistent state
    let build = || {
        let mut s = Session::new(1, 2, 3);
        s.enqueue(track("https://a"), Placement::Back);
        s.enqueue(track("https://b"), Placement::Back);
        s.enqueue(track("https://c"), Placement::Back);
        s
    };
    let mut first = build();
    first.skip().unwrap();
    first.remove_at(1).unwrap();
    assert_eq!(urls(&first), vec!["https://c"]);
    assert_eq!(playing_url(&first), Some(String::from("https://c")));

    let mut second = build();
    second.remove_at(1).unwrap();
    second.skip().unwrap();
    assert_eq!(urls(&second), vec!["https://c"]);
    assert_eq!(playing_url(&second), Some(String::from("https://c")));
}

#[test]
fn play_start_failure_reverts_player_and_keeps_track() {
    let mut s = Session::new(1, 2, 3);
    s.enqueue(track("https://a"), Placement::Back);
    s.play_start_failed();
    assert!(s.now_playing().is_none());
    assert_eq!(urls(&s), vec!["https://a"]);
}

#[test]
fn titles_show_in_display_names() {
    let mut t = track("https://a");
    assert_eq!(t.display_name(), "https://a");
    t.set_title(String::from("SongA"));
    assert_eq!(t.display_name(), "SongA");
}
