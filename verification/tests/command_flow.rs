use sunny::commands;
use sunny::error::CommandError;
use sunny::numfmt::u64_to_string;
use sunny::registry::SessionRegistry;
use sunny::validate::{parse_position, validate_url};

const GUILD: u64 = 11;
const VOICE: u64 = 42;
const TEXT: u64 = 99;

fn joined_registry() -> SessionRegistry {
    let mut reg = SessionRegistry::new();
    commands::join(&mut reg, GUILD, Some(VOICE), TEXT).unwrap();
    reg
}

#[test]
fn join_names_the_channel() {
    let mut reg = SessionRegistry::new();
    let rep = commands::join(&mut reg, GUILD, Some(VOICE), TEXT).unwrap();
    assert_eq!(rep.message, "Joined <#42>");
    assert!(!rep.transport.stop_current);
    assert!(rep.transport.start.is_none());
}

#[test]
fn join_requires_a_voice_channel() {
    let mut reg = SessionRegistry::new();
    let err = commands::join(&mut reg, GUILD, None, TEXT).unwrap_err();
    assert_eq!(err, CommandError::PreconditionFailed);
}

#[test]
fn join_twice_into_the_same_channel_is_refused() {
    let mut reg = joined_registry();
    let err = commands::join(&mut reg, GUILD, Some(VOICE), TEXT).unwrap_err();
    assert_eq!(err, CommandError::AlreadyConnected);
    // another channel rebinds instead
    commands::join(&mut reg, GUILD, Some(VOICE + 1), TEXT).unwrap();
}

#[test]
fn leave_then_join_succeeds_again() {
    let mut reg = joined_registry();
    commands::play(&mut reg, GUILD, "https://a", 7).unwrap();
    assert_eq!(reg.session_count(), 1);
    let rep = commands::leave(&mut reg, GUILD).unwrap();
    assert_eq!(rep.message, "Left voice");
    assert!(rep.transport.stop_current);
    // the registry entry is gone: a fresh join is not AlreadyConnected
    assert_eq!(reg.session_count(), 0);
    let rep = commands::join(&mut reg, GUILD, Some(VOICE), TEXT).unwrap();
    assert_eq!(rep.message, "Joined <#42>");
    // and the new session starts empty
    let rep = commands::queue(&reg, GUILD);
    assert_eq!(rep.message, "Queue is empty");
}

#[test]
fn leave_without_session_is_a_precondition_failure() {
    let mut reg = SessionRegistry::new();
    assert_eq!(commands::leave(&mut reg, GUILD).unwrap_err(), CommandError::PreconditionFailed);
}

#[test]
fn play_replies_with_start_and_then_positions() {
    let mut reg = joined_registry();
    let rep = commands::play(&mut reg, GUILD, "https://a", 7).unwrap();
    assert_eq!(rep.message, "Started playing the song");
    assert_eq!(
        rep.transport.start.map(|t| t.url),
        Some(String::from("https://a"))
    );
    let rep = commands::play(&mut reg, GUILD, "https://b", 7).unwrap();
    assert_eq!(rep.message, "Added song to queue: position 1");
    assert!(rep.transport.start.is_none());
    let rep = commands::play(&mut reg, GUILD, "https://c", 7).unwrap();
    assert_eq!(rep.message, "Added song to queue: position 2");
}

#[test]
fn play_requires_a_session_and_a_url() {
    let mut reg = SessionRegistry::new();
    assert_eq!(
        commands::play(&mut reg, GUILD, "https://a", 7).unwrap_err(),
        CommandError::PreconditionFailed
    );
    let mut reg = joined_registry();
    assert_eq!(
        commands::play(&mut reg, GUILD, "not a url", 7).unwrap_err(),
        CommandError::InvalidArgument
    );
    let rep = commands::queue(&reg, GUILD);
    assert_eq!(rep.message, "Queue is empty");
}

#[test]
fn play_accepts_bracketed_urls() {
    let mut reg = joined_registry();
    commands::play(&mut reg, GUILD, "<https://example.com/a>", 7).unwrap();
    let rep = commands::now_playing(&reg, GUILD);
    assert_eq!(rep.message, "Now playing: `https://example.com/a`");
}

#[test]
fn play_next_goes_behind_the_active_track() {
    let mut reg = joined_registry();
    commands::play(&mut reg, GUILD, "https://a", 7).unwrap();
    commands::play(&mut reg, GUILD, "https://b", 7).unwrap();
    let rep = commands::play_next(&mut reg, GUILD, "https://n", 7).unwrap();
    assert_eq!(rep.message, "Added song to front of queue");
    let rep = commands::queue(&reg, GUILD);
    assert_eq!(rep.message, "1. https://a\n2. https://n\n3. https://b\n");
}

#[test]
fn swap_reply_names_both_tracks() {
    let mut reg = joined_registry();
    commands::play(&mut reg, GUILD, "https://songa", 7).unwrap();
    commands::play(&mut reg, GUILD, "https://songb", 7).unwrap();
    commands::play(&mut reg, GUILD, "https://songc", 7).unwrap();
    let rep = commands::swap(&mut reg, GUILD, "1", "3").unwrap();
    assert_eq!(rep.message, "Swapped `https://songa` and `https://songc`");
    // pure reorder: nothing is stopped or restarted
    assert!(!rep.transport.stop_current);
    assert!(rep.transport.start.is_none());
    let rep = commands::queue(&reg, GUILD);
    assert_eq!(rep.message, "1. https://songc\n2. https://songb\n3. https://songa\n");
    let rep = commands::now_playing(&reg, GUILD);
    assert_eq!(rep.message, "Now playing: `https://songc`");
}

#[test]
fn swap_argument_errors() {
    let mut reg = joined_registry();
    commands::play(&mut reg, GUILD, "https://a", 7).unwrap();
    commands::play(&mut reg, GUILD, "https://b", 7).unwrap();
    assert_eq!(
        commands::swap(&mut reg, GUILD, "x", "2").unwrap_err(),
        CommandError::InvalidArgument
    );
    assert_eq!(
        commands::swap(&mut reg, GUILD, "2", "0").unwrap_err(),
        CommandError::InvalidArgument
    );
    assert_eq!(
        commands::swap(&mut reg, GUILD, "2", "2").unwrap_err(),
        CommandError::InvalidArgument
    );
    assert_eq!(
        commands::swap(&mut reg, GUILD, "1", "3").unwrap_err(),
        CommandError::PositionOutOfRange
    );
    let rep = commands::queue(&reg, GUILD);
    assert_eq!(rep.message, "1. https://a\n2. https://b\n");
}

#[test]
fn shuffle_confirms_and_keeps_position_one() {
    let mut reg = joined_registry();
    commands::play(&mut reg, GUILD, "https://a", 7).unwrap();
    commands::play(&mut reg, GUILD, "https://b", 7).unwrap();
    commands::play(&mut reg, GUILD, "https://c", 7).unwrap();
    commands::play(&mut reg, GUILD, "https://d", 7).unwrap();
    let rep = commands::shuffle(&mut reg, GUILD, &vec![5, 2]).unwrap();
    assert_eq!(rep.message, "Queue Shuffled :game_die:!");
    let rep = commands::now_playing(&reg, GUILD);
    assert_eq!(rep.message, "Now playing: `https://a`");
}

#[test]
fn skip_reports_the_remaining_length() {
    let mut reg = joined_registry();
    commands::play(&mut reg, GUILD, "https://a", 7).unwrap();
    commands::play(&mut reg, GUILD, "https://b", 7).unwrap();
    let rep = commands::skip(&mut reg, GUILD).unwrap();
    assert_eq!(rep.message, "Song skipped: 1 in queue.");
    assert!(rep.transport.stop_current);
    assert_eq!(rep.transport.start.map(|t| t.url), Some(String::from("https://b")));
    let rep = commands::skip(&mut reg, GUILD).unwrap();
    assert_eq!(rep.message, "Song skipped: 0 in queue.");
    assert_eq!(
        commands::skip(&mut reg, GUILD).unwrap_err(),
        CommandError::InvalidState
    );
}

#[test]
fn pause_resume_and_stop_replies() {
    let mut reg = joined_registry();
    assert_eq!(
        commands::pause(&mut reg, GUILD).unwrap_err(),
        CommandError::InvalidState
    );
    commands::play(&mut reg, GUILD, "https://a", 7).unwrap();
    assert_eq!(commands::pause(&mut reg, GUILD).unwrap().message, "Track paused");
    assert_eq!(commands::resume(&mut reg, GUILD).unwrap().message, "Track resumed");
    let rep = commands::stop(&mut reg, GUILD).unwrap();
    assert_eq!(rep.message, "Queue cleared.");
    assert!(rep.transport.stop_current);
    let rep = commands::queue(&reg, GUILD);
    assert_eq!(rep.message, "Queue is empty");
}

#[test]
fn remove_at_defaults_to_the_first_position() {
    let mut reg = joined_registry();
    commands::play(&mut reg, GUILD, "https://a", 7).unwrap();
    commands::play(&mut reg, GUILD, "https://b", 7).unwrap();
    let rep = commands::remove_at(&mut reg, GUILD, None).unwrap();
    assert_eq!(rep.message, "Removed: `https://a`");
    assert!(rep.transport.stop_current);
    let rep = commands::remove_at(&mut reg, GUILD, Some("2")).unwrap_err();
    assert_eq!(rep, CommandError::PositionOutOfRange);
    let rep = commands::remove_at(&mut reg, GUILD, Some("zero")).unwrap_err();
    assert_eq!(rep, CommandError::InvalidArgument);
    let rep = commands::remove_at(&mut reg, GUILD, Some("1")).unwrap().message;
    assert_eq!(rep, "Removed: `https://b`");
}

#[test]
fn play_start_failure_is_surfaced_and_rolled_back() {
    let mut reg = joined_registry();
    let rep = commands::play(&mut reg, GUILD, "https://a", 7).unwrap();
    assert!(rep.transport.start.is_some());
    // the transport could not resolve the track: roll back
    let err = commands::play_start_failed(&mut reg, GUILD);
    assert_eq!(err, CommandError::NoAudioSource);
    let rep = commands::now_playing(&reg, GUILD);
    assert_eq!(rep.message, "Nothing is playing");
    // the track stays queued for a retry
    let rep = commands::queue(&reg, GUILD);
    assert_eq!(rep.message, "1. https://a\n");
}

#[test]
fn commands_on_one_guild_leave_other_guilds_alone() {
    let mut reg = joined_registry();
    commands::join(&mut reg, GUILD + 1, Some(VOICE + 1), TEXT).unwrap();
    commands::play(&mut reg, GUILD, "https://a", 7).unwrap();
    commands::play(&mut reg, GUILD + 1, "https://z", 8).unwrap();
    commands::stop(&mut reg, GUILD).unwrap();
    let rep = commands::queue(&reg, GUILD + 1);
    assert_eq!(rep.message, "1. https://z\n");
    commands::leave(&mut reg, GUILD).unwrap();
    let rep = commands::now_playing(&reg, GUILD + 1);
    assert_eq!(rep.message, "Now playing: `https://z`");
}

#[test]
fn read_only_commands_need_no_session() {
    let reg = SessionRegistry::new();
    assert_eq!(commands::now_playing(&reg, GUILD).message, "Nothing is playing");
    assert_eq!(commands::queue(&reg, GUILD).message, "Queue is empty");
}

#[test]
fn error_descriptions_are_fixed() {
    assert_eq!(CommandError::InvalidArgument.description(), "Invalid arguments");
    assert_eq!(CommandError::PositionOutOfRange.description(), "Position out of range");
    assert_eq!(CommandError::InvalidState.description(), "Invalid player state");
    assert_eq!(CommandError::AlreadyConnected.description(), "Already in that voice channel!");
    assert_eq!(CommandError::PreconditionFailed.description(), "Not in a voice");
    assert_eq!(CommandError::NoAudioSource.description(), "Unable to find audio source");
}

#[test]
fn decimal_rendering_is_exact() {
    assert_eq!(u64_to_string(0), "0");
    assert_eq!(u64_to_string(9), "9");
    assert_eq!(u64_to_string(10), "10");
    assert_eq!(u64_to_string(42), "42");
    assert_eq!(u64_to_string(1234567890), "1234567890");
    assert_eq!(u64_to_string(u64::MAX), "18446744073709551615");
}

#[test]
fn position_parsing_is_strict() {
    assert_eq!(parse_position("1"), Some(1));
    assert_eq!(parse_position("37"), Some(37));
    assert_eq!(parse_position("0"), None);
    assert_eq!(parse_position(""), None);
    assert_eq!(parse_position("12a"), None);
    assert_eq!(parse_position("-3"), None);
    assert_eq!(parse_position(" 2"), None);
    assert_eq!(parse_position("18446744073709551615"), Some(usize::MAX));
    assert_eq!(parse_position("99999999999999999999999"), None);
}

#[test]
fn url_validation_strips_one_bracket_pair() {
    assert_eq!(
        validate_url("https://www.youtube.com/watch?v=dQw4w9WgXcQ"),
        Some(String::from("https://www.youtube.com/watch?v=dQw4w9WgXcQ"))
    );
    assert_eq!(
        validate_url("<https://example.com/a>"),
        Some(String::from("https://example.com/a"))
    );
    assert_eq!(validate_url("not a url"), None);
    assert_eq!(validate_url("example.com/no-scheme"), None);
    assert_eq!(validate_url("<>"), None);
}
