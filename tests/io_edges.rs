use square_frame::confirm::{classify_answer, next_state, read_answer, Answer, ConfirmEvent, ConfirmState};
use square_frame::output::{
    backup_file_name, confirm_outcome, exit_status, get_timestamp_suffix, save_step, Failure,
    PathKind, SaveStep,
};
use square_frame::raster::Image;

#[test]
fn rgba_buffer_drops_alpha() {
    let bytes = vec![1, 2, 3, 4, 5, 6, 7, 8];
    let img = Image::from_interleaved(2, 1, &bytes, 4).unwrap();
    assert_eq!((img.width, img.height), (2, 1));
    assert_eq!(img.pixels, vec![[1, 2, 3], [5, 6, 7]]);
}

#[test]
fn rgb_buffer_reads_pixels() {
    let bytes = vec![1, 2, 3, 4, 5, 6];
    let img = Image::from_interleaved(1, 2, &bytes, 3).unwrap();
    assert_eq!(img.pixels, vec![[1, 2, 3], [4, 5, 6]]);
}

#[test]
fn buffer_too_short_is_refused() {
    let bytes = vec![0u8; 15];
    assert!(Image::from_interleaved(2, 2, &bytes, 4).is_none());
    assert!(Image::from_interleaved(2, 2, &bytes, 3).is_some());
}

#[test]
fn buffer_zero_area_is_refused() {
    let bytes = vec![0u8; 12];
    assert!(Image::from_interleaved(0, 3, &bytes, 4).is_none());
    assert!(Image::from_interleaved(3, 0, &bytes, 4).is_none());
    assert!(Image::from_interleaved(usize::MAX, 1, &bytes, 4).is_none());
}

#[test]
fn rgba_bytes_are_opaque() {
    let img = Image { width: 2, height: 1, pixels: vec![[1, 2, 3], [4, 5, 6]] };
    assert_eq!(img.to_rgba_bytes(), vec![1, 2, 3, 255, 4, 5, 6, 255]);
}

#[test]
fn answers_are_normalised() {
    assert_eq!(read_answer("y\n"), Answer::Yes);
    assert_eq!(read_answer("  YES \n"), Answer::Yes);
    assert_eq!(read_answer("N"), Answer::No);
    assert_eq!(read_answer("no\r\n"), Answer::No);
    assert_eq!(read_answer("yep"), Answer::Unrecognized);
    assert_eq!(read_answer(""), Answer::Unrecognized);
}

#[test]
fn classify_is_exact() {
    assert_eq!(classify_answer("yes"), Answer::Yes);
    assert_eq!(classify_answer("Yes"), Answer::Unrecognized);
    assert_eq!(classify_answer(" n"), Answer::Unrecognized);
    assert_eq!(classify_answer("n"), Answer::No);
}

#[test]
fn dialogue_reprompts_until_recognised() {
    let mut s = ConfirmState::Prompting;
    s = next_state(s, &ConfirmEvent::Line(String::from("what")));
    assert_eq!(s, ConfirmState::Prompting);
    s = next_state(s, &ConfirmEvent::Line(String::from("Y")));
    assert_eq!(s, ConfirmState::Confirmed);
    s = next_state(s, &ConfirmEvent::Line(String::from("n")));
    assert_eq!(s, ConfirmState::Confirmed);
}

#[test]
fn dialogue_read_failure() {
    let s = next_state(ConfirmState::Prompting, &ConfirmEvent::ReadFailed);
    assert_eq!(s, ConfirmState::IoFailure);
    assert_eq!(exit_status(Failure::PromptIo), 1);
}

#[test]
fn declined_overwrite_exits_cleanly() {
    assert_eq!(save_step(PathKind::File), SaveStep::ConfirmOverwrite);
    let s = next_state(ConfirmState::Prompting, &ConfirmEvent::Line(String::from("n\n")));
    assert_eq!(s, ConfirmState::Declined);
    assert_eq!(exit_status(Failure::UserDeclinedOverwrite), 0);
}

#[test]
fn confirmed_overwrite_backs_up() {
    assert_eq!(save_step(PathKind::File), SaveStep::ConfirmOverwrite);
    let s = next_state(ConfirmState::Prompting, &ConfirmEvent::Line(String::from("yes\n")));
    assert_eq!(s, ConfirmState::Confirmed);
    assert_eq!(backup_file_name(Some(1700000000123)), "BACKUP-1700000000123");
}

#[test]
fn path_kinds() {
    assert_eq!(save_step(PathKind::Directory), SaveStep::Refuse);
    assert_eq!(save_step(PathKind::Symlink), SaveStep::Refuse);
    assert_eq!(save_step(PathKind::Missing), SaveStep::Write);
}

#[test]
fn exit_statuses() {
    for f in [
        Failure::ImageAccess,
        Failure::ImageDecode,
        Failure::ImageEncode,
        Failure::OutputPathInvalid,
        Failure::PromptIo,
    ] {
        assert_eq!(exit_status(f), 1);
    }
}

#[test]
fn timestamp_suffix() {
    assert_eq!(get_timestamp_suffix(Some(1234)), "-1234");
    assert_eq!(get_timestamp_suffix(Some(0)), "-0");
    assert_eq!(get_timestamp_suffix(Some(10)), "-10");
    assert_eq!(get_timestamp_suffix(None), "");
    assert_eq!(get_timestamp_suffix(Some(u128::MAX)), format!("-{}", u128::MAX));
}

#[test]
fn backup_name_without_clock() {
    assert_eq!(backup_file_name(None), "BACKUP");
}

#[test]
fn unicode_white_space_is_trimmed() {
    assert_eq!(read_answer("\u{3000}yes\u{a0}"), Answer::Yes);
    assert_eq!(read_answer("\u{2009}n\u{85}"), Answer::No);
    assert_eq!(read_answer("\u{200b}y"), Answer::Unrecognized);
}

#[test]
fn confirm_outcomes() {
    assert_eq!(confirm_outcome(ConfirmState::Confirmed), Ok(()));
    assert_eq!(confirm_outcome(ConfirmState::Declined), Err(Failure::UserDeclinedOverwrite));
    assert_eq!(confirm_outcome(ConfirmState::IoFailure), Err(Failure::PromptIo));
}

#[test]
fn only_outer_white_space_is_trimmed() {
    assert_eq!(read_answer("\t\n y e s \r"), Answer::Unrecognized);
    assert_eq!(read_answer(" \u{2028}\u{202f}No\u{205f}\u{1680} "), Answer::No);
    assert_eq!(read_answer("   "), Answer::Unrecognized);
}
