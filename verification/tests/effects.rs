use protracker::effect::{get_effect, EffectType};

#[test]
fn code_zero_without_arguments_is_no_effect() {
    assert_eq!(get_effect(0, 0, 0), EffectType::NoEffect);
}

#[test]
fn code_zero_with_an_argument_is_arpeggio() {
    assert_eq!(get_effect(0, 3, 0), EffectType::Arpeggio);
    assert_eq!(get_effect(0, 0, 1), EffectType::Arpeggio);
    assert_eq!(get_effect(0, 15, 15), EffectType::Arpeggio);
}

#[test]
fn codes_one_to_six_map_one_to_one() {
    assert_eq!(get_effect(1, 0, 0), EffectType::PitchSlideUp);
    assert_eq!(get_effect(2, 0, 0), EffectType::PitchSlideDown);
    assert_eq!(get_effect(3, 0, 0), EffectType::SlideToNote);
    assert_eq!(get_effect(4, 0, 0), EffectType::Vibrato);
    assert_eq!(get_effect(5, 0, 0), EffectType::SlideToNoteWithVolumeSlide);
    assert_eq!(get_effect(6, 0, 0), EffectType::VibratoWithVolumeSlide);
}

#[test]
fn codes_seven_and_eight_are_unknown_for_all_arguments() {
    for x in 0..16u8 {
        for y in 0..16u8 {
            assert_eq!(get_effect(7, x, y), EffectType::UnknownEffect);
            assert_eq!(get_effect(8, x, y), EffectType::UnknownEffect);
        }
    }
}

#[test]
fn codes_nine_to_thirteen() {
    assert_eq!(get_effect(9, 1, 2), EffectType::InstrumentOffset);
    assert_eq!(get_effect(10, 1, 2), EffectType::VolumeSlide);
    assert_eq!(get_effect(11, 1, 2), EffectType::PositionJump);
    assert_eq!(get_effect(12, 1, 2), EffectType::SetVolume);
    assert_eq!(get_effect(13, 1, 2), EffectType::PatternBreak);
}

#[test]
fn code_fourteen_dispatches_on_x() {
    assert_eq!(get_effect(14, 5, 0), EffectType::SetFineTune);
    assert_eq!(get_effect(14, 10, 0), EffectType::FineVolumeSlideUp);
    assert_eq!(get_effect(14, 11, 0), EffectType::FineVolumeSlideDown);
    assert_eq!(get_effect(14, 9, 0), EffectType::UnknownEffect);
}

#[test]
fn code_fourteen_ignores_y() {
    for y in 0..16u8 {
        assert_eq!(get_effect(14, 5, y), EffectType::SetFineTune);
        assert_eq!(get_effect(14, 10, y), EffectType::FineVolumeSlideUp);
        assert_eq!(get_effect(14, 11, y), EffectType::FineVolumeSlideDown);
        assert_eq!(get_effect(14, 0, y), EffectType::UnknownEffect);
    }
}

#[test]
fn code_fifteen_is_change_speed_for_all_arguments() {
    for x in 0..16u8 {
        for y in 0..16u8 {
            assert_eq!(get_effect(15, x, y), EffectType::ChangeSpeed);
        }
    }
}

#[test]
fn codes_above_fifteen_are_unknown() {
    assert_eq!(get_effect(16, 0, 0), EffectType::UnknownEffect);
    assert_eq!(get_effect(255, 5, 5), EffectType::UnknownEffect);
}
