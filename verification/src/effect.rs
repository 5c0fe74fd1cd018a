//! Classification of the per-row playback effects.

use vstd::prelude::*;

verus! {

/// The semantic category of a row's effect command.
#[derive(Clone, Copy, Debug, PartialEq, Eq, Structural)]
pub enum EffectType {
    NoEffect,
    Arpeggio,
    PitchSlideUp,
    PitchSlideDown,
    SlideToNote,
    Vibrato,
    SlideToNoteWithVolumeSlide,
    VibratoWithVolumeSlide,
    VolumeSlide,
    InstrumentOffset,
    SetVolume,
    PatternBreak,
    FineVolumeSlideUp,
    FineVolumeSlideDown,
    ChangeSpeed,
    SetFineTune,
    PositionJump,
    UnknownEffect,
}

/// The category selected by an effect code and its two argument nibbles.
pub open spec fn effect_of(effect: u8, x_value: u8, y_value: u8) -> EffectType {
    match effect {
        0 => if x_value == 0 && y_value == 0 {
            EffectType::NoEffect
        } else {
            EffectType::Arpeggio
        },
        1 => EffectType::PitchSlideUp,
        2 => EffectType::PitchSlideDown,
        3 => EffectType::SlideToNote,
        4 => EffectType::Vibrato,
        5 => EffectType::SlideToNoteWithVolumeSlide,
        6 => EffectType::VibratoWithVolumeSlide,
        9 => EffectType::InstrumentOffset,
        10 => EffectType::VolumeSlide,
        11 => EffectType::PositionJump,
        12 => EffectType::SetVolume,
        13 => EffectType::PatternBreak,
        14 => match x_value {
            5 => EffectType::SetFineTune,
            10 => EffectType::FineVolumeSlideUp,
            11 => EffectType::FineVolumeSlideDown,
            _ => EffectType::UnknownEffect,
        },
        15 => EffectType::ChangeSpeed,
        _ => EffectType::UnknownEffect,
    }
}

/// Classifies an effect command.
pub fn get_effect(effect: u8, x_value: u8, y_value: u8) -> (kind: EffectType)
    ensures
        kind == effect_of(effect, x_value, y_value),
{
    match effect {
        0 => {
            if x_value == 0 && y_value == 0 {
                EffectType::NoEffect
            } else {
                EffectType::Arpeggio
            }
        },
        1 => EffectType::PitchSlideUp,
        2 => EffectType::PitchSlideDown,
        3 => EffectType::SlideToNote,
        4 => EffectType::Vibrato,
        5 => EffectType::SlideToNoteWithVolumeSlide,
        6 => EffectType::VibratoWithVolumeSlide,
        9 => EffectType::InstrumentOffset,
        10 => EffectType::VolumeSlide,
        11 => EffectType::PositionJump,
        12 => EffectType::SetVolume,
        13 => EffectType::PatternBreak,
        14 => {
            match x_value {
                5 => EffectType::SetFineTune,
                10 => EffectType::FineVolumeSlideUp,
                11 => EffectType::FineVolumeSlideDown,
                _ => EffectType::UnknownEffect,
            }
        },
        15 => EffectType::ChangeSpeed,
        _ => EffectType::UnknownEffect,
    }
}

/// The parts of the table that hold whatever the arguments are: codes 7 and 8 are
/// unknown, code 15 changes the speed, code 14 does not look at its second argument, and
/// code 0 is no effect exactly when both arguments are zero.
pub proof fn lemma_effect_table(x_value: u8, y_value: u8)
    ensures
        effect_of(7, x_value, y_value) == EffectType::UnknownEffect,
        effect_of(8, x_value, y_value) == EffectType::UnknownEffect,
        effect_of(15, x_value, y_value) == EffectType::ChangeSpeed,
        effect_of(14, x_value, y_value) == effect_of(14, x_value, 0),
        effect_of(0, x_value, y_value) == EffectType::NoEffect <==> x_value == 0 && y_value == 0,
        effect_of(0, x_value, y_value) == EffectType::Arpeggio <==> x_value != 0 || y_value != 0,
{
}

} // verus!
