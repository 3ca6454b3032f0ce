use tapciify::player::{braille_frame, AsciiPlayer, PlaybackState, PlaybackStep};
use tapciify::raster::{DynamicImage, FilterType, GrayImage};

#[test]
fn reverse_ascii_string_reverses() {
    assert_eq!(AsciiPlayer::reverse_ascii_string(" .:-=+*#%@".to_owned()), "@%#*+=-:. ");
    assert_eq!(AsciiPlayer::reverse_ascii_string(String::new()), "");
    assert_eq!(AsciiPlayer::reverse_ascii_string("█ab".to_owned()), "ba█");
}

#[test]
fn reverse_twice_gives_the_string_back() {
    let s = "@%#*+=-:. ".to_owned();
    let twice = AsciiPlayer::reverse_ascii_string(AsciiPlayer::reverse_ascii_string(s.clone()));
    assert_eq!(twice, s);
}

fn run(frames: usize, looped: bool, steps: usize) -> Vec<PlaybackStep> {
    let mut state = PlaybackState::new();
    (0..steps).map(|_| state.next_step(frames, looped)).collect()
}

#[test]
fn playback_shows_frames_in_order_then_stops() {
    assert_eq!(
        run(3, false, 5),
        vec![
            PlaybackStep::Show { frame: 0, move_up: false },
            PlaybackStep::Show { frame: 1, move_up: true },
            PlaybackStep::Show { frame: 2, move_up: true },
            PlaybackStep::Stop,
            PlaybackStep::Stop,
        ]
    );
}

#[test]
fn looped_playback_starts_again() {
    assert_eq!(
        run(2, true, 6),
        vec![
            PlaybackStep::Show { frame: 0, move_up: false },
            PlaybackStep::Show { frame: 1, move_up: true },
            PlaybackStep::Rewind,
            PlaybackStep::Show { frame: 0, move_up: true },
            PlaybackStep::Show { frame: 1, move_up: true },
            PlaybackStep::Rewind,
        ]
    );
}

#[test]
fn playback_of_nothing() {
    assert_eq!(run(0, false, 2), vec![PlaybackStep::Stop, PlaybackStep::Stop]);
    assert_eq!(run(0, true, 2), vec![PlaybackStep::Rewind, PlaybackStep::Rewind]);
}

fn gradient() -> Vec<u8> {
    let mut px = Vec::new();
    for y in 0..8u32 {
        for x in 0..8u32 {
            px.push(((x * 30 + y * 7) % 256) as u8);
        }
    }
    px
}

#[test]
fn braille_frame_at_its_own_size() {
    let img = DynamicImage::ImageLuma8(GrayImage::from_raw(8, 8, gradient()).unwrap());
    let art = braille_frame(&img, Some(4), Some(2), Some(1), FilterType::Triangle)
        .unwrap()
        .unwrap();
    let codes: Vec<u32> = art.characters.iter().map(|p| p.character as u32).collect();
    assert_eq!(codes, vec![0x28b0, 0x28f6, 0x28f6, 0x28fe, 0x28b8, 0x28ff, 0x28ff, 0x287f]);
}

#[test]
fn braille_frame_is_resized_to_the_requested_width() {
    let img = DynamicImage::ImageLuma8(GrayImage::from_raw(16, 16, vec![100; 256]).unwrap());
    let art = braille_frame(&img, Some(4), None, None, FilterType::Nearest).unwrap().unwrap();
    assert_eq!(art.width, 4);
    assert_eq!(art.height, 2);
}

#[test]
fn braille_frame_too_small_after_resizing() {
    let img = DynamicImage::ImageLuma8(GrayImage::from_raw(16, 16, vec![100; 256]).unwrap());
    let res = braille_frame(&img, Some(2), None, None, FilterType::Nearest).unwrap();
    assert!(res.is_err());
}

#[test]
fn braille_frame_of_a_large_dark_frame() {
    let img = DynamicImage::ImageLuma8(GrayImage::from_raw(3000, 3000, vec![7; 9_000_000]).unwrap());
    let art = braille_frame(&img, Some(1500), Some(750), Some(3), FilterType::Nearest)
        .unwrap()
        .unwrap();
    assert_eq!((art.width, art.height), (1500, 750));
    assert!(art.characters.iter().all(|p| p.character == '\u{28FF}'));
}

#[test]
fn braille_frame_whose_thresholding_overflows() {
    let img = DynamicImage::ImageLuma8(GrayImage::from_raw(3000, 3000, vec![255; 9_000_000]).unwrap());
    assert!(braille_frame(&img, Some(1500), Some(750), Some(3), FilterType::Nearest).is_none());
}

#[test]
fn braille_frame_with_a_zero_radius() {
    let img = DynamicImage::ImageLuma8(GrayImage::from_raw(8, 8, vec![1; 64]).unwrap());
    assert!(braille_frame(&img, Some(4), Some(2), Some(0), FilterType::Nearest).is_none());
    // a frame under 8 by 8 is refused before the radius is looked at
    let small = DynamicImage::ImageLuma8(GrayImage::from_raw(4, 4, vec![1; 16]).unwrap());
    assert!(braille_frame(&small, Some(2), Some(1), Some(0), FilterType::Nearest).unwrap().is_err());
}

#[test]
fn braille_frame_fits_the_requested_size() {
    let img = DynamicImage::ImageLuma8(GrayImage::from_raw(20, 16, vec![100; 320]).unwrap());
    let art = braille_frame(&img, Some(5), Some(3), None, FilterType::Triangle).unwrap().unwrap();
    assert!(art.width <= 5);
    assert!(art.height <= 3);
    assert_eq!((art.width, art.height), (5, 2));
}
